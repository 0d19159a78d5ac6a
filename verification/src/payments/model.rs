//! The mathematical model of the payments ledger: its state, the derived
//! quantities the contract reads from it, and the accounting invariant.

use vstd::prelude::*;

use crate::errors::PaymentError;
use crate::table::PairKey;
use crate::types::{
    AccountId, EscrowMetadata, EventConfig, EventId, EventPrivacyConfig, EventStatus,
    PaymentNotice, PaymentPrivacy, PaymentRecord, PaymentStatus, PrivacyLevel, Ticket, Transfer,
    WithdrawalRecord,
};

verus! {

/// The whole state of the payments contract, as the contracts speak of it.
pub struct PaymentsView {
    pub contract_address: AccountId,
    pub admin: Option<AccountId>,
    pub accepted_token: Option<AccountId>,
    pub platform_fee_bps: u32,
    pub platform_wallet: Option<AccountId>,
    pub event_contract: Option<AccountId>,
    pub paused: bool,
    pub version: Option<u32>,
    /// Payment `i` has identifier `i + 1`.
    pub payments: Seq<PaymentRecord>,
    /// Ticket `i` has identifier `i + 1`.
    pub tickets: Seq<Ticket>,
    /// The (payer, nonce) pairs already used.
    pub nonces: Map<PairKey, bool>,
    pub event_privacy: Map<EventId, EventPrivacyConfig>,
    pub event_config: Map<EventId, EventConfig>,
    pub event_status: Map<EventId, EventStatus>,
    pub event_revenue: Map<EventId, i128>,
    /// Revenue per (event, token).
    pub token_revenue: Map<PairKey, i128>,
    pub platform_revenue: Map<EventId, i128>,
    pub emission_privacy: Map<EventId, PrivacyLevel>,
    pub escrow: Map<EventId, EscrowMetadata>,
    pub withdrawals: Seq<(EventId, WithdrawalRecord)>,
    /// Token transfers the contract has made, oldest first.
    pub transfers: Seq<Transfer>,
    /// Notifications the contract has published, oldest first.
    pub notices: Seq<PaymentNotice>,
}

pub open spec fn pair(first: u64, second: u64) -> PairKey {
    PairKey { first, second }
}

/// A stored amount, 0 where nothing is stored.
pub open spec fn amount_of<K>(m: Map<K, i128>, k: K) -> i128 {
    if m.dom().contains(k) {
        m[k]
    } else {
        0
    }
}

/// Who may pay for an event: anyone, without verification, unless
/// configured otherwise.
pub open spec fn privacy_of(v: PaymentsView, e: EventId) -> EventPrivacyConfig {
    if v.event_privacy.dom().contains(e) {
        v.event_privacy[e]
    } else {
        EventPrivacyConfig { allow_anonymous: true, requires_verification: false }
    }
}

/// The privacy level of an event's notifications; `Standard` by default.
pub open spec fn emission_level(v: PaymentsView, e: EventId) -> PrivacyLevel {
    if v.emission_privacy.dom().contains(e) {
        v.emission_privacy[e]
    } else {
        PrivacyLevel::Standard
    }
}

/// The payment with identifier `id`, if there is one.
pub open spec fn payment_with_id(v: PaymentsView, id: u64) -> Option<PaymentRecord> {
    if 1 <= id <= v.payments.len() {
        Some(v.payments[id - 1])
    } else {
        None
    }
}

/// The ticket with identifier `id`, if there is one.
pub open spec fn ticket_with_id(v: PaymentsView, id: u64) -> Option<Ticket> {
    if 1 <= id <= v.tickets.len() {
        Some(v.tickets[id - 1])
    } else {
        None
    }
}

/// What remains of a payment after partial refunds.
pub open spec fn remaining(p: PaymentRecord) -> int {
    p.amount - p.refunded_amount
}

pub open spec fn is_held_for(p: PaymentRecord, e: EventId, t: AccountId) -> bool {
    p.status == PaymentStatus::Held && p.event_id == e && p.token == t
}

pub open spec fn is_held_in(p: PaymentRecord, e: EventId) -> bool {
    p.status == PaymentStatus::Held && p.event_id == e
}

/// What escrow holds for event `e` in token `t`.
pub open spec fn held_sum(ps: Seq<PaymentRecord>, e: EventId, t: AccountId) -> int
    decreases ps.len(),
{
    if ps.len() == 0 {
        0
    } else {
        held_sum(ps.drop_last(), e, t) + if is_held_for(ps.last(), e, t) {
            remaining(ps.last())
        } else {
            0
        }
    }
}

/// What escrow holds for event `e` in all tokens.
pub open spec fn held_event_sum(ps: Seq<PaymentRecord>, e: EventId) -> int
    decreases ps.len(),
{
    if ps.len() == 0 {
        0
    } else {
        held_event_sum(ps.drop_last(), e) + if is_held_in(ps.last(), e) {
            remaining(ps.last())
        } else {
            0
        }
    }
}

/// A payment once its funds have gone to the organizer.
pub open spec fn released(p: PaymentRecord) -> PaymentRecord {
    PaymentRecord { status: PaymentStatus::Released, ..p }
}

/// The payments after every held payment of event `e` in token `t` is paid out.
pub open spec fn release_token(ps: Seq<PaymentRecord>, e: EventId, t: AccountId) -> Seq<
    PaymentRecord,
> {
    ps.map_values(|p: PaymentRecord| if is_held_for(p, e, t) { released(p) } else { p })
}

/// The payments after every held payment of event `e` is paid out.
pub open spec fn release_event(ps: Seq<PaymentRecord>, e: EventId) -> Seq<PaymentRecord> {
    ps.map_values(|p: PaymentRecord| if is_held_in(p, e) { released(p) } else { p })
}

/// The payments of event `e`, oldest first.
pub open spec fn payments_of_event(ps: Seq<PaymentRecord>, e: EventId) -> Seq<PaymentRecord>
    decreases ps.len(),
{
    if ps.len() == 0 {
        Seq::empty()
    } else if ps.last().event_id == e {
        payments_of_event(ps.drop_last(), e).push(ps.last())
    } else {
        payments_of_event(ps.drop_last(), e)
    }
}

/// The payments made by `payer`, oldest first.
pub open spec fn payments_of_payer(ps: Seq<PaymentRecord>, payer: AccountId) -> Seq<
    PaymentRecord,
>
    decreases ps.len(),
{
    if ps.len() == 0 {
        Seq::empty()
    } else if ps.last().payer == payer {
        payments_of_payer(ps.drop_last(), payer).push(ps.last())
    } else {
        payments_of_payer(ps.drop_last(), payer)
    }
}

/// The tokens paid in for event `e`, each once, in the order of first payment.
pub open spec fn tokens_of(ps: Seq<PaymentRecord>, e: EventId) -> Seq<AccountId>
    decreases ps.len(),
{
    if ps.len() == 0 {
        Seq::empty()
    } else {
        let prev = tokens_of(ps.drop_last(), e);
        if ps.last().event_id == e && !prev.contains(ps.last().token) {
            prev.push(ps.last().token)
        } else {
            prev
        }
    }
}

/// The identifiers of the tickets owned by `owner`, oldest first.
pub open spec fn ticket_ids_of_owner(ts: Seq<Ticket>, owner: AccountId) -> Seq<u64>
    decreases ts.len(),
{
    if ts.len() == 0 {
        Seq::empty()
    } else if ts.last().owner == owner {
        ticket_ids_of_owner(ts.drop_last(), owner).push(ts.last().ticket_id)
    } else {
        ticket_ids_of_owner(ts.drop_last(), owner)
    }
}

/// Whether a ticket is one of `owner`'s tickets of event `e`.
pub open spec fn ticket_of(e: EventId, owner: AccountId) -> spec_fn(Ticket) -> bool {
    |t: Ticket| t.event_id == e && t.owner == owner
}

/// How many tickets of event `e` `owner` holds.
pub open spec fn ticket_count(ts: Seq<Ticket>, e: EventId, owner: AccountId) -> nat
    decreases ts.len(),
{
    if ts.len() == 0 {
        0
    } else {
        ticket_count(ts.drop_last(), e, owner) + if ts.last().event_id == e && ts.last().owner
            == owner {
            1nat
        } else {
            0nat
        }
    }
}

/// The withdrawals recorded for event `e`, oldest first.
pub open spec fn withdrawals_of(ws: Seq<(EventId, WithdrawalRecord)>, e: EventId) -> Seq<
    WithdrawalRecord,
>
    decreases ws.len(),
{
    if ws.len() == 0 {
        Seq::empty()
    } else if ws.last().0 == e {
        withdrawals_of(ws.drop_last(), e).push(ws.last().1)
    } else {
        withdrawals_of(ws.drop_last(), e)
    }
}

/// The transfers that pay out, token by token, what escrow holds for `e`.
pub open spec fn payout_transfers(
    ps: Seq<PaymentRecord>,
    tokens: Seq<AccountId>,
    e: EventId,
    from: AccountId,
    to: AccountId,
) -> Seq<Transfer>
    decreases tokens.len(),
{
    if tokens.len() == 0 {
        Seq::empty()
    } else {
        let prev = payout_transfers(ps, tokens.drop_last(), e, from, to);
        let t = tokens.last();
        if held_sum(ps, e, t) > 0 {
            prev.push(Transfer { token: t, from, to, amount: held_sum(ps, e, t) as i128 })
        } else {
            prev
        }
    }
}

/// The sum of the amounts paid out by `payout_transfers`.
pub open spec fn payout_total(ps: Seq<PaymentRecord>, tokens: Seq<AccountId>, e: EventId) -> int
    decreases tokens.len(),
{
    if tokens.len() == 0 {
        0
    } else {
        let t = tokens.last();
        payout_total(ps, tokens.drop_last(), e) + if held_sum(ps, e, t) > 0 {
            held_sum(ps, e, t)
        } else {
            0
        }
    }
}

/// The notifications of a token-by-token payout to `organizer`.
pub open spec fn payout_notices(
    ps: Seq<PaymentRecord>,
    tokens: Seq<AccountId>,
    e: EventId,
    organizer: AccountId,
    privacy: PrivacyLevel,
    now: u64,
) -> Seq<PaymentNotice>
    decreases tokens.len(),
{
    if tokens.len() == 0 {
        Seq::empty()
    } else {
        let prev = payout_notices(ps, tokens.drop_last(), e, organizer, privacy, now);
        let t = tokens.last();
        if held_sum(ps, e, t) > 0 {
            prev.push(
                PaymentNotice::RevenueWithdrawn {
                    event_id: e,
                    organizer,
                    privacy,
                    amount: held_sum(ps, e, t) as i128,
                    token: t,
                    to: organizer,
                    withdrawn_at: now,
                },
            )
        } else {
            prev
        }
    }
}

/// A payment is consistent: a positive amount, refunds within it, and it
/// is `Refunded` exactly when all of it was returned.
pub open spec fn payment_consistent(p: PaymentRecord) -> bool {
    &&& p.amount > 0
    &&& 0 <= p.refunded_amount <= p.amount
    &&& (p.status == PaymentStatus::Refunded <==> p.refunded_amount == p.amount)
}

/// The ledger's invariant: records are numbered in order, every payment is
/// consistent, every revenue counter equals what escrow holds for it, and
/// the platform fee is at most 100%.
pub open spec fn ledger_consistent(v: PaymentsView) -> bool {
    &&& forall|i: int|
        0 <= i < v.payments.len() ==> (#[trigger] v.payments[i]).payment_id == i + 1
            && payment_consistent(v.payments[i])
    &&& forall|i: int| 0 <= i < v.tickets.len() ==> (#[trigger] v.tickets[i]).ticket_id == i + 1
    &&& forall|e: EventId, t: AccountId|
        #![trigger amount_of(v.token_revenue, pair(e, t))]
        #![trigger held_sum(v.payments, e, t)]
        amount_of(v.token_revenue, pair(e, t)) == held_sum(v.payments, e, t)
    &&& forall|e: EventId|
        #![trigger amount_of(v.event_revenue, e)]
        #![trigger held_event_sum(v.payments, e)]
        amount_of(v.event_revenue, e) == held_event_sum(v.payments, e)
    &&& v.platform_fee_bps <= 10_000
}

/// The platform's share of a payout of `total`.
pub open spec fn platform_fee(total: int, bps: u32) -> int {
    total * bps / 10_000
}

/// Why a payment request is refused, checked in this order; `None` when
/// it is accepted.
pub open spec fn pay_error(
    v: PaymentsView,
    nonce: u64,
    payer: AccountId,
    e: EventId,
    amount: i128,
    is_anonymous: bool,
    is_verified: bool,
) -> Option<PaymentError> {
    let privacy = privacy_of(v, e);
    let has_config = v.event_config.dom().contains(e);
    let config = v.event_config[e];
    if v.paused {
        Some(PaymentError::ContractPaused)
    } else if nonce == 0 {
        Some(PaymentError::NonceRequired)
    } else if v.nonces.dom().contains(pair(payer, nonce)) {
        Some(PaymentError::DuplicateRequest)
    } else if amount <= 0 {
        Some(PaymentError::InvalidAmount)
    } else if is_anonymous && !privacy.allow_anonymous {
        Some(PaymentError::AnonymousPaymentsDisabled)
    } else if privacy.requires_verification && !is_verified {
        Some(PaymentError::VerificationRequired)
    } else if has_config && config.max_tickets_per_user > 0 && ticket_count(v.tickets, e, payer)
        >= config.max_tickets_per_user {
        Some(PaymentError::MaxTicketsReached)
    } else if has_config && config.max_supply > 0 && config.sold_count >= config.max_supply {
        Some(PaymentError::EventSoldOut)
    } else if v.event_status.dom().contains(e) && (v.event_status[e] == EventStatus::Completed
        || v.event_status[e] == EventStatus::Cancelled) {
        Some(PaymentError::EventNotActive)
    } else {
        None
    }
}

/// Machine limits of an accepted payment: identifiers and counters stay
/// within their integer types.
pub open spec fn pay_fits(v: PaymentsView, e: EventId, amount: i128, token: AccountId) -> bool {
    &&& v.payments.len() < u64::MAX
    &&& v.tickets.len() < u64::MAX
    &&& amount > 0 ==> amount_of(v.event_revenue, e) + amount <= i128::MAX
    &&& amount > 0 ==> amount_of(v.token_revenue, pair(e, token)) + amount <= i128::MAX
    &&& v.event_config.dom().contains(e) && v.event_config[e].max_supply == 0
        ==> v.event_config[e].sold_count < u32::MAX
}

/// The state after an accepted payment: the funds move into escrow, the
/// payment and its ticket are recorded, the nonce is spent and the
/// revenue counters grow by the amount.
pub open spec fn pay_post(
    v: PaymentsView,
    nonce: u64,
    payer: AccountId,
    e: EventId,
    amount: i128,
    token: AccountId,
    privacy_level: PaymentPrivacy,
    email_hash: Option<[u8; 32]>,
    now: u64,
) -> PaymentsView {
    let payment_id = (v.payments.len() + 1) as u64;
    let ticket_id = (v.tickets.len() + 1) as u64;
    let level = emission_level(v, e);
    let record = PaymentRecord {
        payment_id,
        event_id: e,
        payer,
        amount,
        token,
        status: PaymentStatus::Held,
        paid_at: now,
        privacy_level,
        refunded_amount: 0,
    };
    let received = PaymentNotice::PaymentReceived {
        payment_id,
        event_id: e,
        payer,
        privacy: level,
        amount,
        token,
        paid_at: now,
    };
    let issued = PaymentNotice::TicketIssued {
        ticket_id,
        event_id: e,
        owner: payer,
        privacy: level,
        payment_id,
        issued_at: now,
    };
    let notices = match email_hash {
        Some(h) => v.notices.push(received).push(
            PaymentNotice::PaymentReceiptRequested {
                payment_id,
                event_id: e,
                email_hash: h,
                requested_at: now,
            },
        ).push(issued),
        None => v.notices.push(received).push(issued),
    };
    PaymentsView {
        payments: v.payments.push(record),
        tickets: v.tickets.push(
            Ticket { ticket_id, event_id: e, owner: payer, payment_id },
        ),
        nonces: v.nonces.insert(pair(payer, nonce), true),
        event_revenue: v.event_revenue.insert(e, (amount_of(v.event_revenue, e) + amount) as i128),
        token_revenue: v.token_revenue.insert(
            pair(e, token),
            (amount_of(v.token_revenue, pair(e, token)) + amount) as i128,
        ),
        event_config: if v.event_config.dom().contains(e) {
            v.event_config.insert(
                e,
                EventConfig { sold_count: (v.event_config[e].sold_count + 1) as u32, ..v.event_config[e] },
            )
        } else {
            v.event_config
        },
        transfers: v.transfers.push(
            Transfer { token, from: payer, to: v.contract_address, amount },
        ),
        notices,
        ..v
    }
}

/// Why `caller` may not act as administrator; `None` when it may.
pub open spec fn admin_error(v: PaymentsView, caller: AccountId) -> Option<PaymentError> {
    match v.admin {
        None => Some(PaymentError::NotInitialized),
        Some(a) => if a == caller {
            None
        } else {
            Some(PaymentError::Unauthorized)
        },
    }
}

/// Why `caller` may not act as the event contract; `None` when it may.
pub open spec fn event_contract_error(v: PaymentsView, caller: AccountId) -> Option<PaymentError> {
    match v.event_contract {
        None => Some(PaymentError::NotInitialized),
        Some(a) => if a == caller {
            None
        } else {
            Some(PaymentError::Unauthorized)
        },
    }
}

/// Why an event configuration is refused; `None` when it is accepted.
pub open spec fn sync_config_error(
    v: PaymentsView,
    caller: AccountId,
    e: EventId,
    organizer: AccountId,
    payout_token: AccountId,
) -> Option<PaymentError> {
    if event_contract_error(v, caller) is Some {
        event_contract_error(v, caller)
    } else if v.accepted_token is None {
        Some(PaymentError::NotInitialized)
    } else if payout_token != v.accepted_token->0 {
        Some(PaymentError::InvalidPayoutToken)
    } else if v.event_config.dom().contains(e) && v.event_config[e].organizer != organizer {
        Some(PaymentError::InvalidOrganizer)
    } else if v.event_config.dom().contains(e) && v.event_config[e].payout_token != payout_token {
        Some(PaymentError::InvalidPayoutToken)
    } else {
        None
    }
}

/// Why a change of the platform fee is refused, checked in this order;
/// `None` when it is made.
pub open spec fn set_fee_error(v: PaymentsView, fee_bps: u32) -> Option<PaymentError> {
    if v.paused {
        Some(PaymentError::ContractPaused)
    } else if v.admin is None {
        Some(PaymentError::NotInitialized)
    } else if fee_bps > 10_000 {
        Some(PaymentError::InvalidFeeBps)
    } else {
        None
    }
}

/// How much a refund request returns: the amount asked for, or all that remains.
pub open spec fn refund_amount(p: PaymentRecord, amount: Option<i128>) -> int {
    match amount {
        Some(a) => a as int,
        None => remaining(p),
    }
}

/// Why a refund is refused, checked in this order; `None` when it is made.
pub open spec fn refund_error(
    v: PaymentsView,
    admin: AccountId,
    payment_id: u64,
    amount: Option<i128>,
) -> Option<PaymentError> {
    if v.paused {
        Some(PaymentError::ContractPaused)
    } else if admin_error(v, admin) is Some {
        admin_error(v, admin)
    } else {
        match payment_with_id(v, payment_id) {
            None => Some(PaymentError::PaymentNotFound),
            Some(p) => if p.status == PaymentStatus::Refunded {
                Some(PaymentError::PaymentAlreadyRefunded)
            } else if p.status != PaymentStatus::Held {
                Some(PaymentError::PaymentAlreadyProcessed)
            } else if refund_amount(p, amount) <= 0 || refund_amount(p, amount) > remaining(p) {
                Some(PaymentError::InvalidAmount)
            } else {
                None
            },
        }
    }
}

/// A payment after `amount` more of it is returned; it becomes `Refunded`
/// once nothing remains.
pub open spec fn refunded(p: PaymentRecord, amount: int) -> PaymentRecord {
    PaymentRecord {
        refunded_amount: (p.refunded_amount + amount) as i128,
        status: if p.refunded_amount + amount == p.amount {
            PaymentStatus::Refunded
        } else {
            PaymentStatus::Held
        },
        ..p
    }
}

/// The state after a refund: the amount goes back to the payer and leaves
/// the revenue counters.
pub open spec fn refund_post(
    v: PaymentsView,
    payment_id: u64,
    amount: Option<i128>,
    now: u64,
) -> PaymentsView {
    let p = v.payments[payment_id - 1];
    let amt = refund_amount(p, amount);
    PaymentsView {
        payments: v.payments.update(payment_id - 1, refunded(p, amt)),
        token_revenue: v.token_revenue.insert(
            pair(p.event_id, p.token),
            (amount_of(v.token_revenue, pair(p.event_id, p.token)) - amt) as i128,
        ),
        event_revenue: v.event_revenue.insert(
            p.event_id,
            (amount_of(v.event_revenue, p.event_id) - amt) as i128,
        ),
        transfers: v.transfers.push(
            Transfer { token: p.token, from: v.contract_address, to: p.payer, amount: amt as i128 },
        ),
        notices: v.notices.push(
            PaymentNotice::PaymentRefunded {
                payment_id,
                event_id: p.event_id,
                payer: p.payer,
                privacy: emission_level(v, p.event_id),
                amount: amt as i128,
                token: p.token,
                refunded_at: now,
            },
        ),
        ..v
    }
}

/// A payout of what escrow holds for event `e` in token `t` to `to`, less
/// the platform fee, which the platform revenue of the event keeps.
pub open spec fn fee_payout_post(
    v: PaymentsView,
    e: EventId,
    t: AccountId,
    to: AccountId,
    now: u64,
) -> PaymentsView {
    let total = held_sum(v.payments, e, t);
    let fee = platform_fee(total, v.platform_fee_bps);
    let organizer_amount = total - fee;
    PaymentsView {
        payments: release_token(v.payments, e, t),
        token_revenue: v.token_revenue.insert(pair(e, t), 0),
        event_revenue: v.event_revenue.insert(e, (amount_of(v.event_revenue, e) - total) as i128),
        platform_revenue: if fee > 0 {
            v.platform_revenue.insert(e, (amount_of(v.platform_revenue, e) + fee) as i128)
        } else {
            v.platform_revenue
        },
        transfers: v.transfers.push(
            Transfer { token: t, from: v.contract_address, to, amount: organizer_amount as i128 },
        ),
        notices: if fee > 0 {
            v.notices.push(
                PaymentNotice::PlatformFeeCollected {
                    event_id: e,
                    fee_amount: fee as i128,
                    organizer_amount: organizer_amount as i128,
                    token: t,
                    collected_at: now,
                },
            )
        } else {
            v.notices
        },
        ..v
    }
}

/// Machine limits of a payout with fee: the fee computation and the
/// platform revenue stay within `i128`.
pub open spec fn fee_payout_fits(v: PaymentsView, e: EventId, t: AccountId) -> bool {
    let total = held_sum(v.payments, e, t);
    &&& total * v.platform_fee_bps <= i128::MAX
    &&& amount_of(v.platform_revenue, e) + platform_fee(total, v.platform_fee_bps) <= i128::MAX
}

/// Why an organizer's withdrawal is refused, checked in this order.
pub open spec fn withdraw_error(v: PaymentsView, organizer: AccountId, e: EventId) -> Option<
    PaymentError,
> {
    if !v.event_config.dom().contains(e) {
        Some(PaymentError::InvalidOrganizer)
    } else if organizer != v.event_config[e].organizer {
        Some(PaymentError::UnauthorizedWithdrawal)
    } else if !(v.event_status.dom().contains(e) && v.event_status[e] == EventStatus::Completed) {
        Some(PaymentError::EventNotCompleted)
    } else if amount_of(v.token_revenue, pair(e, v.event_config[e].payout_token)) <= 0 {
        Some(PaymentError::NoRevenue)
    } else {
        None
    }
}

/// The state after an organizer withdraws the payout-token revenue of a
/// completed event.
pub open spec fn withdraw_post(v: PaymentsView, organizer: AccountId, e: EventId, now: u64) -> PaymentsView {
    let t = v.event_config[e].payout_token;
    let total = held_sum(v.payments, e, t);
    let organizer_amount = total - platform_fee(total, v.platform_fee_bps);
    let paid = fee_payout_post(v, e, t, organizer, now);
    PaymentsView {
        notices: paid.notices.push(
            PaymentNotice::RevenueWithdrawn {
                event_id: e,
                organizer,
                privacy: emission_level(v, e),
                amount: organizer_amount as i128,
                token: t,
                to: organizer,
                withdrawn_at: now,
            },
        ),
        ..paid
    }
}

/// Why the administrator's revenue withdrawal is refused, checked in this order.
pub open spec fn withdraw_revenue_error(v: PaymentsView, e: EventId) -> Option<PaymentError> {
    if v.admin is None || v.accepted_token is None {
        Some(PaymentError::NotInitialized)
    } else if amount_of(v.token_revenue, pair(e, v.accepted_token->0)) <= 0 {
        Some(PaymentError::InvalidAmount)
    } else {
        None
    }
}

/// The state after the administrator pays the accepted-token revenue of
/// an event out to `to`; the withdrawal is recorded.
pub open spec fn withdraw_revenue_post(v: PaymentsView, e: EventId, to: AccountId, now: u64) -> PaymentsView {
    let t = v.accepted_token->0;
    let total = held_sum(v.payments, e, t);
    let organizer_amount = total - platform_fee(total, v.platform_fee_bps);
    let paid = fee_payout_post(v, e, t, to, now);
    PaymentsView {
        withdrawals: paid.withdrawals.push(
            (e, WithdrawalRecord { amount: organizer_amount as i128, timestamp: now, organizer: to }),
        ),
        ..paid
    }
}

/// Why a single-token withdrawal is refused, checked in this order.
pub open spec fn withdraw_token_error(v: PaymentsView, e: EventId, t: AccountId) -> Option<
    PaymentError,
> {
    if !(v.event_status.dom().contains(e) && v.event_status[e] == EventStatus::Completed) {
        Some(PaymentError::EventNotCompleted)
    } else if amount_of(v.token_revenue, pair(e, t)) <= 0 {
        Some(PaymentError::NoRevenue)
    } else {
        None
    }
}

/// The state after what escrow holds for an event in one token is paid,
/// without fee, to the caller.
pub open spec fn withdraw_token_post(
    v: PaymentsView,
    organizer: AccountId,
    e: EventId,
    t: AccountId,
    now: u64,
) -> PaymentsView {
    let total = held_sum(v.payments, e, t);
    PaymentsView {
        payments: release_token(v.payments, e, t),
        token_revenue: v.token_revenue.insert(pair(e, t), 0),
        event_revenue: v.event_revenue.insert(e, (amount_of(v.event_revenue, e) - total) as i128),
        transfers: v.transfers.push(
            Transfer { token: t, from: v.contract_address, to: organizer, amount: total as i128 },
        ),
        notices: v.notices.push(
            PaymentNotice::RevenueWithdrawn {
                event_id: e,
                organizer,
                privacy: emission_level(v, e),
                amount: total as i128,
                token: t,
                to: organizer,
                withdrawn_at: now,
            },
        ),
        ..v
    }
}

/// Why a platform revenue withdrawal is refused, checked in this order.
pub open spec fn withdraw_platform_error(v: PaymentsView, e: EventId) -> Option<PaymentError> {
    if v.admin is None {
        Some(PaymentError::NotInitialized)
    } else if amount_of(v.platform_revenue, e) <= 0 {
        Some(PaymentError::NoPlatformRevenue)
    } else if v.platform_wallet is None || v.accepted_token is None {
        Some(PaymentError::NotInitialized)
    } else {
        None
    }
}

/// Why an escrow release is refused, checked in this order.
pub open spec fn release_error(v: PaymentsView, e: EventId, now: u64) -> Option<PaymentError> {
    if !v.escrow.dom().contains(e) {
        Some(PaymentError::EscrowNotConfigured)
    } else if v.escrow[e].auto_released {
        Some(PaymentError::EscrowAlreadyReleased)
    } else if now < v.escrow[e].event_end_time {
        Some(PaymentError::EscrowNotExpired)
    } else {
        None
    }
}

/// Why withdrawing every token of an event is refused, checked in this order.
pub open spec fn withdraw_all_error(v: PaymentsView, e: EventId) -> Option<PaymentError> {
    if !(v.event_status.dom().contains(e) && v.event_status[e] == EventStatus::Completed) {
        Some(PaymentError::EventNotCompleted)
    } else if tokens_of(v.payments, e).len() == 0 {
        Some(PaymentError::NoRevenue)
    } else {
        None
    }
}

/// The payments after every held payment of event `e` in one of `tokens`
/// is paid out.
pub open spec fn release_tokens(ps: Seq<PaymentRecord>, e: EventId, tokens: Seq<AccountId>) -> Seq<
    PaymentRecord,
> {
    ps.map_values(
        |p: PaymentRecord|
            if is_held_in(p, e) && tokens.contains(p.token) {
                released(p)
            } else {
                p
            },
    )
}

/// The identifiers of a sequence of payments.
pub open spec fn payment_ids(ps: Seq<PaymentRecord>) -> Seq<u64> {
    ps.map_values(|p: PaymentRecord| p.payment_id)
}

} // verus!
