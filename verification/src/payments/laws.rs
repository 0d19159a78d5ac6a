//! Properties of the payments ledger that span several calls.

use vstd::prelude::*;

use crate::errors::PaymentError;
use crate::payments::lemmas::{all_consistent, lemma_held_event_ge_share, lemma_release_event_sums};
use crate::payments::model::{
    amount_of, held_event_sum, ledger_consistent, pair, pay_error, pay_fits, pay_post,
    payment_consistent, payment_with_id, platform_fee, refund_error, refund_post, refunded,
    release_error, release_event, ticket_count, ticket_ids_of_owner, ticket_of, ticket_with_id,
    withdraw_all_error, withdraw_token_error,
    withdraw_error, withdraw_post, withdraw_revenue_error, withdraw_revenue_post, PaymentsView,
};
use crate::types::{
    AccountId, EscrowMetadata, EventId, EventStatus, PaymentPrivacy, PaymentRecord, PaymentStatus,
    Ticket, Transfer,
};

verus! {

/// A nonce is spent by the payment that uses it: any later request of the
/// same payer with the same nonce is refused as a duplicate.
pub proof fn law_nonce_cannot_be_replayed(
    v: PaymentsView,
    nonce: u64,
    payer: AccountId,
    e: EventId,
    amount: i128,
    token: AccountId,
    privacy_level: PaymentPrivacy,
    email_hash: Option<[u8; 32]>,
    now: u64,
    e2: EventId,
    amount2: i128,
    is_anonymous: bool,
    is_verified: bool,
)
    requires
        pay_error(v, nonce, payer, e, amount, false, false) is None,
    ensures
        pay_error(
            pay_post(v, nonce, payer, e, amount, token, privacy_level, email_hash, now),
            nonce,
            payer,
            e2,
            amount2,
            is_anonymous,
            is_verified,
        ) == Some(PaymentError::DuplicateRequest),
{
}

/// A payment never takes a payer beyond the event's per-user ticket limit,
/// nor the event beyond its supply.
pub proof fn law_ticket_limits_respected(
    v: PaymentsView,
    nonce: u64,
    payer: AccountId,
    e: EventId,
    amount: i128,
    token: AccountId,
    privacy_level: PaymentPrivacy,
    email_hash: Option<[u8; 32]>,
    now: u64,
    is_anonymous: bool,
    is_verified: bool,
)
    requires
        pay_error(v, nonce, payer, e, amount, is_anonymous, is_verified) is None,
        v.event_config.dom().contains(e),
        v.event_config[e].max_supply == 0 ==> v.event_config[e].sold_count < u32::MAX,
    ensures
        ({
            let w = pay_post(v, nonce, payer, e, amount, token, privacy_level, email_hash, now);
            let c = w.event_config[e];
            &&& c.max_tickets_per_user > 0 ==> ticket_count(w.tickets, e, payer)
                <= c.max_tickets_per_user
            &&& c.max_supply > 0 ==> c.sold_count <= c.max_supply
        }),
{
    let w = pay_post(v, nonce, payer, e, amount, token, privacy_level, email_hash, now);
    let t = Ticket {
        ticket_id: (v.tickets.len() + 1) as u64,
        event_id: e,
        owner: payer,
        payment_id: (v.payments.len() + 1) as u64,
    };
    assert(w.tickets == v.tickets.push(t));
    assert(v.tickets.push(t).drop_last() =~= v.tickets);
}

/// After an organizer's withdrawal nothing is left to withdraw: a second
/// withdrawal is refused for want of revenue.
pub proof fn law_withdraw_leaves_no_revenue(
    v: PaymentsView,
    organizer: AccountId,
    e: EventId,
    now: u64,
    later: u64,
)
    requires
        ledger_consistent(v),
        withdraw_error(v, organizer, e) is None,
    ensures
        withdraw_error(withdraw_post(v, organizer, e, now), organizer, e) == Some(
            PaymentError::NoRevenue,
        ),
{
}

/// After the administrator's revenue withdrawal nothing is left to
/// withdraw in the accepted token.
pub proof fn law_withdraw_revenue_leaves_no_revenue(
    v: PaymentsView,
    e: EventId,
    to: AccountId,
    now: u64,
)
    requires
        ledger_consistent(v),
        withdraw_revenue_error(v, e) is None,
    ensures
        withdraw_revenue_error(withdraw_revenue_post(v, e, to, now), e) == Some(
            PaymentError::InvalidAmount,
        ),
{
}

/// Escrow is released at most once: once released, every later release
/// request is refused.
pub proof fn law_escrow_released_once(v: PaymentsView, w: PaymentsView, e: EventId, now: u64, later: u64)
    requires
        release_error(v, e, now) is None,
        w.escrow == v.escrow.insert(e, EscrowMetadata { auto_released: true, ..v.escrow[e] }),
    ensures
        release_error(w, e, later) == Some(PaymentError::EscrowAlreadyReleased),
{
}

/// After an escrow release the event holds nothing in escrow, in any token.
pub proof fn law_release_empties_escrow(v: PaymentsView, w: PaymentsView, e: EventId, t: AccountId)
    requires
        ledger_consistent(w),
        w.payments == release_event(v.payments, e),
    ensures
        amount_of(w.event_revenue, e) == 0,
        amount_of(w.token_revenue, pair(e, t)) == 0,
{
    lemma_release_event_sums(v.payments, e, e, t);
}

/// A refund of everything that remains of a payment is final: the payment
/// is refunded in full, and a further refund is refused.
pub proof fn law_full_refund_is_final(
    v: PaymentsView,
    admin: AccountId,
    payment_id: u64,
    now: u64,
    amount: Option<i128>,
)
    requires
        ledger_consistent(v),
        refund_error(v, admin, payment_id, None) is None,
    ensures
        ({
            let w = refund_post(v, payment_id, None, now);
            &&& w.payments[payment_id - 1].status == PaymentStatus::Refunded
            &&& w.payments[payment_id - 1].refunded_amount == v.payments[payment_id - 1].amount
            &&& refund_error(w, admin, payment_id, amount) == Some(
                PaymentError::PaymentAlreadyRefunded,
            )
        }),
{
    let i = payment_id - 1;
    assert(v.payments[i].payment_id == i + 1);
}

/// A refund lowers the event's revenue by exactly the refunded amount.
pub proof fn law_refund_lowers_revenue(
    v: PaymentsView,
    admin: AccountId,
    payment_id: u64,
    amount: Option<i128>,
    now: u64,
)
    requires
        ledger_consistent(v),
        refund_error(v, admin, payment_id, amount) is None,
    ensures
        ({
            let p = v.payments[payment_id - 1];
            let w = refund_post(v, payment_id, amount, now);
            let refunded_now = w.payments[payment_id - 1].refunded_amount - p.refunded_amount;
            &&& refunded_now > 0
            &&& amount_of(w.event_revenue, p.event_id) == amount_of(v.event_revenue, p.event_id)
                - refunded_now
        }),
{
    let i = payment_id - 1;
    assert(payment_consistent(v.payments[i as int]));
    assert(all_consistent(v.payments));
    lemma_held_event_ge_share(v.payments, i as int, v.payments[i as int].event_id);
    assert(amount_of(v.event_revenue, v.payments[i as int].event_id) == held_event_sum(
        v.payments,
        v.payments[i as int].event_id,
    ));
}

/// The platform fee is a share of the payout: never negative and never
/// more than the payout, so the organizer's part is never negative.
pub proof fn law_fee_within_payout(total: int, bps: u32)
    requires
        total >= 0,
        bps <= 10_000,
    ensures
        0 <= platform_fee(total, bps) <= total,
        total - platform_fee(total, bps) >= 0,
{
    assert(0 <= total * bps / 10_000 <= total) by (nonlinear_arith)
        requires
            total >= 0,
            0 <= bps <= 10_000,
    ;
}

/// While the contract is paused, payments and refunds are refused.
pub proof fn law_pause_refuses_payments_and_refunds(
    v: PaymentsView,
    nonce: u64,
    payer: AccountId,
    e: EventId,
    amount: i128,
    is_anonymous: bool,
    is_verified: bool,
    admin: AccountId,
    payment_id: u64,
    refund: Option<i128>,
)
    requires
        v.paused,
    ensures
        pay_error(v, nonce, payer, e, amount, is_anonymous, is_verified) == Some(
            PaymentError::ContractPaused,
        ),
        refund_error(v, admin, payment_id, refund) == Some(PaymentError::ContractPaused),
{
}


/// What a payment writes, the reads give back: the new payment and its
/// ticket are found under the identifiers the payment returned, earlier
/// payments and tickets read as before, and the payer's ticket list gains
/// the new ticket at its end.
pub proof fn law_paid_ticket_is_readable(
    v: PaymentsView,
    nonce: u64,
    payer: AccountId,
    e: EventId,
    amount: i128,
    token: AccountId,
    privacy_level: PaymentPrivacy,
    email_hash: Option<[u8; 32]>,
    now: u64,
)
    requires
        ledger_consistent(v),
        pay_fits(v, e, amount, token),
    ensures
        ({
            let w = pay_post(v, nonce, payer, e, amount, token, privacy_level, email_hash, now);
            let payment_id = (v.payments.len() + 1) as u64;
            let ticket_id = (v.tickets.len() + 1) as u64;
            &&& payment_with_id(w, payment_id) == Some(
                PaymentRecord {
                    payment_id,
                    event_id: e,
                    payer,
                    amount,
                    token,
                    status: PaymentStatus::Held,
                    paid_at: now,
                    privacy_level,
                    refunded_amount: 0,
                },
            )
            &&& ticket_with_id(w, ticket_id) == Some(
                Ticket { ticket_id, event_id: e, owner: payer, payment_id },
            )
            &&& forall|id: u64| id != payment_id ==> #[trigger] payment_with_id(w, id)
                == payment_with_id(v, id)
            &&& forall|id: u64| id != ticket_id ==> #[trigger] ticket_with_id(w, id)
                == ticket_with_id(v, id)
            &&& ticket_ids_of_owner(w.tickets, payer) == ticket_ids_of_owner(v.tickets, payer).push(
                ticket_id,
            )
        }),
{
    let w = pay_post(v, nonce, payer, e, amount, token, privacy_level, email_hash, now);
    assert(w.tickets.drop_last() == v.tickets);
}


/// The per-user limit counts exactly the owner's tickets of that event:
/// tickets of other events and of other owners do not count.
pub proof fn law_ticket_count_counts_own_tickets(ts: Seq<Ticket>, e: EventId, owner: AccountId)
    ensures
        ticket_count(ts, e, owner) == ts.filter(ticket_of(e, owner)).len(),
    decreases ts.len(),
{
    reveal(Seq::filter);
    if ts.len() > 0 {
        law_ticket_count_counts_own_tickets(ts.drop_last(), e, owner);
    }
}

/// A payment is refused for the per-user limit only when the payer already
/// holds as many tickets of that very event as the limit allows.
pub proof fn law_ticket_limit_refusal_counts_own_event(
    v: PaymentsView,
    nonce: u64,
    payer: AccountId,
    e: EventId,
    amount: i128,
    is_anonymous: bool,
    is_verified: bool,
)
    ensures
        pay_error(v, nonce, payer, e, amount, is_anonymous, is_verified) == Some(
            PaymentError::MaxTicketsReached,
        ) ==> v.event_config.dom().contains(e) && v.event_config[e].max_tickets_per_user > 0
            && v.tickets.filter(ticket_of(e, payer)).len()
            >= v.event_config[e].max_tickets_per_user,
{
    law_ticket_count_counts_own_tickets(v.tickets, e, payer);
}

/// An organizer's withdrawal is accepted only for a completed event; the
/// organizer of a configured event that is not completed (active,
/// cancelled or without status) is refused with `EventNotCompleted`.
pub proof fn law_withdraw_needs_completed_event(v: PaymentsView, organizer: AccountId, e: EventId)
    ensures
        withdraw_error(v, organizer, e) is None ==> v.event_status.dom().contains(e)
            && v.event_status[e] == EventStatus::Completed,
        v.event_config.dom().contains(e) && v.event_config[e].organizer == organizer && !(
        v.event_status.dom().contains(e) && v.event_status[e] == EventStatus::Completed)
            ==> withdraw_error(v, organizer, e) == Some(PaymentError::EventNotCompleted),
{
}

/// A single-token withdrawal is accepted only for a completed event; any
/// other event is refused with `EventNotCompleted`.
pub proof fn law_withdraw_token_needs_completed_event(v: PaymentsView, e: EventId, t: AccountId)
    ensures
        !(v.event_status.dom().contains(e) && v.event_status[e] == EventStatus::Completed)
            ==> withdraw_token_error(v, e, t) == Some(PaymentError::EventNotCompleted),
        withdraw_token_error(v, e, t) is None ==> v.event_status.dom().contains(e)
            && v.event_status[e] == EventStatus::Completed,
{
}

/// Withdrawing every token is accepted only for a completed event; any
/// other event is refused with `EventNotCompleted`.
pub proof fn law_withdraw_all_needs_completed_event(v: PaymentsView, e: EventId)
    ensures
        !(v.event_status.dom().contains(e) && v.event_status[e] == EventStatus::Completed)
            ==> withdraw_all_error(v, e) == Some(PaymentError::EventNotCompleted),
        withdraw_all_error(v, e) is None ==> v.event_status.dom().contains(e)
            && v.event_status[e] == EventStatus::Completed,
{
}

/// A refund sends back the payment's own token: exactly one transfer, from
/// the contract to the payer, of the amount asked for (all that remains
/// when none is given), in the token that was paid.
pub proof fn law_refund_returns_paid_token(
    v: PaymentsView,
    admin: AccountId,
    payment_id: u64,
    amount: Option<i128>,
    now: u64,
)
    requires
        ledger_consistent(v),
        refund_error(v, admin, payment_id, amount) is None,
    ensures
        payment_with_id(v, payment_id) is Some,
        ({
            let p = payment_with_id(v, payment_id)->0;
            let w = refund_post(v, payment_id, amount, now);
            let back = match amount {
                Some(a) => a,
                None => (p.amount - p.refunded_amount) as i128,
            };
            &&& w.transfers == v.transfers.push(
                Transfer { token: p.token, from: v.contract_address, to: p.payer, amount: back },
            )
            &&& w.payments[payment_id - 1].refunded_amount == p.refunded_amount + back
        }),
{
}

} // verus!
