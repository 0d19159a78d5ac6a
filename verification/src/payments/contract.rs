//! The payments contract: every entry point of the contract as a verified
//! transition of its state. Token transfers and notifications are queued in
//! the state for the host to carry out.

use vstd::prelude::*;

use crate::errors::PaymentError;
use crate::payments::lemmas::{
    all_consistent, held_share, lemma_held_congruent, lemma_held_nonneg, lemma_held_push,
    lemma_held_token_le_event, lemma_held_zero, lemma_refund_consistent,
    lemma_release_event_sums, lemma_release_tokens_step, lemma_token_payout_consistent,
    lemma_tokens_of,
};
use crate::payments::laws::law_ticket_count_counts_own_tickets;
use crate::payments::model::{
    admin_error, amount_of, emission_level, event_contract_error, fee_payout_fits,
    fee_payout_post, held_event_sum, held_sum, ledger_consistent, pair, pay_error, pay_fits,
    pay_post, payment_consistent, payment_ids, payment_with_id, payments_of_event,
    payments_of_payer, payout_notices, payout_total, payout_transfers, platform_fee, privacy_of,
    refund_error, refund_post, release_error, release_event, release_token, release_tokens,
    released, set_fee_error, sync_config_error, ticket_count, ticket_ids_of_owner,
    ticket_of, ticket_with_id, tokens_of,
    withdraw_all_error, withdraw_error, withdraw_platform_error, withdraw_post,
    withdraw_revenue_error, withdraw_revenue_post, withdraw_token_error, withdraw_token_post,
    withdrawals_of, PaymentsView,
};
use crate::versioning::{
    migration_step, migration_target, read_version, stored_version, version_supported,
    CURRENT_VERSION,
};
use crate::table::{PairKey, Table};
use crate::types::{
    AccountId, EscrowMetadata, EventConfig, EventId, EventPrivacyConfig, EventStatus,
    PaymentNotice, PaymentPrivacy, PaymentRecord, PaymentStatus, PrivacyLevel, Ticket, Transfer,
    WithdrawalRecord,
};

verus! {

/// The storage of the payments contract.
pub struct PaymentsContract {
    contract_address: AccountId,
    admin: Option<AccountId>,
    accepted_token: Option<AccountId>,
    platform_fee_bps: u32,
    platform_wallet: Option<AccountId>,
    event_contract: Option<AccountId>,
    paused: bool,
    version: Option<u32>,
    payments: Vec<PaymentRecord>,
    tickets: Vec<Ticket>,
    nonces: Table<PairKey, bool>,
    event_privacy: Table<u64, EventPrivacyConfig>,
    event_config: Table<u64, EventConfig>,
    event_status: Table<u64, EventStatus>,
    event_revenue: Table<u64, i128>,
    token_revenue: Table<PairKey, i128>,
    platform_revenue: Table<u64, i128>,
    emission_privacy: Table<u64, PrivacyLevel>,
    escrow: Table<u64, EscrowMetadata>,
    withdrawals: Vec<(EventId, WithdrawalRecord)>,
    transfers: Vec<Transfer>,
    notices: Vec<PaymentNotice>,
}

impl View for PaymentsContract {
    type V = PaymentsView;

    closed spec fn view(&self) -> PaymentsView {
        PaymentsView {
            contract_address: self.contract_address,
            admin: self.admin,
            accepted_token: self.accepted_token,
            platform_fee_bps: self.platform_fee_bps,
            platform_wallet: self.platform_wallet,
            event_contract: self.event_contract,
            paused: self.paused,
            version: self.version,
            payments: self.payments@,
            tickets: self.tickets@,
            nonces: self.nonces@,
            event_privacy: self.event_privacy@,
            event_config: self.event_config@,
            event_status: self.event_status@,
            event_revenue: self.event_revenue@,
            token_revenue: self.token_revenue@,
            platform_revenue: self.platform_revenue@,
            emission_privacy: self.emission_privacy@,
            escrow: self.escrow@,
            withdrawals: self.withdrawals@,
            transfers: self.transfers@,
            notices: self.notices@,
        }
    }
}

impl PaymentsContract {
    /// Fresh storage of a contract deployed at `contract_address`.
    pub fn new(contract_address: AccountId) -> (c: Self)
        ensures
            c@ == (PaymentsView {
                contract_address,
                admin: None,
                accepted_token: None,
                platform_fee_bps: 0,
                platform_wallet: None,
                event_contract: None,
                paused: false,
                version: None,
                payments: Seq::empty(),
                tickets: Seq::empty(),
                nonces: Map::empty(),
                event_privacy: Map::empty(),
                event_config: Map::empty(),
                event_status: Map::empty(),
                event_revenue: Map::empty(),
                token_revenue: Map::empty(),
                platform_revenue: Map::empty(),
                emission_privacy: Map::empty(),
                escrow: Map::empty(),
                withdrawals: Seq::empty(),
                transfers: Seq::empty(),
                notices: Seq::empty(),
            }),
            ledger_consistent(c@),
    {
        let c = PaymentsContract {
            contract_address,
            admin: None,
            accepted_token: None,
            platform_fee_bps: 0,
            platform_wallet: None,
            event_contract: None,
            paused: false,
            version: None,
            payments: Vec::new(),
            tickets: Vec::new(),
            nonces: Table::new(),
            event_privacy: Table::new(),
            event_config: Table::new(),
            event_status: Table::new(),
            event_revenue: Table::new(),
            token_revenue: Table::new(),
            platform_revenue: Table::new(),
            emission_privacy: Table::new(),
            escrow: Table::new(),
            withdrawals: Vec::new(),
            transfers: Vec::new(),
            notices: Vec::new(),
        };
        assert forall|e: EventId, t: AccountId| #[trigger]
            amount_of(c@.token_revenue, pair(e, t)) == held_sum(c@.payments, e, t) by {}
        c
    }

    /// Hands the queued token transfers to the host, oldest first.
    pub fn take_transfers(&mut self) -> (r: Vec<Transfer>)
        ensures
            r@ == old(self)@.transfers,
            final(self)@ == (PaymentsView { transfers: Seq::empty(), ..old(self)@ }),
    {
        let mut r = Vec::new();
        std::mem::swap(&mut r, &mut self.transfers);
        r
    }

    /// Hands the queued notifications to the host, oldest first.
    pub fn take_notices(&mut self) -> (r: Vec<PaymentNotice>)
        ensures
            r@ == old(self)@.notices,
            final(self)@ == (PaymentsView { notices: Seq::empty(), ..old(self)@ }),
    {
        let mut r = Vec::new();
        std::mem::swap(&mut r, &mut self.notices);
        r
    }

    fn event_revenue_of(&self, e: EventId) -> (r: i128)
        ensures
            r == amount_of(self@.event_revenue, e),
    {
        match self.event_revenue.get(&e) {
            Some(x) => x,
            None => 0,
        }
    }

    fn token_revenue_of(&self, e: EventId, t: AccountId) -> (r: i128)
        ensures
            r == amount_of(self@.token_revenue, pair(e, t)),
    {
        match self.token_revenue.get(&PairKey { first: e, second: t }) {
            Some(x) => x,
            None => 0,
        }
    }

    fn level_of(&self, e: EventId) -> (r: PrivacyLevel)
        ensures
            r == emission_level(self@, e),
    {
        match self.emission_privacy.get(&e) {
            Some(l) => l,
            None => PrivacyLevel::Standard,
        }
    }

    /// How many tickets of event `e` `owner` holds.
    fn count_tickets(&self, e: EventId, owner: AccountId) -> (r: u64)
        ensures
            r == ticket_count(self@.tickets, e, owner),
            r == self@.tickets.filter(ticket_of(e, owner)).len(),
    {
        let mut count: u64 = 0;
        let mut i: usize = 0;
        while i < self.tickets.len()
            invariant
                i <= self.tickets@.len(),
                count == ticket_count(self.tickets@.take(i as int), e, owner),
                count <= i,
            decreases self.tickets@.len() - i,
        {
            assert(self.tickets@.take(i + 1).drop_last() =~= self.tickets@.take(i as int));
            let t = self.tickets[i];
            if t.event_id == e && t.owner == owner {
                count = count + 1;
            }
            i = i + 1;
        }
        assert(self.tickets@.take(i as int) =~= self.tickets@);
        proof {
            law_ticket_count_counts_own_tickets(self@.tickets, e, owner);
        }
        count
    }

    /// Records a payment and issues its ticket; shared by both ways of paying.
    fn create_payment(
        &mut self,
        nonce: u64,
        payer: AccountId,
        event_id: EventId,
        amount: i128,
        token: AccountId,
        is_anonymous: bool,
        is_verified: bool,
        privacy_level: PaymentPrivacy,
        email_hash: Option<[u8; 32]>,
        now: u64,
    ) -> (r: Result<u64, PaymentError>)
        requires
            ledger_consistent(old(self)@),
            pay_fits(old(self)@, event_id, amount, token),
        ensures
            ledger_consistent(final(self)@),
            match r {
                Ok(id) => pay_error(
                    old(self)@,
                    nonce,
                    payer,
                    event_id,
                    amount,
                    is_anonymous,
                    is_verified,
                ) is None && id == old(self)@.payments.len() + 1 && final(self)@ == pay_post(
                    old(self)@,
                    nonce,
                    payer,
                    event_id,
                    amount,
                    token,
                    privacy_level,
                    email_hash,
                    now,
                ),
                Err(err) => pay_error(
                    old(self)@,
                    nonce,
                    payer,
                    event_id,
                    amount,
                    is_anonymous,
                    is_verified,
                ) == Some(err) && final(self)@ == old(self)@,
            },
    {
        if self.paused {
            return Err(PaymentError::ContractPaused);
        }
        if nonce == 0 {
            return Err(PaymentError::NonceRequired);
        }
        if self.nonces.contains(&PairKey { first: payer, second: nonce }) {
            return Err(PaymentError::DuplicateRequest);
        }
        if amount <= 0 {
            return Err(PaymentError::InvalidAmount);
        }
        let privacy = match self.event_privacy.get(&event_id) {
            Some(p) => p,
            None => EventPrivacyConfig { allow_anonymous: true, requires_verification: false },
        };
        assert(privacy == privacy_of(self@, event_id));
        if is_anonymous && !privacy.allow_anonymous {
            return Err(PaymentError::AnonymousPaymentsDisabled);
        }
        if privacy.requires_verification && !is_verified {
            return Err(PaymentError::VerificationRequired);
        }
        let config = self.event_config.get(&event_id);
        if let Some(c) = config {
            if c.max_tickets_per_user > 0 {
                let current = self.count_tickets(event_id, payer);
                if current >= c.max_tickets_per_user as u64 {
                    return Err(PaymentError::MaxTicketsReached);
                }
            }
            if c.max_supply > 0 && c.sold_count >= c.max_supply {
                return Err(PaymentError::EventSoldOut);
            }
        }
        match self.event_status.get(&event_id) {
            Some(EventStatus::Completed) | Some(EventStatus::Cancelled) => {
                return Err(PaymentError::EventNotActive);
            },
            _ => {},
        }
        let ghost old_view = self@;
        self.transfers.push(Transfer { token, from: payer, to: self.contract_address, amount });
        let payment_id = self.payments.len() as u64 + 1;
        let record = PaymentRecord {
            payment_id,
            event_id,
            payer,
            amount,
            token,
            status: PaymentStatus::Held,
            paid_at: now,
            privacy_level,
            refunded_amount: 0,
        };
        self.payments.push(record);
        self.nonces.set(PairKey { first: payer, second: nonce }, true);
        let event_revenue = self.event_revenue_of(event_id);
        self.event_revenue.set(event_id, event_revenue + amount);
        let token_revenue = self.token_revenue_of(event_id, token);
        self.token_revenue.set(PairKey { first: event_id, second: token }, token_revenue + amount);
        let level = self.level_of(event_id);
        self.notices.push(
            PaymentNotice::PaymentReceived {
                payment_id,
                event_id,
                payer,
                privacy: level,
                amount,
                token,
                paid_at: now,
            },
        );
        if let Some(h) = email_hash {
            self.notices.push(
                PaymentNotice::PaymentReceiptRequested {
                    payment_id,
                    event_id,
                    email_hash: h,
                    requested_at: now,
                },
            );
        }
        let ticket_id = self.tickets.len() as u64 + 1;
        self.tickets.push(Ticket { ticket_id, event_id, owner: payer, payment_id });
        if let Some(c) = config {
            self.event_config.set(event_id, EventConfig { sold_count: c.sold_count + 1, ..c });
        }
        self.notices.push(
            PaymentNotice::TicketIssued {
                ticket_id,
                event_id,
                owner: payer,
                privacy: level,
                payment_id,
                issued_at: now,
            },
        );
        proof {
            let post = pay_post(
                old_view,
                nonce,
                payer,
                event_id,
                amount,
                token,
                privacy_level,
                email_hash,
                now,
            );
            assert(self@ =~= post);
            assert forall|e: EventId, t: AccountId|
                #![trigger amount_of(self@.token_revenue, pair(e, t))]
                #![trigger held_sum(self@.payments, e, t)]
                amount_of(self@.token_revenue, pair(e, t)) == held_sum(self@.payments, e, t) by {
                lemma_held_push(old_view.payments, record, e, t);
                assert(amount_of(old_view.token_revenue, pair(e, t)) == held_sum(
                    old_view.payments,
                    e,
                    t,
                ));
            }
            assert forall|e: EventId|
                #![trigger amount_of(self@.event_revenue, e)]
                #![trigger held_event_sum(self@.payments, e)]
                amount_of(self@.event_revenue, e) == held_event_sum(self@.payments, e) by {
                lemma_held_push(old_view.payments, record, e, token);
                assert(amount_of(old_view.event_revenue, e) == held_event_sum(
                    old_view.payments,
                    e,
                ));
            }
        }
        Ok(payment_id)
    }
}

impl PaymentsContract {
    /// Sets up the contract: administrator, accepted token, platform fee in
    /// basis points (at most 10 000), platform wallet and event contract.
    /// Once set up, further calls change nothing and succeed.
    pub fn initialize(
        &mut self,
        admin: AccountId,
        token: AccountId,
        platform_fee_bps: u32,
        platform_wallet: AccountId,
        event_contract: AccountId,
    ) -> (r: Result<(), PaymentError>)
        requires
            ledger_consistent(old(self)@),
        ensures
            ledger_consistent(final(self)@),
            old(self)@.admin is Some ==> r == Ok::<(), PaymentError>(()) && final(self)@ == old(self)@,
            old(self)@.admin is None && platform_fee_bps > 10_000 ==> r == Err::<(), PaymentError>(
                PaymentError::InvalidFeeBps,
            ) && final(self)@ == old(self)@,
            old(self)@.admin is None && platform_fee_bps <= 10_000 ==> r == Ok::<(), PaymentError>(
                (),
            ) && final(self)@ == (PaymentsView {
                admin: Some(admin),
                accepted_token: Some(token),
                platform_fee_bps,
                platform_wallet: Some(platform_wallet),
                event_contract: Some(event_contract),
                ..old(self)@
            }),
    {
        if self.admin.is_some() {
            return Ok(());
        }
        if platform_fee_bps > 10_000 {
            return Err(PaymentError::InvalidFeeBps);
        }
        self.admin = Some(admin);
        self.accepted_token = Some(token);
        self.platform_fee_bps = platform_fee_bps;
        self.platform_wallet = Some(platform_wallet);
        self.event_contract = Some(event_contract);
        Ok(())
    }

    fn check_admin(&self, caller: AccountId) -> (r: Result<(), PaymentError>)
        ensures
            match r {
                Ok(()) => admin_error(self@, caller) is None,
                Err(err) => admin_error(self@, caller) == Some(err),
            },
    {
        match self.admin {
            None => Err(PaymentError::NotInitialized),
            Some(a) => if a == caller {
                Ok(())
            } else {
                Err(PaymentError::Unauthorized)
            },
        }
    }

    fn check_event_contract(&self, caller: AccountId) -> (r: Result<(), PaymentError>)
        ensures
            match r {
                Ok(()) => event_contract_error(self@, caller) is None,
                Err(err) => event_contract_error(self@, caller) == Some(err),
            },
    {
        match self.event_contract {
            None => Err(PaymentError::NotInitialized),
            Some(a) => if a == caller {
                Ok(())
            } else {
                Err(PaymentError::Unauthorized)
            },
        }
    }

    /// The administrator.
    pub fn get_admin(&self) -> (r: Result<AccountId, PaymentError>)
        ensures
            r == match self@.admin {
                Some(a) => Ok::<AccountId, PaymentError>(a),
                None => Err(PaymentError::NotInitialized),
            },
    {
        match self.admin {
            Some(a) => Ok(a),
            None => Err(PaymentError::NotInitialized),
        }
    }

    /// The token the contract accepts for event payouts.
    pub fn get_accepted_token(&self) -> (r: Result<AccountId, PaymentError>)
        ensures
            r == match self@.accepted_token {
                Some(a) => Ok::<AccountId, PaymentError>(a),
                None => Err(PaymentError::NotInitialized),
            },
    {
        match self.accepted_token {
            Some(a) => Ok(a),
            None => Err(PaymentError::NotInitialized),
        }
    }

    /// The event contract allowed to synchronise event settings.
    pub fn get_event_contract(&self) -> (r: Result<AccountId, PaymentError>)
        ensures
            r == match self@.event_contract {
                Some(a) => Ok::<AccountId, PaymentError>(a),
                None => Err(PaymentError::NotInitialized),
            },
    {
        match self.event_contract {
            Some(a) => Ok(a),
            None => Err(PaymentError::NotInitialized),
        }
    }

    /// The wallet that receives platform fees.
    pub fn get_platform_wallet(&self) -> (r: Result<AccountId, PaymentError>)
        ensures
            r == match self@.platform_wallet {
                Some(a) => Ok::<AccountId, PaymentError>(a),
                None => Err(PaymentError::NotInitialized),
            },
    {
        match self.platform_wallet {
            Some(a) => Ok(a),
            None => Err(PaymentError::NotInitialized),
        }
    }

    /// The payment with identifier `payment_id`.
    pub fn get_payment(&self, payment_id: u64) -> (r: Result<PaymentRecord, PaymentError>)
        ensures
            r == match payment_with_id(self@, payment_id) {
                Some(p) => Ok::<PaymentRecord, PaymentError>(p),
                None => Err(PaymentError::PaymentNotFound),
            },
    {
        if payment_id >= 1 && payment_id <= self.payments.len() as u64 {
            Ok(self.payments[(payment_id - 1) as usize])
        } else {
            Err(PaymentError::PaymentNotFound)
        }
    }

    /// The ticket with identifier `ticket_id`.
    pub fn get_ticket(&self, ticket_id: u64) -> (r: Result<Ticket, PaymentError>)
        ensures
            r == match ticket_with_id(self@, ticket_id) {
                Some(t) => Ok::<Ticket, PaymentError>(t),
                None => Err(PaymentError::TicketNotFound),
            },
    {
        if ticket_id >= 1 && ticket_id <= self.tickets.len() as u64 {
            Ok(self.tickets[(ticket_id - 1) as usize])
        } else {
            Err(PaymentError::TicketNotFound)
        }
    }

    /// What escrow has received for an event and not yet paid out or refunded.
    pub fn get_event_revenue(&self, event_id: EventId) -> (r: i128)
        ensures
            r == amount_of(self@.event_revenue, event_id),
    {
        self.event_revenue_of(event_id)
    }

    /// What escrow holds for an event in one token.
    pub fn get_event_token_revenue(&self, event_id: EventId, token_address: AccountId) -> (r: i128)
        ensures
            r == amount_of(self@.token_revenue, pair(event_id, token_address)),
    {
        self.token_revenue_of(event_id, token_address)
    }

    /// The platform fees collected for an event and not yet withdrawn.
    pub fn get_platform_revenue(&self, event_id: EventId) -> (r: i128)
        ensures
            r == amount_of(self@.platform_revenue, event_id),
    {
        match self.platform_revenue.get(&event_id) {
            Some(x) => x,
            None => 0,
        }
    }

    /// The platform fee in basis points.
    pub fn get_platform_fee_bps(&self) -> (r: u32)
        ensures
            r == self@.platform_fee_bps,
    {
        self.platform_fee_bps
    }

    /// Whether a payment of `amount` for `event_id` in `token_address` keeps
    /// the payment and ticket counters, the revenue counters and the sold
    /// count within their machine types. A host tests this before it asks
    /// for a payment.
    pub fn payment_fits(&self, event_id: EventId, amount: i128, token_address: AccountId) -> (r:
        bool)
        ensures
            r == pay_fits(self@, event_id, amount, token_address),
    {
        let counts_fit = (self.payments.len() as u64) < u64::MAX && (self.tickets.len() as u64)
            < u64::MAX;
        let event_total = self.event_revenue_of(event_id);
        let token_total = self.token_revenue_of(event_id, token_address);
        let sums_fit = amount <= 0 || (event_total <= i128::MAX - amount && token_total
            <= i128::MAX - amount);
        let supply_fits = match self.event_config.get(&event_id) {
            Some(cfg) => cfg.max_supply != 0 || cfg.sold_count < u32::MAX,
            None => true,
        };
        counts_fit && sums_fit && supply_fits
    }

    /// Whether paying out what escrow holds for `event_id` in
    /// `token_address`, with the platform's fee taken from it, stays within
    /// `i128`. A host tests this before it asks for a withdrawal.
    pub fn fee_payout_fits(&self, event_id: EventId, token_address: AccountId) -> (r: bool)
        requires
            ledger_consistent(self@),
        ensures
            r == fee_payout_fits(self@, event_id, token_address),
    {
        let total = self.token_revenue_of(event_id, token_address);
        proof {
            lemma_held_nonneg(self@.payments, event_id, token_address);
        }
        let bps = self.platform_fee_bps as i128;
        match total.checked_mul(bps) {
            None => false,
            Some(product) => {
                let fee = product / 10_000;
                let collected = self.get_platform_revenue(event_id);
                collected <= i128::MAX - fee
            },
        }
    }

    /// Whether `withdraw` may be asked for: either it is refused, or its
    /// payout with the platform's fee stays within `i128`.
    pub fn withdraw_fits(&self, organizer: AccountId, event_id: EventId) -> (r: bool)
        requires
            ledger_consistent(self@),
        ensures
            r == (withdraw_error(self@, organizer, event_id) is None ==> fee_payout_fits(
                self@,
                event_id,
                self@.event_config[event_id].payout_token,
            )),
    {
        match self.event_config.get(&event_id) {
            None => true,
            Some(cfg) => {
                let completed = match self.event_status.get(&event_id) {
                    Some(EventStatus::Completed) => true,
                    _ => false,
                };
                if organizer != cfg.organizer || !completed || self.token_revenue_of(
                    event_id,
                    cfg.payout_token,
                ) <= 0 {
                    true
                } else {
                    self.fee_payout_fits(event_id, cfg.payout_token)
                }
            },
        }
    }

    /// Whether `withdraw_revenue` may be asked for: either it is refused,
    /// or its payout with the platform's fee stays within `i128`.
    pub fn withdraw_revenue_fits(&self, event_id: EventId) -> (r: bool)
        requires
            ledger_consistent(self@),
        ensures
            r == (withdraw_revenue_error(self@, event_id) is None ==> fee_payout_fits(
                self@,
                event_id,
                self@.accepted_token->0,
            )),
    {
        match (self.admin, self.accepted_token) {
            (Some(_), Some(t)) => {
                if self.token_revenue_of(event_id, t) <= 0 {
                    true
                } else {
                    self.fee_payout_fits(event_id, t)
                }
            },
            _ => true,
        }
    }

    /// The configuration of an event.
    pub fn get_event_config(&self, event_id: EventId) -> (r: Result<EventConfig, PaymentError>)
        ensures
            r == if self@.event_config.dom().contains(event_id) {
                Ok::<EventConfig, PaymentError>(self@.event_config[event_id])
            } else {
                Err(PaymentError::InvalidOrganizer)
            },
    {
        match self.event_config.get(&event_id) {
            Some(c) => Ok(c),
            None => Err(PaymentError::InvalidOrganizer),
        }
    }

    /// Who may pay for an event.
    pub fn get_event_payment_privacy(&self, event_id: EventId) -> (r: EventPrivacyConfig)
        ensures
            r == privacy_of(self@, event_id),
    {
        match self.event_privacy.get(&event_id) {
            Some(p) => p,
            None => EventPrivacyConfig { allow_anonymous: true, requires_verification: false },
        }
    }

    /// The lifecycle status recorded for an event, if any.
    pub fn get_event_status(&self, event_id: EventId) -> (r: Option<EventStatus>)
        ensures
            r == if self@.event_status.dom().contains(event_id) {
                Some(self@.event_status[event_id])
            } else {
                None::<EventStatus>
            },
    {
        self.event_status.get(&event_id)
    }

    /// The escrow terms of an event.
    pub fn get_escrow_meta(&self, event_id: EventId) -> (r: Result<EscrowMetadata, PaymentError>)
        ensures
            r == if self@.escrow.dom().contains(event_id) {
                Ok::<EscrowMetadata, PaymentError>(self@.escrow[event_id])
            } else {
                Err(PaymentError::EscrowNotConfigured)
            },
    {
        match self.escrow.get(&event_id) {
            Some(m) => Ok(m),
            None => Err(PaymentError::EscrowNotConfigured),
        }
    }

    /// Whether `payer` has already used `nonce`.
    pub fn has_nonce(&self, payer: AccountId, nonce: u64) -> (r: bool)
        ensures
            r == self@.nonces.dom().contains(pair(payer, nonce)),
    {
        self.nonces.contains(&PairKey { first: payer, second: nonce })
    }

    /// Whether the contract is paused.
    pub fn is_paused(&self) -> (r: bool)
        ensures
            r == self@.paused,
    {
        self.paused
    }

    /// Pauses or resumes the contract. Administrator only.
    pub fn set_paused(&mut self, admin: AccountId, paused: bool) -> (r: Result<(), PaymentError>)
        requires
            ledger_consistent(old(self)@),
        ensures
            ledger_consistent(final(self)@),
            match r {
                Ok(()) => admin_error(old(self)@, admin) is None && final(self)@ == (PaymentsView {
                    paused,
                    ..old(self)@
                }),
                Err(err) => admin_error(old(self)@, admin) == Some(err) && final(self)@ == old(self)@,
            },
    {
        self.check_admin(admin)?;
        self.paused = paused;
        Ok(())
    }

    /// Records the lifecycle status of an event. Administrator only; refused
    /// while paused.
    pub fn set_event_status(
        &mut self,
        admin: AccountId,
        event_id: EventId,
        status: EventStatus,
    ) -> (r: Result<(), PaymentError>)
        requires
            ledger_consistent(old(self)@),
        ensures
            ledger_consistent(final(self)@),
            match r {
                Ok(()) => !old(self)@.paused && admin_error(old(self)@, admin) is None && final(self)@ == (PaymentsView {
                    event_status: old(self)@.event_status.insert(event_id, status),
                    ..old(self)@
                }),
                Err(err) => final(self)@ == old(self)@ && if old(self)@.paused {
                    err == PaymentError::ContractPaused
                } else {
                    admin_error(old(self)@, admin) == Some(err)
                },
            },
    {
        if self.paused {
            return Err(PaymentError::ContractPaused);
        }
        self.check_admin(admin)?;
        self.event_status.set(event_id, status);
        Ok(())
    }

    /// Pays for a ticket: moves `amount` of `token_address` from `payer` into
    /// escrow, records the payment and issues a ticket to the payer.
    /// Returns the payment's identifier.
    pub fn pay_for_ticket(
        &mut self,
        nonce: u64,
        payer: AccountId,
        event_id: EventId,
        amount: i128,
        email_hash: Option<[u8; 32]>,
        token_address: AccountId,
        privacy_level: PaymentPrivacy,
        now: u64,
    ) -> (r: Result<u64, PaymentError>)
        requires
            ledger_consistent(old(self)@),
            pay_fits(old(self)@, event_id, amount, token_address),
        ensures
            ledger_consistent(final(self)@),
            match r {
                Ok(id) => pay_error(old(self)@, nonce, payer, event_id, amount, false, false) is None
                    && id == old(self)@.payments.len() + 1 && final(self)@ == pay_post(
                    old(self)@,
                    nonce,
                    payer,
                    event_id,
                    amount,
                    token_address,
                    privacy_level,
                    email_hash,
                    now,
                ),
                Err(err) => pay_error(old(self)@, nonce, payer, event_id, amount, false, false)
                    == Some(err) && final(self)@ == old(self)@,
            },
    {
        self.create_payment(
            nonce,
            payer,
            event_id,
            amount,
            token_address,
            false,
            false,
            privacy_level,
            email_hash,
            now,
        )
    }

    /// Pays for a ticket declaring whether the payer is anonymous and
    /// whether they are verified; recorded with `Standard` privacy.
    pub fn pay_for_ticket_with_options(
        &mut self,
        nonce: u64,
        payer: AccountId,
        event_id: EventId,
        amount: i128,
        token_address: AccountId,
        is_anonymous: bool,
        is_verified: bool,
        now: u64,
    ) -> (r: Result<u64, PaymentError>)
        requires
            ledger_consistent(old(self)@),
            pay_fits(old(self)@, event_id, amount, token_address),
        ensures
            ledger_consistent(final(self)@),
            match r {
                Ok(id) => pay_error(
                    old(self)@,
                    nonce,
                    payer,
                    event_id,
                    amount,
                    is_anonymous,
                    is_verified,
                ) is None && id == old(self)@.payments.len() + 1 && final(self)@ == pay_post(
                    old(self)@,
                    nonce,
                    payer,
                    event_id,
                    amount,
                    token_address,
                    PaymentPrivacy::Standard,
                    None,
                    now,
                ),
                Err(err) => pay_error(
                    old(self)@,
                    nonce,
                    payer,
                    event_id,
                    amount,
                    is_anonymous,
                    is_verified,
                ) == Some(err) && final(self)@ == old(self)@,
            },
    {
        self.create_payment(
            nonce,
            payer,
            event_id,
            amount,
            token_address,
            is_anonymous,
            is_verified,
            PaymentPrivacy::Standard,
            None,
            now,
        )
    }

    /// Records who may pay for an event. Only the event contract may call it.
    pub fn sync_event_privacy(
        &mut self,
        event_contract: AccountId,
        event_id: EventId,
        allow_anonymous: bool,
        requires_verification: bool,
    ) -> (r: Result<(), PaymentError>)
        requires
            ledger_consistent(old(self)@),
        ensures
            ledger_consistent(final(self)@),
            match r {
                Ok(()) => event_contract_error(old(self)@, event_contract) is None && final(self)@
                    == (PaymentsView {
                    event_privacy: old(self)@.event_privacy.insert(
                        event_id,
                        EventPrivacyConfig { allow_anonymous, requires_verification },
                    ),
                    ..old(self)@
                }),
                Err(err) => event_contract_error(old(self)@, event_contract) == Some(err) && final(self)@ == old(self)@,
            },
    {
        self.check_event_contract(event_contract)?;
        self.event_privacy.set(event_id, EventPrivacyConfig { allow_anonymous, requires_verification });
        Ok(())
    }

    /// Records the terms of an event. Only the event contract may call it;
    /// payouts must be in the accepted token, and once set, the organizer
    /// and payout token of an event cannot change. Tickets sold so far are
    /// kept.
    pub fn sync_event_config(
        &mut self,
        event_contract: AccountId,
        event_id: EventId,
        organizer: AccountId,
        payout_token: AccountId,
        allow_anonymous: bool,
        requires_verification: bool,
        max_tickets_per_user: u32,
        max_supply: u32,
    ) -> (r: Result<(), PaymentError>)
        requires
            ledger_consistent(old(self)@),
        ensures
            ledger_consistent(final(self)@),
            match r {
                Ok(()) => sync_config_error(
                    old(self)@,
                    event_contract,
                    event_id,
                    organizer,
                    payout_token,
                ) is None && final(self)@ == (PaymentsView {
                    event_config: old(self)@.event_config.insert(
                        event_id,
                        EventConfig {
                            organizer,
                            payout_token,
                            allow_anonymous,
                            requires_verification,
                            max_tickets_per_user,
                            max_supply,
                            sold_count: if old(self)@.event_config.dom().contains(event_id) {
                                old(self)@.event_config[event_id].sold_count
                            } else {
                                0
                            },
                        },
                    ),
                    ..old(self)@
                }),
                Err(err) => sync_config_error(
                    old(self)@,
                    event_contract,
                    event_id,
                    organizer,
                    payout_token,
                ) == Some(err) && final(self)@ == old(self)@,
            },
    {
        self.check_event_contract(event_contract)?;
        let accepted = match self.accepted_token {
            Some(t) => t,
            None => {
                return Err(PaymentError::NotInitialized);
            },
        };
        if payout_token != accepted {
            return Err(PaymentError::InvalidPayoutToken);
        }
        let mut sold_count: u32 = 0;
        if let Some(existing) = self.event_config.get(&event_id) {
            if existing.organizer != organizer {
                return Err(PaymentError::InvalidOrganizer);
            }
            if existing.payout_token != payout_token {
                return Err(PaymentError::InvalidPayoutToken);
            }
            sold_count = existing.sold_count;
        }
        self.event_config.set(
            event_id,
            EventConfig {
                organizer,
                payout_token,
                allow_anonymous,
                requires_verification,
                max_tickets_per_user,
                max_supply,
                sold_count,
            },
        );
        Ok(())
    }

    /// Registers the escrow terms of an event: its organizer and when it
    /// ends. Administrator only.
    pub fn set_event_end_time(
        &mut self,
        admin: AccountId,
        event_id: EventId,
        organizer: AccountId,
        event_end_time: u64,
    ) -> (r: Result<(), PaymentError>)
        requires
            ledger_consistent(old(self)@),
        ensures
            ledger_consistent(final(self)@),
            match r {
                Ok(()) => admin_error(old(self)@, admin) is None && final(self)@ == (PaymentsView {
                    escrow: old(self)@.escrow.insert(
                        event_id,
                        EscrowMetadata { organizer, event_end_time, auto_released: false },
                    ),
                    ..old(self)@
                }),
                Err(err) => admin_error(old(self)@, admin) == Some(err) && final(self)@ == old(self)@,
            },
    {
        self.check_admin(admin)?;
        self.escrow.set(event_id, EscrowMetadata { organizer, event_end_time, auto_released: false });
        Ok(())
    }

    /// Sets how addresses appear in an event's notifications. Administrator only.
    pub fn set_event_privacy(
        &mut self,
        admin: AccountId,
        event_id: EventId,
        level: PrivacyLevel,
    ) -> (r: Result<(), PaymentError>)
        requires
            ledger_consistent(old(self)@),
        ensures
            ledger_consistent(final(self)@),
            match r {
                Ok(()) => admin_error(old(self)@, admin) is None && final(self)@ == (PaymentsView {
                    emission_privacy: old(self)@.emission_privacy.insert(event_id, level),
                    ..old(self)@
                }),
                Err(err) => admin_error(old(self)@, admin) == Some(err) && final(self)@ == old(self)@,
            },
    {
        self.check_admin(admin)?;
        self.emission_privacy.set(event_id, level);
        Ok(())
    }

    /// How addresses appear in an event's notifications.
    pub fn get_event_privacy(&self, event_id: EventId) -> (r: PrivacyLevel)
        ensures
            r == emission_level(self@, event_id),
    {
        self.level_of(event_id)
    }

    /// Changes the platform fee (basis points, at most 10 000) and wallet.
    /// Administrator only; refused while paused.
    pub fn set_platform_fee(&mut self, fee_bps: u32, wallet: AccountId, now: u64) -> (r: Result<
        (),
        PaymentError,
    >)
        requires
            ledger_consistent(old(self)@),
        ensures
            ledger_consistent(final(self)@),
            match r {
                Ok(()) => set_fee_error(old(self)@, fee_bps) is None && final(self)@ == (PaymentsView {
                    platform_fee_bps: fee_bps,
                    platform_wallet: Some(wallet),
                    notices: old(self)@.notices.push(
                        PaymentNotice::PlatformFeeUpdated {
                            admin: old(self)@.admin->0,
                            old_bps: old(self)@.platform_fee_bps,
                            new_bps: fee_bps,
                            updated_at: now,
                        },
                    ),
                    ..old(self)@
                }),
                Err(err) => set_fee_error(old(self)@, fee_bps) == Some(err) && final(self)@ == old(
                    self,
                )@,
            },
    {
        if self.paused {
            return Err(PaymentError::ContractPaused);
        }
        let admin = match self.admin {
            Some(a) => a,
            None => {
                return Err(PaymentError::NotInitialized);
            },
        };
        if fee_bps > 10_000 {
            return Err(PaymentError::InvalidFeeBps);
        }
        let old_bps = self.platform_fee_bps;
        self.platform_fee_bps = fee_bps;
        self.platform_wallet = Some(wallet);
        self.notices.push(
            PaymentNotice::PlatformFeeUpdated { admin, old_bps, new_bps: fee_bps, updated_at: now },
        );
        Ok(())
    }

    /// The contract's storage version; 1 unless migrated.
    pub fn contract_version(&self) -> (r: u32)
        ensures
            r == stored_version(self@.version),
    {
        read_version(self.version)
    }

    /// Whether the stored version is one this code supports.
    pub fn verify_version(&self) -> (r: Result<(), PaymentError>)
        ensures
            r == if version_supported(stored_version(self@.version)) {
                Ok::<(), PaymentError>(())
            } else {
                Err(PaymentError::UnsupportedVersion)
            },
    {
        let v = read_version(self.version);
        if v > CURRENT_VERSION {
            Err(PaymentError::UnsupportedVersion)
        } else {
            Ok(())
        }
    }

    /// Migrates the storage one version forward. Administrator only.
    /// Returns the new version.
    pub fn migrate(&mut self, admin: AccountId) -> (r: Result<u32, PaymentError>)
        requires
            ledger_consistent(old(self)@),
        ensures
            ledger_consistent(final(self)@),
            match r {
                Ok(v) => admin_error(old(self)@, admin) is None && migration_target(
                    stored_version(old(self)@.version),
                ) == Some(v) && v == stored_version(old(self)@.version) + 1 && final(self)@ == (
                PaymentsView { version: Some(v), ..old(self)@ }),
                Err(err) => final(self)@ == old(self)@ && if admin_error(old(self)@, admin) is Some {
                    admin_error(old(self)@, admin) == Some(err)
                } else {
                    migration_target(stored_version(old(self)@.version)) is None && err
                        == PaymentError::UnsupportedVersion
                },
            },
    {
        self.check_admin(admin)?;
        let current = read_version(self.version);
        match migration_step(current) {
            Some(next) => {
                self.version = Some(next);
                Ok(next)
            },
            None => Err(PaymentError::UnsupportedVersion),
        }
    }
}

impl PaymentsContract {
    /// Marks paid out every held payment of event `e` in token `t`.
    fn release_payments_for(&mut self, e: EventId, t: AccountId)
        ensures
            final(self)@ == (PaymentsView {
                payments: release_token(old(self)@.payments, e, t),
                ..old(self)@
            }),
    {
        let ghost before = self@;
        let mut i: usize = 0;
        while i < self.payments.len()
            invariant
                i <= self.payments@.len(),
                self.payments@.len() == before.payments.len(),
                forall|k: int|
                    0 <= k < i ==> #[trigger] self.payments@[k] == release_token(
                        before.payments,
                        e,
                        t,
                    )[k],
                forall|k: int|
                    i <= k < self.payments@.len() ==> #[trigger] self.payments@[k]
                        == before.payments[k],
                self@ == (PaymentsView { payments: self.payments@, ..before }),
            decreases self.payments@.len() - i,
        {
            let p = self.payments[i];
            if p.status == PaymentStatus::Held && p.event_id == e && p.token == t {
                self.payments.set(i, PaymentRecord { status: PaymentStatus::Released, ..p });
            }
            i = i + 1;
        }
        assert(self.payments@ =~= release_token(before.payments, e, t));
    }

    /// Pays out, without fee, what escrow holds for event `e` in token `t`;
    /// returns the amount.
    fn pay_out_token(&mut self, e: EventId, t: AccountId, to: AccountId) -> (total: i128)
        requires
            ledger_consistent(old(self)@),
        ensures
            ledger_consistent(final(self)@),
            total == held_sum(old(self)@.payments, e, t),
            final(self)@ == (PaymentsView {
                payments: release_token(old(self)@.payments, e, t),
                token_revenue: old(self)@.token_revenue.insert(pair(e, t), 0),
                event_revenue: old(self)@.event_revenue.insert(
                    e,
                    (amount_of(old(self)@.event_revenue, e) - total) as i128,
                ),
                transfers: old(self)@.transfers.push(
                    Transfer { token: t, from: old(self)@.contract_address, to, amount: total },
                ),
                ..old(self)@
            }),
    {
        let ghost before = self@;
        proof {
            assert(all_consistent(before.payments));
            assert(amount_of(before.token_revenue, pair(e, t)) == held_sum(before.payments, e, t));
            assert(amount_of(before.event_revenue, e) == held_event_sum(before.payments, e));
            lemma_held_nonneg(before.payments, e, t);
            lemma_held_token_le_event(before.payments, e, t);
        }
        let total = self.token_revenue_of(e, t);
        self.transfers.push(Transfer { token: t, from: self.contract_address, to, amount: total });
        self.release_payments_for(e, t);
        self.token_revenue.set(PairKey { first: e, second: t }, 0);
        let event_revenue = self.event_revenue_of(e);
        self.event_revenue.set(e, event_revenue - total);
        proof {
            let mid = PaymentsView { transfers: before.transfers, ..self@ };
            lemma_token_payout_consistent(before, mid, e, t);
        }
        total
    }

    /// Pays out what escrow holds for event `e` in token `t` to `to`, less
    /// the platform fee, which is kept as platform revenue of the event.
    /// Returns the amount paid to `to`.
    fn pay_out_with_fee(&mut self, e: EventId, t: AccountId, to: AccountId, now: u64) -> (paid: i128)
        requires
            ledger_consistent(old(self)@),
            fee_payout_fits(old(self)@, e, t),
        ensures
            ledger_consistent(final(self)@),
            final(self)@ == fee_payout_post(old(self)@, e, t, to, now),
            paid == held_sum(old(self)@.payments, e, t) - platform_fee(
                held_sum(old(self)@.payments, e, t),
                old(self)@.platform_fee_bps,
            ),
    {
        let ghost before = self@;
        proof {
            assert(all_consistent(before.payments));
            assert(amount_of(before.token_revenue, pair(e, t)) == held_sum(before.payments, e, t));
            assert(amount_of(before.event_revenue, e) == held_event_sum(before.payments, e));
            lemma_held_nonneg(before.payments, e, t);
            lemma_held_token_le_event(before.payments, e, t);
        }
        let total = self.token_revenue_of(e, t);
        let bps = self.platform_fee_bps;
        proof {
            assert(0 <= total * bps <= i128::MAX) by (nonlinear_arith)
                requires
                    0 <= total,
                    bps >= 0,
                    total * bps <= i128::MAX,
            ;
            assert(0 <= (total * bps) / 10_000 <= total) by (nonlinear_arith)
                requires
                    0 <= total,
                    0 <= bps <= 10_000,
            ;
        }
        let fee = total * (bps as i128) / 10_000;
        let organizer_amount = total - fee;
        self.transfers.push(
            Transfer { token: t, from: self.contract_address, to, amount: organizer_amount },
        );
        if fee > 0 {
            let platform = match self.platform_revenue.get(&e) {
                Some(x) => x,
                None => 0,
            };
            self.platform_revenue.set(e, platform + fee);
            self.notices.push(
                PaymentNotice::PlatformFeeCollected {
                    event_id: e,
                    fee_amount: fee,
                    organizer_amount,
                    token: t,
                    collected_at: now,
                },
            );
        }
        self.release_payments_for(e, t);
        self.token_revenue.set(PairKey { first: e, second: t }, 0);
        let event_revenue = self.event_revenue_of(e);
        self.event_revenue.set(e, event_revenue - total);
        proof {
            lemma_token_payout_consistent(before, self@, e, t);
            assert(self@ =~= fee_payout_post(before, e, t, to, now));
        }
        organizer_amount
    }

    /// Returns `amount` of a held payment to its payer, or all that remains
    /// of it when no amount is given. Administrator only; refused while
    /// paused. The payment is `Refunded` once nothing of it remains.
    pub fn refund(
        &mut self,
        admin: AccountId,
        payment_id: u64,
        amount: Option<i128>,
        now: u64,
    ) -> (r: Result<(), PaymentError>)
        requires
            ledger_consistent(old(self)@),
        ensures
            ledger_consistent(final(self)@),
            match r {
                Ok(()) => refund_error(old(self)@, admin, payment_id, amount) is None && final(self)@
                    == refund_post(old(self)@, payment_id, amount, now),
                Err(err) => refund_error(old(self)@, admin, payment_id, amount) == Some(err)
                    && final(self)@ == old(self)@,
            },
            r is Ok ==> final(self)@.transfers == old(self)@.transfers.push(
                Transfer {
                    token: old(self)@.payments[payment_id - 1].token,
                    from: old(self)@.contract_address,
                    to: old(self)@.payments[payment_id - 1].payer,
                    amount: (final(self)@.payments[payment_id - 1].refunded_amount - old(
                        self,
                    )@.payments[payment_id - 1].refunded_amount) as i128,
                },
            ),
    {
        if self.paused {
            return Err(PaymentError::ContractPaused);
        }
        self.check_admin(admin)?;
        if !(payment_id >= 1 && payment_id <= self.payments.len() as u64) {
            return Err(PaymentError::PaymentNotFound);
        }
        let idx = (payment_id - 1) as usize;
        let p = self.payments[idx];
        if p.status == PaymentStatus::Refunded {
            return Err(PaymentError::PaymentAlreadyRefunded);
        }
        if p.status != PaymentStatus::Held {
            return Err(PaymentError::PaymentAlreadyProcessed);
        }
        let ghost before = self@;
        proof {
            assert(payment_consistent(before.payments[idx as int]));
            assert(all_consistent(before.payments));
            lemma_held_nonneg(before.payments, p.event_id, p.token);
            assert(amount_of(before.token_revenue, pair(p.event_id, p.token)) == held_sum(
                before.payments,
                p.event_id,
                p.token,
            ));
            assert(amount_of(before.event_revenue, p.event_id) == held_event_sum(
                before.payments,
                p.event_id,
            ));
        }
        let remaining = p.amount - p.refunded_amount;
        let amt = match amount {
            Some(a) => a,
            None => remaining,
        };
        if amt <= 0 || amt > remaining {
            return Err(PaymentError::InvalidAmount);
        }
        self.transfers.push(
            Transfer { token: p.token, from: self.contract_address, to: p.payer, amount: amt },
        );
        let new_refunded = p.refunded_amount + amt;
        let status = if new_refunded == p.amount {
            PaymentStatus::Refunded
        } else {
            PaymentStatus::Held
        };
        self.payments.set(idx, PaymentRecord { refunded_amount: new_refunded, status, ..p });
        let token_revenue = self.token_revenue_of(p.event_id, p.token);
        self.token_revenue.set(PairKey { first: p.event_id, second: p.token }, token_revenue - amt);
        let event_revenue = self.event_revenue_of(p.event_id);
        self.event_revenue.set(p.event_id, event_revenue - amt);
        let level = self.level_of(p.event_id);
        self.notices.push(
            PaymentNotice::PaymentRefunded {
                payment_id,
                event_id: p.event_id,
                payer: p.payer,
                privacy: level,
                amount: amt,
                token: p.token,
                refunded_at: now,
            },
        );
        proof {
            lemma_refund_consistent(before, self@, idx as int, amt as int);
            assert(self@ =~= refund_post(before, payment_id, amount, now));
        }
        Ok(())
    }

    /// The organizer withdraws, less the platform fee, what escrow holds for
    /// a completed event in its payout token.
    pub fn withdraw(&mut self, organizer: AccountId, event_id: EventId, now: u64) -> (r: Result<
        (),
        PaymentError,
    >)
        requires
            ledger_consistent(old(self)@),
            withdraw_error(old(self)@, organizer, event_id) is None ==> fee_payout_fits(
                old(self)@,
                event_id,
                old(self)@.event_config[event_id].payout_token,
            ),
        ensures
            ledger_consistent(final(self)@),
            match r {
                Ok(()) => withdraw_error(old(self)@, organizer, event_id) is None && final(self)@
                    == withdraw_post(old(self)@, organizer, event_id, now),
                Err(err) => withdraw_error(old(self)@, organizer, event_id) == Some(err) && final(
                    self)@ == old(self)@,
            },
            r is Ok ==> old(self)@.event_status.dom().contains(event_id)
                && old(self)@.event_status[event_id] == EventStatus::Completed,
    {
        let config = match self.event_config.get(&event_id) {
            Some(c) => c,
            None => {
                return Err(PaymentError::InvalidOrganizer);
            },
        };
        if organizer != config.organizer {
            return Err(PaymentError::UnauthorizedWithdrawal);
        }
        match self.event_status.get(&event_id) {
            Some(EventStatus::Completed) => {},
            _ => {
                return Err(PaymentError::EventNotCompleted);
            },
        }
        let token = config.payout_token;
        let revenue = self.token_revenue_of(event_id, token);
        if revenue <= 0 {
            return Err(PaymentError::NoRevenue);
        }
        let level = self.level_of(event_id);
        let paid = self.pay_out_with_fee(event_id, token, organizer, now);
        self.notices.push(
            PaymentNotice::RevenueWithdrawn {
                event_id,
                organizer,
                privacy: level,
                amount: paid,
                token,
                to: organizer,
                withdrawn_at: now,
            },
        );
        Ok(())
    }

    /// The administrator pays out, less the platform fee, what escrow holds
    /// for an event in the accepted token to `to`; the withdrawal is recorded.
    pub fn withdraw_revenue(&mut self, event_id: EventId, to: AccountId, now: u64) -> (r: Result<
        (),
        PaymentError,
    >)
        requires
            ledger_consistent(old(self)@),
            withdraw_revenue_error(old(self)@, event_id) is None ==> fee_payout_fits(
                old(self)@,
                event_id,
                old(self)@.accepted_token->0,
            ),
        ensures
            ledger_consistent(final(self)@),
            match r {
                Ok(()) => withdraw_revenue_error(old(self)@, event_id) is None && final(self)@
                    == withdraw_revenue_post(old(self)@, event_id, to, now),
                Err(err) => withdraw_revenue_error(old(self)@, event_id) == Some(err) && final(
                    self)@ == old(self)@,
            },
    {
        if self.admin.is_none() {
            return Err(PaymentError::NotInitialized);
        }
        let token = match self.accepted_token {
            Some(t) => t,
            None => {
                return Err(PaymentError::NotInitialized);
            },
        };
        let revenue = self.token_revenue_of(event_id, token);
        if revenue <= 0 {
            return Err(PaymentError::InvalidAmount);
        }
        let paid = self.pay_out_with_fee(event_id, token, to, now);
        self.withdrawals.push((event_id, WithdrawalRecord { amount: paid, timestamp: now, organizer: to }));
        Ok(())
    }

    /// Pays, without fee, what escrow holds for a completed event in one
    /// token to the caller.
    pub fn withdraw_token(
        &mut self,
        organizer: AccountId,
        event_id: EventId,
        token_address: AccountId,
        now: u64,
    ) -> (r: Result<(), PaymentError>)
        requires
            ledger_consistent(old(self)@),
        ensures
            ledger_consistent(final(self)@),
            match r {
                Ok(()) => withdraw_token_error(old(self)@, event_id, token_address) is None && final(
                    self)@ == withdraw_token_post(old(self)@, organizer, event_id, token_address, now),
                Err(err) => withdraw_token_error(old(self)@, event_id, token_address) == Some(err)
                    && final(self)@ == old(self)@,
            },
            r is Ok ==> old(self)@.event_status.dom().contains(event_id)
                && old(self)@.event_status[event_id] == EventStatus::Completed,
    {
        match self.event_status.get(&event_id) {
            Some(EventStatus::Completed) => {},
            _ => {
                return Err(PaymentError::EventNotCompleted);
            },
        }
        let revenue = self.token_revenue_of(event_id, token_address);
        if revenue <= 0 {
            return Err(PaymentError::NoRevenue);
        }
        let level = self.level_of(event_id);
        let total = self.pay_out_token(event_id, token_address, organizer);
        self.notices.push(
            PaymentNotice::RevenueWithdrawn {
                event_id,
                organizer,
                privacy: level,
                amount: total,
                token: token_address,
                to: organizer,
                withdrawn_at: now,
            },
        );
        Ok(())
    }

    /// The administrator sends the platform fees collected for an event to
    /// the platform wallet, in the accepted token.
    pub fn withdraw_platform_revenue(&mut self, event_id: EventId, now: u64) -> (r: Result<
        (),
        PaymentError,
    >)
        requires
            ledger_consistent(old(self)@),
        ensures
            ledger_consistent(final(self)@),
            match r {
                Ok(()) => withdraw_platform_error(old(self)@, event_id) is None && final(self)@ == (
                PaymentsView {
                    platform_revenue: old(self)@.platform_revenue.insert(event_id, 0),
                    transfers: old(self)@.transfers.push(
                        Transfer {
                            token: old(self)@.accepted_token->0,
                            from: old(self)@.contract_address,
                            to: old(self)@.platform_wallet->0,
                            amount: amount_of(old(self)@.platform_revenue, event_id),
                        },
                    ),
                    notices: old(self)@.notices.push(
                        PaymentNotice::PlatformRevenueWithdrawn {
                            event_id,
                            amount: amount_of(old(self)@.platform_revenue, event_id),
                            token: old(self)@.accepted_token->0,
                            to: old(self)@.platform_wallet->0,
                            withdrawn_at: now,
                        },
                    ),
                    ..old(self)@
                }),
                Err(err) => withdraw_platform_error(old(self)@, event_id) == Some(err) && final(
                    self)@ == old(self)@,
            },
    {
        if self.admin.is_none() {
            return Err(PaymentError::NotInitialized);
        }
        let platform = self.get_platform_revenue(event_id);
        if platform <= 0 {
            return Err(PaymentError::NoPlatformRevenue);
        }
        let wallet = match self.platform_wallet {
            Some(w) => w,
            None => {
                return Err(PaymentError::NotInitialized);
            },
        };
        let token = match self.accepted_token {
            Some(t) => t,
            None => {
                return Err(PaymentError::NotInitialized);
            },
        };
        self.transfers.push(
            Transfer { token, from: self.contract_address, to: wallet, amount: platform },
        );
        self.platform_revenue.set(event_id, 0);
        self.notices.push(
            PaymentNotice::PlatformRevenueWithdrawn {
                event_id,
                amount: platform,
                token,
                to: wallet,
                withdrawn_at: now,
            },
        );
        Ok(())
    }
}

fn contains_account(v: &Vec<AccountId>, x: AccountId) -> (r: bool)
    ensures
        r == v@.contains(x),
{
    let mut i: usize = 0;
    while i < v.len()
        invariant
            i <= v@.len(),
            forall|k: int| 0 <= k < i ==> v@[k] != x,
        decreases v@.len() - i,
    {
        if v[i] == x {
            assert(v@[i as int] == x);
            return true;
        }
        i = i + 1;
    }
    false
}

impl PaymentsContract {
    /// The tokens paid in for an event, each once, in the order of first payment.
    pub fn get_event_tokens(&self, event_id: EventId) -> (r: Vec<AccountId>)
        ensures
            r@ == tokens_of(self@.payments, event_id),
    {
        let mut r: Vec<AccountId> = Vec::new();
        let mut i: usize = 0;
        while i < self.payments.len()
            invariant
                i <= self.payments@.len(),
                r@ == tokens_of(self.payments@.take(i as int), event_id),
            decreases self.payments@.len() - i,
        {
            assert(self.payments@.take(i + 1).drop_last() =~= self.payments@.take(i as int));
            let p = self.payments[i];
            if p.event_id == event_id && !contains_account(&r, p.token) {
                r.push(p.token);
            }
            i = i + 1;
        }
        assert(self.payments@.take(i as int) =~= self.payments@);
        r
    }

    /// Pays out, token by token and without fee, everything escrow holds
    /// for event `e` to `to`; optionally notifies each payout. Returns the
    /// total paid.
    fn pay_out_event(
        &mut self,
        e: EventId,
        to: AccountId,
        notify: bool,
        level: PrivacyLevel,
        now: u64,
    ) -> (grand: i128)
        requires
            ledger_consistent(old(self)@),
        ensures
            ledger_consistent(final(self)@),
            grand == payout_total(old(self)@.payments, tokens_of(old(self)@.payments, e), e),
            grand == held_event_sum(old(self)@.payments, e),
            final(self)@ == (PaymentsView {
                payments: release_event(old(self)@.payments, e),
                token_revenue: final(self)@.token_revenue,
                event_revenue: final(self)@.event_revenue,
                transfers: old(self)@.transfers + payout_transfers(
                    old(self)@.payments,
                    tokens_of(old(self)@.payments, e),
                    e,
                    old(self)@.contract_address,
                    to,
                ),
                notices: if notify {
                    old(self)@.notices + payout_notices(
                        old(self)@.payments,
                        tokens_of(old(self)@.payments, e),
                        e,
                        to,
                        level,
                        now,
                    )
                } else {
                    old(self)@.notices
                },
                ..old(self)@
            }),
    {
        let tokens = self.get_event_tokens(e);
        let ghost before = self@;
        let ghost ps0 = before.payments;
        proof {
            lemma_tokens_of(ps0, e);
            assert(all_consistent(ps0));
            assert(amount_of(before.event_revenue, e) == held_event_sum(ps0, e));
            assert(tokens@.take(0) =~= Seq::<AccountId>::empty());
            assert(release_tokens(ps0, e, Seq::<AccountId>::empty()) =~= ps0);
            assert(before.transfers + Seq::<Transfer>::empty() =~= before.transfers);
            assert(before.notices + Seq::<PaymentNotice>::empty() =~= before.notices);
        }
        let mut grand: i128 = 0;
        let mut j: usize = 0;
        while j < tokens.len()
            invariant
                j <= tokens@.len(),
                tokens@ == tokens_of(ps0, e),
                forall|a: int, b: int| 0 <= a < b < tokens@.len() ==> tokens@[a] != tokens@[b],
                forall|i: int|
                    0 <= i < ps0.len() && (#[trigger] ps0[i]).event_id == e ==> tokens@.contains(
                        ps0[i].token,
                    ),
                ledger_consistent(self@),
                all_consistent(ps0),
                self.payments@ == release_tokens(ps0, e, tokens@.take(j as int)),
                self@ == (PaymentsView {
                    payments: self@.payments,
                    token_revenue: self@.token_revenue,
                    event_revenue: self@.event_revenue,
                    transfers: before.transfers + payout_transfers(
                        ps0,
                        tokens@.take(j as int),
                        e,
                        before.contract_address,
                        to,
                    ),
                    notices: if notify {
                        before.notices + payout_notices(
                            ps0,
                            tokens@.take(j as int),
                            e,
                            to,
                            level,
                            now,
                        )
                    } else {
                        before.notices
                    },
                    ..before
                }),
                grand == payout_total(ps0, tokens@.take(j as int), e),
                grand + amount_of(self@.event_revenue, e) == amount_of(before.event_revenue, e),
            decreases tokens@.len() - j,
        {
            let t = tokens[j];
            let ghost cur = self@;
            let ghost prefix = tokens@.take(j as int);
            proof {
                assert(!prefix.contains(t)) by {
                    if prefix.contains(t) {
                        let k = choose|k: int| 0 <= k < prefix.len() && prefix[k] == t;
                        assert(tokens@[k] == tokens@[j as int]);
                    }
                }
                assert forall|k: int| 0 <= k < ps0.len() implies held_share(
                    #[trigger] cur.payments[k],
                    e,
                    t,
                ) == held_share(ps0[k], e, t) by {}
                lemma_held_congruent(cur.payments, ps0, e, t);
                assert(tokens@.take(j + 1) =~= prefix.push(t));
                assert(tokens@.take(j + 1).drop_last() =~= prefix);
                assert(amount_of(cur.token_revenue, pair(e, t)) == held_sum(cur.payments, e, t));
                assert(amount_of(cur.event_revenue, e) == held_event_sum(cur.payments, e));
                assert(all_consistent(cur.payments));
                lemma_held_token_le_event(cur.payments, e, t);
                lemma_held_nonneg(cur.payments, e, t);
                lemma_release_tokens_step(ps0, e, prefix, t);
            }
            let total = self.token_revenue_of(e, t);
            if total > 0 {
                self.pay_out_token(e, t, to);
                if notify {
                    self.notices.push(
                        PaymentNotice::RevenueWithdrawn {
                            event_id: e,
                            organizer: to,
                            privacy: level,
                            amount: total,
                            token: t,
                            to,
                            withdrawn_at: now,
                        },
                    );
                }
                grand = grand + total;
                proof {
                    assert(self@.transfers =~= before.transfers + payout_transfers(
                        ps0,
                        tokens@.take(j + 1),
                        e,
                        before.contract_address,
                        to,
                    ));
                    if notify {
                        assert(self@.notices =~= before.notices + payout_notices(
                            ps0,
                            tokens@.take(j + 1),
                            e,
                            to,
                            level,
                            now,
                        ));
                    }
                }
            } else {
                proof {
                    lemma_held_zero(cur.payments, e, t);
                    assert(release_token(cur.payments, e, t) =~= cur.payments);
                }
            }
            j = j + 1;
        }
        proof {
            assert(tokens@.take(j as int) =~= tokens@);
            assert(release_tokens(ps0, e, tokens@) =~= release_event(ps0, e));
            lemma_release_event_sums(ps0, e, e, 0);
            assert(amount_of(self@.event_revenue, e) == held_event_sum(self@.payments, e));
        }
        grand
    }

    /// Once an event's end time has passed, pays everything escrow holds for
    /// it to the organizer recorded in its escrow terms, token by token, and
    /// marks the escrow released. Anyone may trigger it; it runs once.
    pub fn release_if_expired(&mut self, event_id: EventId, now: u64) -> (r: Result<
        (),
        PaymentError,
    >)
        requires
            ledger_consistent(old(self)@),
        ensures
            ledger_consistent(final(self)@),
            match r {
                Ok(()) => release_error(old(self)@, event_id, now) is None && payout_total(
                    old(self)@.payments,
                    tokens_of(old(self)@.payments, event_id),
                    event_id,
                ) == held_event_sum(old(self)@.payments, event_id) && final(self)@ == (
                PaymentsView {
                    payments: release_event(old(self)@.payments, event_id),
                    token_revenue: final(self)@.token_revenue,
                    event_revenue: final(self)@.event_revenue,
                    escrow: old(self)@.escrow.insert(
                        event_id,
                        EscrowMetadata { auto_released: true, ..old(self)@.escrow[event_id] },
                    ),
                    transfers: old(self)@.transfers + payout_transfers(
                        old(self)@.payments,
                        tokens_of(old(self)@.payments, event_id),
                        event_id,
                        old(self)@.contract_address,
                        old(self)@.escrow[event_id].organizer,
                    ),
                    notices: old(self)@.notices.push(
                        PaymentNotice::EscrowAutoReleased {
                            event_id,
                            organizer: old(self)@.escrow[event_id].organizer,
                            amount: held_event_sum(old(self)@.payments, event_id) as i128,
                            released_at: now,
                        },
                    ),
                    ..old(self)@
                }),
                Err(err) => release_error(old(self)@, event_id, now) == Some(err) && final(self)@
                    == old(self)@,
            },
    {
        let meta = match self.escrow.get(&event_id) {
            Some(m) => m,
            None => {
                return Err(PaymentError::EscrowNotConfigured);
            },
        };
        if meta.auto_released {
            return Err(PaymentError::EscrowAlreadyReleased);
        }
        if now < meta.event_end_time {
            return Err(PaymentError::EscrowNotExpired);
        }
        let level = self.level_of(event_id);
        let total = self.pay_out_event(event_id, meta.organizer, false, level, now);
        self.escrow.set(event_id, EscrowMetadata { auto_released: true, ..meta });
        self.notices.push(
            PaymentNotice::EscrowAutoReleased {
                event_id,
                organizer: meta.organizer,
                amount: total,
                released_at: now,
            },
        );
        Ok(())
    }

    /// Pays the caller, without fee and token by token, everything escrow
    /// holds for a completed event.
    pub fn withdraw_all_tokens(&mut self, organizer: AccountId, event_id: EventId, now: u64) -> (r:
        Result<(), PaymentError>)
        requires
            ledger_consistent(old(self)@),
        ensures
            ledger_consistent(final(self)@),
            match r {
                Ok(()) => withdraw_all_error(old(self)@, event_id) is None && payout_total(
                    old(self)@.payments,
                    tokens_of(old(self)@.payments, event_id),
                    event_id,
                ) == held_event_sum(old(self)@.payments, event_id) && final(self)@ == (
                PaymentsView {
                    payments: release_event(old(self)@.payments, event_id),
                    token_revenue: final(self)@.token_revenue,
                    event_revenue: final(self)@.event_revenue,
                    transfers: old(self)@.transfers + payout_transfers(
                        old(self)@.payments,
                        tokens_of(old(self)@.payments, event_id),
                        event_id,
                        old(self)@.contract_address,
                        organizer,
                    ),
                    notices: old(self)@.notices + payout_notices(
                        old(self)@.payments,
                        tokens_of(old(self)@.payments, event_id),
                        event_id,
                        organizer,
                        emission_level(old(self)@, event_id),
                        now,
                    ),
                    ..old(self)@
                }),
                Err(err) => withdraw_all_error(old(self)@, event_id) == Some(err) && final(self)@
                    == old(self)@,
            },
            r is Ok ==> old(self)@.event_status.dom().contains(event_id)
                && old(self)@.event_status[event_id] == EventStatus::Completed,
    {
        match self.event_status.get(&event_id) {
            Some(EventStatus::Completed) => {},
            _ => {
                return Err(PaymentError::EventNotCompleted);
            },
        }
        let tokens = self.get_event_tokens(event_id);
        if tokens.len() == 0 {
            return Err(PaymentError::NoRevenue);
        }
        let level = self.level_of(event_id);
        self.pay_out_event(event_id, organizer, true, level, now);
        Ok(())
    }
}

impl PaymentsContract {
    /// The identifiers of the tickets a wallet owns, oldest first.
    pub fn get_owner_tickets(&self, owner: AccountId) -> (r: Vec<u64>)
        ensures
            r@ == ticket_ids_of_owner(self@.tickets, owner),
    {
        let mut r: Vec<u64> = Vec::new();
        let mut i: usize = 0;
        while i < self.tickets.len()
            invariant
                i <= self.tickets@.len(),
                r@ == ticket_ids_of_owner(self.tickets@.take(i as int), owner),
            decreases self.tickets@.len() - i,
        {
            assert(self.tickets@.take(i + 1).drop_last() =~= self.tickets@.take(i as int));
            let t = self.tickets[i];
            if t.owner == owner {
                r.push(t.ticket_id);
            }
            i = i + 1;
        }
        assert(self.tickets@.take(i as int) =~= self.tickets@);
        r
    }

    /// The payments made for an event, oldest first.
    pub fn get_payments_by_event(&self, event_id: EventId) -> (r: Vec<PaymentRecord>)
        ensures
            r@ == payments_of_event(self@.payments, event_id),
    {
        let mut r: Vec<PaymentRecord> = Vec::new();
        let mut i: usize = 0;
        while i < self.payments.len()
            invariant
                i <= self.payments@.len(),
                r@ == payments_of_event(self.payments@.take(i as int), event_id),
            decreases self.payments@.len() - i,
        {
            assert(self.payments@.take(i + 1).drop_last() =~= self.payments@.take(i as int));
            let p = self.payments[i];
            if p.event_id == event_id {
                r.push(p);
            }
            i = i + 1;
        }
        assert(self.payments@.take(i as int) =~= self.payments@);
        r
    }

    /// The identifiers of the payments made for an event, oldest first.
    pub fn get_event_payments(&self, event_id: EventId) -> (r: Vec<u64>)
        ensures
            r@ == payment_ids(payments_of_event(self@.payments, event_id)),
    {
        let payments = self.get_payments_by_event(event_id);
        let mut r: Vec<u64> = Vec::new();
        let mut i: usize = 0;
        while i < payments.len()
            invariant
                i <= payments@.len(),
                r@ == payment_ids(payments@.take(i as int)),
            decreases payments@.len() - i,
        {
            r.push(payments[i].payment_id);
            assert(payment_ids(payments@.take(i + 1)) =~= payment_ids(payments@.take(i as int)).push(
                payments@[i as int].payment_id,
            ));
            i = i + 1;
        }
        assert(payments@.take(i as int) =~= payments@);
        r
    }

    /// The payments made by a user, oldest first.
    pub fn get_payments_by_user(&self, user: AccountId) -> (r: Vec<PaymentRecord>)
        ensures
            r@ == payments_of_payer(self@.payments, user),
    {
        let mut r: Vec<PaymentRecord> = Vec::new();
        let mut i: usize = 0;
        while i < self.payments.len()
            invariant
                i <= self.payments@.len(),
                r@ == payments_of_payer(self.payments@.take(i as int), user),
            decreases self.payments@.len() - i,
        {
            assert(self.payments@.take(i + 1).drop_last() =~= self.payments@.take(i as int));
            let p = self.payments[i];
            if p.payer == user {
                r.push(p);
            }
            i = i + 1;
        }
        assert(self.payments@.take(i as int) =~= self.payments@);
        r
    }

    /// The withdrawals recorded for an event, oldest first.
    pub fn get_withdrawal_history(&self, event_id: EventId) -> (r: Vec<WithdrawalRecord>)
        ensures
            r@ == withdrawals_of(self@.withdrawals, event_id),
    {
        let mut r: Vec<WithdrawalRecord> = Vec::new();
        let mut i: usize = 0;
        while i < self.withdrawals.len()
            invariant
                i <= self.withdrawals@.len(),
                r@ == withdrawals_of(self.withdrawals@.take(i as int), event_id),
            decreases self.withdrawals@.len() - i,
        {
            assert(self.withdrawals@.take(i + 1).drop_last() =~= self.withdrawals@.take(i as int));
            let w = self.withdrawals[i];
            if w.0 == event_id {
                r.push(w.1);
            }
            i = i + 1;
        }
        assert(self.withdrawals@.take(i as int) =~= self.withdrawals@);
        r
    }
}

} // verus!
