use std::collections::HashMap;

use zicket::{
    EventStatus, PaymentError, PaymentNotice, PaymentPrivacy, PaymentStatus, PaymentsContract,
    PrivacyLevel,
};

const CONTRACT: u64 = 100;
const ADMIN: u64 = 1;
const TOKEN: u64 = 2;
const PLATFORM_WALLET: u64 = 3;
const EVENT_CONTRACT: u64 = 4;
const PAYER: u64 = 10;
const PAYER2: u64 = 11;
const PAYER3: u64 = 12;
const ORGANIZER: u64 = 20;
const OUTSIDER: u64 = 30;

const EVENT1: u64 = 1001;
const EVENT2: u64 = 1002;

/// The contract together with token balances that its transfers move.
struct World {
    c: PaymentsContract,
    balances: HashMap<(u64, u64), i128>,
}

impl World {
    fn with_fee(fee_bps: u32) -> World {
        let mut c = PaymentsContract::new(CONTRACT);
        c.initialize(ADMIN, TOKEN, fee_bps, PLATFORM_WALLET, EVENT_CONTRACT).unwrap();
        World { c, balances: HashMap::new() }
    }

    fn new() -> World {
        World::with_fee(0)
    }

    fn mint(&mut self, to: u64, amount: i128) {
        *self.balances.entry((TOKEN, to)).or_insert(0) += amount;
    }

    fn balance(&self, token: u64, account: u64) -> i128 {
        *self.balances.get(&(token, account)).unwrap_or(&0)
    }

    /// Carries out the queued transfers; a transfer beyond a balance fails
    /// as the token contract does.
    fn settle(&mut self) {
        for t in self.c.take_transfers() {
            let from = self.balance(t.token, t.from);
            assert!(from >= t.amount, "insufficient balance");
            self.balances.insert((t.token, t.from), from - t.amount);
            let to = self.balance(t.token, t.to);
            self.balances.insert((t.token, t.to), to + t.amount);
        }
    }

    fn pay(&mut self, nonce: u64, payer: u64, event: u64, amount: i128) -> Result<u64, PaymentError> {
        self.pay_at(nonce, payer, event, amount, 0)
    }

    fn pay_at(
        &mut self,
        nonce: u64,
        payer: u64,
        event: u64,
        amount: i128,
        now: u64,
    ) -> Result<u64, PaymentError> {
        let r = self.c.pay_for_ticket(
            nonce,
            payer,
            event,
            amount,
            None,
            TOKEN,
            PaymentPrivacy::Standard,
            now,
        );
        self.settle();
        r
    }

    fn bind_event(&mut self, event: u64, organizer: u64) {
        self.c
            .sync_event_config(EVENT_CONTRACT, event, organizer, TOKEN, true, false, 0, 0)
            .unwrap();
    }

    fn set_status(&mut self, event: u64, status: EventStatus) {
        self.c.set_event_status(ADMIN, event, status).unwrap();
    }
}

#[test]
fn test_initialize() {
    let w = World::with_fee(250);
    assert_eq!(w.c.get_admin(), Ok(ADMIN));
    assert_eq!(w.c.get_accepted_token(), Ok(TOKEN));
    assert_eq!(w.c.get_platform_fee_bps(), 250);
}

#[test]
fn test_double_initialization() {
    let mut w = World::new();
    let result = w.c.initialize(ADMIN, TOKEN, 0, PLATFORM_WALLET, EVENT_CONTRACT);
    assert!(result.is_ok());
    assert_eq!(w.c.get_admin(), Ok(ADMIN));
    assert_eq!(w.c.get_accepted_token(), Ok(TOKEN));
}

#[test]
fn test_get_nonexistent_payment() {
    let w = World::new();
    assert_eq!(w.c.get_payment(999).err(), Some(PaymentError::PaymentNotFound));
}

#[test]
fn test_get_event_revenue_initial() {
    let w = World::new();
    assert_eq!(w.c.get_event_revenue(EVENT1), 0);
}

#[test]
fn test_pause_unpause_and_blocks_sensitive_actions() {
    let mut w = World::new();
    let amount = 100_000_000i128;
    w.mint(PAYER, amount);

    assert!(!w.c.is_paused());
    w.c.set_paused(ADMIN, true).unwrap();
    assert!(w.c.is_paused());

    let status_result = w.c.set_event_status(ADMIN, EVENT1, EventStatus::Active);
    assert_eq!(status_result.err(), Some(PaymentError::ContractPaused));

    let payment_result = w.pay(1, PAYER, EVENT1, amount);
    assert_eq!(payment_result.err(), Some(PaymentError::ContractPaused));
    assert_eq!(w.balance(TOKEN, PAYER), amount);

    let fee_result = w.c.set_platform_fee(250, 40, 0);
    assert_eq!(fee_result.err(), Some(PaymentError::ContractPaused));

    w.c.set_paused(ADMIN, false).unwrap();
    assert!(!w.c.is_paused());
    w.set_status(EVENT1, EventStatus::Active);

    let payment_id = w.pay(1, PAYER, EVENT1, amount).unwrap();

    w.c.set_paused(ADMIN, true).unwrap();
    let refund_result = w.c.refund(ADMIN, payment_id, None, 0);
    assert_eq!(refund_result.err(), Some(PaymentError::ContractPaused));
    assert_eq!(w.c.get_payment(payment_id).unwrap().status, PaymentStatus::Held);
}

#[test]
fn test_pause_requires_admin() {
    let mut w = World::new();
    let result = w.c.set_paused(OUTSIDER, true);
    assert_eq!(result.err(), Some(PaymentError::Unauthorized));
    assert!(!w.c.is_paused());

    w.c.set_paused(ADMIN, true).unwrap();
    assert!(w.c.is_paused());
}

#[test]
fn test_pay_for_ticket() {
    let mut w = World::new();
    let amount = 100_000_000i128;
    w.mint(PAYER, amount);

    let payment_id = w.pay(1, PAYER, EVENT1, amount).unwrap();

    let payment = w.c.get_payment(payment_id).unwrap();
    assert_eq!(payment.payment_id, payment_id);
    assert_eq!(payment.event_id, EVENT1);
    assert_eq!(payment.payer, PAYER);
    assert_eq!(payment.amount, amount);
    assert_eq!(payment.token, TOKEN);
    assert_eq!(payment.status, PaymentStatus::Held);
    assert_eq!(payment.privacy_level, PaymentPrivacy::Standard);

    let owner_tickets = w.c.get_owner_tickets(PAYER);
    assert_eq!(owner_tickets.len(), 1);
    let ticket_id = owner_tickets[0];
    let ticket = w.c.get_ticket(ticket_id).unwrap();
    assert_eq!(ticket.ticket_id, ticket_id);
    assert_eq!(ticket.event_id, EVENT1);
    assert_eq!(ticket.owner, PAYER);
    assert_eq!(ticket.payment_id, payment_id);

    assert_eq!(w.balance(TOKEN, CONTRACT), amount);
    assert_eq!(w.balance(TOKEN, PAYER), 0);
    assert_eq!(w.c.get_event_revenue(EVENT1), amount);
}

#[test]
fn test_payment_issues_ticket_and_links_payment() {
    let mut w = World::new();
    let amount = 100_000_000i128;
    w.mint(PAYER, amount);

    let payment_id = w.pay(1, PAYER, EVENT1, amount).unwrap();
    let owner_tickets = w.c.get_owner_tickets(PAYER);
    assert_eq!(owner_tickets.len(), 1);
    let ticket = w.c.get_ticket(owner_tickets[0]).unwrap();
    assert_eq!(ticket.ticket_id, owner_tickets[0]);
    assert_eq!(ticket.event_id, EVENT1);
    assert_eq!(ticket.owner, PAYER);
    assert_eq!(ticket.payment_id, payment_id);
}

#[test]
fn test_multiple_payments_create_distinct_tickets_for_owner() {
    let mut w = World::new();
    let amount1 = 100_000_000i128;
    let amount2 = 50_000_000i128;
    w.mint(PAYER, amount1 + amount2);

    let payment_id_1 = w.pay(1, PAYER, EVENT1, amount1).unwrap();
    let payment_id_2 = w.pay(2, PAYER, EVENT1, amount2).unwrap();

    let owner_tickets = w.c.get_owner_tickets(PAYER);
    assert_eq!(owner_tickets.len(), 2);
    let ticket_1 = w.c.get_ticket(owner_tickets[0]).unwrap();
    let ticket_2 = w.c.get_ticket(owner_tickets[1]).unwrap();
    assert_ne!(ticket_1.ticket_id, ticket_2.ticket_id);
    assert_eq!(ticket_1.owner, PAYER);
    assert_eq!(ticket_2.owner, PAYER);
    assert_eq!(ticket_1.payment_id, payment_id_1);
    assert_eq!(ticket_2.payment_id, payment_id_2);
}

#[test]
fn test_pay_for_ticket_invalid_amount_zero() {
    let mut w = World::new();
    let result = w.pay(1, PAYER, EVENT1, 0);
    assert_eq!(result.err(), Some(PaymentError::InvalidAmount));
}

#[test]
fn test_pay_for_ticket_invalid_amount_negative() {
    let mut w = World::new();
    let result = w.pay(1, PAYER, EVENT1, -1);
    assert_eq!(result.err(), Some(PaymentError::InvalidAmount));
}

#[test]
fn test_pay_for_ticket_rejects_anonymous_when_disabled() {
    let mut w = World::new();
    let amount = 100_000_000i128;
    w.c.sync_event_privacy(EVENT_CONTRACT, EVENT1, false, false).unwrap();
    w.mint(PAYER, amount);

    let result = w.c.pay_for_ticket_with_options(1, PAYER, EVENT1, amount, TOKEN, true, false, 0);
    assert_eq!(result.err(), Some(PaymentError::AnonymousPaymentsDisabled));
}

#[test]
fn test_pay_for_ticket_rejects_unverified_when_required() {
    let mut w = World::new();
    let amount = 100_000_000i128;
    w.c.sync_event_privacy(EVENT_CONTRACT, EVENT1, true, true).unwrap();
    w.mint(PAYER, amount);

    let result = w.c.pay_for_ticket_with_options(1, PAYER, EVENT1, amount, TOKEN, false, false, 0);
    assert_eq!(result.err(), Some(PaymentError::VerificationRequired));
}

#[test]
fn test_pay_for_ticket_with_options_allows_verified_flow() {
    let mut w = World::new();
    let amount = 100_000_000i128;
    w.c.sync_event_privacy(EVENT_CONTRACT, EVENT1, false, true).unwrap();
    w.mint(PAYER, amount);

    let payment_id = w
        .c
        .pay_for_ticket_with_options(1, PAYER, EVENT1, amount, TOKEN, false, true, 0)
        .unwrap();
    w.settle();

    let payment = w.c.get_payment(payment_id).unwrap();
    assert_eq!(payment.status, PaymentStatus::Held);
    assert_eq!(w.balance(TOKEN, CONTRACT), amount);
}

#[test]
fn test_pay_for_ticket_multiple_payments() {
    let mut w = World::new();
    let amount1 = 100_000_000i128;
    let amount2 = 200_000_000i128;
    let amount3 = 50_000_000i128;
    w.mint(PAYER, amount1 + amount3);
    w.mint(PAYER2, amount2);

    let payment_id1 = w.pay(1, PAYER, EVENT1, amount1).unwrap();
    let payment_id2 = w.pay(2, PAYER2, EVENT2, amount2).unwrap();
    let payment_id3 = w.pay(3, PAYER, EVENT1, amount3).unwrap();

    assert_eq!(payment_id1, 1);
    assert_eq!(payment_id2, 2);
    assert_eq!(payment_id3, 3);

    let payment1 = w.c.get_payment(payment_id1).unwrap();
    assert_eq!(payment1.event_id, EVENT1);
    assert_eq!(payment1.payer, PAYER);
    assert_eq!(payment1.amount, amount1);
    assert_eq!(payment1.status, PaymentStatus::Held);

    let payment2 = w.c.get_payment(payment_id2).unwrap();
    assert_eq!(payment2.event_id, EVENT2);
    assert_eq!(payment2.payer, PAYER2);
    assert_eq!(payment2.amount, amount2);
    assert_eq!(payment2.status, PaymentStatus::Held);

    let payment3 = w.c.get_payment(payment_id3).unwrap();
    assert_eq!(payment3.event_id, EVENT1);
    assert_eq!(payment3.payer, PAYER);
    assert_eq!(payment3.amount, amount3);
    assert_eq!(payment3.status, PaymentStatus::Held);

    assert_eq!(w.c.get_event_revenue(EVENT1), amount1 + amount3);
    assert_eq!(w.c.get_event_revenue(EVENT2), amount2);
    assert_eq!(w.balance(TOKEN, CONTRACT), amount1 + amount2 + amount3);
}

#[test]
fn test_pay_for_ticket_query_record() {
    let mut w = World::new();
    let amount = 100_000_000i128;
    w.mint(PAYER, amount);

    let payment_id = w.pay_at(1, PAYER, EVENT1, amount, 1704067200).unwrap();
    let payment = w.c.get_payment(payment_id).unwrap();
    assert_eq!(payment.payment_id, payment_id);
    assert_eq!(payment.event_id, EVENT1);
    assert_eq!(payment.payer, PAYER);
    assert_eq!(payment.amount, amount);
    assert_eq!(payment.token, TOKEN);
    assert_eq!(payment.status, PaymentStatus::Held);
    assert!(payment.paid_at > 0);
}

#[test]
fn test_withdraw_revenue_success() {
    let mut w = World::new();
    let amount = 100_000_000i128;
    w.mint(PAYER, amount);
    w.pay_at(1, PAYER, EVENT1, amount, 1704067200).unwrap();

    assert_eq!(w.balance(TOKEN, PAYER), 0);
    assert_eq!(w.balance(TOKEN, CONTRACT), amount);
    assert_eq!(w.c.get_event_revenue(EVENT1), amount);

    w.c.withdraw_revenue(EVENT1, ORGANIZER, 1704067200).unwrap();
    w.settle();

    assert_eq!(w.balance(TOKEN, CONTRACT), 0);
    assert_eq!(w.balance(TOKEN, ORGANIZER), amount);
    assert_eq!(w.c.get_event_revenue(EVENT1), 0);

    let history = w.c.get_withdrawal_history(EVENT1);
    assert_eq!(history.len(), 1);
    assert_eq!(history[0].amount, amount);
    assert_eq!(history[0].organizer, ORGANIZER);
    assert_eq!(history[0].timestamp, 1704067200);

    let result = w.c.withdraw_revenue(EVENT1, ORGANIZER, 1704067200);
    assert!(result.is_err());
}

#[test]
fn test_multiple_withdrawals_tracked() {
    let mut w = World::new();
    let amount = 100_000_000i128;
    w.mint(PAYER, amount);
    let payment_id = w.pay(1, PAYER, EVENT1, amount).unwrap();
    let result = w.c.refund(OUTSIDER, payment_id, None, 0);
    assert_eq!(result.err(), Some(PaymentError::Unauthorized));
}

#[test]
fn test_refund_after_withdrawal() {
    let mut w = World::new();
    let amount = 100_000_000i128;
    w.mint(PAYER, amount * 3);

    w.pay(1, PAYER, EVENT1, amount).unwrap();
    w.c.withdraw_revenue(EVENT1, ORGANIZER, 0).unwrap();
    w.settle();

    w.bind_event(EVENT1, ORGANIZER);
    let payment_id = w.pay(123, PAYER, EVENT1, amount).unwrap();

    w.set_status(EVENT1, EventStatus::Completed);
    w.c.withdraw(ORGANIZER, EVENT1, 0).unwrap();
    w.settle();

    let result = w.c.refund(ADMIN, payment_id, None, 0);
    assert_eq!(result.err(), Some(PaymentError::PaymentAlreadyProcessed));
}

#[test]
fn test_withdraw_happy_path() {
    let mut w = World::new();
    let amount1 = 100_000_000i128;
    let amount2 = 50_000_000i128;
    w.mint(PAYER, amount1);
    w.mint(PAYER2, amount2);

    w.bind_event(EVENT1, ORGANIZER);
    let pid1 = w.pay(1, PAYER, EVENT1, amount1).unwrap();
    let pid2 = w.pay(1, PAYER2, EVENT1, amount2).unwrap();

    w.set_status(EVENT1, EventStatus::Completed);
    w.c.withdraw(ORGANIZER, EVENT1, 0).unwrap();
    w.settle();

    assert_eq!(w.balance(TOKEN, ORGANIZER), amount1 + amount2);
    assert_eq!(w.balance(TOKEN, CONTRACT), 0);
    assert_eq!(w.c.get_event_revenue(EVENT1), 0);
    assert_eq!(w.c.get_payment(pid1).unwrap().status, PaymentStatus::Released);
    assert_eq!(w.c.get_payment(pid2).unwrap().status, PaymentStatus::Released);
}

#[test]
fn test_withdraw_no_revenue() {
    let mut w = World::new();
    w.bind_event(EVENT1, ORGANIZER);
    w.set_status(EVENT1, EventStatus::Completed);
    let result = w.c.withdraw(ORGANIZER, EVENT1, 0);
    assert_eq!(result.err(), Some(PaymentError::NoRevenue));
}

#[test]
fn test_mixed_refund_then_withdraw() {
    let mut w = World::new();
    let amount1 = 100_000_000i128;
    let amount2 = 50_000_000i128;
    let amount3 = 75_000_000i128;
    w.mint(PAYER, amount1);
    w.mint(PAYER2, amount2);
    w.mint(PAYER3, amount3);

    w.bind_event(EVENT1, ORGANIZER);
    let pid1 = w.pay(1, PAYER, EVENT1, amount1).unwrap();
    let pid2 = w.pay(1, PAYER2, EVENT1, amount2).unwrap();
    let pid3 = w.pay(1, PAYER3, EVENT1, amount3).unwrap();

    w.c.refund(ADMIN, pid2, None, 0).unwrap();
    w.settle();
    assert_eq!(w.c.get_event_revenue(EVENT1), amount1 + amount3);
    assert_eq!(w.balance(TOKEN, PAYER2), amount2);

    w.set_status(EVENT1, EventStatus::Completed);
    w.c.withdraw(ORGANIZER, EVENT1, 0).unwrap();
    w.settle();

    assert_eq!(w.balance(TOKEN, ORGANIZER), amount1 + amount3);
    assert_eq!(w.balance(TOKEN, CONTRACT), 0);
    assert_eq!(w.c.get_event_revenue(EVENT1), 0);
    assert_eq!(w.c.get_payment(pid1).unwrap().status, PaymentStatus::Released);
    assert_eq!(w.c.get_payment(pid2).unwrap().status, PaymentStatus::Refunded);
    assert_eq!(w.c.get_payment(pid3).unwrap().status, PaymentStatus::Released);
}

#[test]
fn test_refund_reduces_revenue_correctly() {
    let mut w = World::new();
    let amount1 = 100_000_000i128;
    let amount2 = 50_000_000i128;
    w.mint(PAYER, amount1);
    w.mint(PAYER2, amount2);

    let pid1 = w.pay(1, PAYER, EVENT1, amount1).unwrap();
    w.pay(1, PAYER2, EVENT1, amount2).unwrap();
    assert_eq!(w.c.get_event_revenue(EVENT1), amount1 + amount2);

    w.c.refund(ADMIN, pid1, None, 0).unwrap();
    w.settle();
    assert_eq!(w.c.get_event_revenue(EVENT1), amount2);
}

#[test]
fn test_query_payments() {
    let mut w = World::new();
    let event1 = 11u64;
    let event2 = 12u64;
    let amount = 1000i128;
    w.mint(PAYER, amount * 2);
    w.mint(PAYER2, amount * 2);

    w.bind_event(event1, ORGANIZER);
    w.bind_event(event2, ORGANIZER);

    w.pay(1, PAYER, event1, amount).unwrap();
    w.pay(2, PAYER, event2, amount).unwrap();
    w.pay(1, PAYER2, event1, amount).unwrap();
    w.pay(2, PAYER2, event2, amount).unwrap();

    let e1_payments = w.c.get_payments_by_event(event1);
    assert_eq!(e1_payments.len(), 2);
    assert_eq!(e1_payments[0].event_id, event1);
    assert_eq!(e1_payments[1].event_id, event1);
    assert_ne!(e1_payments[0].payer, e1_payments[1].payer);

    let p1_payments = w.c.get_payments_by_user(PAYER);
    assert_eq!(p1_payments.len(), 2);
    assert_eq!(p1_payments[0].payer, PAYER);
    assert_eq!(p1_payments[1].payer, PAYER);
    assert_ne!(p1_payments[0].event_id, p1_payments[1].event_id);
}

#[test]
fn test_pay_for_ticket_with_email_hash() {
    let mut w = World::new();
    let amount = 100_000_000i128;
    let email_hash = [1u8; 32];
    w.mint(PAYER, amount);
    w.set_status(EVENT1, EventStatus::Active);

    let payment_id = w
        .c
        .pay_for_ticket(1, PAYER, EVENT1, amount, Some(email_hash), TOKEN, PaymentPrivacy::Standard, 0)
        .unwrap();
    w.settle();
    assert_eq!(w.c.get_payment(payment_id).unwrap().amount, amount);
}

#[test]
fn test_set_event_end_time_success() {
    let mut w = World::new();
    let event_end_time: u64 = 1704067200 + 86_400;
    w.c.set_event_end_time(ADMIN, EVENT1, ORGANIZER, event_end_time).unwrap();

    let result = w.c.release_if_expired(EVENT1, 1704067200);
    assert_eq!(result.err(), Some(PaymentError::EscrowNotExpired));
}

#[test]
fn test_release_if_expired_before_deadline_fails() {
    let mut w = World::new();
    let now = 1704067200u64;
    let amount = 100_000_000i128;
    let event_end_time: u64 = now + 86_400;
    w.mint(PAYER, amount);
    w.pay_at(1, PAYER, EVENT1, amount, now).unwrap();

    w.c.set_event_end_time(ADMIN, EVENT1, ORGANIZER, event_end_time).unwrap();
    let result = w.c.release_if_expired(EVENT1, now);
    assert_eq!(result.err(), Some(PaymentError::EscrowNotExpired));
}

#[test]
fn test_release_if_expired_after_deadline_succeeds() {
    let mut w = World::new();
    let now = 1704067200u64;
    let amount = 100_000_000i128;
    let event_end_time: u64 = now + 86_400;
    w.mint(PAYER, amount);
    w.pay_at(1, PAYER, EVENT1, amount, now).unwrap();

    w.c.set_event_end_time(ADMIN, EVENT1, ORGANIZER, event_end_time).unwrap();
    w.c.release_if_expired(EVENT1, event_end_time + 1).unwrap();
    w.settle();

    assert_eq!(w.balance(TOKEN, CONTRACT), 0);
    assert_eq!(w.balance(TOKEN, ORGANIZER), amount);
    assert_eq!(w.c.get_event_revenue(EVENT1), 0);
}

#[test]
fn test_release_if_expired_no_double_payout() {
    let mut w = World::new();
    let now = 1704067200u64;
    let amount = 100_000_000i128;
    let event_end_time: u64 = now + 86_400;
    w.mint(PAYER, amount);
    w.pay_at(1, PAYER, EVENT1, amount, now).unwrap();

    w.c.set_event_end_time(ADMIN, EVENT1, ORGANIZER, event_end_time).unwrap();
    w.c.release_if_expired(EVENT1, event_end_time + 1).unwrap();
    w.settle();

    let result = w.c.release_if_expired(EVENT1, event_end_time + 1);
    assert_eq!(result.err(), Some(PaymentError::EscrowAlreadyReleased));
    assert_eq!(w.balance(TOKEN, ORGANIZER), amount);
}

#[test]
fn test_release_if_expired_not_configured() {
    let mut w = World::new();
    let result = w.c.release_if_expired(EVENT1, 0);
    assert_eq!(result.err(), Some(PaymentError::EscrowNotConfigured));
}

#[test]
fn test_release_if_expired_no_held_funds_still_marks_released() {
    let mut w = World::new();
    let now = 1704067200u64;
    let event_end_time: u64 = now + 86_400;
    w.c.set_event_end_time(ADMIN, EVENT1, ORGANIZER, event_end_time).unwrap();
    w.c.release_if_expired(EVENT1, event_end_time + 1).unwrap();

    let result = w.c.release_if_expired(EVENT1, event_end_time + 1);
    assert_eq!(result.err(), Some(PaymentError::EscrowAlreadyReleased));
}

#[test]
fn test_payments_privacy_default_is_standard() {
    let w = World::new();
    assert_eq!(w.c.get_event_privacy(EVENT1), PrivacyLevel::Standard);
}

#[test]
fn test_payments_set_privacy_level_private() {
    let mut w = World::new();
    w.c.set_event_privacy(ADMIN, EVENT1, PrivacyLevel::Private).unwrap();
    assert_eq!(w.c.get_event_privacy(EVENT1), PrivacyLevel::Private);
}

#[test]
fn test_payments_set_privacy_level_anonymous() {
    let mut w = World::new();
    w.c.set_event_privacy(ADMIN, EVENT1, PrivacyLevel::Anonymous).unwrap();
    assert_eq!(w.c.get_event_privacy(EVENT1), PrivacyLevel::Anonymous);
}

#[test]
fn test_payments_set_privacy_unauthorized() {
    let mut w = World::new();
    let result = w.c.set_event_privacy(OUTSIDER, EVENT1, PrivacyLevel::Anonymous);
    assert_eq!(result.err(), Some(PaymentError::Unauthorized));
}

fn pay_with_privacy(w: &mut World, nonce: u64, amount: i128, privacy: PaymentPrivacy) -> u64 {
    let id = w.c.pay_for_ticket(nonce, PAYER, EVENT1, amount, None, TOKEN, privacy, 0).unwrap();
    w.settle();
    id
}

#[test]
fn test_pay_for_ticket_anonymous_privacy() {
    let mut w = World::new();
    let amount = 100_000_000i128;
    w.mint(PAYER, amount);
    let payment_id = pay_with_privacy(&mut w, 1, amount, PaymentPrivacy::Anonymous);
    let payment = w.c.get_payment(payment_id).unwrap();
    assert_eq!(payment.privacy_level, PaymentPrivacy::Anonymous);
    assert_eq!(payment.payer, PAYER);
    assert_eq!(payment.amount, amount);
    assert_eq!(payment.status, PaymentStatus::Held);
}

#[test]
fn test_pay_for_ticket_private_privacy() {
    let mut w = World::new();
    let amount = 50_000_000i128;
    w.mint(PAYER, amount);
    let payment_id = pay_with_privacy(&mut w, 1, amount, PaymentPrivacy::Private);
    let payment = w.c.get_payment(payment_id).unwrap();
    assert_eq!(payment.privacy_level, PaymentPrivacy::Private);
    assert_eq!(payment.payer, PAYER);
    assert_eq!(payment.amount, amount);
    assert_eq!(payment.status, PaymentStatus::Held);
}

#[test]
fn test_pay_for_ticket_standard_privacy() {
    let mut w = World::new();
    let amount = 75_000_000i128;
    w.mint(PAYER, amount);
    let payment_id = pay_with_privacy(&mut w, 1, amount, PaymentPrivacy::Standard);
    let payment = w.c.get_payment(payment_id).unwrap();
    assert_eq!(payment.privacy_level, PaymentPrivacy::Standard);
    assert_eq!(payment.payer, PAYER);
    assert_eq!(payment.amount, amount);
    assert_eq!(payment.status, PaymentStatus::Held);
}

#[test]
fn test_anonymous_event_does_not_expose_payer() {
    let mut w = World::new();
    let amount = 100_000_000i128;
    w.mint(PAYER, amount);
    let payment_id = pay_with_privacy(&mut w, 1, amount, PaymentPrivacy::Anonymous);
    let payment = w.c.get_payment(payment_id).unwrap();
    assert_eq!(payment.privacy_level, PaymentPrivacy::Anonymous);
    assert_eq!(payment.payer, PAYER);
    assert!(payment_id > 0);
}

#[test]
fn test_privacy_levels_stored_correctly() {
    let mut w = World::new();
    let amount = 50_000_000i128;
    w.mint(PAYER, amount * 3);
    let pid_anon = pay_with_privacy(&mut w, 1, amount, PaymentPrivacy::Anonymous);
    let pid_priv = pay_with_privacy(&mut w, 2, amount, PaymentPrivacy::Private);
    let pid_std = pay_with_privacy(&mut w, 3, amount, PaymentPrivacy::Standard);
    assert_eq!(w.c.get_payment(pid_anon).unwrap().privacy_level, PaymentPrivacy::Anonymous);
    assert_eq!(w.c.get_payment(pid_priv).unwrap().privacy_level, PaymentPrivacy::Private);
    assert_eq!(w.c.get_payment(pid_std).unwrap().privacy_level, PaymentPrivacy::Standard);
}

#[test]
fn test_refund_unauthorized() {
    let mut w = World::new();
    let amount = 100_000_000i128;
    w.mint(PAYER, amount);
    let payment_id = w.pay(1, PAYER, EVENT1, amount).unwrap();
    let result = w.c.refund(OUTSIDER, payment_id, None, 0);
    assert_eq!(result.err(), Some(PaymentError::Unauthorized));
}

#[test]
fn test_refund_nonexistent_payment() {
    let mut w = World::new();
    let result = w.c.refund(ADMIN, 999, None, 0);
    assert_eq!(result.err(), Some(PaymentError::PaymentNotFound));
}

#[test]
fn test_withdraw_unauthorized_organizer_rejected() {
    let mut w = World::new();
    let amount = 100_000_000i128;
    w.mint(PAYER, amount);
    w.bind_event(EVENT1, ORGANIZER);
    w.pay(1, PAYER, EVENT1, amount).unwrap();
    w.set_status(EVENT1, EventStatus::Completed);

    let result = w.c.withdraw(OUTSIDER, EVENT1, 0);
    assert_eq!(result.err(), Some(PaymentError::UnauthorizedWithdrawal));
    assert_eq!(w.balance(TOKEN, ORGANIZER), 0);
}

#[test]
fn test_sync_event_config_invalid_payout_token_rejected() {
    let mut w = World::new();
    let invalid_token = 77u64;
    let result =
        w.c.sync_event_config(EVENT_CONTRACT, EVENT1, ORGANIZER, invalid_token, true, false, 0, 0);
    assert_eq!(result.err(), Some(PaymentError::InvalidPayoutToken));
    assert_eq!(w.c.get_accepted_token(), Ok(TOKEN));
}

#[test]
fn test_double_withdraw_rejected_after_revenue_cleared() {
    let mut w = World::new();
    let amount = 100_000_000i128;
    w.mint(PAYER, amount);
    w.bind_event(EVENT1, ORGANIZER);
    w.pay(1, PAYER, EVENT1, amount).unwrap();
    w.set_status(EVENT1, EventStatus::Completed);
    w.c.withdraw(ORGANIZER, EVENT1, 0).unwrap();
    w.settle();

    let result = w.c.withdraw(ORGANIZER, EVENT1, 0);
    assert_eq!(result.err(), Some(PaymentError::NoRevenue));
    assert_eq!(w.balance(TOKEN, ORGANIZER), amount);
}

#[test]
fn test_pay_after_event_completed_fails() {
    let mut w = World::new();
    let amount = 100_000_000i128;
    w.mint(PAYER, amount);
    w.set_status(EVENT1, EventStatus::Completed);
    let result = w.c.pay_for_ticket_with_options(1, PAYER, EVENT1, amount, TOKEN, true, false, 0);
    assert_eq!(result.err(), Some(PaymentError::EventNotActive));
}

#[test]
fn test_withdraw_before_completion_fails() {
    let mut w = World::new();
    let amount = 100_000_000i128;
    w.mint(PAYER, amount);
    w.bind_event(EVENT1, ORGANIZER);
    w.set_status(EVENT1, EventStatus::Active);
    w.pay(1, PAYER, EVENT1, amount).unwrap();

    let result = w.c.withdraw(ORGANIZER, EVENT1, 0);
    assert_eq!(result.err(), Some(PaymentError::EventNotCompleted));
}

#[test]
fn test_refund_on_cancelled_event_succeeds() {
    let mut w = World::new();
    let amount = 100_000_000i128;
    w.mint(PAYER, amount);
    w.set_status(EVENT1, EventStatus::Active);
    let payment_id = w.pay(1, PAYER, EVENT1, amount).unwrap();

    w.set_status(EVENT1, EventStatus::Cancelled);
    w.c.refund(ADMIN, payment_id, None, 0).unwrap();
    w.settle();

    assert_eq!(w.c.get_payment(payment_id).unwrap().status, PaymentStatus::Refunded);
    assert_eq!(w.balance(TOKEN, PAYER), amount);
    assert_eq!(w.balance(TOKEN, CONTRACT), 0);
}

#[test]
#[should_panic]
fn test_idempotent_payment() {
    let mut w = World::new();
    let amount = 100_000_000i128;

    let nonce = 12345u64;
    w.pay(nonce, PAYER, EVENT1, amount).unwrap();
    assert!(w.c.has_nonce(PAYER, nonce), "Nonce should be in storage after first call");

    let nonce = 123456u64;
    w.pay(nonce, PAYER, EVENT1, amount).unwrap();
    w.pay(nonce, PAYER, EVENT1, amount).unwrap();
}

#[test]
#[should_panic]
fn test_idempotent_payment_with_options() {
    let mut w = World::new();
    let amount = 100_000_000i128;
    w.set_status(EVENT1, EventStatus::Active);

    let nonce = 54321u64;
    w.c.pay_for_ticket_with_options(nonce, PAYER, EVENT1, amount, TOKEN, true, false, 0).unwrap();
    w.settle();
    w.c.pay_for_ticket_with_options(nonce, PAYER, EVENT1, amount, TOKEN, true, false, 0).unwrap();
    w.settle();
}

#[test]
fn test_max_tickets_per_user_enforcement() {
    let mut w = World::new();
    let event = 2001u64;
    let amount = 100_000_000i128;
    w.mint(PAYER, amount * 3);
    w.mint(PAYER2, amount);

    w.c.sync_event_config(EVENT_CONTRACT, event, ORGANIZER, TOKEN, true, false, 2, 0).unwrap();

    w.pay(1, PAYER, event, amount).unwrap();
    w.pay(2, PAYER, event, amount).unwrap();
    let result = w.pay(3, PAYER, event, amount);
    assert_eq!(result.err(), Some(PaymentError::MaxTicketsReached));

    w.pay(1, PAYER2, event, amount).unwrap();
    assert_eq!(w.c.get_owner_tickets(PAYER).len(), 2);
    assert_eq!(w.c.get_owner_tickets(PAYER2).len(), 1);
}

#[test]
fn test_event_supply_enforcement() {
    let mut w = World::new();
    let event = 2002u64;
    let amount = 100_000_000i128;
    w.mint(PAYER, amount);
    w.mint(PAYER2, amount);
    w.mint(PAYER3, amount);

    w.c.sync_event_config(EVENT_CONTRACT, event, ORGANIZER, TOKEN, true, false, 0, 2).unwrap();

    w.pay(1, PAYER, event, amount).unwrap();
    w.pay(1, PAYER2, event, amount).unwrap();

    let config = w.c.get_event_config(event).unwrap();
    assert_eq!(config.max_supply, 2);
    assert_eq!(config.sold_count, 2);

    let result = w.pay(1, PAYER3, event, amount);
    assert_eq!(result.err(), Some(PaymentError::EventSoldOut));
    assert_eq!(w.balance(TOKEN, PAYER3), amount);
}

#[test]
fn test_initialize_invalid_fee_bps() {
    let mut c = PaymentsContract::new(CONTRACT);
    let result = c.initialize(ADMIN, TOKEN, 10_001, PLATFORM_WALLET, EVENT_CONTRACT);
    assert_eq!(result.err(), Some(PaymentError::InvalidFeeBps));
}

#[test]
fn test_withdraw_revenue_with_fee() {
    let mut w = World::with_fee(250);
    let now = 1704067200u64;
    let amount = 100_000_000i128;
    w.mint(PAYER, amount);
    w.pay_at(1, PAYER, EVENT1, amount, now).unwrap();

    w.c.withdraw_revenue(EVENT1, ORGANIZER, now).unwrap();
    w.settle();

    let expected_fee = 2_500_000i128;
    let expected_organizer = amount - expected_fee;
    assert_eq!(w.balance(TOKEN, ORGANIZER), expected_organizer);
    assert_eq!(w.balance(TOKEN, CONTRACT), expected_fee);
    assert_eq!(w.c.get_platform_revenue(EVENT1), expected_fee);
    assert_eq!(w.c.get_event_revenue(EVENT1), 0);

    let history = w.c.get_withdrawal_history(EVENT1);
    assert_eq!(history.len(), 1);
    assert_eq!(history[0].amount, expected_organizer);
}

#[test]
fn test_withdraw_revenue_zero_fee() {
    let mut w = World::with_fee(0);
    let now = 1704067200u64;
    let amount = 100_000_000i128;
    w.mint(PAYER, amount);
    w.pay_at(1, PAYER, EVENT1, amount, now).unwrap();

    w.c.withdraw_revenue(EVENT1, ORGANIZER, now).unwrap();
    w.settle();

    assert_eq!(w.balance(TOKEN, ORGANIZER), amount);
    assert_eq!(w.balance(TOKEN, CONTRACT), 0);
    assert_eq!(w.c.get_platform_revenue(EVENT1), 0);
}

#[test]
fn test_withdraw_platform_revenue() {
    let mut w = World::with_fee(500);
    let amount = 200_000_000i128;
    w.mint(PAYER, amount);
    w.pay(1, PAYER, EVENT1, amount).unwrap();

    w.c.withdraw_revenue(EVENT1, ORGANIZER, 0).unwrap();
    w.settle();

    let expected_fee = 10_000_000i128;
    assert_eq!(w.c.get_platform_revenue(EVENT1), expected_fee);
    assert_eq!(w.balance(TOKEN, CONTRACT), expected_fee);

    w.c.withdraw_platform_revenue(EVENT1, 0).unwrap();
    w.settle();

    assert_eq!(w.c.get_platform_revenue(EVENT1), 0);
    assert_eq!(w.balance(TOKEN, CONTRACT), 0);
}

#[test]
fn test_withdraw_platform_revenue_no_revenue() {
    let mut w = World::with_fee(500);
    let result = w.c.withdraw_platform_revenue(EVENT1, 0);
    assert_eq!(result.err(), Some(PaymentError::NoPlatformRevenue));
}

#[test]
fn test_set_platform_fee() {
    let mut w = World::with_fee(250);
    assert_eq!(w.c.get_platform_fee_bps(), 250);
    w.c.set_platform_fee(500, 41, 0).unwrap();
    assert_eq!(w.c.get_platform_fee_bps(), 500);
}

#[test]
fn test_set_platform_fee_invalid_bps() {
    let mut w = World::with_fee(250);
    let result = w.c.set_platform_fee(10_001, 41, 0);
    assert_eq!(result.err(), Some(PaymentError::InvalidFeeBps));
}

#[test]
fn test_organizer_withdraw_with_fee() {
    let mut w = World::with_fee(1000);
    let amount = 100_000_000i128;
    w.bind_event(EVENT1, ORGANIZER);
    w.mint(PAYER, amount);
    w.pay(1, PAYER, EVENT1, amount).unwrap();

    w.set_status(EVENT1, EventStatus::Completed);
    w.c.withdraw(ORGANIZER, EVENT1, 0).unwrap();
    w.settle();

    let expected_fee = 10_000_000i128;
    let expected_organizer = amount - expected_fee;
    assert_eq!(w.balance(TOKEN, ORGANIZER), expected_organizer);
    assert_eq!(w.balance(TOKEN, CONTRACT), expected_fee);
    assert_eq!(w.c.get_platform_revenue(EVENT1), expected_fee);
}

#[test]
fn test_platform_revenue_accumulates_across_withdrawals() {
    let mut w = World::with_fee(500);
    let amount = 100_000_000i128;

    w.mint(PAYER, amount);
    w.pay(1, PAYER, EVENT1, amount).unwrap();
    w.c.withdraw_revenue(EVENT1, ORGANIZER, 0).unwrap();
    w.settle();

    let fee_per_cycle = 5_000_000i128;
    assert_eq!(w.c.get_platform_revenue(EVENT1), fee_per_cycle);

    w.mint(PAYER, amount);
    w.pay(2, PAYER, EVENT1, amount).unwrap();
    w.c.withdraw_revenue(EVENT1, ORGANIZER, 0).unwrap();
    w.settle();

    assert_eq!(w.c.get_platform_revenue(EVENT1), fee_per_cycle * 2);
}

#[test]
fn test_replay_attack_rejected_detailed() {
    let mut w = World::new();
    let amount = 100_000_000i128;
    w.mint(PAYER, amount * 2);
    w.set_status(EVENT1, EventStatus::Active);

    let nonce = 101u64;
    w.pay(nonce, PAYER, EVENT1, amount).unwrap();

    let result = w.pay(nonce, PAYER, EVENT1, amount);
    assert_eq!(result.err(), Some(PaymentError::DuplicateRequest));
    assert_eq!(w.c.get_owner_tickets(PAYER).len(), 1);
    assert_eq!(w.balance(TOKEN, PAYER), amount);
}

#[test]
fn test_zero_nonce_rejected() {
    let mut w = World::new();
    let amount = 100_000_000i128;
    w.mint(PAYER, amount * 2);
    w.set_status(EVENT1, EventStatus::Active);

    let result = w.pay(0, PAYER, EVENT1, amount);
    assert_eq!(result.err(), Some(PaymentError::NonceRequired));
    assert_eq!(w.c.get_owner_tickets(PAYER).len(), 0);
    assert_eq!(w.balance(TOKEN, PAYER), amount * 2);
}

#[test]
fn test_partial_refund_success() {
    let mut w = World::new();
    let amount = 100_000_000i128;
    w.mint(PAYER, amount);
    w.set_status(EVENT1, EventStatus::Active);
    let payment_id = w.pay(1, PAYER, EVENT1, amount).unwrap();
    assert_eq!(w.c.get_event_revenue(EVENT1), amount);

    let partial_1 = 30_000_000i128;
    w.c.refund(ADMIN, payment_id, Some(partial_1), 0).unwrap();
    w.settle();
    assert_eq!(w.balance(TOKEN, PAYER), partial_1);
    assert_eq!(w.c.get_event_revenue(EVENT1), amount - partial_1);
    let payment = w.c.get_payment(payment_id).unwrap();
    assert_eq!(payment.refunded_amount, partial_1);
    assert_eq!(payment.status, PaymentStatus::Held);

    let partial_2 = 20_000_000i128;
    w.c.refund(ADMIN, payment_id, Some(partial_2), 0).unwrap();
    w.settle();
    assert_eq!(w.balance(TOKEN, PAYER), partial_1 + partial_2);
    assert_eq!(w.c.get_event_revenue(EVENT1), amount - partial_1 - partial_2);

    w.c.refund(ADMIN, payment_id, None, 0).unwrap();
    w.settle();
    assert_eq!(w.balance(TOKEN, PAYER), amount);
    assert_eq!(w.c.get_event_revenue(EVENT1), 0);
    let final_payment = w.c.get_payment(payment_id).unwrap();
    assert_eq!(final_payment.refunded_amount, amount);
    assert_eq!(final_payment.status, PaymentStatus::Refunded);
}

#[test]
fn test_partial_refund_exceeds_amount_fails() {
    let mut w = World::new();
    let amount = 100_000_000i128;
    w.mint(PAYER, amount);
    w.set_status(EVENT1, EventStatus::Active);
    let payment_id = w.pay(1, PAYER, EVENT1, amount).unwrap();

    let result = w.c.refund(ADMIN, payment_id, Some(amount + 1), 0);
    assert!(result.is_err());
}

// ----- versioning of the payments contract -----

#[test]
fn test_contract_version_initialization() {
    let w = World::new();
    assert_eq!(w.c.contract_version(), 1);
}

#[test]
fn test_migration_v1_to_v2() {
    let mut w = World::new();
    assert_eq!(w.c.contract_version(), 1);
    assert_eq!(w.c.migrate(ADMIN), Ok(2));
    assert_eq!(w.c.contract_version(), 2);
}

#[test]
fn test_migration_unauthorized() {
    let mut w = World::new();
    let result = w.c.migrate(OUTSIDER);
    assert!(result.is_err());
    assert_eq!(result.unwrap_err(), PaymentError::Unauthorized);
}

#[test]
fn test_storage_compatibility_after_migration() {
    let mut w = World::new();
    w.c.migrate(ADMIN).unwrap();
    assert_eq!(w.c.get_admin(), Ok(ADMIN));
    assert_eq!(w.c.get_accepted_token(), Ok(TOKEN));
    assert_eq!(w.c.get_event_contract(), Ok(EVENT_CONTRACT));
}

#[test]
fn test_multiple_migrations() {
    let mut w = World::new();
    assert_eq!(w.c.migrate(ADMIN), Ok(2));
    assert_eq!(w.c.migrate(ADMIN), Ok(3));
    assert_eq!(w.c.contract_version(), 3);
}

#[test]
fn test_version_compatibility_check() {
    let c = PaymentsContract::new(CONTRACT);
    assert!(c.verify_version().is_ok());
}

#[test]
fn test_payment_operations_after_migration() {
    let mut w = World::new();
    w.c.migrate(ADMIN).unwrap();
    assert_eq!(w.c.get_event_payments(EVENT1).len(), 0);
    assert_eq!(w.c.get_event_revenue(EVENT1), 0);
}

// ----- further cases -----

#[test]
fn migration_stops_after_version_three() {
    let mut w = World::new();
    w.c.migrate(ADMIN).unwrap();
    w.c.migrate(ADMIN).unwrap();
    assert_eq!(w.c.migrate(ADMIN), Err(PaymentError::UnsupportedVersion));
    assert_eq!(w.c.contract_version(), 3);
    assert_eq!(w.c.verify_version(), Err(PaymentError::UnsupportedVersion));
}

#[test]
fn migrate_before_initialization_is_refused() {
    let mut c = PaymentsContract::new(CONTRACT);
    assert_eq!(c.migrate(ADMIN), Err(PaymentError::NotInitialized));
}

#[test]
fn nonce_is_per_payer() {
    let mut w = World::new();
    let amount = 10i128;
    w.mint(PAYER, amount);
    w.mint(PAYER2, amount);
    assert_eq!(w.pay(7, PAYER, EVENT1, amount), Ok(1));
    assert_eq!(w.pay(7, PAYER2, EVENT1, amount), Ok(2));
    assert!(w.c.has_nonce(PAYER, 7));
    assert!(!w.c.has_nonce(PAYER, 8));
}

#[test]
fn refund_twice_is_refused() {
    let mut w = World::new();
    w.mint(PAYER, 500);
    let id = w.pay(1, PAYER, EVENT1, 500).unwrap();
    w.c.refund(ADMIN, id, None, 0).unwrap();
    w.settle();
    assert_eq!(w.c.refund(ADMIN, id, None, 0), Err(PaymentError::PaymentAlreadyRefunded));
    assert_eq!(w.c.refund(ADMIN, id, Some(1), 0), Err(PaymentError::PaymentAlreadyRefunded));
}

#[test]
fn refund_of_zero_or_negative_is_refused() {
    let mut w = World::new();
    w.mint(PAYER, 500);
    let id = w.pay(1, PAYER, EVENT1, 500).unwrap();
    assert_eq!(w.c.refund(ADMIN, id, Some(0), 0), Err(PaymentError::InvalidAmount));
    assert_eq!(w.c.refund(ADMIN, id, Some(-5), 0), Err(PaymentError::InvalidAmount));
    assert_eq!(w.c.get_event_revenue(EVENT1), 500);
}

#[test]
fn refund_requires_initialization() {
    let mut c = PaymentsContract::new(CONTRACT);
    assert_eq!(c.refund(ADMIN, 1, None, 0), Err(PaymentError::NotInitialized));
}

#[test]
fn partial_refund_then_withdraw_pays_only_the_remainder() {
    let mut w = World::new();
    w.mint(PAYER, 1000);
    w.bind_event(EVENT1, ORGANIZER);
    let id = w.pay(1, PAYER, EVENT1, 1000).unwrap();
    w.c.refund(ADMIN, id, Some(300), 0).unwrap();
    w.settle();
    assert_eq!(w.c.get_event_token_revenue(EVENT1, TOKEN), 700);
    w.set_status(EVENT1, EventStatus::Completed);
    w.c.withdraw(ORGANIZER, EVENT1, 0).unwrap();
    w.settle();
    assert_eq!(w.balance(TOKEN, ORGANIZER), 700);
    assert_eq!(w.balance(TOKEN, PAYER), 300);
    assert_eq!(w.balance(TOKEN, CONTRACT), 0);
    let p = w.c.get_payment(id).unwrap();
    assert_eq!(p.status, PaymentStatus::Released);
    assert_eq!(p.refunded_amount, 300);
}

#[test]
fn withdraw_without_config_is_refused() {
    let mut w = World::new();
    assert_eq!(w.c.withdraw(ORGANIZER, EVENT1, 0), Err(PaymentError::InvalidOrganizer));
    assert_eq!(w.c.get_event_config(EVENT1), Err(PaymentError::InvalidOrganizer));
}

#[test]
fn sync_config_requires_event_contract() {
    let mut w = World::new();
    let r = w.c.sync_event_config(OUTSIDER, EVENT1, ORGANIZER, TOKEN, true, false, 0, 0);
    assert_eq!(r, Err(PaymentError::Unauthorized));
    let r = w.c.sync_event_privacy(OUTSIDER, EVENT1, true, false);
    assert_eq!(r, Err(PaymentError::Unauthorized));
}

#[test]
fn sync_config_keeps_organizer_and_sold_count() {
    let mut w = World::new();
    w.mint(PAYER, 100);
    w.bind_event(EVENT1, ORGANIZER);
    w.pay(1, PAYER, EVENT1, 100).unwrap();
    let r = w.c.sync_event_config(EVENT_CONTRACT, EVENT1, OUTSIDER, TOKEN, true, false, 0, 0);
    assert_eq!(r, Err(PaymentError::InvalidOrganizer));
    w.c.sync_event_config(EVENT_CONTRACT, EVENT1, ORGANIZER, TOKEN, false, true, 5, 9).unwrap();
    let config = w.c.get_event_config(EVENT1).unwrap();
    assert_eq!(config.sold_count, 1);
    assert_eq!(config.max_supply, 9);
    assert_eq!(config.max_tickets_per_user, 5);
    assert!(!config.allow_anonymous);
}

#[test]
fn withdraw_token_pays_one_token_without_fee() {
    let mut w = World::with_fee(1000);
    let other_token = 5u64;
    w.mint(PAYER, 400);
    w.balances.insert((other_token, PAYER2), 600);
    w.pay(1, PAYER, EVENT1, 400).unwrap();
    w.c.pay_for_ticket(1, PAYER2, EVENT1, 600, None, other_token, PaymentPrivacy::Standard, 0)
        .unwrap();
    w.settle();
    assert_eq!(w.c.get_event_tokens(EVENT1), vec![TOKEN, other_token]);
    assert_eq!(w.c.get_event_revenue(EVENT1), 1000);

    assert_eq!(
        w.c.withdraw_token(ORGANIZER, EVENT1, other_token, 0),
        Err(PaymentError::EventNotCompleted)
    );
    w.set_status(EVENT1, EventStatus::Completed);
    w.c.withdraw_token(ORGANIZER, EVENT1, other_token, 0).unwrap();
    w.settle();
    assert_eq!(w.balance(other_token, ORGANIZER), 600);
    assert_eq!(w.c.get_event_token_revenue(EVENT1, other_token), 0);
    assert_eq!(w.c.get_event_revenue(EVENT1), 400);
    assert_eq!(
        w.c.withdraw_token(ORGANIZER, EVENT1, other_token, 0),
        Err(PaymentError::NoRevenue)
    );
}

#[test]
fn withdraw_all_tokens_pays_every_token() {
    let mut w = World::new();
    let other_token = 5u64;
    w.mint(PAYER, 400);
    w.balances.insert((other_token, PAYER2), 600);
    w.pay(1, PAYER, EVENT1, 400).unwrap();
    w.c.pay_for_ticket(1, PAYER2, EVENT1, 600, None, other_token, PaymentPrivacy::Standard, 0)
        .unwrap();
    w.settle();
    w.c.take_notices();

    w.set_status(EVENT1, EventStatus::Completed);
    w.c.withdraw_all_tokens(ORGANIZER, EVENT1, 9).unwrap();
    w.settle();
    assert_eq!(w.balance(TOKEN, ORGANIZER), 400);
    assert_eq!(w.balance(other_token, ORGANIZER), 600);
    assert_eq!(w.c.get_event_revenue(EVENT1), 0);
    let notices = w.c.take_notices();
    assert_eq!(notices.len(), 2);
    assert_eq!(
        notices[1],
        PaymentNotice::RevenueWithdrawn {
            event_id: EVENT1,
            organizer: ORGANIZER,
            privacy: PrivacyLevel::Standard,
            amount: 600,
            token: other_token,
            to: ORGANIZER,
            withdrawn_at: 9,
        }
    );
}

#[test]
fn withdraw_all_tokens_without_payments_is_refused() {
    let mut w = World::new();
    w.set_status(EVENT1, EventStatus::Completed);
    assert_eq!(w.c.withdraw_all_tokens(ORGANIZER, EVENT1, 0), Err(PaymentError::NoRevenue));
}

#[test]
fn escrow_release_pays_every_token_and_notifies_total() {
    let mut w = World::new();
    let other_token = 5u64;
    w.mint(PAYER, 400);
    w.balances.insert((other_token, PAYER2), 600);
    w.pay(1, PAYER, EVENT1, 400).unwrap();
    w.c.pay_for_ticket(1, PAYER2, EVENT1, 600, None, other_token, PaymentPrivacy::Standard, 0)
        .unwrap();
    w.settle();
    w.c.take_notices();
    w.c.set_event_end_time(ADMIN, EVENT1, ORGANIZER, 50).unwrap();
    w.c.release_if_expired(EVENT1, 50).unwrap();
    w.settle();
    assert_eq!(w.balance(TOKEN, ORGANIZER), 400);
    assert_eq!(w.balance(other_token, ORGANIZER), 600);
    assert_eq!(
        w.c.take_notices(),
        vec![PaymentNotice::EscrowAutoReleased {
            event_id: EVENT1,
            organizer: ORGANIZER,
            amount: 1000,
            released_at: 50,
        }]
    );
    assert!(w.c.get_escrow_meta(EVENT1).unwrap().auto_released);
}

#[test]
fn payment_notices_follow_the_privacy_level() {
    let mut w = World::new();
    w.mint(PAYER, 100);
    w.c.set_event_privacy(ADMIN, EVENT1, PrivacyLevel::Anonymous).unwrap();
    w.c.pay_for_ticket(4, PAYER, EVENT1, 100, Some([7u8; 32]), TOKEN, PaymentPrivacy::Private, 3)
        .unwrap();
    let notices = w.c.take_notices();
    assert_eq!(
        notices,
        vec![
            PaymentNotice::PaymentReceived {
                payment_id: 1,
                event_id: EVENT1,
                payer: PAYER,
                privacy: PrivacyLevel::Anonymous,
                amount: 100,
                token: TOKEN,
                paid_at: 3,
            },
            PaymentNotice::PaymentReceiptRequested {
                payment_id: 1,
                event_id: EVENT1,
                email_hash: [7u8; 32],
                requested_at: 3,
            },
            PaymentNotice::TicketIssued {
                ticket_id: 1,
                event_id: EVENT1,
                owner: PAYER,
                privacy: PrivacyLevel::Anonymous,
                payment_id: 1,
                issued_at: 3,
            },
        ]
    );
}

#[test]
fn fee_notice_and_fee_update_notice() {
    let mut w = World::with_fee(250);
    w.mint(PAYER, 10_000);
    w.pay(1, PAYER, EVENT1, 10_000).unwrap();
    w.c.take_notices();
    w.c.withdraw_revenue(EVENT1, ORGANIZER, 8).unwrap();
    assert_eq!(
        w.c.take_notices(),
        vec![PaymentNotice::PlatformFeeCollected {
            event_id: EVENT1,
            fee_amount: 250,
            organizer_amount: 9_750,
            token: TOKEN,
            collected_at: 8,
        }]
    );
    w.c.set_platform_fee(100, 42, 9).unwrap();
    assert_eq!(
        w.c.take_notices(),
        vec![PaymentNotice::PlatformFeeUpdated { admin: ADMIN, old_bps: 250, new_bps: 100, updated_at: 9 }]
    );
    assert_eq!(w.c.get_platform_wallet(), Ok(42));
}

#[test]
fn fee_of_full_payout_leaves_organizer_nothing() {
    let mut w = World::with_fee(10_000);
    w.mint(PAYER, 777);
    w.pay(1, PAYER, EVENT1, 777).unwrap();
    w.c.withdraw_revenue(EVENT1, ORGANIZER, 0).unwrap();
    w.settle();
    assert_eq!(w.balance(TOKEN, ORGANIZER), 0);
    assert_eq!(w.c.get_platform_revenue(EVENT1), 777);
}

#[test]
fn fee_rounds_down() {
    let mut w = World::with_fee(250);
    w.mint(PAYER, 39);
    w.pay(1, PAYER, EVENT1, 39).unwrap();
    w.c.withdraw_revenue(EVENT1, ORGANIZER, 0).unwrap();
    w.settle();
    // 39 * 250 / 10_000 = 0.975, rounded down to 0
    assert_eq!(w.balance(TOKEN, ORGANIZER), 39);
    assert_eq!(w.c.get_platform_revenue(EVENT1), 0);
}

#[test]
fn set_event_status_requires_admin() {
    let mut w = World::new();
    assert_eq!(
        w.c.set_event_status(OUTSIDER, EVENT1, EventStatus::Active),
        Err(PaymentError::Unauthorized)
    );
    assert_eq!(w.c.get_event_status(EVENT1), None);
    w.set_status(EVENT1, EventStatus::Cancelled);
    assert_eq!(w.c.get_event_status(EVENT1), Some(EventStatus::Cancelled));
    w.mint(PAYER, 5);
    assert_eq!(w.pay(1, PAYER, EVENT1, 5), Err(PaymentError::EventNotActive));
}

#[test]
fn set_event_end_time_requires_admin() {
    let mut w = World::new();
    assert_eq!(
        w.c.set_event_end_time(OUTSIDER, EVENT1, ORGANIZER, 5),
        Err(PaymentError::Unauthorized)
    );
    assert_eq!(w.c.get_escrow_meta(EVENT1), Err(PaymentError::EscrowNotConfigured));
}

#[test]
fn get_ticket_unknown_is_not_found() {
    let w = World::new();
    assert_eq!(w.c.get_ticket(1), Err(PaymentError::TicketNotFound));
    assert_eq!(w.c.get_ticket(0), Err(PaymentError::TicketNotFound));
}

#[test]
fn test_payment_fits_checks_revenue_counters() {
    let mut w = World::new();
    w.bind_event(EVENT1, ORGANIZER);
    assert!(w.c.payment_fits(EVENT1, 100, TOKEN));
    let big = i128::MAX - 5;
    w.mint(PAYER, big);
    w.pay(1, PAYER, EVENT1, big).unwrap();
    assert!(w.c.payment_fits(EVENT1, 5, TOKEN));
    assert!(!w.c.payment_fits(EVENT1, 6, TOKEN));
    assert!(w.c.payment_fits(EVENT1, 0, TOKEN));
    assert!(w.c.payment_fits(EVENT1, -1, TOKEN));
    assert!(w.c.payment_fits(EVENT2, 6, TOKEN));
}

#[test]
fn test_fee_payout_fits_checks_fee_product() {
    let mut w = World::with_fee(10_000);
    w.bind_event(EVENT1, ORGANIZER);
    w.bind_event(EVENT2, ORGANIZER);
    let big = i128::MAX / 2;
    w.mint(PAYER, big + 1_000);
    w.pay(1, PAYER, EVENT1, big).unwrap();
    w.pay(2, PAYER, EVENT2, 1_000).unwrap();
    assert!(!w.c.fee_payout_fits(EVENT1, TOKEN));
    assert!(w.c.fee_payout_fits(EVENT2, TOKEN));
    assert!(w.c.fee_payout_fits(EVENT2, OUTSIDER));
}

#[test]
fn test_withdraw_fits_only_matters_when_accepted() {
    let mut w = World::with_fee(10_000);
    w.bind_event(EVENT1, ORGANIZER);
    let big = i128::MAX / 2;
    w.mint(PAYER, big);
    w.pay(1, PAYER, EVENT1, big).unwrap();
    // Refused anyway: not completed, or not the organizer.
    assert!(w.c.withdraw_fits(ORGANIZER, EVENT1));
    w.set_status(EVENT1, EventStatus::Completed);
    assert!(w.c.withdraw_fits(OUTSIDER, EVENT1));
    assert!(!w.c.withdraw_fits(ORGANIZER, EVENT1));
    assert!(!w.c.withdraw_revenue_fits(EVENT1));
    assert!(w.c.withdraw_revenue_fits(EVENT2));
}

#[test]
fn test_withdraw_fits_for_ordinary_amounts() {
    let mut w = World::with_fee(500);
    w.bind_event(EVENT1, ORGANIZER);
    w.mint(PAYER, 1_000);
    w.pay(1, PAYER, EVENT1, 1_000).unwrap();
    w.set_status(EVENT1, EventStatus::Completed);
    assert!(w.c.withdraw_fits(ORGANIZER, EVENT1));
    assert!(w.c.withdraw_revenue_fits(EVENT1));
    assert_eq!(w.c.withdraw(ORGANIZER, EVENT1, 5), Ok(()));
    w.settle();
    assert_eq!(w.balance(TOKEN, ORGANIZER), 950);
}
