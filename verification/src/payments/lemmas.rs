//! Facts about the escrow sums and the derived lists of the payments model.

use vstd::prelude::*;

use crate::payments::model::{
    amount_of, held_event_sum, held_sum, is_held_for, is_held_in, ledger_consistent, pair,
    payment_consistent, refunded, release_event, release_token, release_tokens, remaining,
    tokens_of, PaymentsView,
};
use crate::types::{AccountId, EventId, PaymentRecord, PaymentStatus};

verus! {

pub open spec fn held_share(p: PaymentRecord, e: EventId, t: AccountId) -> int {
    if is_held_for(p, e, t) {
        remaining(p)
    } else {
        0
    }
}

pub open spec fn event_share(p: PaymentRecord, e: EventId) -> int {
    if is_held_in(p, e) {
        remaining(p)
    } else {
        0
    }
}

pub open spec fn all_consistent(ps: Seq<PaymentRecord>) -> bool {
    forall|i: int| 0 <= i < ps.len() ==> payment_consistent(#[trigger] ps[i])
}

pub proof fn lemma_held_push(ps: Seq<PaymentRecord>, p: PaymentRecord, e: EventId, t: AccountId)
    ensures
        held_sum(ps.push(p), e, t) == held_sum(ps, e, t) + held_share(p, e, t),
        held_event_sum(ps.push(p), e) == held_event_sum(ps, e) + event_share(p, e),
{
    assert(ps.push(p).drop_last() =~= ps);
}

pub proof fn lemma_held_update(
    ps: Seq<PaymentRecord>,
    i: int,
    p: PaymentRecord,
    e: EventId,
    t: AccountId,
)
    requires
        0 <= i < ps.len(),
    ensures
        held_sum(ps.update(i, p), e, t) == held_sum(ps, e, t) - held_share(ps[i], e, t) + held_share(
            p,
            e,
            t,
        ),
        held_event_sum(ps.update(i, p), e) == held_event_sum(ps, e) - event_share(ps[i], e)
            + event_share(p, e),
    decreases ps.len(),
{
    let u = ps.update(i, p);
    if i == ps.len() - 1 {
        assert(u.drop_last() =~= ps.drop_last());
    } else {
        assert(u.drop_last() =~= ps.drop_last().update(i, p));
        lemma_held_update(ps.drop_last(), i, p, e, t);
    }
}

pub proof fn lemma_held_nonneg(ps: Seq<PaymentRecord>, e: EventId, t: AccountId)
    requires
        all_consistent(ps),
    ensures
        held_sum(ps, e, t) >= 0,
        held_event_sum(ps, e) >= 0,
    decreases ps.len(),
{
    if ps.len() > 0 {
        assert(payment_consistent(ps[ps.len() - 1]));
        lemma_held_nonneg(ps.drop_last(), e, t);
    }
}

/// Paying out one (event, token) empties its escrow and leaves every other
/// (event, token) pair as it was.
pub proof fn lemma_release_token_sums(
    ps: Seq<PaymentRecord>,
    e: EventId,
    t: AccountId,
    e2: EventId,
    t2: AccountId,
)
    ensures
        held_sum(release_token(ps, e, t), e2, t2) == if e2 == e && t2 == t {
            0
        } else {
            held_sum(ps, e2, t2)
        },
        held_event_sum(release_token(ps, e, t), e2) == held_event_sum(ps, e2) - if e2 == e {
            held_sum(ps, e, t)
        } else {
            0
        },
    decreases ps.len(),
{
    if ps.len() > 0 {
        assert(release_token(ps, e, t).drop_last() =~= release_token(ps.drop_last(), e, t));
        lemma_release_token_sums(ps.drop_last(), e, t, e2, t2);
    } else {
        assert(release_token(ps, e, t).len() == 0);
    }
}

/// Paying out all of an event empties its escrow in every token.
pub proof fn lemma_release_event_sums(
    ps: Seq<PaymentRecord>,
    e: EventId,
    e2: EventId,
    t2: AccountId,
)
    ensures
        held_sum(release_event(ps, e), e2, t2) == if e2 == e {
            0
        } else {
            held_sum(ps, e2, t2)
        },
        held_event_sum(release_event(ps, e), e2) == if e2 == e {
            0
        } else {
            held_event_sum(ps, e2)
        },
    decreases ps.len(),
{
    if ps.len() > 0 {
        assert(release_event(ps, e).drop_last() =~= release_event(ps.drop_last(), e));
        lemma_release_event_sums(ps.drop_last(), e, e2, t2);
    } else {
        assert(release_event(ps, e).len() == 0);
    }
}

/// Paying out keeps every payment consistent.
pub proof fn lemma_release_consistent(ps: Seq<PaymentRecord>, e: EventId, t: AccountId)
    requires
        all_consistent(ps),
    ensures
        all_consistent(release_token(ps, e, t)),
        all_consistent(release_event(ps, e)),
{
    assert forall|i: int| 0 <= i < ps.len() implies payment_consistent(
        #[trigger] release_token(ps, e, t)[i],
    ) by {
        assert(payment_consistent(ps[i]));
    }
    assert forall|i: int| 0 <= i < ps.len() implies payment_consistent(
        #[trigger] release_event(ps, e)[i],
    ) by {
        assert(payment_consistent(ps[i]));
    }
}

/// Every token paid in for an event appears in its token list, and the
/// list holds each token once.
pub proof fn lemma_tokens_of(ps: Seq<PaymentRecord>, e: EventId)
    ensures
        forall|i: int|
            0 <= i < ps.len() && (#[trigger] ps[i]).event_id == e ==> tokens_of(ps, e).contains(
                ps[i].token,
            ),
        forall|a: int, b: int|
            0 <= a < b < tokens_of(ps, e).len() ==> tokens_of(ps, e)[a] != tokens_of(ps, e)[b],
    decreases ps.len(),
{
    if ps.len() > 0 {
        let prev = ps.drop_last();
        lemma_tokens_of(prev, e);
        assert forall|i: int|
            0 <= i < ps.len() && (#[trigger] ps[i]).event_id == e implies tokens_of(
                ps,
                e,
            ).contains(ps[i].token) by {
            if i < ps.len() - 1 {
                assert(prev[i] == ps[i]);
                let k = choose|k: int|
                    0 <= k < tokens_of(prev, e).len() && tokens_of(prev, e)[k] == ps[i].token;
                assert(tokens_of(ps, e)[k] == ps[i].token);
            } else {
                if !tokens_of(prev, e).contains(ps[i].token) {
                    let n = tokens_of(prev, e).len() as int;
                    assert(tokens_of(ps, e)[n] == ps[i].token);
                }
            }
        }
    }
}

/// Paying out one (event, token) with its counters reset keeps the ledger
/// consistent.
pub proof fn lemma_token_payout_consistent(v: PaymentsView, w: PaymentsView, e: EventId, t: AccountId)
    requires
        ledger_consistent(v),
        w.payments == release_token(v.payments, e, t),
        w.tickets == v.tickets,
        w.platform_fee_bps == v.platform_fee_bps,
        w.token_revenue == v.token_revenue.insert(pair(e, t), 0),
        w.event_revenue == v.event_revenue.insert(
            e,
            (amount_of(v.event_revenue, e) - held_sum(v.payments, e, t)) as i128,
        ),
    ensures
        ledger_consistent(w),
{
    assert(all_consistent(v.payments));
    lemma_release_consistent(v.payments, e, t);
    assert forall|i: int| 0 <= i < w.payments.len() implies (#[trigger] w.payments[i]).payment_id
        == i + 1 && payment_consistent(w.payments[i]) by {
        assert(v.payments[i].payment_id == i + 1);
    }
    assert forall|e2: EventId, t2: AccountId|
        #![trigger amount_of(w.token_revenue, pair(e2, t2))]
        #![trigger held_sum(w.payments, e2, t2)]
        amount_of(w.token_revenue, pair(e2, t2)) == held_sum(w.payments, e2, t2) by {
        lemma_release_token_sums(v.payments, e, t, e2, t2);
        assert(amount_of(v.token_revenue, pair(e2, t2)) == held_sum(v.payments, e2, t2));
    }
    assert(all_consistent(w.payments));
    assert forall|e2: EventId|
        #![trigger amount_of(w.event_revenue, e2)]
        #![trigger held_event_sum(w.payments, e2)]
        amount_of(w.event_revenue, e2) == held_event_sum(w.payments, e2) by {
        lemma_release_token_sums(v.payments, e, t, e2, t);
        assert(amount_of(v.event_revenue, e2) == held_event_sum(v.payments, e2));
        assert(amount_of(v.event_revenue, e) == held_event_sum(v.payments, e));
        lemma_held_nonneg(w.payments, e2, t);
        lemma_held_nonneg(v.payments, e, t);
        lemma_release_token_sums(v.payments, e, t, e, t);
        lemma_held_nonneg(w.payments, e, t);
    }
}

/// A refund of part or all of what remains of a held payment keeps the
/// ledger consistent.
pub proof fn lemma_refund_consistent(v: PaymentsView, w: PaymentsView, i: int, amt: int)
    requires
        ledger_consistent(v),
        0 <= i < v.payments.len(),
        v.payments[i].status == PaymentStatus::Held,
        0 < amt <= remaining(v.payments[i]),
        w.payments == v.payments.update(i, refunded(v.payments[i], amt)),
        w.tickets == v.tickets,
        w.platform_fee_bps == v.platform_fee_bps,
        w.token_revenue == v.token_revenue.insert(
            pair(v.payments[i].event_id, v.payments[i].token),
            (amount_of(v.token_revenue, pair(v.payments[i].event_id, v.payments[i].token))
                - amt) as i128,
        ),
        w.event_revenue == v.event_revenue.insert(
            v.payments[i].event_id,
            (amount_of(v.event_revenue, v.payments[i].event_id) - amt) as i128,
        ),
    ensures
        ledger_consistent(w),
{
    let p = v.payments[i];
    let q = refunded(p, amt);
    assert(payment_consistent(p));
    assert forall|k: int| 0 <= k < w.payments.len() implies (#[trigger] w.payments[k]).payment_id
        == k + 1 && payment_consistent(w.payments[k]) by {
        assert(v.payments[k].payment_id == k + 1);
    }
    assert(all_consistent(w.payments));
    assert forall|e2: EventId, t2: AccountId|
        #![trigger amount_of(w.token_revenue, pair(e2, t2))]
        #![trigger held_sum(w.payments, e2, t2)]
        amount_of(w.token_revenue, pair(e2, t2)) == held_sum(w.payments, e2, t2) by {
        lemma_held_update(v.payments, i, q, e2, t2);
        assert(amount_of(v.token_revenue, pair(e2, t2)) == held_sum(v.payments, e2, t2));
        assert(amount_of(v.token_revenue, pair(p.event_id, p.token)) == held_sum(
            v.payments,
            p.event_id,
            p.token,
        ));
        assert(w.payments.len() == v.payments.len());
        lemma_held_nonneg(w.payments, e2, t2);
    }
    assert forall|e2: EventId|
        #![trigger amount_of(w.event_revenue, e2)]
        #![trigger held_event_sum(w.payments, e2)]
        amount_of(w.event_revenue, e2) == held_event_sum(w.payments, e2) by {
        lemma_held_update(v.payments, i, q, e2, p.token);
        assert(amount_of(v.event_revenue, e2) == held_event_sum(v.payments, e2));
        assert(amount_of(v.event_revenue, p.event_id) == held_event_sum(v.payments, p.event_id));
        lemma_held_nonneg(w.payments, e2, p.token);
    }
}

/// Escrow holds at least as much for an event in all tokens as in one.
pub proof fn lemma_held_token_le_event(ps: Seq<PaymentRecord>, e: EventId, t: AccountId)
    requires
        all_consistent(ps),
    ensures
        held_sum(ps, e, t) <= held_event_sum(ps, e),
    decreases ps.len(),
{
    if ps.len() > 0 {
        assert(payment_consistent(ps[ps.len() - 1]));
        lemma_held_token_le_event(ps.drop_last(), e, t);
    }
}

/// Sequences whose elements hold the same shares hold the same sums.
pub proof fn lemma_held_congruent(a: Seq<PaymentRecord>, b: Seq<PaymentRecord>, e: EventId, t: AccountId)
    requires
        a.len() == b.len(),
        forall|k: int| 0 <= k < a.len() ==> held_share(#[trigger] a[k], e, t) == held_share(b[k], e, t),
    ensures
        held_sum(a, e, t) == held_sum(b, e, t),
    decreases a.len(),
{
    if a.len() > 0 {
        assert forall|k: int| 0 <= k < a.drop_last().len() implies held_share(
            #[trigger] a.drop_last()[k],
            e,
            t,
        ) == held_share(b.drop_last()[k], e, t) by {
            assert(a.drop_last()[k] == a[k]);
            assert(b.drop_last()[k] == b[k]);
        }
        lemma_held_congruent(a.drop_last(), b.drop_last(), e, t);
        assert(held_share(a[a.len() - 1], e, t) == held_share(b[b.len() - 1], e, t));
    }
}

/// When escrow holds nothing for (event, token), no payment of it is held.
pub proof fn lemma_held_zero(ps: Seq<PaymentRecord>, e: EventId, t: AccountId)
    requires
        all_consistent(ps),
        held_sum(ps, e, t) == 0,
    ensures
        forall|k: int| 0 <= k < ps.len() ==> !is_held_for(#[trigger] ps[k], e, t),
    decreases ps.len(),
{
    if ps.len() > 0 {
        let last = ps[ps.len() - 1];
        assert(payment_consistent(last));
        lemma_held_nonneg(ps.drop_last(), e, t);
        assert(all_consistent(ps.drop_last())) by {
            assert forall|k: int| 0 <= k < ps.drop_last().len() implies payment_consistent(
                #[trigger] ps.drop_last()[k],
            ) by {
                assert(ps.drop_last()[k] == ps[k]);
            }
        }
        lemma_held_zero(ps.drop_last(), e, t);
        assert forall|k: int| 0 <= k < ps.len() implies !is_held_for(#[trigger] ps[k], e, t) by {
            if k < ps.len() - 1 {
                assert(ps.drop_last()[k] == ps[k]);
            }
        }
    }
}

pub proof fn lemma_push_contains<A>(s: Seq<A>, t: A, x: A)
    ensures
        s.push(t).contains(x) <==> (s.contains(x) || x == t),
{
    if s.contains(x) {
        let i = choose|i: int| 0 <= i < s.len() && s[i] == x;
        assert(s.push(t)[i] == x);
    }
    if x == t {
        assert(s.push(t)[s.len() as int] == x);
    }
    if s.push(t).contains(x) {
        let i = choose|i: int| 0 <= i < s.push(t).len() && s.push(t)[i] == x;
        if i < s.len() {
            assert(s[i] == x);
        }
    }
}

/// Paying out one more token extends a token-by-token payout.
pub proof fn lemma_release_tokens_step(
    ps: Seq<PaymentRecord>,
    e: EventId,
    tokens: Seq<AccountId>,
    t: AccountId,
)
    ensures
        release_token(release_tokens(ps, e, tokens), e, t) =~= release_tokens(
            ps,
            e,
            tokens.push(t),
        ),
{
    assert forall|k: int| 0 <= k < ps.len() implies #[trigger] release_token(
        release_tokens(ps, e, tokens),
        e,
        t,
    )[k] == release_tokens(ps, e, tokens.push(t))[k] by {
        lemma_push_contains(tokens, t, ps[k].token);
    }
}

/// Escrow holds for an event at least the share of each of its payments.
pub proof fn lemma_held_event_ge_share(ps: Seq<PaymentRecord>, i: int, e: EventId)
    requires
        all_consistent(ps),
        0 <= i < ps.len(),
    ensures
        held_event_sum(ps, e) >= event_share(ps[i], e),
    decreases ps.len(),
{
    assert(payment_consistent(ps[ps.len() - 1]));
    if i < ps.len() - 1 {
        lemma_held_event_ge_share(ps.drop_last(), i, e);
        assert(ps.drop_last()[i] == ps[i]);
    } else {
        lemma_held_nonneg(ps.drop_last(), e, 0);
    }
}

} // verus!
