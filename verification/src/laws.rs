//! The engine's guarantees across calls, stated and proved over the model:
//! idempotence of disbursement, exactly-once settlement per tranche, no
//! payout before the first unlock, and deposit monotonicity.

use vstd::prelude::*;
use crate::state::{PayoutV, StateV};
use crate::model::{
    disburse_effects, effects_upto, settled_after, tranche_due, with_deposit,
};

verus! {

proof fn lemma_effects_upto_none_due(s: StateV, settled: Set<u64>, now: u64, n: int)
    requires
        forall|i: int| 0 <= i < n ==> !tranche_due(s, settled, now, i),
    ensures
        effects_upto(s, settled, now, n) == Seq::<PayoutV>::empty(),
    decreases n,
{
    if n > 0 {
        lemma_effects_upto_none_due(s, settled, now, n - 1);
        assert(effects_upto(s, settled, now, n) =~= Seq::<PayoutV>::empty());
    }
}

/// Law: settlement only grows. No disbursement ever unsettles a tranche,
/// so the settled set before a call is contained in the set after it.
pub proof fn lemma_settled_monotonic(s: StateV, settled: Set<u64>, now: u64)
    ensures
        settled.subset_of(settled_after(s, settled, now)),
{
}

/// Law: disbursement is idempotent. After one call at `now` has settled
/// every unlocked tranche, a second call at the same `now` — against any
/// state `s2` that keeps the schedule, the recipients and the deposit of
/// `s1`, however its last-disbursement marker moved — emits no effects and
/// leaves the settled set unchanged.
pub proof fn lemma_disburse_idempotent(s1: StateV, s2: StateV, settled: Set<u64>, now: u64)
    requires
        s2.unlock_times == s1.unlock_times,
        s2.recipients == s1.recipients,
        s2.deposit == s1.deposit,
    ensures
        disburse_effects(s2, settled_after(s1, settled, now), now) == Seq::<PayoutV>::empty(),
        settled_after(s2, settled_after(s1, settled, now), now) == settled_after(s1, settled, now),
{
    let settled1 = settled_after(s1, settled, now);
    assert forall|i: int|
        0 <= i < s2.unlock_times.len() implies !tranche_due(s2, settled1, now, i) by {
        if now >= s2.unlock_times[i] {
            assert(s1.unlock_times.contains(s2.unlock_times[i]));
        }
    }
    lemma_effects_upto_none_due(s2, settled1, now, s2.unlock_times.len() as int);
    assert(settled_after(s2, settled1, now) =~= settled1);
}

/// Law: each tranche pays exactly once. If the tranche with index `i` was
/// due — and hence paid and settled — in a call at `now1`, then it is not
/// due in any later call, whatever its time `now2` and whatever grew the
/// settled set in between.
pub proof fn lemma_exactly_once(
    s1: StateV,
    settled1: Set<u64>,
    now1: u64,
    s2: StateV,
    settled2: Set<u64>,
    now2: u64,
    i: int,
)
    requires
        0 <= i < s1.unlock_times.len(),
        tranche_due(s1, settled1, now1, i),
        settled_after(s1, settled1, now1).subset_of(settled2),
        s2.unlock_times == s1.unlock_times,
    ensures
        !tranche_due(s2, settled2, now2, i),
{
    let t = s1.unlock_times[i];
    assert(s1.unlock_times.contains(t));
    assert(settled_after(s1, settled1, now1).contains(t));
}

/// Law: no payout before the first unlock. A disbursement called before
/// the earliest unlock time of a well-formed schedule emits no effects and
/// settles nothing.
pub proof fn lemma_no_early_payout(s: StateV, settled: Set<u64>, now: u64)
    requires
        crate::state::wf_state(s),
        now < s.unlock_times[0],
    ensures
        disburse_effects(s, settled, now) == Seq::<PayoutV>::empty(),
        settled_after(s, settled, now) == settled,
{
    assert forall|i: int|
        0 <= i < s.unlock_times.len() implies !tranche_due(s, settled, now, i) by {
        if i > 0 {
            assert(s.unlock_times[0] < s.unlock_times[i]);
        }
    }
    lemma_effects_upto_none_due(s, settled, now, s.unlock_times.len() as int);
    assert forall|t: u64| s.unlock_times.contains(t) implies !(now >= t) by {
        let j = choose|j: int| 0 <= j < s.unlock_times.len() && s.unlock_times[j] == t;
        if j > 0 {
            assert(s.unlock_times[0] < s.unlock_times[j]);
        }
    }
    assert(settled_after(s, settled, now) =~= settled);
}

/// The sum of a sequence of deposit amounts.
pub open spec fn sum_of(amounts: Seq<u128>) -> int
    decreases amounts.len(),
{
    if amounts.len() == 0 {
        0
    } else {
        amounts[0] + sum_of(amounts.drop_first())
    }
}

/// The state after a sequence of successful deposits, each of which — as
/// `try_receive` ensures — replaces the cumulative deposit by its checked
/// sum with the deposited amount and changes nothing else.
pub open spec fn apply_deposits(s: StateV, amounts: Seq<u128>) -> StateV
    decreases amounts.len(),
{
    if amounts.len() == 0 {
        s
    } else {
        apply_deposits(
            with_deposit(s, (s.deposit + amounts[0]) as u128),
            amounts.drop_first(),
        )
    }
}

proof fn lemma_sum_of_nonneg(amounts: Seq<u128>)
    ensures
        sum_of(amounts) >= 0,
    decreases amounts.len(),
{
    if amounts.len() > 0 {
        lemma_sum_of_nonneg(amounts.drop_first());
    }
}

/// Law: deposit monotonicity. After any sequence of successful deposits
/// the cumulative deposit equals the starting deposit plus the sum of all
/// deposited amounts, and in particular never decreases; everything else
/// in the state is untouched.
pub proof fn lemma_deposit_sum(s: StateV, amounts: Seq<u128>)
    requires
        s.deposit + sum_of(amounts) <= u128::MAX,
    ensures
        apply_deposits(s, amounts).deposit == s.deposit + sum_of(amounts),
        apply_deposits(s, amounts).deposit >= s.deposit,
        apply_deposits(s, amounts) == with_deposit(s, apply_deposits(s, amounts).deposit),
    decreases amounts.len(),
{
    lemma_sum_of_nonneg(amounts);
    if amounts.len() == 0 {
        assert(apply_deposits(s, amounts) =~= with_deposit(s, s.deposit));
    } else {
        lemma_sum_of_nonneg(amounts.drop_first());
        let s1 = with_deposit(s, (s.deposit + amounts[0]) as u128);
        lemma_deposit_sum(s1, amounts.drop_first());
        assert(apply_deposits(s, amounts) =~= with_deposit(s, apply_deposits(s, amounts).deposit));
    }
}

} // verus!
