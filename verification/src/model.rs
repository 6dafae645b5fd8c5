//! The mathematical model of the engine: what initialization builds, which
//! tranches a disbursement pays, the exact sequence of payout effects it
//! emits, and how the settled set and the state evolve.

use vstd::prelude::*;
use crate::state::{PayoutV, StateV, StoreV, VestingError, SECONDS_PER_MONTH};

verus! {

/// The state created at initialization time `now`: zero deposit, four
/// tranches unlocking 6, 12, 18 and 24 months after `now`, placeholder
/// recipients, zero allocation weights, no disbursement yet.
pub open spec fn initial_state(now: u64) -> StateV
    recommends
        now + 24 * SECONDS_PER_MONTH <= u64::MAX,
{
    StateV {
        owner: "owner_address"@,
        deposit: 0,
        unlock_times: seq![
            (now + 6 * SECONDS_PER_MONTH) as u64,
            (now + 12 * SECONDS_PER_MONTH) as u64,
            (now + 18 * SECONDS_PER_MONTH) as u64,
            (now + 24 * SECONDS_PER_MONTH) as u64,
        ],
        recipients: seq!["recipient1"@, "recipient2"@, "recipient3"@, "recipient4"@],
        allocation: seq![0u128, 0u128, 0u128, 0u128],
        last_disburse: 0,
    }
}

/// The flat amount each recipient receives when a tranche settles: the
/// cumulative deposit, floor-divided by the fixed recipient count 4 and by
/// the tranche count. Every tranche pays this same amount, computed from
/// the full deposit at the time of the call.
pub open spec fn per_recipient_amount(s: StateV) -> u128
    recommends
        s.unlock_times.len() > 0,
{
    s.deposit / 4 / (s.unlock_times.len() as u128)
}

/// Tranche `i` pays in a call at time `now` against settled set `settled`
/// iff it has unlocked and has not been settled before.
pub open spec fn tranche_due(s: StateV, settled: Set<u64>, now: u64, i: int) -> bool
    recommends
        0 <= i < s.unlock_times.len(),
{
    now >= s.unlock_times[i] && !settled.contains(s.unlock_times[i])
}

/// The payouts of one tranche: each recipient, in declared order, receives
/// the flat per-recipient amount of the configured token.
pub open spec fn tranche_effects(s: StateV) -> Seq<PayoutV> {
    Seq::new(
        s.recipients.len(),
        |j: int| PayoutV {
            recipient: s.recipients[j],
            amount: per_recipient_amount(s),
            denom: "token"@,
        },
    )
}

/// The effects of the tranche walk restricted to the first `n` tranches,
/// in ascending unlock order.
pub open spec fn effects_upto(s: StateV, settled: Set<u64>, now: u64, n: int) -> Seq<PayoutV>
    decreases n,
{
    if n <= 0 {
        Seq::empty()
    } else {
        effects_upto(s, settled, now, n - 1) + if tranche_due(s, settled, now, n - 1) {
            tranche_effects(s)
        } else {
            Seq::empty()
        }
    }
}

/// All payout effects of one disbursement call at `now`.
pub open spec fn disburse_effects(s: StateV, settled: Set<u64>, now: u64) -> Seq<PayoutV> {
    effects_upto(s, settled, now, s.unlock_times.len() as int)
}

/// The settled set after a disbursement at `now`: every unlocked unlock
/// time is settled, and settlement is never undone.
pub open spec fn settled_after(s: StateV, settled: Set<u64>, now: u64) -> Set<u64> {
    settled + Set::new(|t: u64| s.unlock_times.contains(t) && now >= t)
}

/// `s` with its cumulative deposit replaced.
pub open spec fn with_deposit(s: StateV, d: u128) -> StateV {
    StateV { deposit: d, ..s }
}

/// `s` with its last-disbursement marker replaced.
pub open spec fn with_last_disburse(s: StateV, t: u64) -> StateV {
    StateV { last_disburse: t, ..s }
}

/// How one deposit call relates the store view before (`pre`) to the view
/// after (`post`): on success the sender is the owner, the deposit grows
/// by `amount` and nothing else changes; each error names exactly the
/// inputs on which it occurs and changes nothing.
pub open spec fn deposit_transition(
    pre: StoreV,
    post: StoreV,
    sender: Seq<char>,
    amount: u128,
    r: Result<(), VestingError>,
) -> bool {
    match r {
        Ok(_) => {
            &&& pre.state matches Some(s)
            &&& sender == s.owner
            &&& s.deposit + amount <= u128::MAX
            &&& post.state == Some(with_deposit(s, (s.deposit + amount) as u128))
            &&& post.settled == pre.settled
        },
        Err(e) => {
            &&& post == pre
            &&& match e {
                VestingError::NotInitialized => pre.state is None,
                VestingError::Unauthorized => pre.state matches Some(s) && sender != s.owner,
                VestingError::Overflow => pre.state matches Some(s) && sender == s.owner
                    && s.deposit + amount > u128::MAX,
            }
        },
    }
}

/// How one disbursement call relates the store view before to the view
/// after, together with the effects it returns: it fails only on an
/// uninitialized store; otherwise it emits exactly the due tranches'
/// payouts, settles every unlocked tranche, and stamps the
/// last-disbursement marker iff at least one payout was emitted.
pub open spec fn disburse_transition(
    pre: StoreV,
    post: StoreV,
    now: u64,
    r: Result<Seq<PayoutV>, VestingError>,
) -> bool {
    match r {
        Ok(effects) => {
            &&& pre.state matches Some(s)
            &&& effects == disburse_effects(s, pre.settled, now)
            &&& post.settled == settled_after(s, pre.settled, now)
            &&& post.state == Some(
                with_last_disburse(
                    s,
                    if disburse_effects(s, pre.settled, now).len() > 0 {
                        now
                    } else {
                        s.last_disburse
                    },
                ),
            )
        },
        Err(e) => e == VestingError::NotInitialized && pre.state is None && post == pre,
    }
}

} // verus!
