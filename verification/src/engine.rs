//! The state store and the disbursement engine: initialization, deposits,
//! and the tranche walk that pays each unlocked tranche exactly once.

use vstd::prelude::*;
use crate::state::{ExecuteMsg, Payout, PayoutV, State, StateV, StoreV, VestingError};
use crate::model::{
    deposit_transition, disburse_effects, disburse_transition, effects_upto, initial_state,
    per_recipient_amount, settled_after, tranche_due, tranche_effects, with_deposit,
    with_last_disburse,
};

verus! {

/// The vesting state store: the single account state, if created, and the
/// unlock times whose tranches have been settled. It is a pure persistence
/// boundary; validity is enforced by its callers.
pub struct Store {
    state: Option<State>,
    settled: Vec<u64>,
}

impl View for Store {
    type V = StoreV;

    closed spec fn view(&self) -> StoreV {
        StoreV {
            state: match self.state {
                Some(s) => Some(s@),
                None => None,
            },
            settled: self.settled@.to_set(),
        }
    }
}

impl Store {
    /// Validity of the store: a created account has a well-formed
    /// schedule.
    pub open spec fn inv(self) -> bool {
        self@.state matches Some(s) ==> crate::state::wf_state(s)
    }

    /// An empty store, before the account is created.
    pub fn new() -> (r: Store)
        ensures
            r@.state is None,
            r@.settled == Set::<u64>::empty(),
            r.inv(),
    {
        let r = Store { state: None, settled: Vec::new() };
        proof {
            assert(r@.settled =~= Set::<u64>::empty());
        }
        r
    }

    /// Rebuilds a store from its parts, e.g. out of a persistence layer.
    pub fn from_parts(state: Option<State>, settled: Vec<u64>) -> (r: Store)
        ensures
            r@.state == (match state {
                Some(s) => Some(s@),
                None => None::<StateV>,
            }),
            r@.settled == settled@.to_set(),
    {
        Store { state, settled }
    }

    /// Reads the account state; fails exactly when the account was never
    /// created.
    pub fn load(&self) -> (r: Result<&State, VestingError>)
        ensures
            match r {
                Ok(s) => self@.state == Some(s@),
                Err(e) => e == VestingError::NotInitialized && self@.state is None,
            },
    {
        match &self.state {
            Some(s) => Ok(s),
            None => Err(VestingError::NotInitialized),
        }
    }

    /// Overwrites the account state unconditionally.
    pub fn save(&mut self, s: State)
        ensures
            final(self)@.state == Some(s@),
            final(self)@.settled == old(self)@.settled,
    {
        self.state = Some(s);
    }

    /// Whether the tranche with unlock time `t` has been settled.
    pub fn has_settlement(&self, t: u64) -> (r: bool)
        ensures
            r == self@.settled.contains(t),
    {
        let n = self.settled.len();
        let mut i: usize = 0;
        while i < n
            invariant
                i <= n,
                n == self.settled.len(),
                forall|j: int| 0 <= j < i ==> self.settled@[j] != t,
            decreases n - i,
        {
            if self.settled[i] == t {
                return true;
            }
            i = i + 1;
        }
        proof {
            assert(!self.settled@.contains(t));
        }
        false
    }

    /// Records the tranche with unlock time `t` as settled; settlement is
    /// never removed.
    pub fn mark_settled(&mut self, t: u64)
        ensures
            final(self)@.settled == old(self)@.settled.insert(t),
            final(self)@.state == old(self)@.state,
    {
        if !self.has_settlement(t) {
            self.settled.push(t);
            proof {
                assert forall|x: u64|
                    self.settled@.contains(x) <==> (old(self).settled@.contains(x) || x
                        == t) by {
                    if self.settled@.contains(x) {
                        let k = choose|k: int|
                            0 <= k < self.settled@.len() && self.settled@[k] == x;
                        if k < old(self).settled@.len() {
                            assert(old(self).settled@[k] == x);
                        }
                    }
                    if old(self).settled@.contains(x) {
                        let k = choose|k: int|
                            0 <= k < old(self).settled@.len() && old(self).settled@[k] == x;
                        assert(self.settled@[k] == x);
                    }
                    if x == t {
                        assert(self.settled@[old(self).settled@.len() as int] == x);
                    }
                }
                assert(self@.settled =~= old(self)@.settled.insert(t));
            }
        } else {
            proof {
                assert(self@.settled =~= old(self)@.settled.insert(t));
            }
        }
    }
}

/// Creates the account: zero deposit, four tranches unlocking 6, 12, 18
/// and 24 months after `now`, placeholder recipients, zero allocations.
/// It is called exactly once, before any other operation; avoiding a
/// second call is the caller's burden.
pub fn instantiate(store: &mut Store, now: u64)
    requires
        old(store)@.state is None,
        now + 24 * crate::state::SECONDS_PER_MONTH <= u64::MAX,
    ensures
        final(store)@.state == Some(initial_state(now)),
        final(store)@.settled == old(store)@.settled,
        final(store).inv(),
{
    let mut unlock_times: Vec<u64> = Vec::new();
    unlock_times.push(now + 6 * crate::state::SECONDS_PER_MONTH);
    unlock_times.push(now + 12 * crate::state::SECONDS_PER_MONTH);
    unlock_times.push(now + 18 * crate::state::SECONDS_PER_MONTH);
    unlock_times.push(now + 24 * crate::state::SECONDS_PER_MONTH);

    let mut recipients: Vec<String> = Vec::new();
    recipients.push(String::from_str("recipient1"));
    recipients.push(String::from_str("recipient2"));
    recipients.push(String::from_str("recipient3"));
    recipients.push(String::from_str("recipient4"));

    let mut allocation: Vec<u128> = Vec::new();
    allocation.push(0);
    allocation.push(0);
    allocation.push(0);
    allocation.push(0);

    let state = State {
        owner: String::from_str("owner_address"),
        deposit: 0,
        unlock_times,
        recipients,
        allocation,
        last_disburse: 0,
    };
    proof {
        assert(state@ =~= initial_state(now));
    }
    store.save(state);
}

/// Credits a deposit of `amount` reported as sent by `sender`. Only the
/// owner may deposit; the cumulative deposit grows by checked addition and
/// nothing else changes. Every error leaves the store untouched.
pub fn try_receive(store: &mut Store, sender: &String, amount: u128) -> (r: Result<
    (),
    VestingError,
>)
    ensures
        deposit_transition(old(store)@, final(store)@, sender@, amount, r),
        old(store).inv() ==> final(store).inv(),
{
    let new_deposit: u128;
    match &store.state {
        None => {
            return Err(VestingError::NotInitialized);
        },
        Some(state) => {
            if *sender != state.owner {
                return Err(VestingError::Unauthorized);
            }
            match state.deposit.checked_add(amount) {
                None => {
                    return Err(VestingError::Overflow);
                },
                Some(d) => {
                    new_deposit = d;
                },
            }
        },
    }
    match &mut store.state {
        Some(state) => {
            state.deposit = new_deposit;
        },
        None => {},
    }
    proof {
        let s = old(store)@.state.unwrap();
        assert(store@.state.unwrap() =~= with_deposit(s, (s.deposit + amount) as u128));
    }
    Ok(())
}

/// The settled set after the tranche walk has handled the first `n`
/// tranches of a call at `now`.
spec fn settled_upto(s: StateV, settled: Set<u64>, now: u64, n: int) -> Set<u64>
    decreases n,
{
    if n <= 0 {
        settled
    } else {
        let prev = settled_upto(s, settled, now, n - 1);
        if now >= s.unlock_times[n - 1] {
            prev.insert(s.unlock_times[n - 1])
        } else {
            prev
        }
    }
}

proof fn lemma_settled_upto_contains(s: StateV, settled: Set<u64>, now: u64, n: int, t: u64)
    requires
        0 <= n <= s.unlock_times.len(),
    ensures
        settled_upto(s, settled, now, n).contains(t) <==> (settled.contains(t) || exists|j: int|
            0 <= j < n && s.unlock_times[j] == t && now >= s.unlock_times[j]),
    decreases n,
{
    if n > 0 {
        lemma_settled_upto_contains(s, settled, now, n - 1, t);
        if settled_upto(s, settled, now, n).contains(t) && !settled_upto(
            s,
            settled,
            now,
            n - 1,
        ).contains(t) {
            assert(s.unlock_times[n - 1] == t && now >= s.unlock_times[n - 1]);
        }
        if exists|j: int| 0 <= j < n && s.unlock_times[j] == t && now >= s.unlock_times[j] {
            let j = choose|j: int| 0 <= j < n && s.unlock_times[j] == t && now >= s.unlock_times[j];
            if j < n - 1 {
                assert(settled_upto(s, settled, now, n - 1).contains(t));
            }
        }
    }
}

proof fn lemma_settled_upto_full(s: StateV, settled: Set<u64>, now: u64)
    ensures
        settled_upto(s, settled, now, s.unlock_times.len() as int) == settled_after(
            s,
            settled,
            now,
        ),
{
    let n = s.unlock_times.len() as int;
    assert forall|t: u64|
        settled_upto(s, settled, now, n).contains(t) <==> settled_after(
            s,
            settled,
            now,
        ).contains(t) by {
        lemma_settled_upto_contains(s, settled, now, n, t);
        if s.unlock_times.contains(t) && now >= t {
            let j = choose|j: int| 0 <= j < n && s.unlock_times[j] == t;
            assert(0 <= j < n && s.unlock_times[j] == t && now >= s.unlock_times[j]);
        }
    }
    assert(settled_upto(s, settled, now, n) =~= settled_after(s, settled, now));
}

/// Walks the tranche schedule at time `now`: every tranche that has
/// unlocked and was never settled before pays each recipient the flat
/// per-recipient amount, in ascending unlock order with recipients in
/// declared order, and is settled exactly once. The last-disbursement
/// marker is stamped iff at least one payout was emitted. Anyone may call
/// this, arbitrarily often; an empty result is a valid no-op, not an
/// error.
pub fn try_disburse(store: &mut Store, now: u64) -> (r: Result<Vec<Payout>, VestingError>)
    requires
        old(store).inv(),
    ensures
        final(store).inv(),
        match r {
            Ok(msgs) => disburse_transition(old(store)@, final(store)@, now, Ok(msgs.deep_view())),
            Err(e) => disburse_transition(old(store)@, final(store)@, now, Err(e)),
        },
{
    if store.state.is_none() {
        return Err(VestingError::NotInitialized);
    }
    let ghost s = store@.state.unwrap();
    let ghost settled0 = store@.settled;

    let n: usize = store.state.as_ref().unwrap().unlock_times.len();
    let deposit: u128 = store.state.as_ref().unwrap().deposit;
    let amount: u128 = deposit / 4 / (n as u128);
    proof {
        assert(amount == per_recipient_amount(s));
    }

    let mut msgs: Vec<Payout> = Vec::new();
    let mut i: usize = 0;
    while i < n
        invariant
            store.inv(),
            store@.state == Some(s),
            crate::state::wf_state(s),
            i <= n,
            n == s.unlock_times.len(),
            amount == per_recipient_amount(s),
            store@.settled == settled_upto(s, settled0, now, i as int),
            msgs.deep_view() == effects_upto(s, settled0, now, i as int),
        decreases n - i,
    {
        let t: u64 = store.state.as_ref().unwrap().unlock_times[i];
        proof {
            lemma_settled_upto_contains(s, settled0, now, i as int, t);
            assert forall|j: int| 0 <= j < i implies s.unlock_times[j] != t by {
                assert(s.unlock_times[j] < s.unlock_times[i as int]);
            }
        }
        if now >= t {
            if !store.has_settlement(t) {
                proof {
                    assert(tranche_due(s, settled0, now, i as int));
                }
                let ghost msgs_pre = msgs.deep_view();
                let nr: usize = store.state.as_ref().unwrap().recipients.len();
                let mut j: usize = 0;
                while j < nr
                    invariant
                        store@.state == Some(s),
                        crate::state::wf_state(s),
                        j <= nr,
                        nr == s.recipients.len(),
                        amount == per_recipient_amount(s),
                        msgs.deep_view() == msgs_pre + tranche_effects(s).subrange(0, j as int),
                    decreases nr - j,
                {
                    let recipient = store.state.as_ref().unwrap().recipients[j].clone();
                    let payout = Payout { recipient, amount, denom: String::from_str("token") };
                    proof {
                        assert(payout@ == tranche_effects(s)[j as int]);
                    }
                    let ghost deep_snap = msgs.deep_view();
                    let ghost vec_snap = msgs@;
                    msgs.push(payout);
                    proof {
                        assert forall|k: int| 0 <= k < msgs.deep_view().len() implies msgs.deep_view()[k]
                            == (deep_snap + seq![payout@])[k] by {
                            if k < vec_snap.len() {
                                assert(msgs@[k] == vec_snap[k]);
                            } else {
                                assert(msgs@[k] == payout);
                            }
                        }
                        assert(msgs.deep_view() =~= deep_snap + seq![payout@]);
                        assert(tranche_effects(s).subrange(0, j as int + 1) =~= tranche_effects(
                            s,
                        ).subrange(0, j as int) + seq![tranche_effects(s)[j as int]]);
                        assert(msgs.deep_view() =~= msgs_pre + tranche_effects(s).subrange(
                            0,
                            j as int + 1,
                        ));
                    }
                    j = j + 1;
                }
                store.mark_settled(t);
                proof {
                    assert(tranche_effects(s).subrange(0, nr as int) =~= tranche_effects(s));
                    assert(msgs.deep_view() =~= effects_upto(s, settled0, now, i as int + 1));
                    assert(store@.settled =~= settled_upto(s, settled0, now, i as int + 1));
                }
            } else {
                proof {
                    assert(settled0.contains(t));
                    assert(!tranche_due(s, settled0, now, i as int));
                    assert(settled_upto(s, settled0, now, i as int + 1) =~= settled_upto(
                        s,
                        settled0,
                        now,
                        i as int,
                    ));
                    assert(effects_upto(s, settled0, now, i as int + 1) =~= effects_upto(
                        s,
                        settled0,
                        now,
                        i as int,
                    ));
                }
            }
        } else {
            proof {
                assert(!tranche_due(s, settled0, now, i as int));
                assert(settled_upto(s, settled0, now, i as int + 1) =~= settled_upto(
                    s,
                    settled0,
                    now,
                    i as int,
                ));
                assert(effects_upto(s, settled0, now, i as int + 1) =~= effects_upto(
                    s,
                    settled0,
                    now,
                    i as int,
                ));
            }
        }
        i = i + 1;
    }
    proof {
        lemma_settled_upto_full(s, settled0, now);
    }
    if msgs.len() > 0 {
        match &mut store.state {
            Some(state) => {
                state.last_disburse = now;
            },
            None => {},
        }
    }
    proof {
        let ld: u64 = if disburse_effects(s, settled0, now).len() > 0 {
            now
        } else {
            s.last_disburse
        };
        assert(store@.state.unwrap() =~= with_last_disburse(s, ld));
    }
    Ok(msgs)
}

/// Dispatches one of the two mutating operations. A deposit emits no
/// payouts; a disbursement behaves exactly as `try_disburse`.
pub fn execute(store: &mut Store, now: u64, msg: ExecuteMsg) -> (r: Result<
    Vec<Payout>,
    VestingError,
>)
    requires
        old(store).inv(),
    ensures
        final(store).inv(),
        match msg {
            ExecuteMsg::Receive { sender, amount } => match r {
                Ok(msgs) => msgs.deep_view() == Seq::<PayoutV>::empty() && deposit_transition(
                    old(store)@,
                    final(store)@,
                    sender@,
                    amount,
                    Ok(()),
                ),
                Err(e) => deposit_transition(old(store)@, final(store)@, sender@, amount, Err(e)),
            },
            ExecuteMsg::Disburse {  } => match r {
                Ok(msgs) => disburse_transition(
                    old(store)@,
                    final(store)@,
                    now,
                    Ok(msgs.deep_view()),
                ),
                Err(e) => disburse_transition(old(store)@, final(store)@, now, Err(e)),
            },
        },
{
    match msg {
        ExecuteMsg::Receive { sender, amount } => {
            match try_receive(store, &sender, amount) {
                Ok(_) => {
                    let msgs: Vec<Payout> = Vec::new();
                    proof {
                        assert(msgs.deep_view() =~= Seq::<PayoutV>::empty());
                    }
                    Ok(msgs)
                },
                Err(e) => Err(e),
            }
        },
        ExecuteMsg::Disburse {  } => try_disburse(store, now),
    }
}

} // verus!
