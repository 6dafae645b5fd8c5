//! Data types of the vesting account: the persisted state, the messages,
//! the payout effect, and the error taxonomy, each with its mathematical
//! model.

use vstd::prelude::*;

verus! {

/// Number of seconds in one schedule month. The schedule deliberately
/// fixes a month at 30 days; it is not calendar-aware.
pub const SECONDS_PER_MONTH: u64 = 2592000;

/// Errors surfaced by the engine. Every error leaves the store exactly as
/// it was before the call.
#[derive(Clone, Copy, Debug, PartialEq, Eq, Structural)]
pub enum VestingError {
    /// The store was read before the account was created.
    NotInitialized,
    /// A deposit was attempted by an identity other than the owner.
    Unauthorized,
    /// A deposit would overflow the cumulative deposit counter.
    Overflow,
}

/// Message that creates the account. It carries no fields: the schedule is
/// computed from the initialization time alone.
pub struct InstantiateMsg {}

/// The two mutating operations: a funds-transfer notification (a deposit,
/// carrying the validated sender identity and the amount) and a
/// permissionless disbursement request.
#[derive(Clone, Debug, PartialEq)]
pub enum ExecuteMsg {
    Receive { sender: String, amount: u128 },
    Disburse {},
}

/// No queries are offered; the type exists only to name the (empty) query
/// surface.
pub struct QueryMsg {}

/// The account state. `deposit` is the cumulative total ever deposited; it
/// is never decremented, since it is the basis of the payout arithmetic,
/// not a live balance.
#[derive(Clone, Debug, PartialEq)]
pub struct State {
    pub owner: String,
    pub deposit: u128,
    pub unlock_times: Vec<u64>,
    pub recipients: Vec<String>,
    pub allocation: Vec<u128>,
    pub last_disburse: u64,
}

/// Mathematical model of `State`.
#[verifier::ext_equal]
pub ghost struct StateV {
    pub owner: Seq<char>,
    pub deposit: u128,
    pub unlock_times: Seq<u64>,
    pub recipients: Seq<Seq<char>>,
    pub allocation: Seq<u128>,
    pub last_disburse: u64,
}

impl View for State {
    type V = StateV;

    open spec fn view(&self) -> StateV {
        StateV {
            owner: self.owner@,
            deposit: self.deposit,
            unlock_times: self.unlock_times@,
            recipients: self.recipients.deep_view(),
            allocation: self.allocation@,
            last_disburse: self.last_disburse,
        }
    }
}

/// One transfer instruction emitted by a disbursement. The engine only
/// emits these; executing them is the host's business.
#[derive(Clone, Debug, PartialEq)]
pub struct Payout {
    pub recipient: String,
    pub amount: u128,
    pub denom: String,
}

/// Mathematical model of `Payout`.
#[verifier::ext_equal]
pub ghost struct PayoutV {
    pub recipient: Seq<char>,
    pub amount: u128,
    pub denom: Seq<char>,
}

impl View for Payout {
    type V = PayoutV;

    open spec fn view(&self) -> PayoutV {
        PayoutV { recipient: self.recipient@, amount: self.amount, denom: self.denom@ }
    }
}

impl DeepView for Payout {
    type V = PayoutV;

    open spec fn deep_view(&self) -> PayoutV {
        self.view()
    }
}

/// Mathematical model of the state store: the account state, if the
/// account was created, and the set of unlock times whose tranches have
/// been settled.
#[verifier::ext_equal]
pub ghost struct StoreV {
    pub state: Option<StateV>,
    pub settled: Set<u64>,
}

/// A well-formed state has a non-empty, strictly increasing unlock
/// schedule.
pub open spec fn wf_state(s: StateV) -> bool {
    &&& s.unlock_times.len() > 0
    &&& forall|i: int, j: int|
        0 <= i < j < s.unlock_times.len() ==> s.unlock_times[i] < s.unlock_times[j]
}

} // verus!
