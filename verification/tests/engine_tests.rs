use vesting::engine::{execute, instantiate, try_disburse, try_receive, Store};
use vesting::state::{ExecuteMsg, VestingError, SECONDS_PER_MONTH};

const T0: u64 = 1_000;

fn month(m: u64) -> u64 {
    m * SECONDS_PER_MONTH
}

fn fresh_store() -> Store {
    let mut store = Store::new();
    instantiate(&mut store, T0);
    store
}

fn owner() -> String {
    "owner_address".to_string()
}

#[test]
fn instantiate_builds_schedule() {
    let store = fresh_store();
    let state = store.load().unwrap();
    assert_eq!(state.owner, "owner_address");
    assert_eq!(state.deposit, 0);
    assert_eq!(
        state.unlock_times,
        vec![T0 + month(6), T0 + month(12), T0 + month(18), T0 + month(24)]
    );
    assert_eq!(
        state.recipients,
        vec!["recipient1", "recipient2", "recipient3", "recipient4"]
    );
    assert_eq!(state.allocation, vec![0, 0, 0, 0]);
    assert_eq!(state.last_disburse, 0);
    assert!(!store.has_settlement(T0 + month(6)));
}

#[test]
fn load_before_instantiate_fails() {
    let store = Store::new();
    assert_eq!(store.load().err(), Some(VestingError::NotInitialized));
}

#[test]
fn deposit_before_instantiate_fails() {
    let mut store = Store::new();
    let r = try_receive(&mut store, &owner(), 400);
    assert_eq!(r, Err(VestingError::NotInitialized));
}

#[test]
fn disburse_before_instantiate_fails() {
    let mut store = Store::new();
    let r = try_disburse(&mut store, T0 + month(6));
    assert_eq!(r, Err(VestingError::NotInitialized));
}

#[test]
fn deposit_from_owner_credits() {
    let mut store = fresh_store();
    assert_eq!(try_receive(&mut store, &owner(), 400), Ok(()));
    assert_eq!(store.load().unwrap().deposit, 400);
}

#[test]
fn deposits_accumulate() {
    let mut store = fresh_store();
    assert_eq!(try_receive(&mut store, &owner(), 1), Ok(()));
    assert_eq!(try_receive(&mut store, &owner(), 2), Ok(()));
    assert_eq!(try_receive(&mut store, &owner(), 3), Ok(()));
    assert_eq!(store.load().unwrap().deposit, 6);
}

#[test]
fn deposit_from_non_owner_unauthorized() {
    let mut store = fresh_store();
    assert_eq!(try_receive(&mut store, &owner(), 400), Ok(()));
    let r = try_receive(&mut store, &"mallory".to_string(), 100);
    assert_eq!(r, Err(VestingError::Unauthorized));
    assert_eq!(store.load().unwrap().deposit, 400);
}

#[test]
fn deposit_overflow_is_rejected() {
    let mut store = fresh_store();
    assert_eq!(try_receive(&mut store, &owner(), u128::MAX), Ok(()));
    let r = try_receive(&mut store, &owner(), 1);
    assert_eq!(r, Err(VestingError::Overflow));
    assert_eq!(store.load().unwrap().deposit, u128::MAX);
}

#[test]
fn disburse_first_tranche_pays_each_recipient() {
    let mut store = fresh_store();
    assert_eq!(try_receive(&mut store, &owner(), 400), Ok(()));
    let now = T0 + month(6);
    let msgs = try_disburse(&mut store, now).unwrap();
    assert_eq!(msgs.len(), 4);
    for (i, payout) in msgs.iter().enumerate() {
        assert_eq!(payout.recipient, format!("recipient{}", i + 1));
        assert_eq!(payout.amount, 25);
        assert_eq!(payout.denom, "token");
    }
    assert!(store.has_settlement(T0 + month(6)));
    assert!(!store.has_settlement(T0 + month(12)));
    let state = store.load().unwrap();
    assert_eq!(state.last_disburse, now);
    assert_eq!(state.deposit, 400);
}

#[test]
fn disburse_repeat_is_idempotent() {
    let mut store = fresh_store();
    assert_eq!(try_receive(&mut store, &owner(), 400), Ok(()));
    let now = T0 + month(6);
    assert_eq!(try_disburse(&mut store, now).unwrap().len(), 4);
    let again = try_disburse(&mut store, now).unwrap();
    assert!(again.is_empty());
    let state = store.load().unwrap();
    assert_eq!(state.last_disburse, now);
    assert_eq!(state.deposit, 400);
    assert!(store.has_settlement(T0 + month(6)));
}

#[test]
fn disburse_before_first_unlock_is_a_no_op() {
    let mut store = fresh_store();
    assert_eq!(try_receive(&mut store, &owner(), 400), Ok(()));
    let msgs = try_disburse(&mut store, T0 + month(6) - 1).unwrap();
    assert!(msgs.is_empty());
    let state = store.load().unwrap();
    assert_eq!(state.last_disburse, 0);
    assert!(!store.has_settlement(T0 + month(6)));
}

#[test]
fn disburse_two_tranches_in_ascending_order() {
    let mut store = fresh_store();
    assert_eq!(try_receive(&mut store, &owner(), 400), Ok(()));
    let msgs = try_disburse(&mut store, T0 + month(12)).unwrap();
    assert_eq!(msgs.len(), 8);
    for (i, payout) in msgs.iter().enumerate() {
        assert_eq!(payout.recipient, format!("recipient{}", i % 4 + 1));
        assert_eq!(payout.amount, 25);
    }
    assert!(store.has_settlement(T0 + month(6)));
    assert!(store.has_settlement(T0 + month(12)));
    assert!(!store.has_settlement(T0 + month(18)));
}

#[test]
fn settled_tranche_never_pays_again() {
    let mut store = fresh_store();
    assert_eq!(try_receive(&mut store, &owner(), 400), Ok(()));
    assert_eq!(try_disburse(&mut store, T0 + month(6)).unwrap().len(), 4);
    // Deposits after the first settlement raise later payouts but never
    // reopen the settled tranche.
    assert_eq!(try_receive(&mut store, &owner(), 1200), Ok(()));
    let msgs = try_disburse(&mut store, T0 + month(12)).unwrap();
    assert_eq!(msgs.len(), 4);
    for payout in &msgs {
        assert_eq!(payout.amount, 1600 / 4 / 4);
    }
}

#[test]
fn payout_amount_uses_floor_division() {
    let mut store = fresh_store();
    assert_eq!(try_receive(&mut store, &owner(), 50), Ok(()));
    let msgs = try_disburse(&mut store, T0 + month(6)).unwrap();
    // 50 / 4 = 12, then 12 / 4 = 3.
    assert_eq!(msgs.len(), 4);
    for payout in &msgs {
        assert_eq!(payout.amount, 3);
    }
}

#[test]
fn disburse_with_zero_deposit_settles_with_zero_amounts() {
    let mut store = fresh_store();
    let msgs = try_disburse(&mut store, T0 + month(6)).unwrap();
    assert_eq!(msgs.len(), 4);
    for payout in &msgs {
        assert_eq!(payout.amount, 0);
    }
    assert!(store.has_settlement(T0 + month(6)));
}

#[test]
fn execute_dispatches_receive() {
    let mut store = fresh_store();
    let msg = ExecuteMsg::Receive { sender: owner(), amount: 10 };
    let msgs = execute(&mut store, T0, msg).unwrap();
    assert!(msgs.is_empty());
    assert_eq!(store.load().unwrap().deposit, 10);
}

#[test]
fn execute_rejects_non_owner_receive() {
    let mut store = fresh_store();
    let msg = ExecuteMsg::Receive { sender: "mallory".to_string(), amount: 10 };
    assert_eq!(execute(&mut store, T0, msg), Err(VestingError::Unauthorized));
    assert_eq!(store.load().unwrap().deposit, 0);
}

#[test]
fn execute_dispatches_disburse() {
    let mut store = fresh_store();
    assert_eq!(try_receive(&mut store, &owner(), 400), Ok(()));
    let msgs = execute(&mut store, T0 + month(6), ExecuteMsg::Disburse {}).unwrap();
    assert_eq!(msgs.len(), 4);
    assert_eq!(msgs[0].amount, 25);
}

#[test]
fn mark_settled_is_one_way() {
    let mut store = fresh_store();
    store.mark_settled(42);
    store.mark_settled(42);
    assert!(store.has_settlement(42));
    assert!(!store.has_settlement(43));
}

#[test]
fn from_parts_round_trips_state() {
    let mut store = fresh_store();
    assert_eq!(try_receive(&mut store, &owner(), 400), Ok(()));
    store.mark_settled(T0 + month(6));
    let state = store.load().unwrap().clone();
    let rebuilt = Store::from_parts(Some(state), vec![T0 + month(6)]);
    assert_eq!(rebuilt.load().unwrap().deposit, 400);
    assert!(rebuilt.has_settlement(T0 + month(6)));
    assert!(!rebuilt.has_settlement(T0 + month(12)));
}
