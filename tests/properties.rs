//! Scenarios and rules of the grant state machine on concrete values.

use stylus_cupcake_example::{
    decide_grant, Account, AccountState, GrantDecision, Uint256, VendingMachine, COOLDOWN,
};

fn user() -> Account {
    Account::new([0x11; 20])
}

fn other() -> Account {
    Account::new([0x22; 20])
}

fn at(t: u64) -> Uint256 {
    Uint256::from_u64(t)
}

fn balance(m: &VendingMachine, a: Account) -> Uint256 {
    m.get_cupcake_balance_for(a).unwrap()
}

fn max_word() -> Uint256 {
    Uint256::from_limbs([u64::MAX; 4])
}

#[test]
fn cold_read_is_zero() {
    let m = VendingMachine::new();
    assert_eq!(balance(&m, user()), Uint256::zero());
    assert_eq!(m.account_state(&user()), AccountState::fresh());
}

#[test]
fn grant_then_query() {
    let mut m = VendingMachine::new();
    assert_eq!(m.give_cupcake_to(user(), at(10)), Ok(true));
    assert_eq!(balance(&m, user()), at(1));
    assert_eq!(m.account_state(&user()).last_grant_at, at(10));
}

#[test]
fn immediate_regrant_refused() {
    let mut m = VendingMachine::new();
    assert_eq!(m.give_cupcake_to(user(), at(10)), Ok(true));
    assert_eq!(m.give_cupcake_to(user(), at(10)), Ok(false));
    assert_eq!(balance(&m, user()), at(1));
}

#[test]
fn grant_after_cooldown_elapsed() {
    let mut m = VendingMachine::new();
    assert_eq!(m.give_cupcake_to(user(), at(10)), Ok(true));
    assert_eq!(m.give_cupcake_to(user(), at(10)), Ok(false));
    assert_eq!(m.give_cupcake_to(user(), at(16)), Ok(true));
    assert_eq!(balance(&m, user()), at(2));
}

#[test]
fn grant_at_exact_boundary() {
    let mut m = VendingMachine::new();
    assert_eq!(m.give_cupcake_to(user(), at(100)), Ok(true));
    assert_eq!(m.give_cupcake_to(user(), at(104)), Ok(false));
    assert_eq!(m.give_cupcake_to(user(), at(105)), Ok(true));
    assert_eq!(balance(&m, user()), at(2));
}

#[test]
fn accounts_are_isolated() {
    let mut m = VendingMachine::new();
    assert_eq!(m.give_cupcake_to(user(), at(10)), Ok(true));
    assert_eq!(m.give_cupcake_to(other(), at(11)), Ok(true));
    assert_eq!(m.give_cupcake_to(user(), at(11)), Ok(false));
    assert_eq!(balance(&m, user()), at(1));
    assert_eq!(balance(&m, other()), at(1));
    assert_eq!(m.account_state(&user()).last_grant_at, at(10));
    assert_eq!(m.account_state(&other()).last_grant_at, at(11));
}

#[test]
fn first_grant_needs_cooldown_from_zero() {
    let mut m = VendingMachine::new();
    assert_eq!(m.give_cupcake_to(user(), at(0)), Ok(false));
    assert_eq!(m.give_cupcake_to(user(), at(4)), Ok(false));
    assert_eq!(balance(&m, user()), Uint256::zero());
    assert_eq!(m.give_cupcake_to(user(), at(COOLDOWN)), Ok(true));
    assert_eq!(balance(&m, user()), at(1));
}

#[test]
fn refusal_leaves_store_unchanged() {
    let mut m = VendingMachine::new();
    assert_eq!(m.give_cupcake_to(user(), at(50)), Ok(true));
    let before = m.account_state(&user());
    assert_eq!(m.give_cupcake_to(user(), at(54)), Ok(false));
    assert_eq!(m.account_state(&user()), before);
    assert_eq!(m.account_state(&other()), AccountState::fresh());
}

#[test]
fn count_never_decreases_over_a_run() {
    let mut m = VendingMachine::new();
    let times: [u64; 8] = [3, 5, 7, 9, 10, 10, 20, 24];
    let mut last = balance(&m, user());
    for t in times {
        let _ = m.give_cupcake_to(user(), at(t));
        let now = balance(&m, user());
        assert!(last.le(&now));
        last = now;
    }
    // Grants at 5, 10 and 20.
    assert_eq!(last, at(3));
}

#[test]
fn grants_are_a_cooldown_apart() {
    let mut m = VendingMachine::new();
    let mut granted: Vec<u64> = Vec::new();
    for t in 0..40u64 {
        if m.give_cupcake_to(user(), at(t)).unwrap() {
            granted.push(t);
        }
    }
    assert_eq!(granted, vec![5, 10, 15, 20, 25, 30, 35]);
}

#[test]
fn decision_refuses_inside_cooldown() {
    let state = AccountState { balance: at(3), last_grant_at: at(100) };
    assert_eq!(decide_grant(&state, &at(104)), GrantDecision::Refuse);
}

#[test]
fn decision_grants_with_new_state() {
    let state = AccountState { balance: at(3), last_grant_at: at(100) };
    assert_eq!(
        decide_grant(&state, &at(105)),
        GrantDecision::Grant(AccountState { balance: at(4), last_grant_at: at(105) })
    );
}

#[test]
fn decision_overflow_at_largest_count() {
    let state = AccountState { balance: max_word(), last_grant_at: at(100) };
    assert_eq!(decide_grant(&state, &at(200)), GrantDecision::Overflow);
}

#[test]
fn saturated_cooldown_only_at_largest_time() {
    let near_top = Uint256::from_limbs([u64::MAX - 2, u64::MAX, u64::MAX, u64::MAX]);
    let state = AccountState { balance: at(1), last_grant_at: near_top };
    let below_top = Uint256::from_limbs([u64::MAX - 1, u64::MAX, u64::MAX, u64::MAX]);
    assert_eq!(decide_grant(&state, &below_top), GrantDecision::Refuse);
    assert_eq!(
        decide_grant(&state, &max_word()),
        GrantDecision::Grant(AccountState { balance: at(2), last_grant_at: max_word() })
    );
}

#[test]
fn checked_add_carries_across_limbs() {
    let a = Uint256::from_limbs([u64::MAX, 0, 0, 0]);
    assert_eq!(a.checked_add(at(1)), Some(Uint256::from_limbs([0, 1, 0, 0])));
    assert_eq!(at(2).checked_add(at(3)), Some(at(5)));
    assert_eq!(max_word().checked_add(at(1)), None);
}

#[test]
fn saturating_add_stops_at_largest_word() {
    assert_eq!(at(7).saturating_add(at(5)), at(12));
    let a = Uint256::from_limbs([u64::MAX - 1, u64::MAX, u64::MAX, u64::MAX]);
    assert_eq!(a.saturating_add(at(5)), max_word());
}

#[test]
fn le_orders_by_value() {
    let high = Uint256::from_limbs([0, 0, 0, 1]);
    let low = Uint256::from_limbs([u64::MAX, u64::MAX, u64::MAX, 0]);
    assert!(low.le(&high));
    assert!(!high.le(&low));
    assert!(at(9).le(&at(9)));
    assert!(!at(10).le(&at(9)));
}

#[test]
fn account_bytes_round_trip() {
    let bytes: [u8; 20] = [7; 20];
    let a = Account::new(bytes);
    assert_eq!(a.to_bytes(), bytes);
    assert!(a.same_as(&Account::new([7; 20])));
    assert!(!a.same_as(&user()));
}
