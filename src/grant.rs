use crate::word::{saturated, word_modulus, Uint256};
use vstd::prelude::*;

verus! {

/// Minimum number of seconds between two grants to one account.
pub const COOLDOWN: u64 = 5;

/// What the store holds for one account, as numbers.
pub struct AccountRecord {
    pub balance: nat,
    pub last_grant_at: nat,
}

/// The record of an account that never received a cupcake.
pub open spec fn fresh_record() -> AccountRecord {
    AccountRecord { balance: 0, last_grant_at: 0 }
}

/// The per-account entry of the store: the cupcake count and the host time
/// of the latest grant (zero before the first).
#[derive(Clone, Copy, Debug, PartialEq, Eq, Structural)]
pub struct AccountState {
    pub balance: Uint256,
    pub last_grant_at: Uint256,
}

impl View for AccountState {
    type V = AccountRecord;

    open spec fn view(&self) -> AccountRecord {
        AccountRecord { balance: self.balance@, last_grant_at: self.last_grant_at@ }
    }
}

impl AccountState {
    /// The state of an account that never received a cupcake.
    pub fn fresh() -> (r: AccountState)
        ensures
            r@ == fresh_record(),
    {
        AccountState { balance: Uint256::zero(), last_grant_at: Uint256::zero() }
    }
}

/// The cooldown has passed at host time `now` for an account last served at
/// `last`: the earliest next time, saturated at the largest word, is at most
/// `now`.
pub open spec fn may_grant(last: nat, now: nat) -> bool {
    saturated(last + COOLDOWN as nat) <= now
}

/// What a request at host time `now` gives an account in state `rec`:
/// `Some(true)` for a grant, `Some(false)` for a refusal by the cooldown,
/// `None` where the count cannot grow without overflowing.
pub open spec fn grant_outcome(rec: AccountRecord, now: nat) -> Option<bool> {
    if !may_grant(rec.last_grant_at, now) {
        Some(false)
    } else if rec.balance + 1 < word_modulus() {
        Some(true)
    } else {
        None
    }
}

/// The record after a grant at host time `now`.
pub open spec fn granted(rec: AccountRecord, now: nat) -> AccountRecord {
    AccountRecord { balance: rec.balance + 1, last_grant_at: now }
}

/// The decision on one request.
#[derive(Clone, Copy, Debug, PartialEq, Eq, Structural)]
pub enum GrantDecision {
    /// The cooldown has passed: the account's new state.
    Grant(AccountState),
    /// The cooldown has not passed: nothing changes.
    Refuse,
    /// The count is at its largest: the request must abort.
    Overflow,
}

/// Decides a request for an account in state `state` at host time `now`.
pub fn decide_grant(state: &AccountState, now: &Uint256) -> (r: GrantDecision)
    ensures
        r is Grant <==> grant_outcome(state@, now@) == Some(true),
        r is Refuse <==> grant_outcome(state@, now@) == Some(false),
        r is Overflow <==> grant_outcome(state@, now@) is None,
        r is Grant ==> r->Grant_0@ == granted(state@, now@),
{
    let earliest = state.last_grant_at.saturating_add(Uint256::from_u64(COOLDOWN));
    if !earliest.le(now) {
        return GrantDecision::Refuse;
    }
    match state.balance.checked_add(Uint256::from_u64(1)) {
        Some(balance) => GrantDecision::Grant(AccountState { balance, last_grant_at: *now }),
        None => GrantDecision::Overflow,
    }
}

} // verus!
