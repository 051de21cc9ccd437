use crate::account::Account;
use crate::grant::{
    decide_grant, fresh_record, grant_outcome, granted, AccountRecord, AccountState, GrantDecision,
};
use crate::word::{word_modulus, Uint256};
use vstd::prelude::*;

verus! {

/// The record that store `m` holds for account `a`; zero where it holds none.
pub open spec fn record_of(m: Map<Seq<u8>, AccountRecord>, a: Seq<u8>) -> AccountRecord {
    if m.contains_key(a) {
        m[a]
    } else {
        fresh_record()
    }
}

/// What a request for account `a` at host time `now` returns on store `m`.
pub open spec fn call_outcome(m: Map<Seq<u8>, AccountRecord>, a: Seq<u8>, now: nat) -> Option<
    bool,
> {
    grant_outcome(record_of(m, a), now)
}

/// The store after a request for account `a` at host time `now`: changed
/// only by a grant, and then only at `a`.
pub open spec fn after_call(m: Map<Seq<u8>, AccountRecord>, a: Seq<u8>, now: nat) -> Map<
    Seq<u8>,
    AccountRecord,
> {
    if call_outcome(m, a, now) == Some(true) {
        m.insert(a, granted(record_of(m, a), now))
    } else {
        m
    }
}

/// Every record fits in 256-bit words, and an account has a count of zero
/// exactly when it has no recorded grant time.
pub open spec fn valid_store(m: Map<Seq<u8>, AccountRecord>) -> bool {
    forall|a: Seq<u8>|
        #![trigger m[a]]
        m.contains_key(a) ==> {
            &&& m[a].balance < word_modulus()
            &&& m[a].last_grant_at < word_modulus()
            &&& (m[a].balance == 0 <==> m[a].last_grant_at == 0)
        }
}

/// The contract's state: for each account that was ever served, its count
/// and the host time of its latest grant.
pub struct VendingMachine {
    entries: Vec<(Account, AccountState)>,
    store: Ghost<Map<Seq<u8>, AccountRecord>>,
}

impl View for VendingMachine {
    type V = Map<Seq<u8>, AccountRecord>;

    closed spec fn view(&self) -> Map<Seq<u8>, AccountRecord> {
        self.store@
    }
}

impl VendingMachine {
    /// The entries hold each account once, agree with the view, and keep a
    /// zero count together with a zero grant time.
    pub closed spec fn wf(&self) -> bool {
        let e = self.entries@;
        &&& forall|i: int, j: int|
            0 <= i < j < e.len() ==> #[trigger] e[i].0@ != #[trigger] e[j].0@
        &&& forall|i: int|
            0 <= i < e.len() ==> self.store@.contains_key(#[trigger] e[i].0@) && self.store@[e[i].0@]
                == e[i].1@
        &&& forall|a: Seq<u8>| #[trigger]
            self.store@.contains_key(a) ==> exists|i: int| 0 <= i < e.len() && #[trigger] e[i].0@ == a
        &&& forall|i: int|
            0 <= i < e.len() ==> ((#[trigger] e[i].1).balance@ == 0 <==> e[i].1.last_grant_at@ == 0)
    }

    /// A well-formed machine holds a valid store.
    pub proof fn lemma_valid(&self)
        requires
            self.wf(),
        ensures
            valid_store(self@),
    {
        assert forall|a: Seq<u8>| #[trigger] self@.contains_key(a) implies {
            &&& self@[a].balance < word_modulus()
            &&& self@[a].last_grant_at < word_modulus()
            &&& (self@[a].balance == 0 <==> self@[a].last_grant_at == 0)
        } by {
            let i = choose|i: int| 0 <= i < self.entries@.len() && #[trigger] self.entries@[i].0@ == a;
            let st = self.entries@[i].1;
            st.balance.lemma_bounded();
            st.last_grant_at.lemma_bounded();
        }
    }

    /// A freshly deployed machine: every account reads as zero.
    pub fn new() -> (r: VendingMachine)
        ensures
            r.wf(),
            r@ == Map::<Seq<u8>, AccountRecord>::empty(),
    {
        VendingMachine { entries: Vec::new(), store: Ghost(Map::empty()) }
    }

    /// The index of the entry for `account`, if it has one.
    fn find(&self, account: &Account) -> (r: Option<usize>)
        requires
            self.wf(),
        ensures
            r is Some ==> r->Some_0 < self.entries@.len() && self.entries@[r->Some_0 as int].0@
                == account@,
            r is None ==> !self@.contains_key(account@),
    {
        let mut i: usize = 0;
        while i < self.entries.len()
            invariant
                self.wf(),
                0 <= i <= self.entries@.len(),
                forall|k: int| 0 <= k < i ==> #[trigger] self.entries@[k].0@ != account@,
            decreases self.entries@.len() - i,
        {
            if self.entries[i].0.same_as(account) {
                return Some(i);
            }
            i = i + 1;
        }
        None
    }

    /// What the store holds for `account`; zero where it holds nothing.
    pub fn account_state(&self, account: &Account) -> (r: AccountState)
        requires
            self.wf(),
        ensures
            r@ == record_of(self@, account@),
    {
        match self.find(account) {
            Some(i) => self.entries[i].1,
            None => AccountState::fresh(),
        }
    }

    /// Stores `state` for `account`, replacing what it held.
    fn write(&mut self, account: Account, state: AccountState)
        requires
            old(self).wf(),
            state.balance@ == 0 <==> state.last_grant_at@ == 0,
        ensures
            final(self).wf(),
            final(self)@ == old(self)@.insert(account@, state@),
    {
        let ghost old_e = self.entries@;
        let ghost idx: int;
        match self.find(&account) {
            Some(i) => {
                self.entries.set(i, (account, state));
                proof {
                    idx = i as int;
                }
            },
            None => {
                self.entries.push((account, state));
                proof {
                    idx = old_e.len() as int;
                    assert forall|j: int| 0 <= j < old_e.len() implies #[trigger] old_e[j].0@
                        != account@ by {
                        assert(old(self).store@.contains_key(old_e[j].0@));
                    }
                }
            },
        }
        self.store = Ghost(self.store@.insert(account@, state@));
        proof {
            let e = self.entries@;
            assert(e[idx].0@ == account@);
            assert forall|j: int| 0 <= j < e.len() && j != idx implies #[trigger] e[j] == old_e[j]
                && e[j].0@ != account@ by {
                assert(old_e[j].0@ != old_e[idx].0@ || idx == old_e.len());
            }
            assert forall|a: Seq<u8>| #[trigger]
                self.store@.contains_key(a) implies exists|k: int|
                0 <= k < e.len() && #[trigger] e[k].0@ == a by {
                if a == account@ {
                    assert(e[idx].0@ == a);
                } else {
                    let k = choose|k: int| 0 <= k < old_e.len() && #[trigger] old_e[k].0@ == a;
                    assert(k != idx);
                    assert(e[k].0@ == a);
                }
            }
        }
    }

    /// Gives a cupcake to `account` at host time `now` if the cooldown since
    /// its latest grant has passed. `Ok(true)` for a grant, which adds one to
    /// the count and records `now`; `Ok(false)` for a refusal; an error, with
    /// empty revert data, where the count would overflow. Only a grant
    /// changes the store.
    pub fn give_cupcake_to(&mut self, account: Account, now: Uint256) -> (r: Result<bool, Vec<u8>>)
        requires
            old(self).wf(),
        ensures
            final(self).wf(),
            final(self)@ == after_call(old(self)@, account@, now@),
            r is Ok <==> call_outcome(old(self)@, account@, now@) is Some,
            r is Ok ==> call_outcome(old(self)@, account@, now@) == Some(r->Ok_0),
            r is Err ==> r->Err_0@ == Seq::<u8>::empty(),
    {
        let state = self.account_state(&account);
        match decide_grant(&state, &now) {
            GrantDecision::Grant(next) => {
                proof {
                    now.lemma_bounded();
                }
                self.write(account, next);
                Ok(true)
            },
            GrantDecision::Refuse => Ok(false),
            GrantDecision::Overflow => Err(Vec::new()),
        }
    }

    /// The number of cupcakes `account` has received.
    pub fn get_cupcake_balance_for(&self, account: Account) -> (r: Result<Uint256, Vec<u8>>)
        requires
            self.wf(),
        ensures
            r is Ok,
            r->Ok_0@ == record_of(self@, account@).balance,
    {
        Ok(self.account_state(&account).balance)
    }
}

} // verus!
