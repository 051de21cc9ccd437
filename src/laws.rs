use crate::grant::{grant_outcome, may_grant, AccountRecord, COOLDOWN};
use crate::machine::{after_call, call_outcome, record_of, valid_store};
use crate::word::{saturated, word_modulus};
use vstd::prelude::*;

verus! {

/// The store after the requests `reqs` in order, each an account and the
/// host time at which it was made.
pub open spec fn after_run(m: Map<Seq<u8>, AccountRecord>, reqs: Seq<(Seq<u8>, nat)>) -> Map<
    Seq<u8>,
    AccountRecord,
>
    decreases reqs.len(),
{
    if reqs.len() == 0 {
        m
    } else {
        after_call(after_run(m, reqs.drop_last()), reqs.last().0, reqs.last().1)
    }
}

/// Every host time in `reqs` fits in a 256-bit word.
pub open spec fn valid_times(reqs: Seq<(Seq<u8>, nat)>) -> bool {
    forall|k: int| 0 <= k < reqs.len() ==> (#[trigger] reqs[k]).1 < word_modulus()
}

proof fn lemma_run_step(m: Map<Seq<u8>, AccountRecord>, reqs: Seq<(Seq<u8>, nat)>, k: int)
    requires
        0 <= k < reqs.len(),
    ensures
        after_run(m, reqs.take(k + 1)) == after_call(
            after_run(m, reqs.take(k)),
            reqs[k].0,
            reqs[k].1,
        ),
{
    assert(reqs.take(k + 1).drop_last() =~= reqs.take(k));
}

/// A request at a valid host time keeps the store valid.
pub proof fn lemma_call_keeps_valid(m: Map<Seq<u8>, AccountRecord>, a: Seq<u8>, now: nat)
    requires
        valid_store(m),
        now < word_modulus(),
    ensures
        valid_store(after_call(m, a, now)),
{
    let r = record_of(m, a);
    if call_outcome(m, a, now) == Some(true) {
        assert(may_grant(r.last_grant_at, now));
        assert(now >= COOLDOWN);
        let n = after_call(m, a, now);
        assert forall|b: Seq<u8>| #[trigger] n.contains_key(b) implies {
            &&& n[b].balance < word_modulus()
            &&& n[b].last_grant_at < word_modulus()
            &&& (n[b].balance == 0 <==> n[b].last_grant_at == 0)
        } by {
            if b != a {
                assert(m.contains_key(b) && n[b] == m[b]);
            }
        }
    }
}

/// Every prefix of a run at valid host times from a valid store leaves a
/// valid store.
pub proof fn lemma_run_keeps_valid(m: Map<Seq<u8>, AccountRecord>, reqs: Seq<(Seq<u8>, nat)>)
    requires
        valid_store(m),
        valid_times(reqs),
    ensures
        valid_store(after_run(m, reqs)),
    decreases reqs.len(),
{
    if reqs.len() > 0 {
        assert(valid_times(reqs.drop_last())) by {
            assert forall|k: int| 0 <= k < reqs.drop_last().len() implies (
            #[trigger] reqs.drop_last()[k]).1 < word_modulus() by {
                assert(reqs.drop_last()[k] == reqs[k]);
            }
        }
        lemma_run_keeps_valid(m, reqs.drop_last());
        assert(reqs.last() == reqs[reqs.len() - 1]);
        lemma_call_keeps_valid(after_run(m, reqs.drop_last()), reqs.last().0, reqs.last().1);
    }
}

/// A request never lowers any account's count.
pub proof fn lemma_call_balance_monotonic(
    m: Map<Seq<u8>, AccountRecord>,
    a: Seq<u8>,
    now: nat,
    b: Seq<u8>,
)
    ensures
        record_of(m, b).balance <= record_of(after_call(m, a, now), b).balance,
{
}

/// The count of an account never decreases: observed after the first `i`
/// and after the first `j >= i` requests of any run, it is no smaller the
/// second time.
pub proof fn lemma_balance_monotonic(
    m: Map<Seq<u8>, AccountRecord>,
    reqs: Seq<(Seq<u8>, nat)>,
    i: int,
    j: int,
    a: Seq<u8>,
)
    requires
        0 <= i <= j <= reqs.len(),
    ensures
        record_of(after_run(m, reqs.take(i)), a).balance <= record_of(
            after_run(m, reqs.take(j)),
            a,
        ).balance,
    decreases j - i,
{
    if i < j {
        lemma_balance_monotonic(m, reqs, i, j - 1, a);
        lemma_run_step(m, reqs, j - 1);
        lemma_call_balance_monotonic(after_run(m, reqs.take(j - 1)), reqs[j - 1].0, reqs[j - 1].1, a);
    }
}

/// A granted request adds exactly one to the account's count; a refused
/// one leaves it as it was.
pub proof fn lemma_unit_increment(m: Map<Seq<u8>, AccountRecord>, a: Seq<u8>, now: nat)
    ensures
        call_outcome(m, a, now) == Some(true) ==> record_of(after_call(m, a, now), a).balance
            == record_of(m, a).balance + 1,
        call_outcome(m, a, now) == Some(false) ==> record_of(after_call(m, a, now), a).balance
            == record_of(m, a).balance,
{
}

/// On a valid store and at a valid host time, the recorded grant time of an
/// account never decreases.
proof fn lemma_call_last_monotonic(m: Map<Seq<u8>, AccountRecord>, a: Seq<u8>, now: nat, b: Seq<u8>)
    requires
        valid_store(m),
        now < word_modulus(),
    ensures
        record_of(m, b).last_grant_at <= record_of(after_call(m, a, now), b).last_grant_at,
{
    if call_outcome(m, a, now) == Some(true) && a == b {
        let last = record_of(m, a).last_grant_at;
        assert(last < word_modulus());
        assert(saturated(last + COOLDOWN as nat) <= now);
    }
}

proof fn lemma_last_monotonic(
    m: Map<Seq<u8>, AccountRecord>,
    reqs: Seq<(Seq<u8>, nat)>,
    i: int,
    j: int,
    a: Seq<u8>,
)
    requires
        valid_store(m),
        valid_times(reqs),
        0 <= i <= j <= reqs.len(),
    ensures
        record_of(after_run(m, reqs.take(i)), a).last_grant_at <= record_of(
            after_run(m, reqs.take(j)),
            a,
        ).last_grant_at,
    decreases j - i,
{
    if i < j {
        lemma_last_monotonic(m, reqs, i, j - 1, a);
        lemma_run_step(m, reqs, j - 1);
        let t = reqs.take(j - 1);
        assert(valid_times(t)) by {
            assert forall|k: int| 0 <= k < t.len() implies (#[trigger] t[k]).1 < word_modulus() by {
                assert(t[k] == reqs[k]);
            }
        }
        lemma_run_keeps_valid(m, t);
        assert(reqs[j - 1].1 < word_modulus());
        lemma_call_last_monotonic(after_run(m, t), reqs[j - 1].0, reqs[j - 1].1, a);
    }
}

/// Two grants to one account in a run, the first at host time `t1` and the
/// second at a later time `t2`, are at least the cooldown apart, where
/// `t1` plus the cooldown fits in a 256-bit word.
pub proof fn lemma_cooldown_between_grants(
    m: Map<Seq<u8>, AccountRecord>,
    reqs: Seq<(Seq<u8>, nat)>,
    i: int,
    j: int,
)
    requires
        valid_store(m),
        valid_times(reqs),
        0 <= i < j < reqs.len(),
        reqs[i].0 == reqs[j].0,
        call_outcome(after_run(m, reqs.take(i)), reqs[i].0, reqs[i].1) == Some(true),
        call_outcome(after_run(m, reqs.take(j)), reqs[j].0, reqs[j].1) == Some(true),
        reqs[i].1 < reqs[j].1,
        reqs[i].1 + COOLDOWN < word_modulus(),
    ensures
        reqs[j].1 >= reqs[i].1 + COOLDOWN,
{
    let a = reqs[i].0;
    lemma_run_step(m, reqs, i);
    assert(record_of(after_run(m, reqs.take(i + 1)), a).last_grant_at == reqs[i].1);
    lemma_last_monotonic(m, reqs, i + 1, j, a);
    let last = record_of(after_run(m, reqs.take(j)), a).last_grant_at;
    assert(saturated(last + COOLDOWN as nat) <= reqs[j].1);
}

/// At exactly the latest grant time plus the cooldown, a request is granted
/// (where the count can still grow).
pub proof fn lemma_boundary_grant(m: Map<Seq<u8>, AccountRecord>, a: Seq<u8>, now: nat)
    requires
        now < word_modulus(),
        now == record_of(m, a).last_grant_at + COOLDOWN,
        record_of(m, a).balance + 1 < word_modulus(),
    ensures
        call_outcome(m, a, now) == Some(true),
{
}

/// An account with no recorded grant is served from host time `COOLDOWN`
/// on, and refused before.
pub proof fn lemma_first_grant(m: Map<Seq<u8>, AccountRecord>, a: Seq<u8>, now: nat)
    requires
        valid_store(m),
        now < word_modulus(),
        record_of(m, a).last_grant_at == 0,
    ensures
        now >= COOLDOWN ==> call_outcome(m, a, now) == Some(true),
        now < COOLDOWN ==> call_outcome(m, a, now) == Some(false),
{
    if m.contains_key(a) {
        assert(m[a].balance == 0);
    }
}

/// A request that is not granted leaves the whole store as it was.
pub proof fn lemma_refusal_changes_nothing(m: Map<Seq<u8>, AccountRecord>, a: Seq<u8>, now: nat)
    requires
        call_outcome(m, a, now) != Some(true),
    ensures
        after_call(m, a, now) == m,
{
}

/// A request for account `a` leaves every other account's record as it was.
pub proof fn lemma_account_isolation(
    m: Map<Seq<u8>, AccountRecord>,
    a: Seq<u8>,
    now: nat,
    b: Seq<u8>,
)
    requires
        a != b,
    ensures
        record_of(after_call(m, a, now), b) == record_of(m, b),
{
}

} // verus!
