use stylus_sdk::alloy_primitives::U256;
use vstd::prelude::*;

verus! {

/// 2^64, the weight of one limb.
pub open spec fn limb_base() -> nat {
    0x1_0000_0000_0000_0000
}

/// 2^256: every 256-bit word is below it.
pub open spec fn word_modulus() -> nat {
    0x1_0000_0000_0000_0000_0000_0000_0000_0000nat * 0x1_0000_0000_0000_0000_0000_0000_0000_0000nat
}

/// The value of four 64-bit limbs, least significant first.
pub open spec fn limbs_value(l0: u64, l1: u64, l2: u64, l3: u64) -> nat {
    l0 as nat + l1 as nat * limb_base() + l2 as nat * (limb_base() * limb_base()) + l3 as nat * (
    limb_base() * limb_base() * limb_base())
}

/// `x` where it fits in 256 bits, else the largest 256-bit word.
pub open spec fn saturated(x: nat) -> nat {
    if x < word_modulus() {
        x
    } else {
        (word_modulus() - 1) as nat
    }
}

/// An unsigned 256-bit integer held as four 64-bit limbs, least
/// significant first.
#[derive(Clone, Copy, Debug, PartialEq, Eq, Structural)]
pub struct Uint256 {
    l0: u64,
    l1: u64,
    l2: u64,
    l3: u64,
}

impl View for Uint256 {
    type V = nat;

    closed spec fn view(&self) -> nat {
        limbs_value(self.l0, self.l1, self.l2, self.l3)
    }
}

impl Uint256 {
    /// Every word is below 2^256.
    pub proof fn lemma_bounded(self)
        ensures
            self@ < word_modulus(),
    {
        let b = limb_base();
        assert(limbs_value(self.l0, self.l1, self.l2, self.l3) < b * b * b * b) by (nonlinear_arith)
            requires
                self.l0 < b,
                self.l1 < b,
                self.l2 < b,
                self.l3 < b,
                b == 0x1_0000_0000_0000_0000nat,
        ;
        assert(b * b * b * b == word_modulus());
    }

    /// The word whose limbs, least significant first, are those given.
    pub fn from_limbs(limbs: [u64; 4]) -> (r: Uint256)
        ensures
            r@ == limbs_value(limbs@[0], limbs@[1], limbs@[2], limbs@[3]),
    {
        Uint256 { l0: limbs[0], l1: limbs[1], l2: limbs[2], l3: limbs[3] }
    }

    /// The limbs of the word, least significant first.
    pub fn into_limbs(self) -> (r: [u64; 4])
        ensures
            limbs_value(r@[0], r@[1], r@[2], r@[3]) == self@,
    {
        [self.l0, self.l1, self.l2, self.l3]
    }

    /// Adds two words; `None` where the sum does not fit in 256 bits.
    pub fn checked_add(self, rhs: Uint256) -> (r: Option<Uint256>)
        ensures
            r is Some <==> self@ + rhs@ < word_modulus(),
            r is Some ==> r->Some_0@ == self@ + rhs@,
    {
        ruint_checked_add(self, rhs)
    }

    /// Adds two words, giving the largest word where the sum does not fit.
    pub fn saturating_add(self, rhs: Uint256) -> (r: Uint256)
        ensures
            r@ == saturated(self@ + rhs@),
    {
        ruint_saturating_add(self, rhs)
    }

    /// Whether this word is at most `rhs`, as unsigned integers.
    pub fn le(&self, rhs: &Uint256) -> (r: bool)
        ensures
            r == (self@ <= rhs@),
    {
        ruint_le(self, rhs)
    }

    /// The word of value zero.
    pub fn zero() -> (r: Uint256)
        ensures
            r@ == 0,
    {
        Uint256 { l0: 0, l1: 0, l2: 0, l3: 0 }
    }

    /// The word of value `x`.
    pub fn from_u64(x: u64) -> (r: Uint256)
        ensures
            r@ == x as nat,
    {
        Uint256 { l0: x, l1: 0, l2: 0, l3: 0 }
    }
}

/// Relies on ruint's `Uint::checked_add`: the exact sum, or `None` on a
/// carry out of the top limb.
#[verifier::external_body]
fn ruint_checked_add(a: Uint256, b: Uint256) -> (r: Option<Uint256>)
    ensures
        r is Some <==> a@ + b@ < word_modulus(),
        r is Some ==> r->Some_0@ == a@ + b@,
{
    let x = U256::from_limbs([a.l0, a.l1, a.l2, a.l3]);
    let y = U256::from_limbs([b.l0, b.l1, b.l2, b.l3]);
    x.checked_add(y).map(|s| Uint256::from_limbs(s.into_limbs()))
}

/// Relies on ruint's `Uint::saturating_add`: the sum, or `Uint::MAX` on
/// overflow.
#[verifier::external_body]
fn ruint_saturating_add(a: Uint256, b: Uint256) -> (r: Uint256)
    ensures
        r@ == saturated(a@ + b@),
{
    let x = U256::from_limbs([a.l0, a.l1, a.l2, a.l3]);
    let y = U256::from_limbs([b.l0, b.l1, b.l2, b.l3]);
    Uint256::from_limbs(x.saturating_add(y).into_limbs())
}

/// Relies on ruint's `Ord` for `Uint`, which compares the limbs from the
/// most significant down: `<=` is the order of the integers.
#[verifier::external_body]
fn ruint_le(a: &Uint256, b: &Uint256) -> (r: bool)
    ensures
        r == (a@ <= b@),
{
    let x = U256::from_limbs([a.l0, a.l1, a.l2, a.l3]);
    let y = U256::from_limbs([b.l0, b.l1, b.l2, b.l3]);
    x <= y
}

} // verus!
