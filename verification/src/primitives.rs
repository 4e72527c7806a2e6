//! Fixed-width words of the EVM: 256-bit integers, addresses and hashes.

use vstd::prelude::*;
use sp_runtime::SaturatedConversion;

verus! {

/// The largest value that a 256-bit word holds.
pub open spec fn u256_max() -> nat {
    0xffff_ffff_ffff_ffff_ffff_ffff_ffff_ffff_ffff_ffff_ffff_ffff_ffff_ffff_ffff_ffffnat
}

/// The value of four 64-bit limbs, least significant limb first.
pub open spec fn limbs_value(limbs: [u64; 4]) -> nat {
    (limbs[0] + limbs[1] * 0x1_0000_0000_0000_0000 + limbs[2]
        * 0x1_0000_0000_0000_0000_0000_0000_0000_0000 + limbs[3]
        * 0x1_0000_0000_0000_0000_0000_0000_0000_0000_0000_0000_0000_0000) as nat
}

/// Two numbers that are equal have the same lowest limb, and the same limbs above it.
proof fn lemma_lowest_limb(low: int, rest: int, other_low: int, other_rest: int)
    requires
        0 <= low < 0x1_0000_0000_0000_0000,
        0 <= other_low < 0x1_0000_0000_0000_0000,
        low + 0x1_0000_0000_0000_0000 * rest == other_low + 0x1_0000_0000_0000_0000 * other_rest,
    ensures
        low == other_low,
        rest == other_rest,
{
}

/// An unsigned 256-bit integer, as four 64-bit limbs with the least significant one first.
#[derive(Clone, Copy, Debug)]
pub struct U256(pub [u64; 4]);

impl View for U256 {
    type V = nat;

    open spec fn view(&self) -> nat {
        limbs_value(self.0)
    }
}

impl Eq for U256 {

}

impl PartialEq for U256 {
    fn eq(&self, other: &Self) -> (r: bool) {
        proof {
            if self@ == other@ {
                self.lemma_injective(*other);
            }
        }
        self.0[0] == other.0[0] && self.0[1] == other.0[1] && self.0[2] == other.0[2] && self.0[3]
            == other.0[3]
    }
}

impl vstd::std_specs::cmp::PartialEqSpecImpl for U256 {
    open spec fn obeys_eq_spec() -> bool {
        true
    }

    open spec fn eq_spec(&self, other: &Self) -> bool {
        self@ == other@
    }
}

impl U256 {
    /// Two words with the same value are the same word.
    pub proof fn lemma_injective(self, other: U256)
        requires
            self@ == other@,
        ensures
            self == other,
    {
        let (a, b) = (self.0, other.0);
        let base = 0x1_0000_0000_0000_0000int;
        lemma_lowest_limb(
            a[0] as int,
            a[1] + base * (a[2] + base * a[3]),
            b[0] as int,
            b[1] + base * (b[2] + base * b[3]),
        );
        lemma_lowest_limb(a[1] as int, a[2] + base * a[3], b[1] as int, b[2] + base * b[3]);
        lemma_lowest_limb(a[2] as int, a[3] as int, b[2] as int, b[3] as int);
        assert(self.0@ =~= other.0@);
        assert(self.0 =~= other.0);
    }

    /// The word zero.
    pub fn zero() -> (r: U256)
        ensures
            r@ == 0,
    {
        U256([0, 0, 0, 0])
    }

    /// The word with the value of `x`.
    pub fn from_u128(x: u128) -> (r: U256)
        ensures
            r@ == x,
    {
        let high: u64 = (x >> 64) as u64;
        let low: u64 = (x & 0xffff_ffff_ffff_ffff) as u64;
        assert(x == low + high * 0x1_0000_0000_0000_0000) by (bit_vector)
            requires
                high == (x >> 64) as u64,
                low == (x & 0xffff_ffff_ffff_ffff) as u64,
        ;
        U256([low, high, 0, 0])
    }

    /// Whether this word is smaller than `other`.
    pub fn less_than(&self, other: &U256) -> (r: bool)
        ensures
            r == (self@ < other@),
    {
        if self.0[3] != other.0[3] {
            self.0[3] < other.0[3]
        } else if self.0[2] != other.0[2] {
            self.0[2] < other.0[2]
        } else if self.0[1] != other.0[1] {
            self.0[1] < other.0[1]
        } else {
            self.0[0] < other.0[0]
        }
    }

    /// Calls `sp_core::U256::checked_mul`, which gives the product where it fits in 256 bits and
    /// nothing where it does not.
    #[verifier::external_body]
    pub(crate) fn checked_mul(self, other: U256) -> (r: Option<U256>)
        ensures
            match r {
                Some(product) => product@ == self@ * other@,
                None => self@ * other@ > u256_max(),
            },
    {
        sp_core::U256(self.0).checked_mul(sp_core::U256(other.0)).map(|word| U256(word.0))
    }

    /// Calls `sp_core::U256::checked_add`, which gives the sum where it fits in 256 bits and
    /// nothing where it does not.
    #[verifier::external_body]
    pub(crate) fn checked_add(self, other: U256) -> (r: Option<U256>)
        ensures
            match r {
                Some(sum) => sum@ == self@ + other@,
                None => self@ + other@ > u256_max(),
            },
    {
        sp_core::U256(self.0).checked_add(sp_core::U256(other.0)).map(|word| U256(word.0))
    }

    /// Calls `sp_core::U256::checked_sub`, which gives the difference where it is not negative
    /// and nothing where it is.
    #[verifier::external_body]
    pub(crate) fn checked_sub(self, other: U256) -> (r: Option<U256>)
        ensures
            match r {
                Some(difference) => difference@ == self@ - other@,
                None => self@ < other@,
            },
    {
        sp_core::U256(self.0).checked_sub(sp_core::U256(other.0)).map(|word| U256(word.0))
    }

    /// Calls `sp_core::U256::saturating_sub`, which gives the difference, or zero where the
    /// difference would be negative.
    #[verifier::external_body]
    pub(crate) fn saturating_sub(self, other: U256) -> (r: U256)
        ensures
            r@ == if self@ >= other@ {
                self@ - other@
            } else {
                0
            },
    {
        U256(sp_core::U256(self.0).saturating_sub(sp_core::U256(other.0)).0)
    }

    /// Calls `saturated_into::<u64>` of `sp_runtime::SaturatedConversion`, which gives the value
    /// of the word, or the largest `u64` where the word is larger.
    #[verifier::external_body]
    pub(crate) fn saturated_into_u64(self) -> (r: u64)
        ensures
            r == if self@ <= u64::MAX {
                self@
            } else {
                u64::MAX as nat
            },
    {
        sp_core::U256(self.0).saturated_into::<u64>()
    }
}

/// A key of a storage map, with an equality that decides equality of values.
pub trait Key: Sized {
    /// Whether the two keys are the same.
    fn same(&self, other: &Self) -> (r: bool)
        ensures
            r == (*self == *other),
    ;
}

/// A 20-byte address.
#[derive(Clone, Copy, Debug)]
pub struct H160(pub [u8; 20]);

/// A 32-byte hash, storage index or storage value.
#[derive(Clone, Copy, Debug)]
pub struct H256(pub [u8; 32]);

/// Whether two byte arrays are the same.
fn same_bytes<const N: usize>(left: &[u8; N], right: &[u8; N]) -> (r: bool)
    ensures
        r == (*left == *right),
{
    let mut i: usize = 0;
    while i < N
        invariant
            i <= N,
            left@.len() == N,
            right@.len() == N,
            forall|j: int| 0 <= j < i ==> left@[j] == right@[j],
        decreases N - i,
    {
        if left[i] != right[i] {
            return false;
        }
        i = i + 1;
    }
    assert(left@ =~= right@);
    assert(*left =~= *right);
    true
}

impl Key for H160 {
    fn same(&self, other: &Self) -> (r: bool) {
        same_bytes(&self.0, &other.0)
    }
}

impl Key for H256 {
    fn same(&self, other: &Self) -> (r: bool) {
        same_bytes(&self.0, &other.0)
    }
}

impl Eq for H160 {

}

impl PartialEq for H160 {
    fn eq(&self, other: &Self) -> (r: bool) {
        self.same(other)
    }
}

impl vstd::std_specs::cmp::PartialEqSpecImpl for H160 {
    open spec fn obeys_eq_spec() -> bool {
        true
    }

    open spec fn eq_spec(&self, other: &Self) -> bool {
        *self == *other
    }
}

impl Eq for H256 {

}

impl PartialEq for H256 {
    fn eq(&self, other: &Self) -> (r: bool) {
        self.same(other)
    }
}

impl vstd::std_specs::cmp::PartialEqSpecImpl for H256 {
    open spec fn obeys_eq_spec() -> bool {
        true
    }

    open spec fn eq_spec(&self, other: &Self) -> bool {
        *self == *other
    }
}

/// The word whose bytes are all zero.
pub open spec fn zero_word() -> H256 {
    H256(
        [0, 0, 0, 0, 0, 0, 0, 0, 0, 0, 0, 0, 0, 0, 0, 0, 0, 0, 0, 0, 0, 0, 0, 0, 0, 0, 0, 0, 0, 0, 0, 0],
    )
}

impl H256 {
    /// The word whose bytes are all zero.
    pub fn zero() -> (r: H256)
        ensures
            r == zero_word(),
    {
        let bytes: [u8; 32] = [0u8; 32];
        assert(bytes@ =~= zero_word().0@);
        assert(bytes =~= zero_word().0);
        H256(bytes)
    }

    /// Whether all bytes of this word are zero.
    pub fn is_zero(&self) -> (r: bool)
        ensures
            r == (*self == zero_word()),
    {
        self.same(&H256::zero())
    }
}

} // verus!
