//! Leaf types carried by values: floats, opaque identifiers and record fields.

use vstd::prelude::*;
use vstd::arithmetic::power2::*;
use crate::value::CandyShared;

verus! {

/// The sign bit of an IEEE-754 double given by its bits.
pub open spec fn float_sign(bits: u64) -> bool {
    (bits >> 63u64) == 1
}

/// The biased exponent field of an IEEE-754 double.
pub open spec fn float_exponent(bits: u64) -> u64 {
    (bits >> 52u64) & 0x7ffu64
}

/// The fraction field of an IEEE-754 double.
pub open spec fn float_fraction(bits: u64) -> u64 {
    bits & 0xf_ffff_ffff_ffffu64
}

/// Whether the double is infinite or not a number.
pub open spec fn float_non_finite(bits: u64) -> bool {
    float_exponent(bits) == 0x7ff
}

/// Whether the double compares below zero (negative, not zero, not NaN).
pub open spec fn float_below_zero(bits: u64) -> bool {
    float_sign(bits) && !float_non_finite(bits) && (float_exponent(bits) != 0 || float_fraction(bits)
        != 0)
}

/// The magnitude of a finite double rounded to the nearest integer, halves away from zero.
pub open spec fn float_rounded_magnitude(bits: u64) -> nat {
    let e = float_exponent(bits) as nat;
    let m = float_fraction(bits) as nat + pow2(52);
    if e == 0 {
        0
    } else if e >= 1075 {
        m * pow2((e - 1075) as nat)
    } else {
        (m + pow2((1075 - e) as nat) / 2) / pow2((1075 - e) as nat)
    }
}

/// The double rounded to the nearest integer, halves away from zero; `None` when not finite.
pub open spec fn float_rounded(bits: u64) -> Option<int> {
    if float_non_finite(bits) {
        None
    } else if float_sign(bits) {
        Some(-(float_rounded_magnitude(bits) as int))
    } else {
        Some(float_rounded_magnitude(bits) as int)
    }
}

/// Whether the two doubles are equal under IEEE-754 comparison.
pub open spec fn float_equal(a: u64, b: u64) -> bool {
    let a_nan = float_non_finite(a) && float_fraction(a) != 0;
    let b_nan = float_non_finite(b) && float_fraction(b) != 0;
    let a_zero = float_exponent(a) == 0 && float_fraction(a) == 0;
    let b_zero = float_exponent(b) == 0 && float_fraction(b) == 0;
    !a_nan && !b_nan && (a == b || (a_zero && b_zero))
}

/// A double-precision float, held as its IEEE-754 bits together with its
/// shortest decimal rendering (the one that reads back as the same bits).
/// Numeric work reads the bits; the renderings print the text, which whoever
/// builds the value from a native float supplies.
#[derive(Debug)]
pub struct Float {
    pub bits: u64,
    pub text: String,
}

impl Float {
    /// The float with the given bits and rendering.
    pub fn new(bits: u64, text: String) -> (r: Float)
        ensures
            r.bits == bits,
            r.text@ == text@,
    {
        Float { bits, text }
    }

    /// The rounded magnitude, when finite and below 2^128.
    pub fn rounded_magnitude(&self) -> (r: Option<u128>)
        requires
            !float_non_finite(self.bits),
        ensures
            r == (if float_rounded_magnitude(self.bits) <= u128::MAX {
                Some(float_rounded_magnitude(self.bits) as u128)
            } else {
                None
            }),
    {
        let bits = self.bits;
        let e: u64 = (bits >> 52u64) & 0x7ffu64;
        let frac: u64 = bits & 0xf_ffff_ffff_ffffu64;
        if e == 0 {
            return Some(0);
        }
        proof {
            lemma2_to64();
            lemma2_to64_rest();
        }
        assert(frac < 0x10_0000_0000_0000u64) by (bit_vector)
            requires
                frac == bits & 0xf_ffff_ffff_ffffu64,
        ;
        let m: u128 = frac as u128 + 0x10_0000_0000_0000u128;
        assert(m == float_fraction(bits) as nat + pow2(52));
        assert(m < pow2(53));
        if e >= 1075 {
            let k: u64 = e - 1075;
            if k > 75 {
                proof {
                    lemma_pow2_strictly_increases(75, k as nat);
                    lemma_pow2_adds(52, 76);
                    lemma_pow2_adds(53, 75);
                    assert(pow2(k as nat) >= pow2(76)) by {
                        if k > 76 {
                            lemma_pow2_strictly_increases(76, k as nat);
                        }
                    }
                    assert(m * pow2(k as nat) >= pow2(52) * pow2(76)) by (nonlinear_arith)
                        requires
                            m >= pow2(52),
                            pow2(k as nat) >= pow2(76),
                    ;
                    lemma_pow2_adds(64, 64);
                }
                return None;
            }
            let mut p: u128 = 1;
            let mut i: u64 = 0;
            while i < k
                invariant
                    0 <= i <= k <= 75,
                    p == pow2(i as nat),
                decreases k - i,
            {
                proof {
                    lemma_pow2_unfold((i + 1) as nat);
                    lemma_pow2_strictly_increases(i as nat, 75);
                    lemma2_to64();
                    lemma_pow2_adds(64, 11);
                }
                p = p * 2;
                i = i + 1;
            }
            proof {
                if k < 75 {
                    lemma_pow2_strictly_increases(k as nat, 75);
                }
                lemma_pow2_adds(53, 75);
                lemma_pow2_adds(64, 64);
                lemma_pow2_pos(k as nat);
                assert(m * p < pow2(53) * pow2(75)) by (nonlinear_arith)
                    requires
                        m < pow2(53),
                        p <= pow2(75),
                        p > 0,
                ;
            }
            Some(m * p)
        } else {
            let sh: u64 = 1075 - e;
            if sh > 60 {
                proof {
                    let s = sh as nat;
                    lemma_pow2_unfold(s);
                    lemma_pow2_strictly_increases(53, (s - 1) as nat);
                    let p = pow2(s);
                    assert(p / 2 == pow2((s - 1) as nat));
                    let mm = m as nat;
                    assert((mm + p / 2) / p == 0) by (nonlinear_arith)
                        requires
                            mm + p / 2 < p,
                    ;
                }
                return Some(0);
            }
            let mut p: u128 = 1;
            let mut i: u64 = 0;
            while i < sh
                invariant
                    0 <= i <= sh <= 60,
                    p == pow2(i as nat),
                decreases sh - i,
            {
                proof {
                    lemma_pow2_unfold((i + 1) as nat);
                    if i + 1 < 60 {
                        lemma_pow2_strictly_increases((i + 1) as nat, 60);
                    }
                    lemma2_to64_rest();
                }
                p = p * 2;
                i = i + 1;
            }
            Some((m + p / 2) / p)
        }
    }

    /// Whether the float compares below zero.
    pub fn is_below_zero(&self) -> (r: bool)
        ensures
            r == float_below_zero(self.bits),
    {
        let bits = self.bits;
        let e: u64 = (bits >> 52u64) & 0x7ffu64;
        let frac: u64 = bits & 0xf_ffff_ffff_ffffu64;
        (bits >> 63u64) == 1 && e != 0x7ff && (e != 0 || frac != 0)
    }

    /// Whether the float is infinite or not a number.
    pub fn is_non_finite(&self) -> (r: bool)
        ensures
            r == float_non_finite(self.bits),
    {
        ((self.bits >> 52u64) & 0x7ffu64) == 0x7ff
    }

    /// Whether the float has its sign bit set.
    pub fn sign_bit(&self) -> (r: bool)
        ensures
            r == float_sign(self.bits),
    {
        (self.bits >> 63u64) == 1
    }

    /// IEEE-754 equality: NaN equals nothing, and both zeros are equal.
    pub fn equals(&self, other: &Float) -> (r: bool)
        ensures
            r == float_equal(self.bits, other.bits),
    {
        let a = self.bits;
        let b = other.bits;
        let a_nan = ((a >> 52u64) & 0x7ffu64) == 0x7ff && (a & 0xf_ffff_ffff_ffffu64) != 0;
        let b_nan = ((b >> 52u64) & 0x7ffu64) == 0x7ff && (b & 0xf_ffff_ffff_ffffu64) != 0;
        let a_zero = ((a >> 52u64) & 0x7ffu64) == 0 && (a & 0xf_ffff_ffff_ffffu64) == 0;
        let b_zero = ((b >> 52u64) & 0x7ffu64) == 0 && (b & 0xf_ffff_ffff_ffffu64) == 0;
        !a_nan && !b_nan && (a == b || (a_zero && b_zero))
    }
}

impl Float {
    /// A copy of the value.
    pub fn duplicate(&self) -> (r: Float)
        ensures
            r.bits == self.bits,
            r.text@ == self.text@,
    {
        Float { bits: self.bits, text: self.text.clone() }
    }
}

impl Clone for Float {
    fn clone(&self) -> (r: Float)
        ensures
            r.bits == self.bits,
            r.text@ == self.text@,
    {
        self.duplicate()
    }
}

/// Largest number of bytes in an opaque identifier.
pub const PRINCIPAL_MAX_LEN: usize = 29;

/// An opaque network identifier, held as its raw bytes (at most 29 of them).
#[derive(Debug)]
pub struct Principal {
    bytes: Vec<u8>,
}

impl View for Principal {
    type V = Seq<u8>;

    closed spec fn view(&self) -> Seq<u8> {
        self.bytes@
    }
}

impl Principal {
    #[verifier::type_invariant]
    closed spec fn bounded(&self) -> bool {
        self.bytes@.len() <= PRINCIPAL_MAX_LEN
    }

    /// The identifier with the given bytes, or `None` when there are more than 29.
    pub fn from_bytes(bytes: Vec<u8>) -> (r: Option<Principal>)
        ensures
            bytes@.len() <= PRINCIPAL_MAX_LEN <==> r is Some,
            r matches Some(p) ==> p@ == bytes@,
    {
        if bytes.len() > PRINCIPAL_MAX_LEN {
            None
        } else {
            Some(Principal { bytes })
        }
    }

    /// The raw bytes.
    pub fn as_bytes(&self) -> (r: &Vec<u8>)
        ensures
            r@ == self@,
            r@.len() <= PRINCIPAL_MAX_LEN,
    {
        proof {
            use_type_invariant(self);
        }
        &self.bytes
    }
}

impl Principal {
    /// A copy of the value.
    pub fn duplicate(&self) -> (r: Principal)
        ensures
            r@ == self@,
    {
        proof {
            use_type_invariant(self);
        }
        Principal { bytes: self.bytes.clone() }
    }
}

impl Clone for Principal {
    fn clone(&self) -> (r: Principal)
        ensures
            r@ == self@,
    {
        self.duplicate()
    }
}

/// The variant of a value, without its payload.
#[derive(PartialEq, Eq, Structural, Clone, Copy, Debug)]
pub enum CandyKind {
    Int,
    Int8,
    Int16,
    Int32,
    Int64,
    Ints,
    Nat,
    Nat8,
    Nat16,
    Nat32,
    Nat64,
    Float,
    Text,
    Bool,
    Blob,
    Bytes,
    Class,
    Principal,
    Option,
    Array,
    Nats,
    Floats,
    ValueMap,
    ValueSet,
    /// The empty value of the persisted and working forms.
    Empty,
}

/// Why a conversion failed.
#[derive(PartialEq, Eq, Structural, Clone, Copy, Debug)]
pub enum CandyError {
    /// The value has no result of the requested kind.
    NotRepresentable,
    /// The value exists but does not fit the requested width.
    Overflow,
    /// The operation is not defined for this variant.
    Unsupported(CandyKind),
    /// A chunk address cannot be placed in memory.
    MalformedAddress,
}

/// Why an operation on a record field failed.
#[derive(Debug)]
pub enum PropertyError {
    Unauthorized,
    NotFound,
    InvalidRequest,
    AuthorizedPrincipalLimitReached(crate::number::Nat),
    Immutable,
}

/// A named field of a record.
#[derive(Debug)]
pub struct PropertyShared {
    pub name: String,
    pub value: CandyShared,
    pub immutable: bool,
}

} // verus!
