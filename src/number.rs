//! Arbitrary-precision integers, held as canonical big-endian base-256 digits.

use vstd::prelude::*;
use vstd::string::StringExecFns;

verus! {

/// Value of a sequence of base-256 digits, most significant first.
pub open spec fn be_value(s: Seq<u8>) -> nat
    decreases s.len(),
{
    if s.len() == 0 {
        0
    } else {
        be_value(s.drop_last()) * 256 + s.last() as nat
    }
}

/// The minimal base-256 digits of `n`, most significant first (zero is `[0]`).
pub open spec fn bytes_be(n: nat) -> Seq<u8>
    decreases n,
{
    if n < 256 {
        seq![n as u8]
    } else {
        bytes_be(n / 256).push((n % 256) as u8)
    }
}

/// The minimal base-128 digits of `n`, most significant first (zero is `[0]`).
pub open spec fn digits_128(n: nat) -> Seq<u8>
    decreases n,
{
    if n < 128 {
        seq![n as u8]
    } else {
        digits_128(n / 128).push((n % 128) as u8)
    }
}

/// The decimal digit character for `d < 10`.
pub open spec fn digit_char(d: nat) -> char {
    ((d + 48) as u8) as char
}

/// The decimal rendering of `n`, without separators.
pub open spec fn decimal(n: nat) -> Seq<char>
    decreases n,
{
    if n < 10 {
        seq![digit_char(n)]
    } else {
        decimal(n / 10).push(digit_char(n % 10))
    }
}

/// `s` with `_` inserted between groups of three characters, counted from the right.
pub open spec fn group_thousands(s: Seq<char>) -> Seq<char>
    decreases s.len(),
{
    if s.len() <= 3 {
        s
    } else {
        group_thousands(s.subrange(0, s.len() - 3)) + seq!['_'] + s.subrange(s.len() - 3, s.len() as int)
    }
}

/// The decimal rendering of a signed number, without separators.
pub open spec fn signed_decimal(negative: bool, magnitude: nat) -> Seq<char> {
    if negative {
        seq!['-'] + decimal(magnitude)
    } else {
        decimal(magnitude)
    }
}

/// The decimal rendering of a signed number, its digits grouped by three.
pub open spec fn signed_grouped(negative: bool, magnitude: nat) -> Seq<char> {
    if negative {
        seq!['-'] + group_thousands(decimal(magnitude))
    } else {
        group_thousands(decimal(magnitude))
    }
}

pub proof fn lemma_be_value_of_bytes_be(n: nat)
    ensures
        be_value(bytes_be(n)) == n,
    decreases n,
{
    if n >= 256 {
        lemma_be_value_of_bytes_be(n / 256);
        let s = bytes_be(n);
        assert(s.drop_last() =~= bytes_be(n / 256));
        assert(s.last() == (n % 256) as u8);
        assert(be_value(s) == be_value(s.drop_last()) * 256 + s.last() as nat);
    } else {
        let s = bytes_be(n);
        assert(s.drop_last() =~= Seq::<u8>::empty());
        assert(be_value(Seq::<u8>::empty()) == 0);
    }
}

proof fn lemma_be_prefix_le(s: Seq<u8>, i: int)
    requires
        0 <= i <= s.len(),
    ensures
        be_value(s.take(i)) <= be_value(s),
    decreases s.len() - i,
{
    if i < s.len() {
        lemma_be_prefix_le(s, i + 1);
        assert(s.take(i + 1).drop_last() =~= s.take(i));
    } else {
        assert(s.take(i) =~= s);
    }
}

proof fn lemma_be_take_step(s: Seq<u8>, i: int)
    requires
        0 <= i < s.len(),
    ensures
        be_value(s.take(i + 1)) == be_value(s.take(i)) * 256 + s[i] as nat,
{
    assert(s.take(i + 1).drop_last() =~= s.take(i));
}

fn bytes_be_of(n: u128) -> (r: Vec<u8>)
    ensures
        r@ == bytes_be(n as nat),
    decreases n,
{
    if n < 256 {
        vec![n as u8]
    } else {
        let mut r = bytes_be_of(n / 256);
        r.push((n % 256) as u8);
        r
    }
}

/// An arbitrary-precision non-negative integer.
#[derive(Debug)]
pub struct Nat {
    bytes: Vec<u8>,
}

impl View for Nat {
    type V = nat;

    closed spec fn view(&self) -> nat {
        be_value(self.bytes@)
    }
}

impl Nat {
    #[verifier::type_invariant]
    closed spec fn canonical(&self) -> bool {
        self.bytes@ == bytes_be(be_value(self.bytes@))
    }

    /// The number `v`.
    pub fn from_u128(v: u128) -> (r: Nat)
        ensures
            r@ == v,
    {
        let bytes = bytes_be_of(v);
        proof {
            lemma_be_value_of_bytes_be(v as nat);
        }
        Nat { bytes }
    }

    /// The number as a `u128`, or `None` when it is 2^128 or more.
    pub fn to_u128(&self) -> (r: Option<u128>)
        ensures
            r == (if self@ <= u128::MAX {
                Some(self@ as u128)
            } else {
                None
            }),
    {
        let mut acc: u128 = 0;
        let mut i: usize = 0;
        while i < self.bytes.len()
            invariant
                0 <= i <= self.bytes@.len(),
                acc == be_value(self.bytes@.take(i as int)),
            decreases self.bytes@.len() - i,
        {
            proof {
                lemma_be_take_step(self.bytes@, i as int);
                lemma_be_prefix_le(self.bytes@, i as int + 1);
            }
            if acc > (u128::MAX - self.bytes[i] as u128) / 256 {
                return None;
            }
            acc = acc * 256 + self.bytes[i] as u128;
            i = i + 1;
        }
        assert(self.bytes@.take(i as int) =~= self.bytes@);
        Some(acc)
    }

    /// The number with one more base-256 digit `d` appended: `self * 256 + d`.
    pub fn shift_in(self, d: u8) -> (r: Nat)
        ensures
            r@ == self@ * 256 + d,
    {
        proof {
            use_type_invariant(&self);
            assert(bytes_be(0) =~= seq![0u8]);
        }
        if self.bytes.len() == 1 && self.bytes[0] == 0 {
            proof {
                assert(self.bytes@ =~= seq![0u8]);
                assert(seq![0u8].drop_last() =~= Seq::<u8>::empty());
                assert(be_value(Seq::<u8>::empty()) == 0);
                assert(be_value(seq![0u8]) == 0);
            }
            let bytes = vec![d];
            proof {
                assert(bytes@ =~= seq![d]);
                assert(seq![d].drop_last() =~= Seq::<u8>::empty());
                assert(be_value(seq![d]) == d);
                assert(bytes_be(d as nat) =~= seq![d]);
            }
            Nat { bytes }
        } else {
            let mut bytes = self.bytes;
            let ghost old_bytes = bytes@;
            proof {
                lemma_be_value_of_bytes_be(0);
                assert(be_value(old_bytes) > 0);
            }
            bytes.push(d);
            proof {
                let v = be_value(old_bytes);
                assert(bytes@.drop_last() =~= old_bytes);
                assert(be_value(bytes@) == v * 256 + d);
                assert((v * 256 + d) / 256 == v);
                assert((v * 256 + d) % 256 == d);
                assert(bytes_be((v * 256 + d) as nat) =~= bytes_be(v).push(d));
            }
            Nat { bytes }
        }
    }

    /// The number whose big-endian base-256 digits are `bytes` (leading zeros allowed).
    pub fn from_bytes_be(bytes: &Vec<u8>) -> (r: Nat)
        ensures
            r@ == be_value(bytes@),
    {
        let mut n = Nat::from_u128(0);
        let mut i: usize = 0;
        assert(bytes@.take(0) =~= Seq::<u8>::empty());
        while i < bytes.len()
            invariant
                0 <= i <= bytes@.len(),
                n@ == be_value(bytes@.take(i as int)),
            decreases bytes@.len() - i,
        {
            proof {
                lemma_be_take_step(bytes@, i as int);
            }
            n = n.shift_in(bytes[i]);
            i = i + 1;
        }
        assert(bytes@.take(i as int) =~= bytes@);
        n
    }

    /// The minimal big-endian base-256 digits of the number; zero is `[0]`.
    pub fn to_bytes_be(&self) -> (r: Vec<u8>)
        ensures
            r@ == bytes_be(self@),
    {
        proof {
            use_type_invariant(self);
        }
        self.bytes.clone()
    }

    /// Number of base-256 digits in the number's minimal form (one for zero).
    pub fn digit_count(&self) -> (r: usize)
        ensures
            r == bytes_be(self@).len(),
    {
        proof {
            use_type_invariant(self);
        }
        self.bytes.len()
    }

    /// Whether both numbers are the same.
    pub fn same(&self, other: &Nat) -> (r: bool)
        ensures
            r == (self@ == other@),
    {
        proof {
            use_type_invariant(self);
            use_type_invariant(other);
        }
        assert(self@ == other@ ==> self.bytes@ == other.bytes@);
        let n = self.bytes.len();
        if n != other.bytes.len() {
            return false;
        }
        let mut i: usize = 0;
        while i < n
            invariant
                n == self.bytes@.len() == other.bytes@.len(),
                self@ == other@ ==> self.bytes@ == other.bytes@,
                0 <= i <= n,
                forall|j: int| 0 <= j < i ==> self.bytes@[j] == other.bytes@[j],
            decreases n - i,
        {
            if self.bytes[i] != other.bytes[i] {
                return false;
            }
            i = i + 1;
        }
        assert(self.bytes@ =~= other.bytes@);
        true
    }

    /// Whether the number is zero.
    pub fn is_zero(&self) -> (r: bool)
        ensures
            r == (self@ == 0),
    {
        proof {
            use_type_invariant(self);
            assert(bytes_be(0) =~= seq![0u8]);
            assert(self@ == 0 ==> self.bytes@ == seq![0u8]);
            assert(be_value(Seq::<u8>::empty()) == 0);
            assert(seq![0u8].drop_last() =~= Seq::<u8>::empty());
            assert(be_value(seq![0u8]) == 0);
            assert(self.bytes@.len() == 1 && self.bytes@[0] == 0 ==> self.bytes@ =~= seq![0u8]);
        }
        self.bytes.len() == 1 && self.bytes[0] == 0
    }
}

/// Relies on num_bigint's `BigUint::to_radix_be`: the base-128 digits of the
/// number, most significant first, with `[0]` for zero.
#[verifier::external_body]
fn radix_128_digits(bytes: &Vec<u8>) -> (r: Vec<u8>)
    ensures
        r@ == digits_128(be_value(bytes@)),
{
    num_bigint::BigUint::from_bytes_be(bytes).to_radix_be(128)
}

/// Relies on num_bigint's `BigUint::to_str_radix`: plain decimal digits.
#[verifier::external_body]
fn decimal_text(bytes: &Vec<u8>) -> (r: String)
    ensures
        r@ == decimal(be_value(bytes@)),
{
    num_bigint::BigUint::from_bytes_be(bytes).to_str_radix(10)
}

/// Relies on candid's `Display` for `Nat`: decimal digits grouped by three with `_`.
#[verifier::external_body]
fn grouped_text(bytes: &Vec<u8>) -> (r: String)
    ensures
        r@ == group_thousands(decimal(be_value(bytes@))),
{
    candid::Nat(num_bigint::BigUint::from_bytes_be(bytes)).to_string()
}

/// Relies on candid's `Display` for `Int`: a minus sign for a negative number,
/// then decimal digits grouped by three with `_`.
#[verifier::external_body]
fn signed_grouped_text(negative: bool, bytes: &Vec<u8>) -> (r: String)
    ensures
        r@ == signed_grouped(negative && be_value(bytes@) > 0, be_value(bytes@)),
{
    let sign = if negative {
        num_bigint::Sign::Minus
    } else {
        num_bigint::Sign::Plus
    };
    candid::Int(num_bigint::BigInt::from_biguint(sign, num_bigint::BigUint::from_bytes_be(bytes))).to_string()
}

impl Nat {
    /// The minimal base-128 digits, most significant first; zero is `[0]`.
    pub fn to_digits_128(&self) -> (r: Vec<u8>)
        ensures
            r@ == digits_128(self@),
    {
        radix_128_digits(&self.bytes)
    }

    /// The plain decimal rendering.
    pub fn to_decimal(&self) -> (r: String)
        ensures
            r@ == decimal(self@),
    {
        decimal_text(&self.bytes)
    }

    /// The decimal rendering with digits grouped by three (`12_345`).
    pub fn to_grouped(&self) -> (r: String)
        ensures
            r@ == group_thousands(decimal(self@)),
    {
        grouped_text(&self.bytes)
    }
}

impl Nat {
    /// A copy of the value.
    pub fn duplicate(&self) -> (r: Nat)
        ensures
            r@ == self@,
    {
        proof {
            use_type_invariant(self);
        }
        Nat { bytes: self.bytes.clone() }
    }
}

impl Clone for Nat {
    fn clone(&self) -> (r: Nat)
        ensures
            r@ == self@,
    {
        self.duplicate()
    }
}


/// An arbitrary-precision signed integer: a sign and a magnitude.
#[derive(Debug)]
pub struct Int {
    negative: bool,
    magnitude: Nat,
}

impl View for Int {
    type V = int;

    closed spec fn view(&self) -> int {
        if self.negative {
            -(self.magnitude@ as int)
        } else {
            self.magnitude@ as int
        }
    }
}

impl Int {
    #[verifier::type_invariant]
    closed spec fn zero_unsigned(&self) -> bool {
        self.negative ==> self.magnitude@ > 0
    }

    /// The number `v`.
    pub fn from_i128(v: i128) -> (r: Int)
        ensures
            r@ == v,
    {
        if v < 0 {
            let m: u128 = ((-(v + 1)) as u128) + 1;
            Int { negative: true, magnitude: Nat::from_u128(m) }
        } else {
            Int { negative: false, magnitude: Nat::from_u128(v as u128) }
        }
    }

    /// The number with the given sign and magnitude; a zero magnitude is never negative.
    pub fn from_parts(negative: bool, magnitude: Nat) -> (r: Int)
        ensures
            r@ == (if negative && magnitude@ > 0 {
                -(magnitude@ as int)
            } else {
                magnitude@ as int
            }),
    {
        let z = magnitude.is_zero();
        Int { negative: negative && !z, magnitude }
    }

    /// Whether the number is below zero.
    pub fn is_negative(&self) -> (r: bool)
        ensures
            r == (self@ < 0),
    {
        proof {
            use_type_invariant(self);
        }
        self.negative
    }

    /// The absolute value.
    pub fn magnitude(&self) -> (r: &Nat)
        ensures
            r@ == (if self@ < 0 {
                -self@
            } else {
                self@
            }),
    {
        proof {
            use_type_invariant(self);
        }
        &self.magnitude
    }

    /// Whether both numbers are the same.
    pub fn same(&self, other: &Int) -> (r: bool)
        ensures
            r == (self@ == other@),
    {
        proof {
            use_type_invariant(self);
            use_type_invariant(other);
        }
        self.negative == other.negative && self.magnitude.same(&other.magnitude)
    }
}

impl Int {
    /// The plain decimal rendering, with a leading `-` when negative.
    pub fn to_decimal(&self) -> (r: String)
        ensures
            r@ == signed_decimal(self@ < 0, if self@ < 0 {
                (-self@) as nat
            } else {
                self@ as nat
            }),
    {
        proof {
            use_type_invariant(self);
        }
        let digits = self.magnitude.to_decimal();
        if self.negative {
            let mut r = String::from_str("-");
            proof {
                reveal_strlit("-");
            }
            r.append(digits.as_str());
            r
        } else {
            digits
        }
    }

    /// The decimal rendering with digits grouped by three, with a leading `-` when negative.
    pub fn to_grouped(&self) -> (r: String)
        ensures
            r@ == signed_grouped(self@ < 0, if self@ < 0 {
                (-self@) as nat
            } else {
                self@ as nat
            }),
    {
        proof {
            use_type_invariant(self);
        }
        signed_grouped_text(self.negative, &self.magnitude.bytes)
    }
}

impl Int {
    /// A copy of the value.
    pub fn duplicate(&self) -> (r: Int)
        ensures
            r@ == self@,
    {
        proof {
            use_type_invariant(self);
        }
        Int { negative: self.negative, magnitude: self.magnitude.duplicate() }
    }
}

impl Clone for Int {
    fn clone(&self) -> (r: Int)
        ensures
            r@ == self@,
    {
        self.duplicate()
    }
}

} // verus!
