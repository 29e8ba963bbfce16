//! The dynamic value and its numeric coercions.

use vstd::prelude::*;
use vstd::string::StringExecFns;
use crate::number::{Int, Nat};
pub use crate::blob::ToBlob;
use crate::types::{
    CandyError, float_below_zero, float_non_finite, float_rounded, float_rounded_magnitude, Float, Principal,
    PropertyShared,
};

verus! {

/// A dynamically typed value.
#[derive(Debug)]
pub enum CandyShared {
    Int(Int),
    Int8(i8),
    Int16(i16),
    Int32(i32),
    Int64(i64),
    Ints(Vec<Int>),
    Nat(Nat),
    Nat8(u8),
    Nat16(u16),
    Nat32(u32),
    Nat64(u64),
    Float(Float),
    Text(String),
    Bool(bool),
    Blob(Vec<u8>),
    Bytes(Vec<u8>),
    Class(Vec<PropertyShared>),
    Principal(Principal),
    Option(Option<Box<CandyShared>>),
    Array(Vec<CandyShared>),
    Nats(Vec<Nat>),
    Floats(Vec<Float>),
    ValueMap(Vec<(CandyShared, CandyShared)>),
    ValueSet(Vec<CandyShared>),
}


/// The numeric value of a number-carrying value; a float is first rounded to
/// the nearest integer (halves away from zero). `None` for any other variant
/// and for infinite or NaN floats.
pub open spec fn numeric_value(v: CandyShared) -> Option<int> {
    match v {
        CandyShared::Int(n) => Some(n@),
        CandyShared::Int8(n) => Some(n as int),
        CandyShared::Int16(n) => Some(n as int),
        CandyShared::Int32(n) => Some(n as int),
        CandyShared::Int64(n) => Some(n as int),
        CandyShared::Nat(n) => Some(n@ as int),
        CandyShared::Nat8(n) => Some(n as int),
        CandyShared::Nat16(n) => Some(n as int),
        CandyShared::Nat32(n) => Some(n as int),
        CandyShared::Nat64(n) => Some(n as int),
        CandyShared::Float(f) => float_rounded(f.bits),
        _ => None,
    }
}

/// The result of coercing `v` into the integer range `lo..=hi`: its numeric
/// value when that lies in the range, else `None`. For an unsigned target a
/// float below zero gives `None` even when it rounds to zero.
pub open spec fn coerced(v: CandyShared, lo: int, hi: int, unsigned: bool) -> Option<int> {
    if unsigned && (v matches CandyShared::Float(f) && float_below_zero(f.bits)) {
        None
    } else {
        match numeric_value(v) {
            Some(n) => if lo <= n <= hi {
                Some(n)
            } else {
                None
            },
            None => None,
        }
    }
}

/// `Some(n)` as an integer option, for stating results of any integer width.
pub open spec fn as_int_option(neg: bool, m: u128) -> Option<int> {
    Some(if neg {
        -(m as int)
    } else {
        m as int
    })
}

fn split_signed(v: i128) -> (r: (bool, u128))
    ensures
        (if r.0 {
            -(r.1 as int)
        } else {
            r.1 as int
        }) == v,
        r.0 <==> v < 0,
{
    if v < 0 {
        (true, ((-(v + 1)) as u128) + 1)
    } else {
        (false, v as u128)
    }
}

fn join_signed(neg: bool, m: u128) -> (r: i128)
    requires
        neg ==> m <= 0x8000_0000_0000_0000_0000_0000_0000_0000u128,
        !neg ==> m <= i128::MAX,
    ensures
        r == (if neg {
            -(m as int)
        } else {
            m as int
        }),
{
    if neg {
        if m == 0 {
            0
        } else {
            -(((m - 1) as i128)) - 1
        }
    } else {
        m as i128
    }
}

impl CandyShared {
    /// The sign and magnitude of the numeric value, when the magnitude fits in 128 bits.
    fn signed_magnitude(&self) -> (r: Option<(bool, u128)>)
        ensures
            r matches Some((neg, m)) ==> numeric_value(*self) == as_int_option(neg, m) && (neg
                ==> m > 0),
            r is None ==> (numeric_value(*self) matches Some(n) ==> (n > u128::MAX || n
                < -u128::MAX)),
    {
        match self {
            CandyShared::Int(n) => {
                let neg = n.is_negative();
                match n.magnitude().to_u128() {
                    Some(m) => Some((neg, m)),
                    None => None,
                }
            },
            CandyShared::Int8(n) => Some(split_signed(*n as i128)),
            CandyShared::Int16(n) => Some(split_signed(*n as i128)),
            CandyShared::Int32(n) => Some(split_signed(*n as i128)),
            CandyShared::Int64(n) => Some(split_signed(*n as i128)),
            CandyShared::Nat(n) => match n.to_u128() {
                Some(m) => Some((false, m)),
                None => None,
            },
            CandyShared::Nat8(n) => Some((false, *n as u128)),
            CandyShared::Nat16(n) => Some((false, *n as u128)),
            CandyShared::Nat32(n) => Some((false, *n as u128)),
            CandyShared::Nat64(n) => Some((false, *n as u128)),
            CandyShared::Float(f) => {
                if f.is_non_finite() {
                    None
                } else {
                    match f.rounded_magnitude() {
                        Some(m) => Some((f.sign_bit() && m > 0, m)),
                        None => None,
                    }
                }
            },
            _ => None,
        }
    }

    /// The numeric value when it lies in `-neg_limit..=pos_limit`, as sign and magnitude.
    fn coerce(&self, unsigned: bool, neg_limit: u128, pos_limit: u128) -> (r: Option<(bool, u128)>)
        requires
            unsigned ==> neg_limit == 0,
        ensures
            coerced(*self, -(neg_limit as int), pos_limit as int, unsigned) == match r {
                Some((neg, m)) => as_int_option(neg, m),
                None => None::<int>,
            },
            r matches Some((neg, m)) ==> (neg ==> 0 < m <= neg_limit) && (!neg ==> m <= pos_limit),
    {
        if unsigned {
            if let CandyShared::Float(f) = self {
                if f.is_below_zero() {
                    return None;
                }
            }
        }
        match self.signed_magnitude() {
            Some((neg, m)) => {
                if (neg && m <= neg_limit) || (!neg && m <= pos_limit) {
                    Some((neg, m))
                } else {
                    None
                }
            },
            None => None,
        }
    }

    /// Whether the coercion to the integer type `target` succeeds, and if not,
    /// why: `NotRepresentable` when the value is no number (or an infinite or
    /// NaN float), `Overflow` when it is a number outside the type's range.
    pub fn coercion_status(&self, target: IntegerKind) -> (r: Result<(), CandyError>)
        ensures
            r == (if coerced(*self, kind_min(target), kind_max(target), kind_unsigned(target)) is Some {
                Ok::<(), CandyError>(())
            } else if numeric_value(*self) is None {
                Err::<(), CandyError>(CandyError::NotRepresentable)
            } else {
                Err::<(), CandyError>(CandyError::Overflow)
            }),
    {
        let (unsigned, neg_limit, pos_limit): (bool, u128, u128) = match target {
            IntegerKind::U8 => (true, 0, u8::MAX as u128),
            IntegerKind::U16 => (true, 0, u16::MAX as u128),
            IntegerKind::U32 => (true, 0, u32::MAX as u128),
            IntegerKind::U64 => (true, 0, u64::MAX as u128),
            IntegerKind::U128 => (true, 0, u128::MAX),
            IntegerKind::I8 => (false, 128, i8::MAX as u128),
            IntegerKind::I16 => (false, 0x8000, i16::MAX as u128),
            IntegerKind::I32 => (false, 0x8000_0000, i32::MAX as u128),
            IntegerKind::I64 => (false, 0x8000_0000_0000_0000, i64::MAX as u128),
            IntegerKind::I128 => (false, 0x8000_0000_0000_0000_0000_0000_0000_0000u128, i128::MAX as u128),
        };
        if self.coerce(unsigned, neg_limit, pos_limit).is_some() {
            Ok(())
        } else if self.signed_magnitude().is_none() && !self.is_huge_number() {
            Err(CandyError::NotRepresentable)
        } else {
            Err(CandyError::Overflow)
        }
    }

    /// Whether the value is a number whose magnitude is 2^128 or more.
    fn is_huge_number(&self) -> (r: bool)
        ensures
            r == (numeric_value(*self) matches Some(n) && (n > u128::MAX || n < -u128::MAX)),
    {
        match self {
            CandyShared::Int(n) => n.magnitude().to_u128().is_none(),
            CandyShared::Nat(n) => n.to_u128().is_none(),
            CandyShared::Float(f) => !f.is_non_finite() && f.rounded_magnitude().is_none(),
            _ => false,
        }
    }

    /// The value as an unsigned 128-bit integer, when it is a number in range.
    pub fn to_nat(self) -> (r: Option<u128>)
        ensures
            coerced(self, 0, u128::MAX as int, true) == match r {
                Some(x) => Some(x as int),
                None => None::<int>,
            },
    {
        match self.coerce(true, 0, u128::MAX) {
            Some((_, m)) => Some(m),
            None => None,
        }
    }

    /// The value as a `u8`, when it is a number in range.
    pub fn to_nat8(self) -> (r: Option<u8>)
        ensures
            coerced(self, 0, u8::MAX as int, true) == match r {
                Some(x) => Some(x as int),
                None => None::<int>,
            },
    {
        match self.coerce(true, 0, u8::MAX as u128) {
            Some((_, m)) => Some(m as u8),
            None => None,
        }
    }

    /// The value as a `u16`, when it is a number in range.
    pub fn to_nat16(self) -> (r: Option<u16>)
        ensures
            coerced(self, 0, u16::MAX as int, true) == match r {
                Some(x) => Some(x as int),
                None => None::<int>,
            },
    {
        match self.coerce(true, 0, u16::MAX as u128) {
            Some((_, m)) => Some(m as u16),
            None => None,
        }
    }

    /// The value as a `u32`, when it is a number in range.
    pub fn to_nat32(self) -> (r: Option<u32>)
        ensures
            coerced(self, 0, u32::MAX as int, true) == match r {
                Some(x) => Some(x as int),
                None => None::<int>,
            },
    {
        match self.coerce(true, 0, u32::MAX as u128) {
            Some((_, m)) => Some(m as u32),
            None => None,
        }
    }

    /// The value as a `u64`, when it is a number in range.
    pub fn to_nat64(self) -> (r: Option<u64>)
        ensures
            coerced(self, 0, u64::MAX as int, true) == match r {
                Some(x) => Some(x as int),
                None => None::<int>,
            },
    {
        match self.coerce(true, 0, u64::MAX as u128) {
            Some((_, m)) => Some(m as u64),
            None => None,
        }
    }

    /// The value as an `i128`, when it is a number in range.
    pub fn to_int(self) -> (r: Option<i128>)
        ensures
            coerced(self, i128::MIN as int, i128::MAX as int, false) == match r {
                Some(x) => Some(x as int),
                None => None::<int>,
            },
    {
        match self.coerce(false, 0x8000_0000_0000_0000_0000_0000_0000_0000u128, i128::MAX as u128) {
            Some((neg, m)) => Some(join_signed(neg, m)),
            None => None,
        }
    }

    /// The value as an `i8`, when it is a number in range.
    pub fn to_int8(self) -> (r: Option<i8>)
        ensures
            coerced(self, i8::MIN as int, i8::MAX as int, false) == match r {
                Some(x) => Some(x as int),
                None => None::<int>,
            },
    {
        match self.coerce(false, 128, i8::MAX as u128) {
            Some((neg, m)) => Some(join_signed(neg, m) as i8),
            None => None,
        }
    }

    /// The value as an `i16`, when it is a number in range.
    pub fn to_int16(self) -> (r: Option<i16>)
        ensures
            coerced(self, i16::MIN as int, i16::MAX as int, false) == match r {
                Some(x) => Some(x as int),
                None => None::<int>,
            },
    {
        match self.coerce(false, 0x8000, i16::MAX as u128) {
            Some((neg, m)) => Some(join_signed(neg, m) as i16),
            None => None,
        }
    }

    /// The value as an `i32`, when it is a number in range.
    pub fn to_int32(self) -> (r: Option<i32>)
        ensures
            coerced(self, i32::MIN as int, i32::MAX as int, false) == match r {
                Some(x) => Some(x as int),
                None => None::<int>,
            },
    {
        match self.coerce(false, 0x8000_0000, i32::MAX as u128) {
            Some((neg, m)) => Some(join_signed(neg, m) as i32),
            None => None,
        }
    }

    /// The value as an `i64`, when it is a number in range.
    pub fn to_int64(self) -> (r: Option<i64>)
        ensures
            coerced(self, i64::MIN as int, i64::MAX as int, false) == match r {
                Some(x) => Some(x as int),
                None => None::<int>,
            },
    {
        match self.coerce(false, 0x8000_0000_0000_0000, i64::MAX as u128) {
            Some((neg, m)) => Some(join_signed(neg, m) as i64),
            None => None,
        }
    }

    /// The boolean, when the value is one.
    pub fn to_bool(self) -> (r: Option<bool>)
        ensures
            r == match self {
                CandyShared::Bool(b) => Some(b),
                _ => None::<bool>,
            },
    {
        match self {
            CandyShared::Bool(b) => Some(b),
            _ => None,
        }
    }

    /// The identifier, when the value is one.
    pub fn to_principal(self) -> (r: Option<Principal>)
        ensures
            r == match self {
                CandyShared::Principal(p) => Some(p),
                _ => None::<Principal>,
            },
    {
        match self {
            CandyShared::Principal(p) => Some(p),
            _ => None,
        }
    }

    /// The elements, when the value is an array.
    pub fn to_value_array(self) -> (r: Option<Vec<CandyShared>>)
        ensures
            r == match self {
                CandyShared::Array(a) => Some(a),
                _ => None::<Vec<CandyShared>>,
            },
    {
        match self {
            CandyShared::Array(a) => Some(a),
            _ => None,
        }
    }
}


/// A fixed-width integer type that values can be coerced to.
#[derive(PartialEq, Eq, Structural, Clone, Copy, Debug)]
pub enum IntegerKind {
    U8,
    U16,
    U32,
    U64,
    U128,
    I8,
    I16,
    I32,
    I64,
    I128,
}

/// The smallest value of the integer type.
pub open spec fn kind_min(k: IntegerKind) -> int {
    match k {
        IntegerKind::I8 => i8::MIN as int,
        IntegerKind::I16 => i16::MIN as int,
        IntegerKind::I32 => i32::MIN as int,
        IntegerKind::I64 => i64::MIN as int,
        IntegerKind::I128 => i128::MIN as int,
        _ => 0,
    }
}

/// The largest value of the integer type.
pub open spec fn kind_max(k: IntegerKind) -> int {
    match k {
        IntegerKind::U8 => u8::MAX as int,
        IntegerKind::U16 => u16::MAX as int,
        IntegerKind::U32 => u32::MAX as int,
        IntegerKind::U64 => u64::MAX as int,
        IntegerKind::U128 => u128::MAX as int,
        IntegerKind::I8 => i8::MAX as int,
        IntegerKind::I16 => i16::MAX as int,
        IntegerKind::I32 => i32::MAX as int,
        IntegerKind::I64 => i64::MAX as int,
        IntegerKind::I128 => i128::MAX as int,
    }
}

/// Whether the integer type is unsigned.
pub open spec fn kind_unsigned(k: IntegerKind) -> bool {
    match k {
        IntegerKind::U8 | IntegerKind::U16 | IntegerKind::U32 | IntegerKind::U64
        | IntegerKind::U128 => true,
        _ => false,
    }
}

/// A native integer turned into a value comes back unchanged from the
/// coercion to its own type: each fixed-width integer, and an
/// arbitrary-precision integer through the 128-bit coercions whenever it fits.
pub proof fn lemma_scalar_round_trip(
    a: u8,
    b: u16,
    c: u32,
    d: u64,
    e: i8,
    f: i16,
    g: i32,
    h: i64,
    n: Nat,
    i: Int,
)
    ensures
        coerced(CandyShared::Nat8(a), 0, u8::MAX as int, true) == Some(a as int),
        coerced(CandyShared::Nat16(b), 0, u16::MAX as int, true) == Some(b as int),
        coerced(CandyShared::Nat32(c), 0, u32::MAX as int, true) == Some(c as int),
        coerced(CandyShared::Nat64(d), 0, u64::MAX as int, true) == Some(d as int),
        coerced(CandyShared::Int8(e), i8::MIN as int, i8::MAX as int, false) == Some(e as int),
        coerced(CandyShared::Int16(f), i16::MIN as int, i16::MAX as int, false) == Some(f as int),
        coerced(CandyShared::Int32(g), i32::MIN as int, i32::MAX as int, false) == Some(g as int),
        coerced(CandyShared::Int64(h), i64::MIN as int, i64::MAX as int, false) == Some(h as int),
        n@ <= u128::MAX ==> coerced(CandyShared::Nat(n), 0, u128::MAX as int, true) == Some(
            n@ as int,
        ),
        i128::MIN <= i@ <= i128::MAX ==> coerced(
            CandyShared::Int(i),
            i128::MIN as int,
            i128::MAX as int,
            false,
        ) == Some(i@),
{
}

/// A float below zero never coerces to an unsigned integer; any other finite
/// float coerces to its magnitude rounded half away from zero, when that fits.
pub proof fn lemma_float_to_nat(f: Float)
    ensures
        float_below_zero(f.bits) ==> coerced(CandyShared::Float(f), 0, u128::MAX as int, true) is None,
        !float_below_zero(f.bits) && !float_non_finite(f.bits) && float_rounded_magnitude(f.bits)
            <= u128::MAX ==> coerced(CandyShared::Float(f), 0, u128::MAX as int, true) == Some(
            float_rounded_magnitude(f.bits) as int,
        ),
{
}

/// Conversion of native values into [`CandyShared`].
pub trait ToCandyValue {
    fn to_candy(self) -> CandyShared;
}

impl From<i8> for CandyShared {
    fn from(value: i8) -> (r: CandyShared)
        ensures
            r == CandyShared::Int8(value),
    {
        CandyShared::Int8(value)
    }
}

impl vstd::std_specs::convert::FromSpecImpl<i8> for CandyShared {
    open spec fn obeys_from_spec() -> bool {
        true
    }

    open spec fn from_spec(value: i8) -> CandyShared {
        CandyShared::Int8(value)
    }
}

impl ToCandyValue for i8 {
    fn to_candy(self) -> (r: CandyShared)
        ensures
            r == CandyShared::Int8(self),
    {
        CandyShared::Int8(self)
    }
}

impl From<i16> for CandyShared {
    fn from(value: i16) -> (r: CandyShared)
        ensures
            r == CandyShared::Int16(value),
    {
        CandyShared::Int16(value)
    }
}

impl vstd::std_specs::convert::FromSpecImpl<i16> for CandyShared {
    open spec fn obeys_from_spec() -> bool {
        true
    }

    open spec fn from_spec(value: i16) -> CandyShared {
        CandyShared::Int16(value)
    }
}

impl ToCandyValue for i16 {
    fn to_candy(self) -> (r: CandyShared)
        ensures
            r == CandyShared::Int16(self),
    {
        CandyShared::Int16(self)
    }
}

impl From<i32> for CandyShared {
    fn from(value: i32) -> (r: CandyShared)
        ensures
            r == CandyShared::Int32(value),
    {
        CandyShared::Int32(value)
    }
}

impl vstd::std_specs::convert::FromSpecImpl<i32> for CandyShared {
    open spec fn obeys_from_spec() -> bool {
        true
    }

    open spec fn from_spec(value: i32) -> CandyShared {
        CandyShared::Int32(value)
    }
}

impl ToCandyValue for i32 {
    fn to_candy(self) -> (r: CandyShared)
        ensures
            r == CandyShared::Int32(self),
    {
        CandyShared::Int32(self)
    }
}

impl From<i64> for CandyShared {
    fn from(value: i64) -> (r: CandyShared)
        ensures
            r == CandyShared::Int64(value),
    {
        CandyShared::Int64(value)
    }
}

impl vstd::std_specs::convert::FromSpecImpl<i64> for CandyShared {
    open spec fn obeys_from_spec() -> bool {
        true
    }

    open spec fn from_spec(value: i64) -> CandyShared {
        CandyShared::Int64(value)
    }
}

impl ToCandyValue for i64 {
    fn to_candy(self) -> (r: CandyShared)
        ensures
            r == CandyShared::Int64(self),
    {
        CandyShared::Int64(self)
    }
}

impl From<u8> for CandyShared {
    fn from(value: u8) -> (r: CandyShared)
        ensures
            r == CandyShared::Nat8(value),
    {
        CandyShared::Nat8(value)
    }
}

impl vstd::std_specs::convert::FromSpecImpl<u8> for CandyShared {
    open spec fn obeys_from_spec() -> bool {
        true
    }

    open spec fn from_spec(value: u8) -> CandyShared {
        CandyShared::Nat8(value)
    }
}

impl ToCandyValue for u8 {
    fn to_candy(self) -> (r: CandyShared)
        ensures
            r == CandyShared::Nat8(self),
    {
        CandyShared::Nat8(self)
    }
}

impl From<u16> for CandyShared {
    fn from(value: u16) -> (r: CandyShared)
        ensures
            r == CandyShared::Nat16(value),
    {
        CandyShared::Nat16(value)
    }
}

impl vstd::std_specs::convert::FromSpecImpl<u16> for CandyShared {
    open spec fn obeys_from_spec() -> bool {
        true
    }

    open spec fn from_spec(value: u16) -> CandyShared {
        CandyShared::Nat16(value)
    }
}

impl ToCandyValue for u16 {
    fn to_candy(self) -> (r: CandyShared)
        ensures
            r == CandyShared::Nat16(self),
    {
        CandyShared::Nat16(self)
    }
}

impl From<u32> for CandyShared {
    fn from(value: u32) -> (r: CandyShared)
        ensures
            r == CandyShared::Nat32(value),
    {
        CandyShared::Nat32(value)
    }
}

impl vstd::std_specs::convert::FromSpecImpl<u32> for CandyShared {
    open spec fn obeys_from_spec() -> bool {
        true
    }

    open spec fn from_spec(value: u32) -> CandyShared {
        CandyShared::Nat32(value)
    }
}

impl ToCandyValue for u32 {
    fn to_candy(self) -> (r: CandyShared)
        ensures
            r == CandyShared::Nat32(self),
    {
        CandyShared::Nat32(self)
    }
}

impl From<u64> for CandyShared {
    fn from(value: u64) -> (r: CandyShared)
        ensures
            r == CandyShared::Nat64(value),
    {
        CandyShared::Nat64(value)
    }
}

impl vstd::std_specs::convert::FromSpecImpl<u64> for CandyShared {
    open spec fn obeys_from_spec() -> bool {
        true
    }

    open spec fn from_spec(value: u64) -> CandyShared {
        CandyShared::Nat64(value)
    }
}

impl ToCandyValue for u64 {
    fn to_candy(self) -> (r: CandyShared)
        ensures
            r == CandyShared::Nat64(self),
    {
        CandyShared::Nat64(self)
    }
}

impl From<bool> for CandyShared {
    fn from(value: bool) -> (r: CandyShared)
        ensures
            r == CandyShared::Bool(value),
    {
        CandyShared::Bool(value)
    }
}

impl vstd::std_specs::convert::FromSpecImpl<bool> for CandyShared {
    open spec fn obeys_from_spec() -> bool {
        true
    }

    open spec fn from_spec(value: bool) -> CandyShared {
        CandyShared::Bool(value)
    }
}

impl ToCandyValue for bool {
    fn to_candy(self) -> (r: CandyShared)
        ensures
            r == CandyShared::Bool(self),
    {
        CandyShared::Bool(self)
    }
}

impl From<String> for CandyShared {
    fn from(value: String) -> (r: CandyShared)
        ensures
            r == CandyShared::Text(value),
    {
        CandyShared::Text(value)
    }
}

impl vstd::std_specs::convert::FromSpecImpl<String> for CandyShared {
    open spec fn obeys_from_spec() -> bool {
        true
    }

    open spec fn from_spec(value: String) -> CandyShared {
        CandyShared::Text(value)
    }
}

impl ToCandyValue for String {
    fn to_candy(self) -> (r: CandyShared)
        ensures
            r == CandyShared::Text(self),
    {
        CandyShared::Text(self)
    }
}

impl From<Vec<u8>> for CandyShared {
    fn from(value: Vec<u8>) -> (r: CandyShared)
        ensures
            r == CandyShared::Blob(value),
    {
        CandyShared::Blob(value)
    }
}

impl vstd::std_specs::convert::FromSpecImpl<Vec<u8>> for CandyShared {
    open spec fn obeys_from_spec() -> bool {
        true
    }

    open spec fn from_spec(value: Vec<u8>) -> CandyShared {
        CandyShared::Blob(value)
    }
}

impl ToCandyValue for Vec<u8> {
    fn to_candy(self) -> (r: CandyShared)
        ensures
            r == CandyShared::Blob(self),
    {
        CandyShared::Blob(self)
    }
}

impl From<Vec<PropertyShared>> for CandyShared {
    fn from(value: Vec<PropertyShared>) -> (r: CandyShared)
        ensures
            r == CandyShared::Class(value),
    {
        CandyShared::Class(value)
    }
}

impl vstd::std_specs::convert::FromSpecImpl<Vec<PropertyShared>> for CandyShared {
    open spec fn obeys_from_spec() -> bool {
        true
    }

    open spec fn from_spec(value: Vec<PropertyShared>) -> CandyShared {
        CandyShared::Class(value)
    }
}

impl ToCandyValue for Vec<PropertyShared> {
    fn to_candy(self) -> (r: CandyShared)
        ensures
            r == CandyShared::Class(self),
    {
        CandyShared::Class(self)
    }
}

impl From<Principal> for CandyShared {
    fn from(value: Principal) -> (r: CandyShared)
        ensures
            r == CandyShared::Principal(value),
    {
        CandyShared::Principal(value)
    }
}

impl vstd::std_specs::convert::FromSpecImpl<Principal> for CandyShared {
    open spec fn obeys_from_spec() -> bool {
        true
    }

    open spec fn from_spec(value: Principal) -> CandyShared {
        CandyShared::Principal(value)
    }
}

impl ToCandyValue for Principal {
    fn to_candy(self) -> (r: CandyShared)
        ensures
            r == CandyShared::Principal(self),
    {
        CandyShared::Principal(self)
    }
}

impl From<Option<Box<CandyShared>>> for CandyShared {
    fn from(value: Option<Box<CandyShared>>) -> (r: CandyShared)
        ensures
            r == CandyShared::Option(value),
    {
        CandyShared::Option(value)
    }
}

impl vstd::std_specs::convert::FromSpecImpl<Option<Box<CandyShared>>> for CandyShared {
    open spec fn obeys_from_spec() -> bool {
        true
    }

    open spec fn from_spec(value: Option<Box<CandyShared>>) -> CandyShared {
        CandyShared::Option(value)
    }
}

impl ToCandyValue for Option<Box<CandyShared>> {
    fn to_candy(self) -> (r: CandyShared)
        ensures
            r == CandyShared::Option(self),
    {
        CandyShared::Option(self)
    }
}

impl From<Vec<CandyShared>> for CandyShared {
    fn from(value: Vec<CandyShared>) -> (r: CandyShared)
        ensures
            r == CandyShared::Array(value),
    {
        CandyShared::Array(value)
    }
}

impl vstd::std_specs::convert::FromSpecImpl<Vec<CandyShared>> for CandyShared {
    open spec fn obeys_from_spec() -> bool {
        true
    }

    open spec fn from_spec(value: Vec<CandyShared>) -> CandyShared {
        CandyShared::Array(value)
    }
}

impl ToCandyValue for Vec<CandyShared> {
    fn to_candy(self) -> (r: CandyShared)
        ensures
            r == CandyShared::Array(self),
    {
        CandyShared::Array(self)
    }
}

impl From<Float> for CandyShared {
    fn from(value: Float) -> (r: CandyShared)
        ensures
            r == CandyShared::Float(value),
    {
        CandyShared::Float(value)
    }
}

impl vstd::std_specs::convert::FromSpecImpl<Float> for CandyShared {
    open spec fn obeys_from_spec() -> bool {
        true
    }

    open spec fn from_spec(value: Float) -> CandyShared {
        CandyShared::Float(value)
    }
}

impl ToCandyValue for Float {
    fn to_candy(self) -> (r: CandyShared)
        ensures
            r == CandyShared::Float(self),
    {
        CandyShared::Float(self)
    }
}

impl From<Vec<Float>> for CandyShared {
    fn from(value: Vec<Float>) -> (r: CandyShared)
        ensures
            r == CandyShared::Floats(value),
    {
        CandyShared::Floats(value)
    }
}

impl vstd::std_specs::convert::FromSpecImpl<Vec<Float>> for CandyShared {
    open spec fn obeys_from_spec() -> bool {
        true
    }

    open spec fn from_spec(value: Vec<Float>) -> CandyShared {
        CandyShared::Floats(value)
    }
}

impl ToCandyValue for Vec<Float> {
    fn to_candy(self) -> (r: CandyShared)
        ensures
            r == CandyShared::Floats(self),
    {
        CandyShared::Floats(self)
    }
}

impl From<u128> for CandyShared {
    fn from(value: u128) -> (r: CandyShared)
        ensures
            r matches CandyShared::Nat(n) && n@ == value,
    {
        CandyShared::Nat(Nat::from_u128(value))
    }
}

impl vstd::std_specs::convert::FromSpecImpl<u128> for CandyShared {
    open spec fn obeys_from_spec() -> bool {
        false
    }

    open spec fn from_spec(value: u128) -> CandyShared {
        vstd::pervasive::arbitrary()
    }
}

impl ToCandyValue for u128 {
    fn to_candy(self) -> (r: CandyShared)
        ensures
            r matches CandyShared::Nat(n) && n@ == self,
    {
        CandyShared::from(self)
    }
}

impl From<i128> for CandyShared {
    fn from(value: i128) -> (r: CandyShared)
        ensures
            r matches CandyShared::Int(n) && n@ == value,
    {
        CandyShared::Int(Int::from_i128(value))
    }
}

impl vstd::std_specs::convert::FromSpecImpl<i128> for CandyShared {
    open spec fn obeys_from_spec() -> bool {
        false
    }

    open spec fn from_spec(value: i128) -> CandyShared {
        vstd::pervasive::arbitrary()
    }
}

impl ToCandyValue for i128 {
    fn to_candy(self) -> (r: CandyShared)
        ensures
            r matches CandyShared::Int(n) && n@ == self,
    {
        CandyShared::from(self)
    }
}

impl<'a> From<&'a str> for CandyShared {
    fn from(value: &'a str) -> (r: CandyShared)
        ensures
            r matches CandyShared::Text(t) && t@ == value@,
    {
        CandyShared::Text(String::from_str(value))
    }
}

impl<'a> vstd::std_specs::convert::FromSpecImpl<&'a str> for CandyShared {
    open spec fn obeys_from_spec() -> bool {
        false
    }

    open spec fn from_spec(value: &'a str) -> CandyShared {
        vstd::pervasive::arbitrary()
    }
}

impl<'a> ToCandyValue for &'a str {
    fn to_candy(self) -> (r: CandyShared)
        ensures
            r matches CandyShared::Text(t) && t@ == self@,
    {
        CandyShared::from(self)
    }
}

impl From<Vec<u128>> for CandyShared {
    fn from(value: Vec<u128>) -> (r: CandyShared)
        ensures
            r matches CandyShared::Nats(ns) && ns@.len() == value@.len() && forall|i: int| 0 <= i < value@.len() ==> #[trigger] ns@[i]@ == value@[i],
    {
        CandyShared::Nats(nats_of(value))
    }
}

impl vstd::std_specs::convert::FromSpecImpl<Vec<u128>> for CandyShared {
    open spec fn obeys_from_spec() -> bool {
        false
    }

    open spec fn from_spec(value: Vec<u128>) -> CandyShared {
        vstd::pervasive::arbitrary()
    }
}

impl ToCandyValue for Vec<u128> {
    fn to_candy(self) -> (r: CandyShared)
        ensures
            r matches CandyShared::Nats(ns) && ns@.len() == self@.len() && forall|i: int| 0 <= i < self@.len() ==> #[trigger] ns@[i]@ == self@[i],
    {
        CandyShared::from(self)
    }
}

impl From<Vec<i128>> for CandyShared {
    fn from(value: Vec<i128>) -> (r: CandyShared)
        ensures
            r matches CandyShared::Ints(ns) && ns@.len() == value@.len() && forall|i: int| 0 <= i < value@.len() ==> #[trigger] ns@[i]@ == value@[i],
    {
        CandyShared::Ints(ints_of(value))
    }
}

impl vstd::std_specs::convert::FromSpecImpl<Vec<i128>> for CandyShared {
    open spec fn obeys_from_spec() -> bool {
        false
    }

    open spec fn from_spec(value: Vec<i128>) -> CandyShared {
        vstd::pervasive::arbitrary()
    }
}

impl ToCandyValue for Vec<i128> {
    fn to_candy(self) -> (r: CandyShared)
        ensures
            r matches CandyShared::Ints(ns) && ns@.len() == self@.len() && forall|i: int| 0 <= i < self@.len() ==> #[trigger] ns@[i]@ == self@[i],
    {
        CandyShared::from(self)
    }
}

fn nats_of(values: Vec<u128>) -> (r: Vec<Nat>)
    ensures
        r@.len() == values@.len(),
        forall|i: int| 0 <= i < values@.len() ==> #[trigger] r@[i]@ == values@[i],
{
    let mut r: Vec<Nat> = Vec::new();
    let mut i: usize = 0;
    while i < values.len()
        invariant
            0 <= i <= values@.len(),
            r@.len() == i,
            forall|j: int| 0 <= j < i ==> #[trigger] r@[j]@ == values@[j],
        decreases values@.len() - i,
    {
        r.push(Nat::from_u128(values[i]));
        i = i + 1;
    }
    r
}

fn ints_of(values: Vec<i128>) -> (r: Vec<Int>)
    ensures
        r@.len() == values@.len(),
        forall|i: int| 0 <= i < values@.len() ==> #[trigger] r@[i]@ == values@[i],
{
    let mut r: Vec<Int> = Vec::new();
    let mut i: usize = 0;
    while i < values.len()
        invariant
            0 <= i <= values@.len(),
            r@.len() == i,
            forall|j: int| 0 <= j < i ==> #[trigger] r@[j]@ == values@[j],
        decreases values@.len() - i,
    {
        r.push(Int::from_i128(values[i]));
        i = i + 1;
    }
    r
}

} // verus!
