//! Conversions into and out of the persisted and working forms of values.

use vstd::prelude::*;
use vstd::string::StringExecFns;
use crate::blob::{be_width, blob_of, text_blob};
use crate::number::{bytes_be, digits_128, Int, Nat};
use crate::render::abs;
use crate::stable::{self, CandyValue, Property};
use crate::types::{
    float_below_zero, float_rounded, CandyError, CandyKind, Float, Principal,
};
use crate::unstable::{self, CandyValueUnstable, PropertyUnstable};
use crate::value::{coerced, numeric_value, CandyShared};

verus! {

/// The numeric value of a persisted number; a float is first rounded to the
/// nearest integer (halves away from zero). `None` for any other variant and
/// for infinite or NaN floats.
pub open spec fn persisted_numeric(v: CandyValue) -> Option<int> {
    match v {
        CandyValue::Int(x) => Some(x as int),
        CandyValue::Int8(x) => Some(x as int),
        CandyValue::Int16(x) => Some(x as int),
        CandyValue::Int32(x) => Some(x as int),
        CandyValue::Int64(x) => Some(x as int),
        CandyValue::Nat(x) => Some(x as int),
        CandyValue::Nat8(x) => Some(x as int),
        CandyValue::Nat16(x) => Some(x as int),
        CandyValue::Nat32(x) => Some(x as int),
        CandyValue::Nat64(x) => Some(x as int),
        CandyValue::Float(f) => float_rounded(f.bits),
        _ => None,
    }
}

/// The result of coercing a persisted value into `lo..=hi`, by the same rule
/// as [`coerced`].
pub open spec fn persisted_coerced(v: CandyValue, lo: int, hi: int, unsigned: bool) -> Option<int> {
    if unsigned && (v matches CandyValue::Float(f) && float_below_zero(f.bits)) {
        None
    } else {
        match persisted_numeric(v) {
            Some(n) => if lo <= n <= hi {
                Some(n)
            } else {
                None
            },
            None => None,
        }
    }
}

/// The canonical byte form of a persisted value, by the same rules as
/// [`blob_of`]; `None` for variants that have none.
pub open spec fn persisted_blob(v: CandyValue) -> Option<Seq<u8>> {
    match v {
        CandyValue::Blob(b) => Some(b@),
        CandyValue::Bytes(stable::Bytes::Frozen(b)) => Some(b@),
        CandyValue::Bytes(stable::Bytes::Thawed(b)) => Some(b@),
        CandyValue::Text(t) => Some(text_blob(t@)),
        CandyValue::Int(x) => Some(seq![if x < 0 { 1u8 } else { 0u8 }] + digits_128(abs(x as int))),
        CandyValue::Nat(x) => Some(bytes_be(x as nat)),
        CandyValue::Nat8(x) => Some(be_width(x as nat, 1)),
        CandyValue::Nat16(x) => Some(be_width(x as nat, 2)),
        CandyValue::Nat32(x) => Some(be_width(x as nat, 4)),
        CandyValue::Nat64(x) => Some(be_width(x as nat, 8)),
        CandyValue::Int8(x) => Some(be_width(x as u8 as nat, 1)),
        CandyValue::Int16(x) => Some(be_width(x as u16 as nat, 2)),
        CandyValue::Int32(x) => Some(be_width(x as u32 as nat, 4)),
        CandyValue::Int64(x) => Some(be_width(x as u64 as nat, 8)),
        CandyValue::Principal(p) => Some(p@),
        _ => None,
    }
}

/// The variant of a persisted value.
pub open spec fn persisted_kind(v: CandyValue) -> CandyKind {
    match v {
        CandyValue::Int(_) => CandyKind::Int,
        CandyValue::Int8(_) => CandyKind::Int8,
        CandyValue::Int16(_) => CandyKind::Int16,
        CandyValue::Int32(_) => CandyKind::Int32,
        CandyValue::Int64(_) => CandyKind::Int64,
        CandyValue::Nat(_) => CandyKind::Nat,
        CandyValue::Nat8(_) => CandyKind::Nat8,
        CandyValue::Nat16(_) => CandyKind::Nat16,
        CandyValue::Nat32(_) => CandyKind::Nat32,
        CandyValue::Nat64(_) => CandyKind::Nat64,
        CandyValue::Float(_) => CandyKind::Float,
        CandyValue::Text(_) => CandyKind::Text,
        CandyValue::Bool(_) => CandyKind::Bool,
        CandyValue::Blob(_) => CandyKind::Blob,
        CandyValue::Class(_) => CandyKind::Class,
        CandyValue::Principal(_) => CandyKind::Principal,
        CandyValue::Option(_) => CandyKind::Option,
        CandyValue::Array(_) => CandyKind::Array,
        CandyValue::Nats(_) => CandyKind::Nats,
        CandyValue::Floats(_) => CandyKind::Floats,
        CandyValue::Bytes(_) => CandyKind::Bytes,
        CandyValue::Empty => CandyKind::Empty,
    }
}

/// Whether the shared value `c` is the scalar that the persisted value `v` holds.
pub open spec fn same_scalar(v: CandyValue, c: CandyShared) -> bool {
    match v {
        CandyValue::Int(x) => c matches CandyShared::Int(n) && n@ == x,
        CandyValue::Int8(x) => c == CandyShared::Int8(x),
        CandyValue::Int16(x) => c == CandyShared::Int16(x),
        CandyValue::Int32(x) => c == CandyShared::Int32(x),
        CandyValue::Int64(x) => c == CandyShared::Int64(x),
        CandyValue::Nat(x) => c matches CandyShared::Nat(n) && n@ == x,
        CandyValue::Nat8(x) => c == CandyShared::Nat8(x),
        CandyValue::Nat16(x) => c == CandyShared::Nat16(x),
        CandyValue::Nat32(x) => c == CandyShared::Nat32(x),
        CandyValue::Nat64(x) => c == CandyShared::Nat64(x),
        CandyValue::Float(f) => c == CandyShared::Float(f),
        CandyValue::Text(t) => c == CandyShared::Text(t),
        CandyValue::Bool(b) => c == CandyShared::Bool(b),
        CandyValue::Blob(b) => c == CandyShared::Blob(b),
        CandyValue::Principal(p) => c == CandyShared::Principal(p),
        CandyValue::Bytes(stable::Bytes::Frozen(b)) => c == CandyShared::Bytes(b),
        CandyValue::Bytes(stable::Bytes::Thawed(b)) => c == CandyShared::Bytes(b),
        _ => false,
    }
}

/// The scalar of a persisted value as a shared value; `None` for records,
/// options, arrays, numeric vectors and the empty value.
fn shared_scalar(v: CandyValue) -> (r: Option<CandyShared>)
    ensures
        r matches Some(c) ==> same_scalar(v, c),
        r is None ==> match v {
            CandyValue::Class(_) | CandyValue::Option(_) | CandyValue::Array(_) | CandyValue::Nats(_)
            | CandyValue::Floats(_) | CandyValue::Empty => true,
            _ => false,
        },
{
    match v {
        CandyValue::Int(x) => Some(CandyShared::Int(Int::from_i128(x))),
        CandyValue::Int8(x) => Some(CandyShared::Int8(x)),
        CandyValue::Int16(x) => Some(CandyShared::Int16(x)),
        CandyValue::Int32(x) => Some(CandyShared::Int32(x)),
        CandyValue::Int64(x) => Some(CandyShared::Int64(x)),
        CandyValue::Nat(x) => Some(CandyShared::Nat(Nat::from_u128(x))),
        CandyValue::Nat8(x) => Some(CandyShared::Nat8(x)),
        CandyValue::Nat16(x) => Some(CandyShared::Nat16(x)),
        CandyValue::Nat32(x) => Some(CandyShared::Nat32(x)),
        CandyValue::Nat64(x) => Some(CandyShared::Nat64(x)),
        CandyValue::Float(f) => Some(CandyShared::Float(f)),
        CandyValue::Text(t) => Some(CandyShared::Text(t)),
        CandyValue::Bool(b) => Some(CandyShared::Bool(b)),
        CandyValue::Blob(b) => Some(CandyShared::Blob(b)),
        CandyValue::Principal(p) => Some(CandyShared::Principal(p)),
        CandyValue::Bytes(b) => match b {
            stable::Bytes::Frozen(b) => Some(CandyShared::Bytes(b)),
            stable::Bytes::Thawed(b) => Some(CandyShared::Bytes(b)),
        },
        _ => None,
    }
}

proof fn lemma_same_scalar_coerces_alike(v: CandyValue, c: CandyShared, lo: int, hi: int, unsigned: bool)
    requires
        same_scalar(v, c),
    ensures
        coerced(c, lo, hi, unsigned) == persisted_coerced(v, lo, hi, unsigned),
        blob_of(c) == persisted_blob(v),
{
    reveal(blob_of);
}

/// Reading scalars out of a persisted value.
pub trait UnboxCandyValue: Sized {
    fn to_nat(self) -> Option<u128>;

    fn to_nat8(self) -> Option<u8>;

    fn to_nat16(self) -> Option<u16>;

    fn to_nat32(self) -> Option<u32>;

    fn to_nat64(self) -> Option<u64>;

    fn to_int(self) -> Option<i128>;

    fn to_int8(self) -> Option<i8>;

    fn to_int16(self) -> Option<i16>;

    fn to_int32(self) -> Option<i32>;

    fn to_int64(self) -> Option<i64>;

    fn to_bool(self) -> Option<bool>;

    fn to_principal(self) -> Option<Principal>;

    fn to_blob(self) -> Result<Vec<u8>, CandyError>;
}

impl UnboxCandyValue for CandyValue {
    fn to_nat(self) -> (r: Option<u128>)
        ensures
            persisted_coerced(self, 0, u128::MAX as int, true) == match r {
                Some(x) => Some(x as int),
                None => None::<int>,
            },
    {
        let ghost v = self;
        match shared_scalar(self) {
            Some(c) => {
                proof {
                    lemma_same_scalar_coerces_alike(v, c, 0, u128::MAX as int, true);
                }
                c.to_nat()
            },
            None => None,
        }
    }

    fn to_nat8(self) -> (r: Option<u8>)
        ensures
            persisted_coerced(self, 0, u8::MAX as int, true) == match r {
                Some(x) => Some(x as int),
                None => None::<int>,
            },
    {
        let ghost v = self;
        match shared_scalar(self) {
            Some(c) => {
                proof {
                    lemma_same_scalar_coerces_alike(v, c, 0, u8::MAX as int, true);
                }
                c.to_nat8()
            },
            None => None,
        }
    }

    fn to_nat16(self) -> (r: Option<u16>)
        ensures
            persisted_coerced(self, 0, u16::MAX as int, true) == match r {
                Some(x) => Some(x as int),
                None => None::<int>,
            },
    {
        let ghost v = self;
        match shared_scalar(self) {
            Some(c) => {
                proof {
                    lemma_same_scalar_coerces_alike(v, c, 0, u16::MAX as int, true);
                }
                c.to_nat16()
            },
            None => None,
        }
    }

    fn to_nat32(self) -> (r: Option<u32>)
        ensures
            persisted_coerced(self, 0, u32::MAX as int, true) == match r {
                Some(x) => Some(x as int),
                None => None::<int>,
            },
    {
        let ghost v = self;
        match shared_scalar(self) {
            Some(c) => {
                proof {
                    lemma_same_scalar_coerces_alike(v, c, 0, u32::MAX as int, true);
                }
                c.to_nat32()
            },
            None => None,
        }
    }

    fn to_nat64(self) -> (r: Option<u64>)
        ensures
            persisted_coerced(self, 0, u64::MAX as int, true) == match r {
                Some(x) => Some(x as int),
                None => None::<int>,
            },
    {
        let ghost v = self;
        match shared_scalar(self) {
            Some(c) => {
                proof {
                    lemma_same_scalar_coerces_alike(v, c, 0, u64::MAX as int, true);
                }
                c.to_nat64()
            },
            None => None,
        }
    }

    fn to_int(self) -> (r: Option<i128>)
        ensures
            persisted_coerced(self, i128::MIN as int, i128::MAX as int, false) == match r {
                Some(x) => Some(x as int),
                None => None::<int>,
            },
    {
        let ghost v = self;
        match shared_scalar(self) {
            Some(c) => {
                proof {
                    lemma_same_scalar_coerces_alike(v, c, i128::MIN as int, i128::MAX as int, false);
                }
                c.to_int()
            },
            None => None,
        }
    }

    fn to_int8(self) -> (r: Option<i8>)
        ensures
            persisted_coerced(self, i8::MIN as int, i8::MAX as int, false) == match r {
                Some(x) => Some(x as int),
                None => None::<int>,
            },
    {
        let ghost v = self;
        match shared_scalar(self) {
            Some(c) => {
                proof {
                    lemma_same_scalar_coerces_alike(v, c, i8::MIN as int, i8::MAX as int, false);
                }
                c.to_int8()
            },
            None => None,
        }
    }

    fn to_int16(self) -> (r: Option<i16>)
        ensures
            persisted_coerced(self, i16::MIN as int, i16::MAX as int, false) == match r {
                Some(x) => Some(x as int),
                None => None::<int>,
            },
    {
        let ghost v = self;
        match shared_scalar(self) {
            Some(c) => {
                proof {
                    lemma_same_scalar_coerces_alike(v, c, i16::MIN as int, i16::MAX as int, false);
                }
                c.to_int16()
            },
            None => None,
        }
    }

    fn to_int32(self) -> (r: Option<i32>)
        ensures
            persisted_coerced(self, i32::MIN as int, i32::MAX as int, false) == match r {
                Some(x) => Some(x as int),
                None => None::<int>,
            },
    {
        let ghost v = self;
        match shared_scalar(self) {
            Some(c) => {
                proof {
                    lemma_same_scalar_coerces_alike(v, c, i32::MIN as int, i32::MAX as int, false);
                }
                c.to_int32()
            },
            None => None,
        }
    }

    fn to_int64(self) -> (r: Option<i64>)
        ensures
            persisted_coerced(self, i64::MIN as int, i64::MAX as int, false) == match r {
                Some(x) => Some(x as int),
                None => None::<int>,
            },
    {
        let ghost v = self;
        match shared_scalar(self) {
            Some(c) => {
                proof {
                    lemma_same_scalar_coerces_alike(v, c, i64::MIN as int, i64::MAX as int, false);
                }
                c.to_int64()
            },
            None => None,
        }
    }

    fn to_bool(self) -> (r: Option<bool>)
        ensures
            r == match self {
                CandyValue::Bool(b) => Some(b),
                _ => None::<bool>,
            },
    {
        match self {
            CandyValue::Bool(b) => Some(b),
            _ => None,
        }
    }

    fn to_principal(self) -> (r: Option<Principal>)
        ensures
            r == match self {
                CandyValue::Principal(p) => Some(p),
                _ => None::<Principal>,
            },
    {
        match self {
            CandyValue::Principal(p) => Some(p),
            _ => None,
        }
    }

    /// The canonical byte form (see [`persisted_blob`]); fails with
    /// `Unsupported` naming the variant for variants that have none.
    fn to_blob(self) -> (r: Result<Vec<u8>, CandyError>)
        ensures
            match persisted_blob(self) {
                Some(b) => r matches Ok(x) && x@ == b,
                None => r == Err::<Vec<u8>, CandyError>(CandyError::Unsupported(persisted_kind(self))),
            },
    {
        let ghost v = self;
        let kind = match &self {
            CandyValue::Float(_) => CandyKind::Float,
            CandyValue::Bool(_) => CandyKind::Bool,
            CandyValue::Class(_) => CandyKind::Class,
            CandyValue::Option(_) => CandyKind::Option,
            CandyValue::Array(_) => CandyKind::Array,
            CandyValue::Nats(_) => CandyKind::Nats,
            CandyValue::Floats(_) => CandyKind::Floats,
            _ => CandyKind::Empty,
        };
        match shared_scalar(self) {
            Some(c) => {
                proof {
                    lemma_same_scalar_coerces_alike(v, c, 0, 0, true);
                    reveal(blob_of);
                }
                c.to_blob()
            },
            None => Err(CandyError::Unsupported(kind)),
        }
    }
}

impl From<i8> for CandyValue {
    fn from(value: i8) -> (r: CandyValue)
        ensures
            r == CandyValue::Int8(value),
    {
        CandyValue::Int8(value)
    }
}

impl vstd::std_specs::convert::FromSpecImpl<i8> for CandyValue {
    open spec fn obeys_from_spec() -> bool {
        true
    }

    open spec fn from_spec(value: i8) -> CandyValue {
        CandyValue::Int8(value)
    }
}

impl From<i16> for CandyValue {
    fn from(value: i16) -> (r: CandyValue)
        ensures
            r == CandyValue::Int16(value),
    {
        CandyValue::Int16(value)
    }
}

impl vstd::std_specs::convert::FromSpecImpl<i16> for CandyValue {
    open spec fn obeys_from_spec() -> bool {
        true
    }

    open spec fn from_spec(value: i16) -> CandyValue {
        CandyValue::Int16(value)
    }
}

impl From<i32> for CandyValue {
    fn from(value: i32) -> (r: CandyValue)
        ensures
            r == CandyValue::Int32(value),
    {
        CandyValue::Int32(value)
    }
}

impl vstd::std_specs::convert::FromSpecImpl<i32> for CandyValue {
    open spec fn obeys_from_spec() -> bool {
        true
    }

    open spec fn from_spec(value: i32) -> CandyValue {
        CandyValue::Int32(value)
    }
}

impl From<i64> for CandyValue {
    fn from(value: i64) -> (r: CandyValue)
        ensures
            r == CandyValue::Int64(value),
    {
        CandyValue::Int64(value)
    }
}

impl vstd::std_specs::convert::FromSpecImpl<i64> for CandyValue {
    open spec fn obeys_from_spec() -> bool {
        true
    }

    open spec fn from_spec(value: i64) -> CandyValue {
        CandyValue::Int64(value)
    }
}

impl From<u8> for CandyValue {
    fn from(value: u8) -> (r: CandyValue)
        ensures
            r == CandyValue::Nat8(value),
    {
        CandyValue::Nat8(value)
    }
}

impl vstd::std_specs::convert::FromSpecImpl<u8> for CandyValue {
    open spec fn obeys_from_spec() -> bool {
        true
    }

    open spec fn from_spec(value: u8) -> CandyValue {
        CandyValue::Nat8(value)
    }
}

impl From<u16> for CandyValue {
    fn from(value: u16) -> (r: CandyValue)
        ensures
            r == CandyValue::Nat16(value),
    {
        CandyValue::Nat16(value)
    }
}

impl vstd::std_specs::convert::FromSpecImpl<u16> for CandyValue {
    open spec fn obeys_from_spec() -> bool {
        true
    }

    open spec fn from_spec(value: u16) -> CandyValue {
        CandyValue::Nat16(value)
    }
}

impl From<u32> for CandyValue {
    fn from(value: u32) -> (r: CandyValue)
        ensures
            r == CandyValue::Nat32(value),
    {
        CandyValue::Nat32(value)
    }
}

impl vstd::std_specs::convert::FromSpecImpl<u32> for CandyValue {
    open spec fn obeys_from_spec() -> bool {
        true
    }

    open spec fn from_spec(value: u32) -> CandyValue {
        CandyValue::Nat32(value)
    }
}

impl From<u64> for CandyValue {
    fn from(value: u64) -> (r: CandyValue)
        ensures
            r == CandyValue::Nat64(value),
    {
        CandyValue::Nat64(value)
    }
}

impl vstd::std_specs::convert::FromSpecImpl<u64> for CandyValue {
    open spec fn obeys_from_spec() -> bool {
        true
    }

    open spec fn from_spec(value: u64) -> CandyValue {
        CandyValue::Nat64(value)
    }
}

impl From<i128> for CandyValue {
    fn from(value: i128) -> (r: CandyValue)
        ensures
            r == CandyValue::Int(value),
    {
        CandyValue::Int(value)
    }
}

impl vstd::std_specs::convert::FromSpecImpl<i128> for CandyValue {
    open spec fn obeys_from_spec() -> bool {
        true
    }

    open spec fn from_spec(value: i128) -> CandyValue {
        CandyValue::Int(value)
    }
}

impl From<u128> for CandyValue {
    fn from(value: u128) -> (r: CandyValue)
        ensures
            r == CandyValue::Nat(value),
    {
        CandyValue::Nat(value)
    }
}

impl vstd::std_specs::convert::FromSpecImpl<u128> for CandyValue {
    open spec fn obeys_from_spec() -> bool {
        true
    }

    open spec fn from_spec(value: u128) -> CandyValue {
        CandyValue::Nat(value)
    }
}

impl From<bool> for CandyValue {
    fn from(value: bool) -> (r: CandyValue)
        ensures
            r == CandyValue::Bool(value),
    {
        CandyValue::Bool(value)
    }
}

impl vstd::std_specs::convert::FromSpecImpl<bool> for CandyValue {
    open spec fn obeys_from_spec() -> bool {
        true
    }

    open spec fn from_spec(value: bool) -> CandyValue {
        CandyValue::Bool(value)
    }
}

impl From<Float> for CandyValue {
    fn from(value: Float) -> (r: CandyValue)
        ensures
            r == CandyValue::Float(value),
    {
        CandyValue::Float(value)
    }
}

impl vstd::std_specs::convert::FromSpecImpl<Float> for CandyValue {
    open spec fn obeys_from_spec() -> bool {
        true
    }

    open spec fn from_spec(value: Float) -> CandyValue {
        CandyValue::Float(value)
    }
}

impl From<String> for CandyValue {
    fn from(value: String) -> (r: CandyValue)
        ensures
            r == CandyValue::Text(value),
    {
        CandyValue::Text(value)
    }
}

impl vstd::std_specs::convert::FromSpecImpl<String> for CandyValue {
    open spec fn obeys_from_spec() -> bool {
        true
    }

    open spec fn from_spec(value: String) -> CandyValue {
        CandyValue::Text(value)
    }
}

impl From<Vec<u8>> for CandyValue {
    fn from(value: Vec<u8>) -> (r: CandyValue)
        ensures
            r == CandyValue::Blob(value),
    {
        CandyValue::Blob(value)
    }
}

impl vstd::std_specs::convert::FromSpecImpl<Vec<u8>> for CandyValue {
    open spec fn obeys_from_spec() -> bool {
        true
    }

    open spec fn from_spec(value: Vec<u8>) -> CandyValue {
        CandyValue::Blob(value)
    }
}

impl From<Vec<Property>> for CandyValue {
    fn from(value: Vec<Property>) -> (r: CandyValue)
        ensures
            r == CandyValue::Class(value),
    {
        CandyValue::Class(value)
    }
}

impl vstd::std_specs::convert::FromSpecImpl<Vec<Property>> for CandyValue {
    open spec fn obeys_from_spec() -> bool {
        true
    }

    open spec fn from_spec(value: Vec<Property>) -> CandyValue {
        CandyValue::Class(value)
    }
}

impl From<Principal> for CandyValue {
    fn from(value: Principal) -> (r: CandyValue)
        ensures
            r == CandyValue::Principal(value),
    {
        CandyValue::Principal(value)
    }
}

impl vstd::std_specs::convert::FromSpecImpl<Principal> for CandyValue {
    open spec fn obeys_from_spec() -> bool {
        true
    }

    open spec fn from_spec(value: Principal) -> CandyValue {
        CandyValue::Principal(value)
    }
}

impl From<Option<Box<CandyValue>>> for CandyValue {
    fn from(value: Option<Box<CandyValue>>) -> (r: CandyValue)
        ensures
            r == CandyValue::Option(value),
    {
        CandyValue::Option(value)
    }
}

impl vstd::std_specs::convert::FromSpecImpl<Option<Box<CandyValue>>> for CandyValue {
    open spec fn obeys_from_spec() -> bool {
        true
    }

    open spec fn from_spec(value: Option<Box<CandyValue>>) -> CandyValue {
        CandyValue::Option(value)
    }
}

impl From<stable::Array> for CandyValue {
    fn from(value: stable::Array) -> (r: CandyValue)
        ensures
            r == CandyValue::Array(value),
    {
        CandyValue::Array(value)
    }
}

impl vstd::std_specs::convert::FromSpecImpl<stable::Array> for CandyValue {
    open spec fn obeys_from_spec() -> bool {
        true
    }

    open spec fn from_spec(value: stable::Array) -> CandyValue {
        CandyValue::Array(value)
    }
}

impl From<stable::Nats> for CandyValue {
    fn from(value: stable::Nats) -> (r: CandyValue)
        ensures
            r == CandyValue::Nats(value),
    {
        CandyValue::Nats(value)
    }
}

impl vstd::std_specs::convert::FromSpecImpl<stable::Nats> for CandyValue {
    open spec fn obeys_from_spec() -> bool {
        true
    }

    open spec fn from_spec(value: stable::Nats) -> CandyValue {
        CandyValue::Nats(value)
    }
}

impl From<stable::Floats> for CandyValue {
    fn from(value: stable::Floats) -> (r: CandyValue)
        ensures
            r == CandyValue::Floats(value),
    {
        CandyValue::Floats(value)
    }
}

impl vstd::std_specs::convert::FromSpecImpl<stable::Floats> for CandyValue {
    open spec fn obeys_from_spec() -> bool {
        true
    }

    open spec fn from_spec(value: stable::Floats) -> CandyValue {
        CandyValue::Floats(value)
    }
}

impl From<stable::Bytes> for CandyValue {
    fn from(value: stable::Bytes) -> (r: CandyValue)
        ensures
            r == CandyValue::Bytes(value),
    {
        CandyValue::Bytes(value)
    }
}

impl vstd::std_specs::convert::FromSpecImpl<stable::Bytes> for CandyValue {
    open spec fn obeys_from_spec() -> bool {
        true
    }

    open spec fn from_spec(value: stable::Bytes) -> CandyValue {
        CandyValue::Bytes(value)
    }
}

impl<'a> From<&'a str> for CandyValue {
    fn from(value: &'a str) -> (r: CandyValue)
        ensures
            r matches CandyValue::Text(t) && t@ == value@,
    {
        CandyValue::Text(String::from_str(value))
    }
}

impl<'a> vstd::std_specs::convert::FromSpecImpl<&'a str> for CandyValue {
    open spec fn obeys_from_spec() -> bool {
        false
    }

    open spec fn from_spec(value: &'a str) -> CandyValue {
        vstd::pervasive::arbitrary()
    }
}

impl From<i8> for CandyValueUnstable {
    fn from(value: i8) -> (r: CandyValueUnstable)
        ensures
            r == CandyValueUnstable::Int8(value),
    {
        CandyValueUnstable::Int8(value)
    }
}

impl vstd::std_specs::convert::FromSpecImpl<i8> for CandyValueUnstable {
    open spec fn obeys_from_spec() -> bool {
        true
    }

    open spec fn from_spec(value: i8) -> CandyValueUnstable {
        CandyValueUnstable::Int8(value)
    }
}

impl From<i16> for CandyValueUnstable {
    fn from(value: i16) -> (r: CandyValueUnstable)
        ensures
            r == CandyValueUnstable::Int16(value),
    {
        CandyValueUnstable::Int16(value)
    }
}

impl vstd::std_specs::convert::FromSpecImpl<i16> for CandyValueUnstable {
    open spec fn obeys_from_spec() -> bool {
        true
    }

    open spec fn from_spec(value: i16) -> CandyValueUnstable {
        CandyValueUnstable::Int16(value)
    }
}

impl From<i32> for CandyValueUnstable {
    fn from(value: i32) -> (r: CandyValueUnstable)
        ensures
            r == CandyValueUnstable::Int32(value),
    {
        CandyValueUnstable::Int32(value)
    }
}

impl vstd::std_specs::convert::FromSpecImpl<i32> for CandyValueUnstable {
    open spec fn obeys_from_spec() -> bool {
        true
    }

    open spec fn from_spec(value: i32) -> CandyValueUnstable {
        CandyValueUnstable::Int32(value)
    }
}

impl From<i64> for CandyValueUnstable {
    fn from(value: i64) -> (r: CandyValueUnstable)
        ensures
            r == CandyValueUnstable::Int64(value),
    {
        CandyValueUnstable::Int64(value)
    }
}

impl vstd::std_specs::convert::FromSpecImpl<i64> for CandyValueUnstable {
    open spec fn obeys_from_spec() -> bool {
        true
    }

    open spec fn from_spec(value: i64) -> CandyValueUnstable {
        CandyValueUnstable::Int64(value)
    }
}

impl From<u8> for CandyValueUnstable {
    fn from(value: u8) -> (r: CandyValueUnstable)
        ensures
            r == CandyValueUnstable::Nat8(value),
    {
        CandyValueUnstable::Nat8(value)
    }
}

impl vstd::std_specs::convert::FromSpecImpl<u8> for CandyValueUnstable {
    open spec fn obeys_from_spec() -> bool {
        true
    }

    open spec fn from_spec(value: u8) -> CandyValueUnstable {
        CandyValueUnstable::Nat8(value)
    }
}

impl From<u16> for CandyValueUnstable {
    fn from(value: u16) -> (r: CandyValueUnstable)
        ensures
            r == CandyValueUnstable::Nat16(value),
    {
        CandyValueUnstable::Nat16(value)
    }
}

impl vstd::std_specs::convert::FromSpecImpl<u16> for CandyValueUnstable {
    open spec fn obeys_from_spec() -> bool {
        true
    }

    open spec fn from_spec(value: u16) -> CandyValueUnstable {
        CandyValueUnstable::Nat16(value)
    }
}

impl From<u32> for CandyValueUnstable {
    fn from(value: u32) -> (r: CandyValueUnstable)
        ensures
            r == CandyValueUnstable::Nat32(value),
    {
        CandyValueUnstable::Nat32(value)
    }
}

impl vstd::std_specs::convert::FromSpecImpl<u32> for CandyValueUnstable {
    open spec fn obeys_from_spec() -> bool {
        true
    }

    open spec fn from_spec(value: u32) -> CandyValueUnstable {
        CandyValueUnstable::Nat32(value)
    }
}

impl From<u64> for CandyValueUnstable {
    fn from(value: u64) -> (r: CandyValueUnstable)
        ensures
            r == CandyValueUnstable::Nat64(value),
    {
        CandyValueUnstable::Nat64(value)
    }
}

impl vstd::std_specs::convert::FromSpecImpl<u64> for CandyValueUnstable {
    open spec fn obeys_from_spec() -> bool {
        true
    }

    open spec fn from_spec(value: u64) -> CandyValueUnstable {
        CandyValueUnstable::Nat64(value)
    }
}

impl From<i128> for CandyValueUnstable {
    fn from(value: i128) -> (r: CandyValueUnstable)
        ensures
            r == CandyValueUnstable::Int(value),
    {
        CandyValueUnstable::Int(value)
    }
}

impl vstd::std_specs::convert::FromSpecImpl<i128> for CandyValueUnstable {
    open spec fn obeys_from_spec() -> bool {
        true
    }

    open spec fn from_spec(value: i128) -> CandyValueUnstable {
        CandyValueUnstable::Int(value)
    }
}

impl From<u128> for CandyValueUnstable {
    fn from(value: u128) -> (r: CandyValueUnstable)
        ensures
            r == CandyValueUnstable::Nat(value),
    {
        CandyValueUnstable::Nat(value)
    }
}

impl vstd::std_specs::convert::FromSpecImpl<u128> for CandyValueUnstable {
    open spec fn obeys_from_spec() -> bool {
        true
    }

    open spec fn from_spec(value: u128) -> CandyValueUnstable {
        CandyValueUnstable::Nat(value)
    }
}

impl From<bool> for CandyValueUnstable {
    fn from(value: bool) -> (r: CandyValueUnstable)
        ensures
            r == CandyValueUnstable::Bool(value),
    {
        CandyValueUnstable::Bool(value)
    }
}

impl vstd::std_specs::convert::FromSpecImpl<bool> for CandyValueUnstable {
    open spec fn obeys_from_spec() -> bool {
        true
    }

    open spec fn from_spec(value: bool) -> CandyValueUnstable {
        CandyValueUnstable::Bool(value)
    }
}

impl From<Float> for CandyValueUnstable {
    fn from(value: Float) -> (r: CandyValueUnstable)
        ensures
            r == CandyValueUnstable::Float(value),
    {
        CandyValueUnstable::Float(value)
    }
}

impl vstd::std_specs::convert::FromSpecImpl<Float> for CandyValueUnstable {
    open spec fn obeys_from_spec() -> bool {
        true
    }

    open spec fn from_spec(value: Float) -> CandyValueUnstable {
        CandyValueUnstable::Float(value)
    }
}

impl From<String> for CandyValueUnstable {
    fn from(value: String) -> (r: CandyValueUnstable)
        ensures
            r == CandyValueUnstable::Text(value),
    {
        CandyValueUnstable::Text(value)
    }
}

impl vstd::std_specs::convert::FromSpecImpl<String> for CandyValueUnstable {
    open spec fn obeys_from_spec() -> bool {
        true
    }

    open spec fn from_spec(value: String) -> CandyValueUnstable {
        CandyValueUnstable::Text(value)
    }
}

impl From<Vec<u8>> for CandyValueUnstable {
    fn from(value: Vec<u8>) -> (r: CandyValueUnstable)
        ensures
            r == CandyValueUnstable::Blob(value),
    {
        CandyValueUnstable::Blob(value)
    }
}

impl vstd::std_specs::convert::FromSpecImpl<Vec<u8>> for CandyValueUnstable {
    open spec fn obeys_from_spec() -> bool {
        true
    }

    open spec fn from_spec(value: Vec<u8>) -> CandyValueUnstable {
        CandyValueUnstable::Blob(value)
    }
}

impl From<Vec<PropertyUnstable>> for CandyValueUnstable {
    fn from(value: Vec<PropertyUnstable>) -> (r: CandyValueUnstable)
        ensures
            r == CandyValueUnstable::Class(value),
    {
        CandyValueUnstable::Class(value)
    }
}

impl vstd::std_specs::convert::FromSpecImpl<Vec<PropertyUnstable>> for CandyValueUnstable {
    open spec fn obeys_from_spec() -> bool {
        true
    }

    open spec fn from_spec(value: Vec<PropertyUnstable>) -> CandyValueUnstable {
        CandyValueUnstable::Class(value)
    }
}

impl From<Principal> for CandyValueUnstable {
    fn from(value: Principal) -> (r: CandyValueUnstable)
        ensures
            r == CandyValueUnstable::Principal(value),
    {
        CandyValueUnstable::Principal(value)
    }
}

impl vstd::std_specs::convert::FromSpecImpl<Principal> for CandyValueUnstable {
    open spec fn obeys_from_spec() -> bool {
        true
    }

    open spec fn from_spec(value: Principal) -> CandyValueUnstable {
        CandyValueUnstable::Principal(value)
    }
}

impl From<Option<Box<CandyValueUnstable>>> for CandyValueUnstable {
    fn from(value: Option<Box<CandyValueUnstable>>) -> (r: CandyValueUnstable)
        ensures
            r == CandyValueUnstable::Option(value),
    {
        CandyValueUnstable::Option(value)
    }
}

impl vstd::std_specs::convert::FromSpecImpl<Option<Box<CandyValueUnstable>>> for CandyValueUnstable {
    open spec fn obeys_from_spec() -> bool {
        true
    }

    open spec fn from_spec(value: Option<Box<CandyValueUnstable>>) -> CandyValueUnstable {
        CandyValueUnstable::Option(value)
    }
}

impl From<unstable::Array> for CandyValueUnstable {
    fn from(value: unstable::Array) -> (r: CandyValueUnstable)
        ensures
            r == CandyValueUnstable::Array(value),
    {
        CandyValueUnstable::Array(value)
    }
}

impl vstd::std_specs::convert::FromSpecImpl<unstable::Array> for CandyValueUnstable {
    open spec fn obeys_from_spec() -> bool {
        true
    }

    open spec fn from_spec(value: unstable::Array) -> CandyValueUnstable {
        CandyValueUnstable::Array(value)
    }
}

impl From<unstable::Nats> for CandyValueUnstable {
    fn from(value: unstable::Nats) -> (r: CandyValueUnstable)
        ensures
            r == CandyValueUnstable::Nats(value),
    {
        CandyValueUnstable::Nats(value)
    }
}

impl vstd::std_specs::convert::FromSpecImpl<unstable::Nats> for CandyValueUnstable {
    open spec fn obeys_from_spec() -> bool {
        true
    }

    open spec fn from_spec(value: unstable::Nats) -> CandyValueUnstable {
        CandyValueUnstable::Nats(value)
    }
}

impl From<unstable::Floats> for CandyValueUnstable {
    fn from(value: unstable::Floats) -> (r: CandyValueUnstable)
        ensures
            r == CandyValueUnstable::Floats(value),
    {
        CandyValueUnstable::Floats(value)
    }
}

impl vstd::std_specs::convert::FromSpecImpl<unstable::Floats> for CandyValueUnstable {
    open spec fn obeys_from_spec() -> bool {
        true
    }

    open spec fn from_spec(value: unstable::Floats) -> CandyValueUnstable {
        CandyValueUnstable::Floats(value)
    }
}

impl From<unstable::Bytes> for CandyValueUnstable {
    fn from(value: unstable::Bytes) -> (r: CandyValueUnstable)
        ensures
            r == CandyValueUnstable::Bytes(value),
    {
        CandyValueUnstable::Bytes(value)
    }
}

impl vstd::std_specs::convert::FromSpecImpl<unstable::Bytes> for CandyValueUnstable {
    open spec fn obeys_from_spec() -> bool {
        true
    }

    open spec fn from_spec(value: unstable::Bytes) -> CandyValueUnstable {
        CandyValueUnstable::Bytes(value)
    }
}

impl<'a> From<&'a str> for CandyValueUnstable {
    fn from(value: &'a str) -> (r: CandyValueUnstable)
        ensures
            r matches CandyValueUnstable::Text(t) && t@ == value@,
    {
        CandyValueUnstable::Text(String::from_str(value))
    }
}

impl<'a> vstd::std_specs::convert::FromSpecImpl<&'a str> for CandyValueUnstable {
    open spec fn obeys_from_spec() -> bool {
        false
    }

    open spec fn from_spec(value: &'a str) -> CandyValueUnstable {
        vstd::pervasive::arbitrary()
    }
}

} // verus!
