//! The canonical byte form of a value.

use vstd::prelude::*;
use vstd::string::StrSliceExecFns;
use crate::number::{bytes_be, digits_128, Int, Nat};
use crate::types::{CandyError, CandyKind};
use crate::value::CandyShared;

verus! {

/// The low `width` base-256 digits of `n`, most significant first.
pub open spec fn be_width(n: nat, width: nat) -> Seq<u8>
    decreases width,
{
    if width == 0 {
        Seq::empty()
    } else {
        be_width(n / 256, (width - 1) as nat).push((n % 256) as u8)
    }
}

/// Each character as its code point in four big-endian bytes.
pub open spec fn text_blob(s: Seq<char>) -> Seq<u8>
    decreases s.len(),
{
    if s.len() == 0 {
        Seq::empty()
    } else {
        text_blob(s.drop_last()) + be_width(s.last() as u32 as nat, 4)
    }
}

/// The variant of a value.
pub open spec fn kind_of(v: CandyShared) -> CandyKind {
    match v {
        CandyShared::Int(_) => CandyKind::Int,
        CandyShared::Int8(_) => CandyKind::Int8,
        CandyShared::Int16(_) => CandyKind::Int16,
        CandyShared::Int32(_) => CandyKind::Int32,
        CandyShared::Int64(_) => CandyKind::Int64,
        CandyShared::Ints(_) => CandyKind::Ints,
        CandyShared::Nat(_) => CandyKind::Nat,
        CandyShared::Nat8(_) => CandyKind::Nat8,
        CandyShared::Nat16(_) => CandyKind::Nat16,
        CandyShared::Nat32(_) => CandyKind::Nat32,
        CandyShared::Nat64(_) => CandyKind::Nat64,
        CandyShared::Float(_) => CandyKind::Float,
        CandyShared::Text(_) => CandyKind::Text,
        CandyShared::Bool(_) => CandyKind::Bool,
        CandyShared::Blob(_) => CandyKind::Blob,
        CandyShared::Bytes(_) => CandyKind::Bytes,
        CandyShared::Class(_) => CandyKind::Class,
        CandyShared::Principal(_) => CandyKind::Principal,
        CandyShared::Option(_) => CandyKind::Option,
        CandyShared::Array(_) => CandyKind::Array,
        CandyShared::Nats(_) => CandyKind::Nats,
        CandyShared::Floats(_) => CandyKind::Floats,
        CandyShared::ValueMap(_) => CandyKind::ValueMap,
        CandyShared::ValueSet(_) => CandyKind::ValueSet,
    }
}

/// The canonical byte form: fixed-width integers as big-endian bytes of their
/// width (two's complement when signed); an unsigned big integer as its minimal
/// base-256 digits; a signed big integer as a sign byte (1 when negative) and
/// the minimal base-128 digits of its magnitude; text as 4-byte code points;
/// blobs, bytes and identifiers as their raw bytes. `None` for other variants.
#[verifier::opaque]
pub open spec fn blob_of(v: CandyShared) -> Option<Seq<u8>> {
    match v {
        CandyShared::Blob(b) => Some(b@),
        CandyShared::Bytes(b) => Some(b@),
        CandyShared::Text(t) => Some(text_blob(t@)),
        CandyShared::Int(n) => Some(
            seq![
                if n@ < 0 {
                    1u8
                } else {
                    0u8
                },
            ] + digits_128(
                if n@ < 0 {
                    (-n@) as nat
                } else {
                    n@ as nat
                },
            ),
        ),
        CandyShared::Nat(n) => Some(bytes_be(n@)),
        CandyShared::Nat8(x) => Some(be_width(x as nat, 1)),
        CandyShared::Nat16(x) => Some(be_width(x as nat, 2)),
        CandyShared::Nat32(x) => Some(be_width(x as nat, 4)),
        CandyShared::Nat64(x) => Some(be_width(x as nat, 8)),
        CandyShared::Int8(x) => Some(be_width(x as u8 as nat, 1)),
        CandyShared::Int16(x) => Some(be_width(x as u16 as nat, 2)),
        CandyShared::Int32(x) => Some(be_width(x as u32 as nat, 4)),
        CandyShared::Int64(x) => Some(be_width(x as u64 as nat, 8)),
        CandyShared::Principal(p) => Some(p@),
        _ => None,
    }
}

fn be_bytes(x: u64, width: usize) -> (r: Vec<u8>)
    requires
        width <= 8,
    ensures
        r@ == be_width(x as nat, width as nat),
    decreases width,
{
    if width == 0 {
        Vec::new()
    } else {
        let mut r = be_bytes(x / 256, width - 1);
        r.push((x % 256) as u8);
        r
    }
}

fn text_bytes(t: &String) -> (r: Vec<u8>)
    ensures
        r@ == text_blob(t@),
{
    let s = t.as_str();
    let mut r: Vec<u8> = Vec::new();
    proof {
        vstd::string::axiom_spec_iter(s);
    }
    for c in it: s.chars()
        invariant
            s@ == t@,
            it.seq() == t@,
            r@ == text_blob(t@.take(it.index() as int)),
    {
        proof {
            let k = it.index() as int;
            assert(t@.take(k + 1).drop_last() =~= t@.take(k));
        }
        let mut b = be_bytes(c as u32 as u64, 4);
        r.append(&mut b);
    }
    assert(t@.take(t@.len() as int) =~= t@);
    r
}

impl CandyShared {
    /// The variant of the value.
    pub fn kind(&self) -> (r: CandyKind)
        ensures
            r == kind_of(*self),
    {
        match self {
            CandyShared::Int(_) => CandyKind::Int,
            CandyShared::Int8(_) => CandyKind::Int8,
            CandyShared::Int16(_) => CandyKind::Int16,
            CandyShared::Int32(_) => CandyKind::Int32,
            CandyShared::Int64(_) => CandyKind::Int64,
            CandyShared::Ints(_) => CandyKind::Ints,
            CandyShared::Nat(_) => CandyKind::Nat,
            CandyShared::Nat8(_) => CandyKind::Nat8,
            CandyShared::Nat16(_) => CandyKind::Nat16,
            CandyShared::Nat32(_) => CandyKind::Nat32,
            CandyShared::Nat64(_) => CandyKind::Nat64,
            CandyShared::Float(_) => CandyKind::Float,
            CandyShared::Text(_) => CandyKind::Text,
            CandyShared::Bool(_) => CandyKind::Bool,
            CandyShared::Blob(_) => CandyKind::Blob,
            CandyShared::Bytes(_) => CandyKind::Bytes,
            CandyShared::Class(_) => CandyKind::Class,
            CandyShared::Principal(_) => CandyKind::Principal,
            CandyShared::Option(_) => CandyKind::Option,
            CandyShared::Array(_) => CandyKind::Array,
            CandyShared::Nats(_) => CandyKind::Nats,
            CandyShared::Floats(_) => CandyKind::Floats,
            CandyShared::ValueMap(_) => CandyKind::ValueMap,
            CandyShared::ValueSet(_) => CandyKind::ValueSet,
        }
    }

    /// The canonical byte form (see [`blob_of`]); fails with `Unsupported`
    /// naming the variant for variants that have none.
    pub fn to_blob(self) -> (r: Result<Vec<u8>, CandyError>)
        ensures
            match blob_of(self) {
                Some(b) => r matches Ok(x) && x@ == b,
                None => r == Err::<Vec<u8>, CandyError>(CandyError::Unsupported(kind_of(self))),
            },
    {
        proof {
            reveal(blob_of);
        }
        match self {
            CandyShared::Blob(b) => Ok(b),
            CandyShared::Bytes(b) => Ok(b),
            CandyShared::Text(t) => Ok(text_bytes(&t)),
            CandyShared::Int(n) => {
                let neg = n.is_negative();
                let mut r: Vec<u8> = Vec::new();
                r.push(if neg { 1u8 } else { 0u8 });
                let mut digits = n.magnitude().to_digits_128();
                r.append(&mut digits);
                Ok(r)
            },
            CandyShared::Nat(n) => Ok(n.to_bytes_be()),
            CandyShared::Nat8(x) => Ok(be_bytes(x as u64, 1)),
            CandyShared::Nat16(x) => Ok(be_bytes(x as u64, 2)),
            CandyShared::Nat32(x) => Ok(be_bytes(x as u64, 4)),
            CandyShared::Nat64(x) => Ok(be_bytes(x, 8)),
            CandyShared::Int8(x) => Ok(be_bytes(x as u8 as u64, 1)),
            CandyShared::Int16(x) => Ok(be_bytes(x as u16 as u64, 2)),
            CandyShared::Int32(x) => Ok(be_bytes(x as u32 as u64, 4)),
            CandyShared::Int64(x) => Ok(be_bytes(x as u64, 8)),
            CandyShared::Principal(p) => Ok(p.as_bytes().clone()),
            _ => Err(CandyError::Unsupported(self.kind())),
        }
    }
}


/// Types with a canonical byte form.
pub trait ToBlob {
    fn to_blob(self) -> Vec<u8>;
}

impl ToBlob for Nat {
    /// The minimal big-endian base-256 digits; zero is `[0]`.
    fn to_blob(self) -> (r: Vec<u8>)
        ensures
            r@ == bytes_be(self@),
    {
        self.to_bytes_be()
    }
}

impl ToBlob for Int {
    /// A sign byte (1 when negative), then the minimal base-128 digits of the magnitude.
    fn to_blob(self) -> (r: Vec<u8>)
        ensures
            r@ == seq![
                if self@ < 0 {
                    1u8
                } else {
                    0u8
                },
            ] + digits_128(
                if self@ < 0 {
                    (-self@) as nat
                } else {
                    self@ as nat
                },
            ),
    {
        let mut r: Vec<u8> = Vec::new();
        r.push(if self.is_negative() { 1u8 } else { 0u8 });
        let mut digits = self.magnitude().to_digits_128();
        r.append(&mut digits);
        r
    }
}

impl ToBlob for char {
    /// The code point in four big-endian bytes.
    fn to_blob(self) -> (r: Vec<u8>)
        ensures
            r@ == be_width(self as u32 as nat, 4),
    {
        be_bytes(self as u32 as u64, 4)
    }
}

} // verus!
