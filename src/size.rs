//! The size estimator: how many bytes a value would take once encoded.

use vstd::prelude::*;
use vstd::string::StrSliceExecFns;
use crate::number::{bytes_be, Nat};
use crate::types::{Float, PropertyShared};
use crate::value::CandyShared;

verus! {

/// `n`, capped at the largest `u128`.
pub open spec fn sat(n: nat) -> nat {
    if n > u128::MAX {
        u128::MAX as nat
    } else {
        n
    }
}

/// Estimated encoded size of a value, in bytes:
/// 1, 2, 3, 4 for 8-, 16-, 32-, 64-bit integers; the base-256 digit count for
/// an unsigned big integer, one more (the sign) for a signed one; 8 for a float;
/// 4 per character of text; 1 for a bool; the raw length of a blob or
/// identifier; the length plus 2 for bytes; 4 per element plus 2 for numeric
/// vectors; for records, 1 + 4 per name character + the value's size per field;
/// for arrays, 1 + the element's size per element; the contents' size for an
/// option (0 when empty); the sum of key and value sizes for a map and of
/// element sizes for a set.
pub open spec fn value_size(v: CandyShared) -> nat
    decreases v,
{
    match v {
        CandyShared::Int(n) => 1 + bytes_be(if n@ < 0 {
            (-n@) as nat
        } else {
            n@ as nat
        }).len(),
        CandyShared::Int8(_) => 1,
        CandyShared::Int16(_) => 2,
        CandyShared::Int32(_) => 3,
        CandyShared::Int64(_) => 4,
        CandyShared::Ints(ns) => ns@.len() * 4 + 2,
        CandyShared::Nat(n) => bytes_be(n@).len(),
        CandyShared::Nat8(_) => 1,
        CandyShared::Nat16(_) => 2,
        CandyShared::Nat32(_) => 3,
        CandyShared::Nat64(_) => 4,
        CandyShared::Float(_) => 8,
        CandyShared::Text(t) => t@.len() * 4,
        CandyShared::Bool(_) => 1,
        CandyShared::Blob(b) => b@.len(),
        CandyShared::Bytes(b) => b@.len() + 2,
        CandyShared::Class(ps) => fields_size(ps@),
        CandyShared::Principal(p) => p@.len(),
        CandyShared::Option(o) => match o {
            Some(b) => value_size(*b),
            None => 0,
        },
        CandyShared::Array(a) => elements_size(a@, 1),
        CandyShared::Nats(ns) => ns@.len() * 4 + 2,
        CandyShared::Floats(fs) => fs@.len() * 4 + 2,
        CandyShared::ValueMap(es) => entries_size(es@),
        CandyShared::ValueSet(a) => elements_size(a@, 0),
    }
}

/// Sum over the elements of `extra` plus the element's size.
pub open spec fn elements_size(s: Seq<CandyShared>, extra: nat) -> nat
    decreases s,
{
    if s.len() == 0 {
        0
    } else {
        elements_size(s.subrange(0, s.len() - 1), extra) + extra + value_size(s[s.len() - 1])
    }
}

/// Sum over the fields of 1, 4 per name character, and the value's size.
pub open spec fn fields_size(s: Seq<PropertyShared>) -> nat
    decreases s,
{
    if s.len() == 0 {
        0
    } else {
        fields_size(s.subrange(0, s.len() - 1)) + 1 + s[s.len() - 1].name@.len() * 4 + value_size(
            s[s.len() - 1].value,
        )
    }
}

/// Sum over the entries of the key's and the value's sizes.
pub open spec fn entries_size(s: Seq<(CandyShared, CandyShared)>) -> nat
    decreases s,
{
    if s.len() == 0 {
        0
    } else {
        entries_size(s.subrange(0, s.len() - 1)) + value_size(s[s.len() - 1].0) + value_size(
            s[s.len() - 1].1,
        )
    }
}

fn sat_add(a: u128, b: u128) -> (r: u128)
    ensures
        r == sat(a as nat + b as nat),
{
    if a > u128::MAX - b {
        u128::MAX
    } else {
        a + b
    }
}

fn vector_size(len: usize) -> (r: u128)
    ensures
        r == len * 4 + 2,
{
    len as u128 * 4 + 2
}

fn elements_size_of(a: &Vec<CandyShared>, extra: u128) -> (r: u128)
    ensures
        r == sat(elements_size(a@, extra as nat)),
    decreases a,
{
    let mut acc: u128 = 0;
    let mut i: usize = 0;
    while i < a.len()
        invariant
            0 <= i <= a@.len(),
            acc == sat(elements_size(a@.subrange(0, i as int), extra as nat)),
        decreases a@.len() - i,
    {
        proof {
            assert(a@.subrange(0, i + 1).subrange(0, i as int) =~= a@.subrange(0, i as int));
        }
        let s = a[i].get_value_size();
        acc = sat_add(acc, sat_add(extra, s));
        i = i + 1;
    }
    assert(a@.subrange(0, i as int) =~= a@);
    acc
}

fn fields_size_of(ps: &Vec<PropertyShared>) -> (r: u128)
    ensures
        r == sat(fields_size(ps@)),
    decreases ps,
{
    let mut acc: u128 = 0;
    let mut i: usize = 0;
    while i < ps.len()
        invariant
            0 <= i <= ps@.len(),
            acc == sat(fields_size(ps@.subrange(0, i as int))),
        decreases ps@.len() - i,
    {
        proof {
            assert(ps@.subrange(0, i + 1).subrange(0, i as int) =~= ps@.subrange(0, i as int));
        }
        let p = &ps[i];
        let name_len = p.name.as_str().unicode_len();
        let s = p.value.get_value_size();
        acc = sat_add(acc, sat_add(1 + name_len as u128 * 4, s));
        i = i + 1;
    }
    assert(ps@.subrange(0, i as int) =~= ps@);
    acc
}

fn entries_size_of(es: &Vec<(CandyShared, CandyShared)>) -> (r: u128)
    ensures
        r == sat(entries_size(es@)),
    decreases es,
{
    let mut acc: u128 = 0;
    let mut i: usize = 0;
    while i < es.len()
        invariant
            0 <= i <= es@.len(),
            acc == sat(entries_size(es@.subrange(0, i as int))),
        decreases es@.len() - i,
    {
        proof {
            assert(es@.subrange(0, i + 1).subrange(0, i as int) =~= es@.subrange(0, i as int));
        }
        let k = es[i].0.get_value_size();
        let v = es[i].1.get_value_size();
        acc = sat_add(acc, sat_add(k, v));
        i = i + 1;
    }
    assert(es@.subrange(0, i as int) =~= es@);
    acc
}

impl CandyShared {
    /// The estimated encoded size of the value (see [`value_size`]), capped at
    /// the largest `u128`.
    pub fn get_value_size(&self) -> (r: u128)
        ensures
            r == sat(value_size(*self)),
        decreases self,
    {
        match self {
            CandyShared::Int(n) => 1 + n.magnitude().digit_count() as u128,
            CandyShared::Int8(_) => 1,
            CandyShared::Int16(_) => 2,
            CandyShared::Int32(_) => 3,
            CandyShared::Int64(_) => 4,
            CandyShared::Ints(ns) => vector_size(ns.len()),
            CandyShared::Nat(n) => n.digit_count() as u128,
            CandyShared::Nat8(_) => 1,
            CandyShared::Nat16(_) => 2,
            CandyShared::Nat32(_) => 3,
            CandyShared::Nat64(_) => 4,
            CandyShared::Float(_) => 8,
            CandyShared::Text(t) => t.as_str().unicode_len() as u128 * 4,
            CandyShared::Bool(_) => 1,
            CandyShared::Blob(b) => b.len() as u128,
            CandyShared::Bytes(b) => b.len() as u128 + 2,
            CandyShared::Class(ps) => fields_size_of(ps),
            CandyShared::Principal(p) => p.as_bytes().len() as u128,
            CandyShared::Option(o) => match o {
                Some(b) => b.get_value_size(),
                None => 0,
            },
            CandyShared::Array(a) => elements_size_of(a, 1),
            CandyShared::Nats(ns) => vector_size(ns.len()),
            CandyShared::Floats(fs) => vector_size(fs.len()),
            CandyShared::ValueMap(es) => entries_size_of(es),
            CandyShared::ValueSet(a) => elements_size_of(a, 0),
        }
    }
}

} // verus!
