//! Deep copies of values.

use vstd::prelude::*;
use crate::number::{Int, Nat};
use crate::types::{Float, PropertyShared};
use crate::value::CandyShared;

verus! {

/// Whether `b` holds exactly what `a` holds: same variants all the way down,
/// same numbers, same characters and bytes, same float bits and renderings.
pub open spec fn identical(a: CandyShared, b: CandyShared) -> bool
    decreases a,
{
    match a {
        CandyShared::Int(x) => b matches CandyShared::Int(y) && x@ == y@,
        CandyShared::Int8(x) => b == CandyShared::Int8(x),
        CandyShared::Int16(x) => b == CandyShared::Int16(x),
        CandyShared::Int32(x) => b == CandyShared::Int32(x),
        CandyShared::Int64(x) => b == CandyShared::Int64(x),
        CandyShared::Ints(xs) => b matches CandyShared::Ints(ys) && xs@.len() == ys@.len() && (
        forall|i: int| 0 <= i < xs@.len() ==> #[trigger] xs@[i]@ == ys@[i]@),
        CandyShared::Nat(x) => b matches CandyShared::Nat(y) && x@ == y@,
        CandyShared::Nat8(x) => b == CandyShared::Nat8(x),
        CandyShared::Nat16(x) => b == CandyShared::Nat16(x),
        CandyShared::Nat32(x) => b == CandyShared::Nat32(x),
        CandyShared::Nat64(x) => b == CandyShared::Nat64(x),
        CandyShared::Float(f) => b matches CandyShared::Float(g) && f.bits == g.bits && f.text@
            == g.text@,
        CandyShared::Text(t) => b matches CandyShared::Text(u) && t@ == u@,
        CandyShared::Bool(x) => b == CandyShared::Bool(x),
        CandyShared::Blob(x) => b matches CandyShared::Blob(y) && x@ == y@,
        CandyShared::Bytes(x) => b matches CandyShared::Bytes(y) && x@ == y@,
        CandyShared::Class(ps) => b matches CandyShared::Class(qs) && ps@.len() == qs@.len() && (
        forall|i: int|
            #![trigger ps@[i]]
            0 <= i < ps@.len() ==> ps@[i].name@ == qs@[i].name@ && ps@[i].immutable
                == qs@[i].immutable && identical(ps@[i].value, qs@[i].value)),
        CandyShared::Principal(p) => b matches CandyShared::Principal(q) && p@ == q@,
        CandyShared::Option(o) => b matches CandyShared::Option(o2) && match o {
            Some(x) => o2 matches Some(y) && identical(*x, *y),
            None => o2 is None,
        },
        CandyShared::Array(xs) => b matches CandyShared::Array(ys) && xs@.len() == ys@.len() && (
        forall|i: int| 0 <= i < xs@.len() ==> identical(#[trigger] xs@[i], ys@[i])),
        CandyShared::Nats(xs) => b matches CandyShared::Nats(ys) && xs@.len() == ys@.len() && (
        forall|i: int| 0 <= i < xs@.len() ==> #[trigger] xs@[i]@ == ys@[i]@),
        CandyShared::Floats(xs) => b matches CandyShared::Floats(ys) && xs@.len() == ys@.len() && (
        forall|i: int|
            0 <= i < xs@.len() ==> #[trigger] xs@[i].bits == ys@[i].bits && xs@[i].text@
                == ys@[i].text@),
        CandyShared::ValueMap(es) => b matches CandyShared::ValueMap(fs) && es@.len() == fs@.len()
            && (forall|i: int|
            0 <= i < es@.len() ==> identical(#[trigger] es@[i].0, fs@[i].0) && identical(
                es@[i].1,
                fs@[i].1,
            )),
        CandyShared::ValueSet(xs) => b matches CandyShared::ValueSet(ys) && xs@.len() == ys@.len()
            && (forall|i: int| 0 <= i < xs@.len() ==> identical(#[trigger] xs@[i], ys@[i])),
    }
}

fn copy_values(xs: &Vec<CandyShared>) -> (r: Vec<CandyShared>)
    ensures
        r@.len() == xs@.len(),
        forall|i: int| 0 <= i < xs@.len() ==> identical(#[trigger] xs@[i], r@[i]),
    decreases xs,
{
    let mut r: Vec<CandyShared> = Vec::new();
    let mut i: usize = 0;
    while i < xs.len()
        invariant
            0 <= i <= xs@.len(),
            r@.len() == i,
            forall|j: int| 0 <= j < i ==> identical(#[trigger] xs@[j], r@[j]),
        decreases xs@.len() - i,
    {
        r.push(copy_value(&xs[i]));
        i = i + 1;
    }
    r
}

fn copy_fields(ps: &Vec<PropertyShared>) -> (r: Vec<PropertyShared>)
    ensures
        r@.len() == ps@.len(),
        forall|i: int|
            #![trigger ps@[i]]
            0 <= i < ps@.len() ==> ps@[i].name@ == r@[i].name@ && ps@[i].immutable
                == r@[i].immutable && identical(ps@[i].value, r@[i].value),
    decreases ps,
{
    let mut r: Vec<PropertyShared> = Vec::new();
    let mut i: usize = 0;
    while i < ps.len()
        invariant
            0 <= i <= ps@.len(),
            r@.len() == i,
            forall|j: int|
                #![trigger ps@[j]]
                0 <= j < i ==> ps@[j].name@ == r@[j].name@ && ps@[j].immutable
                    == r@[j].immutable && identical(ps@[j].value, r@[j].value),
        decreases ps@.len() - i,
    {
        let p = &ps[i];
        r.push(PropertyShared { name: p.name.clone(), value: copy_value(&p.value), immutable: p.immutable });
        i = i + 1;
    }
    r
}

fn copy_entries(es: &Vec<(CandyShared, CandyShared)>) -> (r: Vec<(CandyShared, CandyShared)>)
    ensures
        r@.len() == es@.len(),
        forall|i: int|
            0 <= i < es@.len() ==> identical(#[trigger] es@[i].0, r@[i].0) && identical(
                es@[i].1,
                r@[i].1,
            ),
    decreases es,
{
    let mut r: Vec<(CandyShared, CandyShared)> = Vec::new();
    let mut i: usize = 0;
    while i < es.len()
        invariant
            0 <= i <= es@.len(),
            r@.len() == i,
            forall|j: int|
                0 <= j < i ==> identical(#[trigger] es@[j].0, r@[j].0) && identical(
                    es@[j].1,
                    r@[j].1,
                ),
        decreases es@.len() - i,
    {
        let k = copy_value(&es[i].0);
        let v = copy_value(&es[i].1);
        r.push((k, v));
        i = i + 1;
    }
    r
}

fn copy_nats(xs: &Vec<Nat>) -> (r: Vec<Nat>)
    ensures
        r@.len() == xs@.len(),
        forall|i: int| 0 <= i < xs@.len() ==> #[trigger] xs@[i]@ == r@[i]@,
{
    let mut r: Vec<Nat> = Vec::new();
    let mut i: usize = 0;
    while i < xs.len()
        invariant
            0 <= i <= xs@.len(),
            r@.len() == i,
            forall|j: int| 0 <= j < i ==> #[trigger] xs@[j]@ == r@[j]@,
        decreases xs@.len() - i,
    {
        r.push(xs[i].duplicate());
        i = i + 1;
    }
    r
}

fn copy_ints(xs: &Vec<Int>) -> (r: Vec<Int>)
    ensures
        r@.len() == xs@.len(),
        forall|i: int| 0 <= i < xs@.len() ==> #[trigger] xs@[i]@ == r@[i]@,
{
    let mut r: Vec<Int> = Vec::new();
    let mut i: usize = 0;
    while i < xs.len()
        invariant
            0 <= i <= xs@.len(),
            r@.len() == i,
            forall|j: int| 0 <= j < i ==> #[trigger] xs@[j]@ == r@[j]@,
        decreases xs@.len() - i,
    {
        r.push(xs[i].duplicate());
        i = i + 1;
    }
    r
}

fn copy_floats(xs: &Vec<Float>) -> (r: Vec<Float>)
    ensures
        r@.len() == xs@.len(),
        forall|i: int|
            0 <= i < xs@.len() ==> #[trigger] xs@[i].bits == r@[i].bits && xs@[i].text@
                == r@[i].text@,
{
    let mut r: Vec<Float> = Vec::new();
    let mut i: usize = 0;
    while i < xs.len()
        invariant
            0 <= i <= xs@.len(),
            r@.len() == i,
            forall|j: int|
                0 <= j < i ==> #[trigger] xs@[j].bits == r@[j].bits && xs@[j].text@
                    == r@[j].text@,
        decreases xs@.len() - i,
    {
        r.push(xs[i].duplicate());
        i = i + 1;
    }
    r
}

/// A deep copy of `v`.
pub fn copy_value(v: &CandyShared) -> (r: CandyShared)
    ensures
        identical(*v, r),
    decreases v,
{
    match v {
        CandyShared::Int(x) => CandyShared::Int(x.duplicate()),
        CandyShared::Int8(x) => CandyShared::Int8(*x),
        CandyShared::Int16(x) => CandyShared::Int16(*x),
        CandyShared::Int32(x) => CandyShared::Int32(*x),
        CandyShared::Int64(x) => CandyShared::Int64(*x),
        CandyShared::Ints(xs) => CandyShared::Ints(copy_ints(xs)),
        CandyShared::Nat(x) => CandyShared::Nat(x.duplicate()),
        CandyShared::Nat8(x) => CandyShared::Nat8(*x),
        CandyShared::Nat16(x) => CandyShared::Nat16(*x),
        CandyShared::Nat32(x) => CandyShared::Nat32(*x),
        CandyShared::Nat64(x) => CandyShared::Nat64(*x),
        CandyShared::Float(f) => CandyShared::Float(f.duplicate()),
        CandyShared::Text(t) => CandyShared::Text(t.clone()),
        CandyShared::Bool(x) => CandyShared::Bool(*x),
        CandyShared::Blob(x) => CandyShared::Blob(x.clone()),
        CandyShared::Bytes(x) => CandyShared::Bytes(x.clone()),
        CandyShared::Class(ps) => CandyShared::Class(copy_fields(ps)),
        CandyShared::Principal(p) => CandyShared::Principal(p.duplicate()),
        CandyShared::Option(o) => match o {
            Some(x) => CandyShared::Option(Some(Box::new(copy_value(x)))),
            None => CandyShared::Option(None),
        },
        CandyShared::Array(xs) => CandyShared::Array(copy_values(xs)),
        CandyShared::Nats(xs) => CandyShared::Nats(copy_nats(xs)),
        CandyShared::Floats(xs) => CandyShared::Floats(copy_floats(xs)),
        CandyShared::ValueMap(es) => CandyShared::ValueMap(copy_entries(es)),
        CandyShared::ValueSet(xs) => CandyShared::ValueSet(copy_values(xs)),
    }
}

impl Clone for CandyShared {
    fn clone(&self) -> (r: CandyShared)
        ensures
            identical(*self, r),
    {
        copy_value(self)
    }
}

impl Clone for PropertyShared {
    fn clone(&self) -> (r: PropertyShared)
        ensures
            r.name@ == self.name@,
            r.immutable == self.immutable,
            identical(self.value, r.value),
    {
        PropertyShared { name: self.name.clone(), value: copy_value(&self.value), immutable: self.immutable }
    }
}

} // verus!
