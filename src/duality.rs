//! The two-way mapping between the working form of values and their
//! persisted form.

use vstd::prelude::*;
use crate::stable::{self, CandyValue, Property};
use crate::equality::bytes_equal;
use crate::types::Float;
use crate::workspace::reversed;
use crate::unstable::{self, CandyValueUnstable, PropertyUnstable};

verus! {

/// Whether the persisted value `s` holds exactly what the working value `u`
/// holds: same variants all the way down, the same frozen or thawed tag on
/// each collection, and the same contents.
pub open spec fn corresponds(u: CandyValueUnstable, s: CandyValue) -> bool
    decreases u,
{
    match u {
        CandyValueUnstable::Int(x) => s == CandyValue::Int(x),
        CandyValueUnstable::Int8(x) => s == CandyValue::Int8(x),
        CandyValueUnstable::Int16(x) => s == CandyValue::Int16(x),
        CandyValueUnstable::Int32(x) => s == CandyValue::Int32(x),
        CandyValueUnstable::Int64(x) => s == CandyValue::Int64(x),
        CandyValueUnstable::Nat(x) => s == CandyValue::Nat(x),
        CandyValueUnstable::Nat8(x) => s == CandyValue::Nat8(x),
        CandyValueUnstable::Nat16(x) => s == CandyValue::Nat16(x),
        CandyValueUnstable::Nat32(x) => s == CandyValue::Nat32(x),
        CandyValueUnstable::Nat64(x) => s == CandyValue::Nat64(x),
        CandyValueUnstable::Bool(x) => s == CandyValue::Bool(x),
        CandyValueUnstable::Float(f) => s matches CandyValue::Float(g) && f.bits == g.bits && f.text@ == g.text@,
        CandyValueUnstable::Text(t) => s matches CandyValue::Text(t2) && t@ == t2@,
        CandyValueUnstable::Blob(b) => s matches CandyValue::Blob(c) && b@ == c@,
        CandyValueUnstable::Class(ps) => s matches CandyValue::Class(qs) && ps@.len() == qs@.len() && (forall|i: int|
            #![trigger ps@[i]]
            0 <= i < ps@.len() ==> ps@[i].name@ == qs@[i].name@ && ps@[i].immutable == qs@[i].immutable
                && corresponds(ps@[i].value, qs@[i].value)),
        CandyValueUnstable::Principal(p) => s matches CandyValue::Principal(q) && p@ == q@,
        CandyValueUnstable::Option(o) => s matches CandyValue::Option(o2) && match o {
            Some(x) => o2 matches Some(y) && corresponds(*x, *y),
            None => o2 is None,
        },
        CandyValueUnstable::Array(a) => s matches CandyValue::Array(b) && match a {
            unstable::Array::Frozen(xs) => b matches stable::Array::Frozen(ys) && xs@.len() == ys@.len() && (forall|i: int| 0 <= i < xs@.len() ==> corresponds(#[trigger] xs@[i], ys@[i])),
            unstable::Array::Thawed(xs) => b matches stable::Array::Thawed(ys) && xs@.len() == ys@.len() && (forall|i: int| 0 <= i < xs@.len() ==> corresponds(#[trigger] xs@[i], ys@[i])),
        },
        CandyValueUnstable::Nats(a) => s matches CandyValue::Nats(b) && match a {
            unstable::Nats::Frozen(xs) => b matches stable::Nats::Frozen(ys) && xs@ == ys@,
            unstable::Nats::Thawed(xs) => b matches stable::Nats::Thawed(ys) && xs@ == ys@,
        },
        CandyValueUnstable::Floats(a) => s matches CandyValue::Floats(b) && match a {
            unstable::Floats::Frozen(xs) => b matches stable::Floats::Frozen(ys) && xs@.len() == ys@.len() && (forall|i: int| 0 <= i < xs@.len() ==> #[trigger] xs@[i].bits == ys@[i].bits && xs@[i].text@ == ys@[i].text@),
            unstable::Floats::Thawed(xs) => b matches stable::Floats::Thawed(ys) && xs@.len() == ys@.len() && (forall|i: int| 0 <= i < xs@.len() ==> #[trigger] xs@[i].bits == ys@[i].bits && xs@[i].text@ == ys@[i].text@),
        },
        CandyValueUnstable::Bytes(a) => s matches CandyValue::Bytes(b) && match a {
            unstable::Bytes::Frozen(xs) => b matches stable::Bytes::Frozen(ys) && xs@ == ys@,
            unstable::Bytes::Thawed(xs) => b matches stable::Bytes::Thawed(ys) && xs@ == ys@,
        },
        CandyValueUnstable::Empty => s is Empty,
    }
}
/// Whether two working values hold exactly the same thing.
pub open spec fn same_working(u: CandyValueUnstable, s: CandyValueUnstable) -> bool
    decreases u,
{
    match u {
        CandyValueUnstable::Int(x) => s == CandyValueUnstable::Int(x),
        CandyValueUnstable::Int8(x) => s == CandyValueUnstable::Int8(x),
        CandyValueUnstable::Int16(x) => s == CandyValueUnstable::Int16(x),
        CandyValueUnstable::Int32(x) => s == CandyValueUnstable::Int32(x),
        CandyValueUnstable::Int64(x) => s == CandyValueUnstable::Int64(x),
        CandyValueUnstable::Nat(x) => s == CandyValueUnstable::Nat(x),
        CandyValueUnstable::Nat8(x) => s == CandyValueUnstable::Nat8(x),
        CandyValueUnstable::Nat16(x) => s == CandyValueUnstable::Nat16(x),
        CandyValueUnstable::Nat32(x) => s == CandyValueUnstable::Nat32(x),
        CandyValueUnstable::Nat64(x) => s == CandyValueUnstable::Nat64(x),
        CandyValueUnstable::Bool(x) => s == CandyValueUnstable::Bool(x),
        CandyValueUnstable::Float(f) => s matches CandyValueUnstable::Float(g) && f.bits == g.bits && f.text@ == g.text@,
        CandyValueUnstable::Text(t) => s matches CandyValueUnstable::Text(t2) && t@ == t2@,
        CandyValueUnstable::Blob(b) => s matches CandyValueUnstable::Blob(c) && b@ == c@,
        CandyValueUnstable::Class(ps) => s matches CandyValueUnstable::Class(qs) && ps@.len() == qs@.len() && (forall|i: int|
            #![trigger ps@[i]]
            0 <= i < ps@.len() ==> ps@[i].name@ == qs@[i].name@ && ps@[i].immutable == qs@[i].immutable
                && same_working(ps@[i].value, qs@[i].value)),
        CandyValueUnstable::Principal(p) => s matches CandyValueUnstable::Principal(q) && p@ == q@,
        CandyValueUnstable::Option(o) => s matches CandyValueUnstable::Option(o2) && match o {
            Some(x) => o2 matches Some(y) && same_working(*x, *y),
            None => o2 is None,
        },
        CandyValueUnstable::Array(a) => s matches CandyValueUnstable::Array(b) && match a {
            unstable::Array::Frozen(xs) => b matches unstable::Array::Frozen(ys) && xs@.len() == ys@.len() && (forall|i: int| 0 <= i < xs@.len() ==> same_working(#[trigger] xs@[i], ys@[i])),
            unstable::Array::Thawed(xs) => b matches unstable::Array::Thawed(ys) && xs@.len() == ys@.len() && (forall|i: int| 0 <= i < xs@.len() ==> same_working(#[trigger] xs@[i], ys@[i])),
        },
        CandyValueUnstable::Nats(a) => s matches CandyValueUnstable::Nats(b) && match a {
            unstable::Nats::Frozen(xs) => b matches unstable::Nats::Frozen(ys) && xs@ == ys@,
            unstable::Nats::Thawed(xs) => b matches unstable::Nats::Thawed(ys) && xs@ == ys@,
        },
        CandyValueUnstable::Floats(a) => s matches CandyValueUnstable::Floats(b) && match a {
            unstable::Floats::Frozen(xs) => b matches unstable::Floats::Frozen(ys) && xs@.len() == ys@.len() && (forall|i: int| 0 <= i < xs@.len() ==> #[trigger] xs@[i].bits == ys@[i].bits && xs@[i].text@ == ys@[i].text@),
            unstable::Floats::Thawed(xs) => b matches unstable::Floats::Thawed(ys) && xs@.len() == ys@.len() && (forall|i: int| 0 <= i < xs@.len() ==> #[trigger] xs@[i].bits == ys@[i].bits && xs@[i].text@ == ys@[i].text@),
        },
        CandyValueUnstable::Bytes(a) => s matches CandyValueUnstable::Bytes(b) && match a {
            unstable::Bytes::Frozen(xs) => b matches unstable::Bytes::Frozen(ys) && xs@ == ys@,
            unstable::Bytes::Thawed(xs) => b matches unstable::Bytes::Thawed(ys) && xs@ == ys@,
        },
        CandyValueUnstable::Empty => s is Empty,
    }
}
/// Whether two persisted values hold exactly the same thing.
pub open spec fn same_persisted(u: CandyValue, s: CandyValue) -> bool
    decreases u,
{
    match u {
        CandyValue::Int(x) => s == CandyValue::Int(x),
        CandyValue::Int8(x) => s == CandyValue::Int8(x),
        CandyValue::Int16(x) => s == CandyValue::Int16(x),
        CandyValue::Int32(x) => s == CandyValue::Int32(x),
        CandyValue::Int64(x) => s == CandyValue::Int64(x),
        CandyValue::Nat(x) => s == CandyValue::Nat(x),
        CandyValue::Nat8(x) => s == CandyValue::Nat8(x),
        CandyValue::Nat16(x) => s == CandyValue::Nat16(x),
        CandyValue::Nat32(x) => s == CandyValue::Nat32(x),
        CandyValue::Nat64(x) => s == CandyValue::Nat64(x),
        CandyValue::Bool(x) => s == CandyValue::Bool(x),
        CandyValue::Float(f) => s matches CandyValue::Float(g) && f.bits == g.bits && f.text@ == g.text@,
        CandyValue::Text(t) => s matches CandyValue::Text(t2) && t@ == t2@,
        CandyValue::Blob(b) => s matches CandyValue::Blob(c) && b@ == c@,
        CandyValue::Class(ps) => s matches CandyValue::Class(qs) && ps@.len() == qs@.len() && (forall|i: int|
            #![trigger ps@[i]]
            0 <= i < ps@.len() ==> ps@[i].name@ == qs@[i].name@ && ps@[i].immutable == qs@[i].immutable
                && same_persisted(ps@[i].value, qs@[i].value)),
        CandyValue::Principal(p) => s matches CandyValue::Principal(q) && p@ == q@,
        CandyValue::Option(o) => s matches CandyValue::Option(o2) && match o {
            Some(x) => o2 matches Some(y) && same_persisted(*x, *y),
            None => o2 is None,
        },
        CandyValue::Array(a) => s matches CandyValue::Array(b) && match a {
            stable::Array::Frozen(xs) => b matches stable::Array::Frozen(ys) && xs@.len() == ys@.len() && (forall|i: int| 0 <= i < xs@.len() ==> same_persisted(#[trigger] xs@[i], ys@[i])),
            stable::Array::Thawed(xs) => b matches stable::Array::Thawed(ys) && xs@.len() == ys@.len() && (forall|i: int| 0 <= i < xs@.len() ==> same_persisted(#[trigger] xs@[i], ys@[i])),
        },
        CandyValue::Nats(a) => s matches CandyValue::Nats(b) && match a {
            stable::Nats::Frozen(xs) => b matches stable::Nats::Frozen(ys) && xs@ == ys@,
            stable::Nats::Thawed(xs) => b matches stable::Nats::Thawed(ys) && xs@ == ys@,
        },
        CandyValue::Floats(a) => s matches CandyValue::Floats(b) && match a {
            stable::Floats::Frozen(xs) => b matches stable::Floats::Frozen(ys) && xs@.len() == ys@.len() && (forall|i: int| 0 <= i < xs@.len() ==> #[trigger] xs@[i].bits == ys@[i].bits && xs@[i].text@ == ys@[i].text@),
            stable::Floats::Thawed(xs) => b matches stable::Floats::Thawed(ys) && xs@.len() == ys@.len() && (forall|i: int| 0 <= i < xs@.len() ==> #[trigger] xs@[i].bits == ys@[i].bits && xs@[i].text@ == ys@[i].text@),
        },
        CandyValue::Bytes(a) => s matches CandyValue::Bytes(b) && match a {
            stable::Bytes::Frozen(xs) => b matches stable::Bytes::Frozen(ys) && xs@ == ys@,
            stable::Bytes::Thawed(xs) => b matches stable::Bytes::Thawed(ys) && xs@ == ys@,
        },
        CandyValue::Empty => s is Empty,
    }
}

/// The persisted form of a value: the same variants and contents, each
/// collection keeping its frozen or thawed tag.
pub fn stabilize_value(item: CandyValueUnstable) -> (r: CandyValue)
    ensures
        corresponds(item, r),
    decreases item,
{
    match item {
        CandyValueUnstable::Int(x) => CandyValue::Int(x),
        CandyValueUnstable::Int8(x) => CandyValue::Int8(x),
        CandyValueUnstable::Int16(x) => CandyValue::Int16(x),
        CandyValueUnstable::Int32(x) => CandyValue::Int32(x),
        CandyValueUnstable::Int64(x) => CandyValue::Int64(x),
        CandyValueUnstable::Nat(x) => CandyValue::Nat(x),
        CandyValueUnstable::Nat8(x) => CandyValue::Nat8(x),
        CandyValueUnstable::Nat16(x) => CandyValue::Nat16(x),
        CandyValueUnstable::Nat32(x) => CandyValue::Nat32(x),
        CandyValueUnstable::Nat64(x) => CandyValue::Nat64(x),
        CandyValueUnstable::Bool(x) => CandyValue::Bool(x),
        CandyValueUnstable::Float(x) => CandyValue::Float(x),
        CandyValueUnstable::Text(x) => CandyValue::Text(x),
        CandyValueUnstable::Blob(x) => CandyValue::Blob(x),
        CandyValueUnstable::Principal(x) => CandyValue::Principal(x),
        CandyValueUnstable::Class(ps) => CandyValue::Class(stabilize_properties(ps)),
        CandyValueUnstable::Option(o) => match o {
            Some(x) => CandyValue::Option(Some(Box::new(stabilize_value(*x)))),
            None => CandyValue::Option(None),
        },
        CandyValueUnstable::Array(a) => CandyValue::Array(
            match a {
                unstable::Array::Frozen(xs) => stable::Array::Frozen(stabilize_value_array(xs)),
                unstable::Array::Thawed(xs) => stable::Array::Thawed(stabilize_value_array(xs)),
            },
        ),
        CandyValueUnstable::Nats(a) => CandyValue::Nats(
            match a {
                unstable::Nats::Frozen(xs) => stable::Nats::Frozen(xs),
                unstable::Nats::Thawed(xs) => stable::Nats::Thawed(xs),
            },
        ),
        CandyValueUnstable::Floats(a) => CandyValue::Floats(
            match a {
                unstable::Floats::Frozen(xs) => stable::Floats::Frozen(xs),
                unstable::Floats::Thawed(xs) => stable::Floats::Thawed(xs),
            },
        ),
        CandyValueUnstable::Bytes(a) => CandyValue::Bytes(
            match a {
                unstable::Bytes::Frozen(xs) => stable::Bytes::Frozen(xs),
                unstable::Bytes::Thawed(xs) => stable::Bytes::Thawed(xs),
            },
        ),
        CandyValueUnstable::Empty => CandyValue::Empty,
    }
}

/// The persisted form of each value, in order.
pub fn stabilize_value_array(items: Vec<CandyValueUnstable>) -> (r: Vec<CandyValue>)
    ensures
        r@.len() == items@.len(),
        forall|i: int| 0 <= i < items@.len() ==> corresponds(#[trigger] items@[i], r@[i]),
    decreases items,
{
    let ghost v0 = items@;
    let n = items.len();
    let mut rest = reversed(items);
    let mut out: Vec<CandyValue> = Vec::new();
    let mut i: usize = 0;
    while rest.len() > 0
        invariant
            n == v0.len(),
            v0 == items@,
            rest@.len() == n - i,
            forall|j: int| 0 <= j < rest@.len() ==> #[trigger] rest@[j] == v0[n - 1 - j],
            out@.len() == i,
            forall|j: int| 0 <= j < i ==> corresponds(#[trigger] v0[j], out@[j]),
        decreases rest@.len(),
    {
        let e = rest.pop().unwrap();
        assert(e == v0[i as int]);
        out.push(stabilize_value(e));
        i = i + 1;
    }
    out
}

/// The persisted form of a field.
pub fn stabilize_property(item: PropertyUnstable) -> (r: Property)
    ensures
        r.name@ == item.name@,
        r.immutable == item.immutable,
        corresponds(item.value, r.value),
    decreases item,
{
    Property { name: item.name, value: stabilize_value(item.value), immutable: item.immutable }
}

fn stabilize_properties(items: Vec<PropertyUnstable>) -> (r: Vec<Property>)
    ensures
        r@.len() == items@.len(),
        forall|i: int|
            #![trigger items@[i]]
            0 <= i < items@.len() ==> r@[i].name@ == items@[i].name@ && r@[i].immutable
                == items@[i].immutable && corresponds(items@[i].value, r@[i].value),
    decreases items,
{
    let ghost v0 = items@;
    let n = items.len();
    let mut rest = reversed(items);
    let mut out: Vec<Property> = Vec::new();
    let mut i: usize = 0;
    while rest.len() > 0
        invariant
            n == v0.len(),
            v0 == items@,
            rest@.len() == n - i,
            forall|j: int| 0 <= j < rest@.len() ==> #[trigger] rest@[j] == v0[n - 1 - j],
            out@.len() == i,
            forall|j: int|
                #![trigger v0[j]]
                0 <= j < i ==> out@[j].name@ == v0[j].name@ && out@[j].immutable == v0[j].immutable
                    && corresponds(v0[j].value, out@[j].value),
        decreases rest@.len(),
    {
        let e = rest.pop().unwrap();
        assert(e == v0[i as int]);
        out.push(stabilize_property(e));
        i = i + 1;
    }
    out
}

/// The working form of a value: the same variants and contents, each
/// collection keeping its frozen or thawed tag.
pub fn destabilize_value(item: CandyValue) -> (r: CandyValueUnstable)
    ensures
        corresponds(r, item),
    decreases item,
{
    match item {
        CandyValue::Int(x) => CandyValueUnstable::Int(x),
        CandyValue::Int8(x) => CandyValueUnstable::Int8(x),
        CandyValue::Int16(x) => CandyValueUnstable::Int16(x),
        CandyValue::Int32(x) => CandyValueUnstable::Int32(x),
        CandyValue::Int64(x) => CandyValueUnstable::Int64(x),
        CandyValue::Nat(x) => CandyValueUnstable::Nat(x),
        CandyValue::Nat8(x) => CandyValueUnstable::Nat8(x),
        CandyValue::Nat16(x) => CandyValueUnstable::Nat16(x),
        CandyValue::Nat32(x) => CandyValueUnstable::Nat32(x),
        CandyValue::Nat64(x) => CandyValueUnstable::Nat64(x),
        CandyValue::Bool(x) => CandyValueUnstable::Bool(x),
        CandyValue::Float(x) => CandyValueUnstable::Float(x),
        CandyValue::Text(x) => CandyValueUnstable::Text(x),
        CandyValue::Blob(x) => CandyValueUnstable::Blob(x),
        CandyValue::Principal(x) => CandyValueUnstable::Principal(x),
        CandyValue::Class(ps) => CandyValueUnstable::Class(destabilize_properties(ps)),
        CandyValue::Option(o) => match o {
            Some(x) => CandyValueUnstable::Option(Some(Box::new(destabilize_value(*x)))),
            None => CandyValueUnstable::Option(None),
        },
        CandyValue::Array(a) => CandyValueUnstable::Array(
            match a {
                stable::Array::Frozen(xs) => unstable::Array::Frozen(destabilize_value_array(xs)),
                stable::Array::Thawed(xs) => unstable::Array::Thawed(destabilize_value_array(xs)),
            },
        ),
        CandyValue::Nats(a) => CandyValueUnstable::Nats(
            match a {
                stable::Nats::Frozen(xs) => unstable::Nats::Frozen(xs),
                stable::Nats::Thawed(xs) => unstable::Nats::Thawed(xs),
            },
        ),
        CandyValue::Floats(a) => CandyValueUnstable::Floats(
            match a {
                stable::Floats::Frozen(xs) => unstable::Floats::Frozen(xs),
                stable::Floats::Thawed(xs) => unstable::Floats::Thawed(xs),
            },
        ),
        CandyValue::Bytes(a) => CandyValueUnstable::Bytes(
            match a {
                stable::Bytes::Frozen(xs) => unstable::Bytes::Frozen(xs),
                stable::Bytes::Thawed(xs) => unstable::Bytes::Thawed(xs),
            },
        ),
        CandyValue::Empty => CandyValueUnstable::Empty,
    }
}

/// The working form of each value, in order.
pub fn destabilize_value_array(items: Vec<CandyValue>) -> (r: Vec<CandyValueUnstable>)
    ensures
        r@.len() == items@.len(),
        forall|i: int| 0 <= i < items@.len() ==> corresponds(r@[i], #[trigger] items@[i]),
    decreases items,
{
    let ghost v0 = items@;
    let n = items.len();
    let mut rest = reversed(items);
    let mut out: Vec<CandyValueUnstable> = Vec::new();
    let mut i: usize = 0;
    while rest.len() > 0
        invariant
            n == v0.len(),
            v0 == items@,
            rest@.len() == n - i,
            forall|j: int| 0 <= j < rest@.len() ==> #[trigger] rest@[j] == v0[n - 1 - j],
            out@.len() == i,
            forall|j: int| 0 <= j < i ==> corresponds(out@[j], #[trigger] v0[j]),
        decreases rest@.len(),
    {
        let e = rest.pop().unwrap();
        assert(e == v0[i as int]);
        out.push(destabilize_value(e));
        i = i + 1;
    }
    out
}

/// The working form of a field.
pub fn destabilize_property(item: Property) -> (r: PropertyUnstable)
    ensures
        r.name@ == item.name@,
        r.immutable == item.immutable,
        corresponds(r.value, item.value),
    decreases item,
{
    PropertyUnstable { name: item.name, value: destabilize_value(item.value), immutable: item.immutable }
}

fn destabilize_properties(items: Vec<Property>) -> (r: Vec<PropertyUnstable>)
    ensures
        r@.len() == items@.len(),
        forall|i: int|
            #![trigger items@[i]]
            0 <= i < items@.len() ==> r@[i].name@ == items@[i].name@ && r@[i].immutable
                == items@[i].immutable && corresponds(r@[i].value, items@[i].value),
    decreases items,
{
    let ghost v0 = items@;
    let n = items.len();
    let mut rest = reversed(items);
    let mut out: Vec<PropertyUnstable> = Vec::new();
    let mut i: usize = 0;
    while rest.len() > 0
        invariant
            n == v0.len(),
            v0 == items@,
            rest@.len() == n - i,
            forall|j: int| 0 <= j < rest@.len() ==> #[trigger] rest@[j] == v0[n - 1 - j],
            out@.len() == i,
            forall|j: int|
                #![trigger v0[j]]
                0 <= j < i ==> out@[j].name@ == v0[j].name@ && out@[j].immutable == v0[j].immutable
                    && corresponds(out@[j].value, v0[j].value),
        decreases rest@.len(),
    {
        let e = rest.pop().unwrap();
        assert(e == v0[i as int]);
        out.push(destabilize_property(e));
        i = i + 1;
    }
    out
}

/// Persisting and restoring give back the working value: two working values
/// that correspond to the same persisted value hold the same thing. So
/// `destabilize_value(stabilize_value(u))` holds what `u` holds.
pub proof fn lemma_restore_after_persist(u: CandyValueUnstable, s: CandyValue, u2: CandyValueUnstable)
    requires
        corresponds(u, s),
        corresponds(u2, s),
    ensures
        same_working(u, u2),
    decreases u,
{
    match u {
        CandyValueUnstable::Class(ps) => {
            let qs = s->Class_0;
            let ps2 = u2->Class_0;
            assert forall|i: int|
                #![trigger ps@[i]]
                0 <= i < ps@.len() implies ps@[i].name@ == ps2@[i].name@ && ps@[i].immutable
                    == ps2@[i].immutable && same_working(ps@[i].value, ps2@[i].value) by {
                assert(ps2@[i] == ps2@[i]);
                assert(qs@[i] == qs@[i]);
                lemma_restore_after_persist(ps@[i].value, qs@[i].value, ps2@[i].value);
            }
        },
        CandyValueUnstable::Option(o) => {
            if let Some(x) = o {
                lemma_restore_after_persist(*x, *(s->Option_0->Some_0), *(u2->Option_0->Some_0));
            }
        },
        CandyValueUnstable::Array(a) => {
            let xs = match a {
                unstable::Array::Frozen(xs) => xs,
                unstable::Array::Thawed(xs) => xs,
            };
            let ys = match s->Array_0 {
                stable::Array::Frozen(ys) => ys,
                stable::Array::Thawed(ys) => ys,
            };
            let zs = match u2->Array_0 {
                unstable::Array::Frozen(zs) => zs,
                unstable::Array::Thawed(zs) => zs,
            };
            assert forall|i: int| 0 <= i < xs@.len() implies same_working(#[trigger] xs@[i], zs@[i]) by {
                assert(corresponds(xs@[i], ys@[i]));
                assert(corresponds(zs@[i], ys@[i]));
                lemma_restore_after_persist(xs@[i], ys@[i], zs@[i]);
            }
        },
        _ => {},
    }
}

/// Restoring and persisting give back the persisted value: two persisted
/// values that correspond to the same working value hold the same thing. So
/// `stabilize_value(destabilize_value(s))` holds what `s` holds.
pub proof fn lemma_persist_after_restore(u: CandyValueUnstable, s: CandyValue, s2: CandyValue)
    requires
        corresponds(u, s),
        corresponds(u, s2),
    ensures
        same_persisted(s, s2),
    decreases u,
{
    match u {
        CandyValueUnstable::Class(ps) => {
            let qs = s->Class_0;
            let qs2 = s2->Class_0;
            assert forall|i: int|
                #![trigger qs@[i]]
                0 <= i < qs@.len() implies qs@[i].name@ == qs2@[i].name@ && qs@[i].immutable
                    == qs2@[i].immutable && same_persisted(qs@[i].value, qs2@[i].value) by {
                assert(ps@[i] == ps@[i]);
                lemma_persist_after_restore(ps@[i].value, qs@[i].value, qs2@[i].value);
            }
        },
        CandyValueUnstable::Option(o) => {
            if let Some(x) = o {
                lemma_persist_after_restore(*x, *(s->Option_0->Some_0), *(s2->Option_0->Some_0));
            }
        },
        CandyValueUnstable::Array(a) => {
            let xs = match a {
                unstable::Array::Frozen(xs) => xs,
                unstable::Array::Thawed(xs) => xs,
            };
            let ys = match s->Array_0 {
                stable::Array::Frozen(ys) => ys,
                stable::Array::Thawed(ys) => ys,
            };
            let zs = match s2->Array_0 {
                stable::Array::Frozen(zs) => zs,
                stable::Array::Thawed(zs) => zs,
            };
            assert forall|i: int| 0 <= i < ys@.len() implies same_persisted(#[trigger] ys@[i], zs@[i]) by {
                assert(corresponds(xs@[i], ys@[i]));
                assert(corresponds(xs@[i], zs@[i]));
                lemma_persist_after_restore(xs@[i], ys@[i], zs@[i]);
            }
        },
        CandyValueUnstable::Floats(a) => {
            let xs = match a {
                unstable::Floats::Frozen(xs) => xs,
                unstable::Floats::Thawed(xs) => xs,
            };
            let ys = match s->Floats_0 {
                stable::Floats::Frozen(ys) => ys,
                stable::Floats::Thawed(ys) => ys,
            };
            let zs = match s2->Floats_0 {
                stable::Floats::Frozen(zs) => zs,
                stable::Floats::Thawed(zs) => zs,
            };
            assert forall|i: int| 0 <= i < ys@.len() implies #[trigger] ys@[i].bits == zs@[i].bits
                && ys@[i].text@ == zs@[i].text@ by {
                assert(xs@[i].bits == ys@[i].bits);
                assert(xs@[i].bits == zs@[i].bits);
            }
        },
        _ => {},
    }
}

fn working_arrays_equal(xs: &Vec<CandyValueUnstable>, ys: &Vec<CandyValueUnstable>) -> (r: bool)
    ensures
        r == (xs@.len() == ys@.len() && forall|i: int| 0 <= i < xs@.len() ==> same_working(#[trigger] xs@[i], ys@[i])),
    decreases xs,
{
    if xs.len() != ys.len() {
        return false;
    }
    let mut i: usize = 0;
    while i < xs.len()
        invariant
            xs@.len() == ys@.len(),
            0 <= i <= xs@.len(),
            forall|j: int| 0 <= j < i ==> same_working(#[trigger] xs@[j], ys@[j]),
        decreases xs@.len() - i,
    {
        if !working_values_equal(&xs[i], &ys[i]) {
            return false;
        }
        i = i + 1;
    }
    true
}

fn working_fields_equal(ps: &Vec<PropertyUnstable>, qs: &Vec<PropertyUnstable>) -> (r: bool)
    ensures
        r == (ps@.len() == qs@.len() && forall|i: int|
            #![trigger ps@[i]]
            0 <= i < ps@.len() ==> ps@[i].name@ == qs@[i].name@ && ps@[i].immutable == qs@[i].immutable
                && same_working(ps@[i].value, qs@[i].value)),
    decreases ps,
{
    if ps.len() != qs.len() {
        return false;
    }
    let mut i: usize = 0;
    while i < ps.len()
        invariant
            ps@.len() == qs@.len(),
            0 <= i <= ps@.len(),
            forall|j: int|
                #![trigger ps@[j]]
                0 <= j < i ==> ps@[j].name@ == qs@[j].name@ && ps@[j].immutable == qs@[j].immutable
                    && same_working(ps@[j].value, qs@[j].value),
        decreases ps@.len() - i,
    {
        let p = &ps[i];
        let q = &qs[i];
        if p.name != q.name || p.immutable != q.immutable || !working_values_equal(&p.value, &q.value) {
            return false;
        }
        i = i + 1;
    }
    true
}

fn floats_identical(xs: &Vec<Float>, ys: &Vec<Float>) -> (r: bool)
    ensures
        r == (xs@.len() == ys@.len() && forall|i: int|
            #![trigger xs@[i]]
            0 <= i < xs@.len() ==> xs@[i].bits == ys@[i].bits && xs@[i].text@ == ys@[i].text@),
{
    if xs.len() != ys.len() {
        return false;
    }
    let mut i: usize = 0;
    while i < xs.len()
        invariant
            xs@.len() == ys@.len(),
            0 <= i <= xs@.len(),
            forall|j: int|
                #![trigger xs@[j]]
                0 <= j < i ==> xs@[j].bits == ys@[j].bits && xs@[j].text@ == ys@[j].text@,
        decreases xs@.len() - i,
    {
        let same_text = xs[i].text == ys[i].text;
        if xs[i].bits != ys[i].bits || !same_text {
            return false;
        }
        i = i + 1;
    }
    true
}

fn u128s_equal(xs: &Vec<u128>, ys: &Vec<u128>) -> (r: bool)
    ensures
        r == (xs@ == ys@),
{
    if xs.len() != ys.len() {
        return false;
    }
    let mut i: usize = 0;
    while i < xs.len()
        invariant
            xs@.len() == ys@.len(),
            0 <= i <= xs@.len(),
            forall|j: int| 0 <= j < i ==> xs@[j] == ys@[j],
        decreases xs@.len() - i,
    {
        if xs[i] != ys[i] {
            return false;
        }
        i = i + 1;
    }
    assert(xs@ =~= ys@);
    true
}

/// Whether two working values hold exactly the same thing (see [`same_working`]).
pub fn working_values_equal(a: &CandyValueUnstable, b: &CandyValueUnstable) -> (r: bool)
    ensures
        r == same_working(*a, *b),
    decreases a,
{
    match (a, b) {
        (CandyValueUnstable::Int(x), CandyValueUnstable::Int(y)) => *x == *y,
        (CandyValueUnstable::Int8(x), CandyValueUnstable::Int8(y)) => *x == *y,
        (CandyValueUnstable::Int16(x), CandyValueUnstable::Int16(y)) => *x == *y,
        (CandyValueUnstable::Int32(x), CandyValueUnstable::Int32(y)) => *x == *y,
        (CandyValueUnstable::Int64(x), CandyValueUnstable::Int64(y)) => *x == *y,
        (CandyValueUnstable::Nat(x), CandyValueUnstable::Nat(y)) => *x == *y,
        (CandyValueUnstable::Nat8(x), CandyValueUnstable::Nat8(y)) => *x == *y,
        (CandyValueUnstable::Nat16(x), CandyValueUnstable::Nat16(y)) => *x == *y,
        (CandyValueUnstable::Nat32(x), CandyValueUnstable::Nat32(y)) => *x == *y,
        (CandyValueUnstable::Nat64(x), CandyValueUnstable::Nat64(y)) => *x == *y,
        (CandyValueUnstable::Bool(x), CandyValueUnstable::Bool(y)) => *x == *y,
        (CandyValueUnstable::Float(f), CandyValueUnstable::Float(g)) => f.bits == g.bits && f.text == g.text,
        (CandyValueUnstable::Text(t), CandyValueUnstable::Text(u)) => *t == *u,
        (CandyValueUnstable::Blob(x), CandyValueUnstable::Blob(y)) => bytes_equal(x, y),
        (CandyValueUnstable::Class(ps), CandyValueUnstable::Class(qs)) => working_fields_equal(ps, qs),
        (CandyValueUnstable::Principal(p), CandyValueUnstable::Principal(q)) => bytes_equal(p.as_bytes(), q.as_bytes()),
        (CandyValueUnstable::Option(o), CandyValueUnstable::Option(o2)) => match (o, o2) {
            (Some(x), Some(y)) => working_values_equal(x, y),
            (None, None) => true,
            _ => false,
        },
        (CandyValueUnstable::Array(x), CandyValueUnstable::Array(y)) => match (x, y) {
            (unstable::Array::Frozen(xs), unstable::Array::Frozen(ys)) => working_arrays_equal(xs, ys),
            (unstable::Array::Thawed(xs), unstable::Array::Thawed(ys)) => working_arrays_equal(xs, ys),
            _ => false,
        },
        (CandyValueUnstable::Nats(x), CandyValueUnstable::Nats(y)) => match (x, y) {
            (unstable::Nats::Frozen(xs), unstable::Nats::Frozen(ys)) => u128s_equal(xs, ys),
            (unstable::Nats::Thawed(xs), unstable::Nats::Thawed(ys)) => u128s_equal(xs, ys),
            _ => false,
        },
        (CandyValueUnstable::Floats(x), CandyValueUnstable::Floats(y)) => match (x, y) {
            (unstable::Floats::Frozen(xs), unstable::Floats::Frozen(ys)) => floats_identical(xs, ys),
            (unstable::Floats::Thawed(xs), unstable::Floats::Thawed(ys)) => floats_identical(xs, ys),
            _ => false,
        },
        (CandyValueUnstable::Bytes(x), CandyValueUnstable::Bytes(y)) => match (x, y) {
            (unstable::Bytes::Frozen(xs), unstable::Bytes::Frozen(ys)) => bytes_equal(xs, ys),
            (unstable::Bytes::Thawed(xs), unstable::Bytes::Thawed(ys)) => bytes_equal(xs, ys),
            _ => false,
        },
        (CandyValueUnstable::Empty, CandyValueUnstable::Empty) => true,
        _ => false,
    }
}

impl PartialEq for CandyValueUnstable {
    fn eq(&self, other: &CandyValueUnstable) -> (r: bool) {
        working_values_equal(self, other)
    }
}

impl vstd::std_specs::cmp::PartialEqSpecImpl for CandyValueUnstable {
    open spec fn obeys_eq_spec() -> bool {
        true
    }

    open spec fn eq_spec(&self, other: &CandyValueUnstable) -> bool {
        same_working(*self, *other)
    }
}

impl CandyValueUnstable {
    /// The persisted form of the value.
    pub fn stabilize_value(self) -> (r: CandyValue)
        ensures
            corresponds(self, r),
    {
        stabilize_value(self)
    }

    /// The persisted form of each value, in order.
    pub fn stabilize_value_array(items: Vec<CandyValueUnstable>) -> (r: Vec<CandyValue>)
        ensures
            r@.len() == items@.len(),
            forall|i: int| 0 <= i < items@.len() ==> corresponds(#[trigger] items@[i], r@[i]),
    {
        stabilize_value_array(items)
    }
}

impl PropertyUnstable {
    /// The persisted form of the field.
    pub fn stabilize_property(self) -> (r: Property)
        ensures
            r.name@ == self.name@,
            r.immutable == self.immutable,
            corresponds(self.value, r.value),
    {
        stabilize_property(self)
    }
}

impl CandyValue {
    /// The working form of the value.
    pub fn destabilize_value(self) -> (r: CandyValueUnstable)
        ensures
            corresponds(r, self),
    {
        destabilize_value(self)
    }

    /// The working form of each value, in order.
    pub fn destabilize_value_array(items: Vec<CandyValue>) -> (r: Vec<CandyValueUnstable>)
        ensures
            r@.len() == items@.len(),
            forall|i: int| 0 <= i < items@.len() ==> corresponds(r@[i], #[trigger] items@[i]),
    {
        destabilize_value_array(items)
    }
}

impl Property {
    /// The working form of the field.
    pub fn destabilize_property(self) -> (r: PropertyUnstable)
        ensures
            r.name@ == self.name@,
            r.immutable == self.immutable,
            corresponds(r.value, self.value),
    {
        destabilize_property(self)
    }
}

} // verus!
