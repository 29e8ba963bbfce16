//! Structural, variant-sensitive equality of values.

use vstd::prelude::*;
use crate::blob::kind_of;
use crate::types::{float_equal, PropertyShared};
use crate::value::CandyShared;

verus! {

/// Whether two values are equal: same variant and equal payloads. Integers of
/// different widths are never equal; floats compare as IEEE-754 numbers
/// (NaN equals nothing); records compare field by field in order; maps and
/// sets are equal when they have the same size and each entry (element) of
/// the first has an equal entry (element) in the second and the other way
/// round, in any order.
pub open spec fn value_eq(a: CandyShared, b: CandyShared) -> bool
    decreases a, 0nat,
{
    match a {
        CandyShared::Int(x) => b matches CandyShared::Int(y) && x@ == y@,
        CandyShared::Int8(x) => b == CandyShared::Int8(x),
        CandyShared::Int16(x) => b == CandyShared::Int16(x),
        CandyShared::Int32(x) => b == CandyShared::Int32(x),
        CandyShared::Int64(x) => b == CandyShared::Int64(x),
        CandyShared::Ints(xs) => b matches CandyShared::Ints(ys) && xs@.len() == ys@.len() && (
        forall|i: int| 0 <= i < xs@.len() ==> #[trigger] xs@[i]@ == ys@[i]@),
        CandyShared::Nat(x) => b matches CandyShared::Nat(y) && x@ == y@,
        CandyShared::Nat8(x) => b == CandyShared::Nat8(x),
        CandyShared::Nat16(x) => b == CandyShared::Nat16(x),
        CandyShared::Nat32(x) => b == CandyShared::Nat32(x),
        CandyShared::Nat64(x) => b == CandyShared::Nat64(x),
        CandyShared::Float(f) => b matches CandyShared::Float(g) && float_equal(f.bits, g.bits),
        CandyShared::Text(t) => b matches CandyShared::Text(u) && t@ == u@,
        CandyShared::Bool(x) => b == CandyShared::Bool(x),
        CandyShared::Blob(x) => b matches CandyShared::Blob(y) && x@ == y@,
        CandyShared::Bytes(x) => b matches CandyShared::Bytes(y) && x@ == y@,
        CandyShared::Class(ps) => b matches CandyShared::Class(qs) && ps@.len() == qs@.len() && (
        forall|i: int|
            #![trigger ps@[i]]
            0 <= i < ps@.len() ==> ps@[i].name@ == qs@[i].name@ && ps@[i].immutable
                == qs@[i].immutable && value_eq(ps@[i].value, qs@[i].value)),
        CandyShared::Principal(p) => b matches CandyShared::Principal(q) && p@ == q@,
        CandyShared::Option(o) => b matches CandyShared::Option(o2) && match o {
            Some(x) => o2 matches Some(y) && value_eq(*x, *y),
            None => o2 is None,
        },
        CandyShared::Array(xs) => b matches CandyShared::Array(ys) && xs@.len() == ys@.len() && (
        forall|i: int| 0 <= i < xs@.len() ==> value_eq(#[trigger] xs@[i], ys@[i])),
        CandyShared::Nats(xs) => b matches CandyShared::Nats(ys) && xs@.len() == ys@.len() && (
        forall|i: int| 0 <= i < xs@.len() ==> #[trigger] xs@[i]@ == ys@[i]@),
        CandyShared::Floats(xs) => b matches CandyShared::Floats(ys) && xs@.len() == ys@.len() && (
        forall|i: int| 0 <= i < xs@.len() ==> float_equal(#[trigger] xs@[i].bits, ys@[i].bits)),
        CandyShared::ValueMap(es) => b matches CandyShared::ValueMap(fs) && es@.len() == fs@.len()
            && (forall|i: int| 0 <= i < es@.len() ==> has_entry(#[trigger] es@[i], fs@)) && (
        forall|j: int| 0 <= j < fs@.len() ==> entry_covered(#[trigger] fs@[j], es@)),
        CandyShared::ValueSet(xs) => b matches CandyShared::ValueSet(ys) && xs@.len() == ys@.len()
            && (forall|i: int| 0 <= i < xs@.len() ==> has_element(#[trigger] xs@[i], ys@)) && (
        forall|j: int| 0 <= j < ys@.len() ==> element_covered(#[trigger] ys@[j], xs@)),
    }
}

/// Whether `fs` has an entry whose key and value equal those of `e`.
pub open spec fn has_entry(e: (CandyShared, CandyShared), fs: Seq<(CandyShared, CandyShared)>) -> bool
    decreases e, 1nat,
{
    exists|j: int| 0 <= j < fs.len() && value_eq(e.0, #[trigger] fs[j].0) && value_eq(e.1, fs[j].1)
}

/// Whether `ys` has an element equal to `x`.
pub open spec fn has_element(x: CandyShared, ys: Seq<CandyShared>) -> bool
    decreases x, 1nat,
{
    exists|j: int| 0 <= j < ys.len() && value_eq(x, #[trigger] ys[j])
}

/// Whether `es` has an entry whose key and value equal those of `f`.
pub open spec fn entry_covered(f: (CandyShared, CandyShared), es: Seq<(CandyShared, CandyShared)>) -> bool
    decreases es, 1nat,
{
    exists|i: int| 0 <= i < es.len() && value_eq(#[trigger] es[i].0, f.0) && value_eq(es[i].1, f.1)
}

/// Whether `xs` has an element equal to `y`.
pub open spec fn element_covered(y: CandyShared, xs: Seq<CandyShared>) -> bool
    decreases xs, 1nat,
{
    exists|i: int| 0 <= i < xs.len() && value_eq(#[trigger] xs[i], y)
}

fn arrays_equal(xs: &Vec<CandyShared>, ys: &Vec<CandyShared>) -> (r: bool)
    ensures
        r == (xs@.len() == ys@.len() && forall|i: int|
            0 <= i < xs@.len() ==> value_eq(#[trigger] xs@[i], ys@[i])),
    decreases xs, 0nat,
{
    if xs.len() != ys.len() {
        return false;
    }
    let mut i: usize = 0;
    while i < xs.len()
        invariant
            xs@.len() == ys@.len(),
            0 <= i <= xs@.len(),
            forall|j: int| 0 <= j < i ==> value_eq(#[trigger] xs@[j], ys@[j]),
        decreases xs@.len() - i,
    {
        if !values_equal(&xs[i], &ys[i]) {
            return false;
        }
        i = i + 1;
    }
    true
}

fn fields_equal(ps: &Vec<PropertyShared>, qs: &Vec<PropertyShared>) -> (r: bool)
    ensures
        r == (ps@.len() == qs@.len() && forall|i: int|
            #![trigger ps@[i]]
            0 <= i < ps@.len() ==> ps@[i].name@ == qs@[i].name@ && ps@[i].immutable
                == qs@[i].immutable && value_eq(ps@[i].value, qs@[i].value)),
    decreases ps, 0nat,
{
    if ps.len() != qs.len() {
        return false;
    }
    let mut i: usize = 0;
    while i < ps.len()
        invariant
            ps@.len() == qs@.len(),
            0 <= i <= ps@.len(),
            forall|j: int|
                #![trigger ps@[j]]
                0 <= j < i ==> ps@[j].name@ == qs@[j].name@ && ps@[j].immutable
                    == qs@[j].immutable && value_eq(ps@[j].value, qs@[j].value),
        decreases ps@.len() - i,
    {
        let p = &ps[i];
        let q = &qs[i];
        if p.name != q.name || p.immutable != q.immutable || !values_equal(&p.value, &q.value) {
            return false;
        }
        i = i + 1;
    }
    true
}

fn entries_covered(es: &Vec<(CandyShared, CandyShared)>, fs: &Vec<(CandyShared, CandyShared)>) -> (r:
    bool)
    ensures
        r == forall|j: int| 0 <= j < fs@.len() ==> entry_covered(#[trigger] fs@[j], es@),
    decreases es, 0nat,
{
    let mut j: usize = 0;
    while j < fs.len()
        invariant
            0 <= j <= fs@.len(),
            forall|k: int| 0 <= k < j ==> entry_covered(#[trigger] fs@[k], es@),
        decreases fs@.len() - j,
    {
        let mut i: usize = 0;
        let mut found = false;
        while i < es.len() && !found
            invariant
                0 <= j < fs@.len(),
                0 <= i <= es@.len(),
                !found ==> forall|k: int|
                    0 <= k < i ==> !(value_eq(#[trigger] es@[k].0, fs@[j as int].0) && value_eq(
                        es@[k].1,
                        fs@[j as int].1,
                    )),
                found ==> entry_covered(fs@[j as int], es@),
            decreases es@.len() - i,
        {
            if values_equal(&es[i].0, &fs[j].0) && values_equal(&es[i].1, &fs[j].1) {
                found = true;
            }
            i = i + 1;
        }
        if !found {
            assert(!entry_covered(fs@[j as int], es@));
            return false;
        }
        j = j + 1;
    }
    true
}

fn elements_covered(xs: &Vec<CandyShared>, ys: &Vec<CandyShared>) -> (r: bool)
    ensures
        r == forall|j: int| 0 <= j < ys@.len() ==> element_covered(#[trigger] ys@[j], xs@),
    decreases xs, 0nat,
{
    let mut j: usize = 0;
    while j < ys.len()
        invariant
            0 <= j <= ys@.len(),
            forall|k: int| 0 <= k < j ==> element_covered(#[trigger] ys@[k], xs@),
        decreases ys@.len() - j,
    {
        let mut i: usize = 0;
        let mut found = false;
        while i < xs.len() && !found
            invariant
                0 <= j < ys@.len(),
                0 <= i <= xs@.len(),
                !found ==> forall|k: int| 0 <= k < i ==> !value_eq(#[trigger] xs@[k], ys@[j as int]),
                found ==> element_covered(ys@[j as int], xs@),
            decreases xs@.len() - i,
        {
            if values_equal(&xs[i], &ys[j]) {
                found = true;
            }
            i = i + 1;
        }
        if !found {
            assert(!element_covered(ys@[j as int], xs@));
            return false;
        }
        j = j + 1;
    }
    true
}

fn entries_equal(es: &Vec<(CandyShared, CandyShared)>, fs: &Vec<(CandyShared, CandyShared)>) -> (r:
    bool)
    ensures
        r == (es@.len() == fs@.len() && forall|i: int|
            0 <= i < es@.len() ==> has_entry(#[trigger] es@[i], fs@)),
    decreases es, 0nat,
{
    if es.len() != fs.len() {
        return false;
    }
    let mut i: usize = 0;
    while i < es.len()
        invariant
            es@.len() == fs@.len(),
            0 <= i <= es@.len(),
            forall|k: int| 0 <= k < i ==> has_entry(#[trigger] es@[k], fs@),
        decreases es@.len() - i,
    {
        let mut j: usize = 0;
        let mut found = false;
        while j < fs.len() && !found
            invariant
                0 <= i < es@.len(),
                0 <= j <= fs@.len(),
                !found ==> forall|k: int|
                    0 <= k < j ==> !(value_eq(es@[i as int].0, #[trigger] fs@[k].0) && value_eq(
                        es@[i as int].1,
                        fs@[k].1,
                    )),
                found ==> has_entry(es@[i as int], fs@),
            decreases fs@.len() - j,
        {
            if values_equal(&es[i].0, &fs[j].0) && values_equal(&es[i].1, &fs[j].1) {
                found = true;
            }
            j = j + 1;
        }
        if !found {
            assert(!has_entry(es@[i as int], fs@));
            return false;
        }
        i = i + 1;
    }
    true
}

fn elements_equal(xs: &Vec<CandyShared>, ys: &Vec<CandyShared>) -> (r: bool)
    ensures
        r == (xs@.len() == ys@.len() && forall|i: int|
            0 <= i < xs@.len() ==> has_element(#[trigger] xs@[i], ys@)),
    decreases xs, 0nat,
{
    if xs.len() != ys.len() {
        return false;
    }
    let mut i: usize = 0;
    while i < xs.len()
        invariant
            xs@.len() == ys@.len(),
            0 <= i <= xs@.len(),
            forall|k: int| 0 <= k < i ==> has_element(#[trigger] xs@[k], ys@),
        decreases xs@.len() - i,
    {
        let mut j: usize = 0;
        let mut found = false;
        while j < ys.len() && !found
            invariant
                0 <= i < xs@.len(),
                0 <= j <= ys@.len(),
                !found ==> forall|k: int| 0 <= k < j ==> !value_eq(xs@[i as int], #[trigger] ys@[k]),
                found ==> has_element(xs@[i as int], ys@),
            decreases ys@.len() - j,
        {
            if values_equal(&xs[i], &ys[j]) {
                found = true;
            }
            j = j + 1;
        }
        if !found {
            assert(!has_element(xs@[i as int], ys@));
            return false;
        }
        i = i + 1;
    }
    true
}

fn nat_lists_equal(xs: &Vec<crate::number::Nat>, ys: &Vec<crate::number::Nat>) -> (r: bool)
    ensures
        r == (xs@.len() == ys@.len() && forall|i: int| 0 <= i < xs@.len() ==> #[trigger] xs@[i]@ == ys@[i]@),
{
    if xs.len() != ys.len() {
        return false;
    }
    let mut i: usize = 0;
    while i < xs.len()
        invariant
            xs@.len() == ys@.len(),
            0 <= i <= xs@.len(),
            forall|j: int| 0 <= j < i ==> #[trigger] xs@[j]@ == ys@[j]@,
        decreases xs@.len() - i,
    {
        if !xs[i].same(&ys[i]) {
            return false;
        }
        i = i + 1;
    }
    true
}

fn int_lists_equal(xs: &Vec<crate::number::Int>, ys: &Vec<crate::number::Int>) -> (r: bool)
    ensures
        r == (xs@.len() == ys@.len() && forall|i: int| 0 <= i < xs@.len() ==> #[trigger] xs@[i]@ == ys@[i]@),
{
    if xs.len() != ys.len() {
        return false;
    }
    let mut i: usize = 0;
    while i < xs.len()
        invariant
            xs@.len() == ys@.len(),
            0 <= i <= xs@.len(),
            forall|j: int| 0 <= j < i ==> #[trigger] xs@[j]@ == ys@[j]@,
        decreases xs@.len() - i,
    {
        if !xs[i].same(&ys[i]) {
            return false;
        }
        i = i + 1;
    }
    true
}

fn float_lists_equal(xs: &Vec<crate::types::Float>, ys: &Vec<crate::types::Float>) -> (r: bool)
    ensures
        r == (xs@.len() == ys@.len() && forall|i: int|
            0 <= i < xs@.len() ==> float_equal(#[trigger] xs@[i].bits, ys@[i].bits)),
{
    if xs.len() != ys.len() {
        return false;
    }
    let mut i: usize = 0;
    while i < xs.len()
        invariant
            xs@.len() == ys@.len(),
            0 <= i <= xs@.len(),
            forall|j: int| 0 <= j < i ==> float_equal(#[trigger] xs@[j].bits, ys@[j].bits),
        decreases xs@.len() - i,
    {
        if !xs[i].equals(&ys[i]) {
            return false;
        }
        i = i + 1;
    }
    true
}

/// Whether the two values are equal (see [`value_eq`]).
pub fn values_equal(a: &CandyShared, b: &CandyShared) -> (r: bool)
    ensures
        r == value_eq(*a, *b),
    decreases a, 0nat,
{
    match (a, b) {
        (CandyShared::Int(x), CandyShared::Int(y)) => x.same(y),
        (CandyShared::Int8(x), CandyShared::Int8(y)) => *x == *y,
        (CandyShared::Int16(x), CandyShared::Int16(y)) => *x == *y,
        (CandyShared::Int32(x), CandyShared::Int32(y)) => *x == *y,
        (CandyShared::Int64(x), CandyShared::Int64(y)) => *x == *y,
        (CandyShared::Ints(xs), CandyShared::Ints(ys)) => int_lists_equal(xs, ys),
        (CandyShared::Nat(x), CandyShared::Nat(y)) => x.same(y),
        (CandyShared::Nat8(x), CandyShared::Nat8(y)) => *x == *y,
        (CandyShared::Nat16(x), CandyShared::Nat16(y)) => *x == *y,
        (CandyShared::Nat32(x), CandyShared::Nat32(y)) => *x == *y,
        (CandyShared::Nat64(x), CandyShared::Nat64(y)) => *x == *y,
        (CandyShared::Float(f), CandyShared::Float(g)) => f.equals(g),
        (CandyShared::Text(t), CandyShared::Text(u)) => *t == *u,
        (CandyShared::Bool(x), CandyShared::Bool(y)) => *x == *y,
        (CandyShared::Blob(x), CandyShared::Blob(y)) => bytes_equal(x, y),
        (CandyShared::Bytes(x), CandyShared::Bytes(y)) => bytes_equal(x, y),
        (CandyShared::Class(ps), CandyShared::Class(qs)) => fields_equal(ps, qs),
        (CandyShared::Principal(p), CandyShared::Principal(q)) => bytes_equal(
            p.as_bytes(),
            q.as_bytes(),
        ),
        (CandyShared::Option(o), CandyShared::Option(o2)) => match (o, o2) {
            (Some(x), Some(y)) => values_equal(x, y),
            (None, None) => true,
            _ => false,
        },
        (CandyShared::Array(xs), CandyShared::Array(ys)) => arrays_equal(xs, ys),
        (CandyShared::Nats(xs), CandyShared::Nats(ys)) => nat_lists_equal(xs, ys),
        (CandyShared::Floats(xs), CandyShared::Floats(ys)) => float_lists_equal(xs, ys),
        (CandyShared::ValueMap(es), CandyShared::ValueMap(fs)) => entries_equal(es, fs)
            && entries_covered(es, fs),
        (CandyShared::ValueSet(xs), CandyShared::ValueSet(ys)) => elements_equal(xs, ys)
            && elements_covered(xs, ys),
        _ => false,
    }
}

pub(crate) fn bytes_equal(x: &Vec<u8>, y: &Vec<u8>) -> (r: bool)
    ensures
        r == (x@ == y@),
{
    if x.len() != y.len() {
        return false;
    }
    let mut i: usize = 0;
    while i < x.len()
        invariant
            x@.len() == y@.len(),
            0 <= i <= x@.len(),
            forall|j: int| 0 <= j < i ==> x@[j] == y@[j],
        decreases x@.len() - i,
    {
        if x[i] != y[i] {
            return false;
        }
        i = i + 1;
    }
    assert(x@ =~= y@);
    true
}

/// Values of different variants are never equal, whatever they hold (an
/// 8-bit 5 is not an arbitrary-precision 5).
pub proof fn lemma_variants_differ(a: CandyShared, b: CandyShared)
    requires
        kind_of(a) != kind_of(b),
    ensures
        !value_eq(a, b),
{
}

/// A map equals any reordering of its entries: insertion order does not
/// matter (for entries that equal themselves, which rules out NaN floats).
/// The reordering is given as: each entry of either map occurs in the other.
pub proof fn lemma_map_order_irrelevant(
    m1: Vec<(CandyShared, CandyShared)>,
    m2: Vec<(CandyShared, CandyShared)>,
)
    requires
        m1@.len() == m2@.len(),
        forall|i: int|
            0 <= i < m1@.len() ==> exists|j: int| 0 <= j < m2@.len() && #[trigger] m2@[j] == #[trigger] m1@[i],
        forall|j: int|
            0 <= j < m2@.len() ==> exists|i: int| 0 <= i < m1@.len() && #[trigger] m1@[i] == #[trigger] m2@[j],
        forall|i: int|
            0 <= i < m1@.len() ==> value_eq(#[trigger] m1@[i].0, m1@[i].0) && value_eq(m1@[i].1, m1@[i].1),
    ensures
        value_eq(CandyShared::ValueMap(m1), CandyShared::ValueMap(m2)),
{
    assert forall|i: int| 0 <= i < m1@.len() implies has_entry(#[trigger] m1@[i], m2@) by {
        let j = choose|j: int| 0 <= j < m2@.len() && #[trigger] m2@[j] == m1@[i];
        assert(value_eq(m1@[i].0, m2@[j].0) && value_eq(m1@[i].1, m2@[j].1));
    }
    assert forall|j: int| 0 <= j < m2@.len() implies entry_covered(#[trigger] m2@[j], m1@) by {
        let i = choose|i: int| 0 <= i < m1@.len() && #[trigger] m1@[i] == m2@[j];
        assert(value_eq(m1@[i].0, m2@[j].0) && value_eq(m1@[i].1, m2@[j].1));
    }
}

/// Equality is symmetric.
pub proof fn lemma_equality_symmetric(a: CandyShared, b: CandyShared)
    requires
        value_eq(a, b),
    ensures
        value_eq(b, a),
    decreases a,
{
    match a {
        CandyShared::Class(ps) => {
            let qs = b->Class_0;
            assert forall|i: int|
                #![trigger qs@[i]]
                0 <= i < qs@.len() implies qs@[i].name@ == ps@[i].name@ && qs@[i].immutable
                    == ps@[i].immutable && value_eq(qs@[i].value, ps@[i].value) by {
                assert(ps@[i] == ps@[i]);
                lemma_equality_symmetric(ps@[i].value, qs@[i].value);
            }
        },
        CandyShared::Option(o) => {
            if let Some(x) = o {
                lemma_equality_symmetric(*x, *(b->Option_0->Some_0));
            }
        },
        CandyShared::Array(xs) => {
            let ys = b->Array_0;
            assert forall|i: int| 0 <= i < ys@.len() implies value_eq(#[trigger] ys@[i], xs@[i]) by {
                assert(value_eq(xs@[i], ys@[i]));
                lemma_equality_symmetric(xs@[i], ys@[i]);
            }
        },
        CandyShared::ValueMap(es) => {
            let fs = b->ValueMap_0;
            assert forall|j: int| 0 <= j < fs@.len() implies has_entry(#[trigger] fs@[j], es@) by {
                assert(entry_covered(fs@[j], es@));
                let i = choose|i: int|
                    0 <= i < es@.len() && value_eq(#[trigger] es@[i].0, fs@[j].0) && value_eq(
                        es@[i].1,
                        fs@[j].1,
                    );
                lemma_equality_symmetric(es@[i].0, fs@[j].0);
                lemma_equality_symmetric(es@[i].1, fs@[j].1);
                assert(value_eq(fs@[j].0, es@[i].0) && value_eq(fs@[j].1, es@[i].1));
            }
            assert forall|i: int| 0 <= i < es@.len() implies entry_covered(#[trigger] es@[i], fs@) by {
                assert(has_entry(es@[i], fs@));
                let j = choose|j: int|
                    0 <= j < fs@.len() && value_eq(es@[i].0, #[trigger] fs@[j].0) && value_eq(
                        es@[i].1,
                        fs@[j].1,
                    );
                lemma_equality_symmetric(es@[i].0, fs@[j].0);
                lemma_equality_symmetric(es@[i].1, fs@[j].1);
                assert(value_eq(fs@[j].0, es@[i].0) && value_eq(fs@[j].1, es@[i].1));
            }
        },
        CandyShared::ValueSet(xs) => {
            let ys = b->ValueSet_0;
            assert forall|j: int| 0 <= j < ys@.len() implies has_element(#[trigger] ys@[j], xs@) by {
                assert(element_covered(ys@[j], xs@));
                let i = choose|i: int| 0 <= i < xs@.len() && value_eq(#[trigger] xs@[i], ys@[j]);
                lemma_equality_symmetric(xs@[i], ys@[j]);
                assert(value_eq(ys@[j], xs@[i]));
            }
            assert forall|i: int| 0 <= i < xs@.len() implies element_covered(#[trigger] xs@[i], ys@) by {
                assert(has_element(xs@[i], ys@));
                let j = choose|j: int| 0 <= j < ys@.len() && value_eq(xs@[i], #[trigger] ys@[j]);
                lemma_equality_symmetric(xs@[i], ys@[j]);
                assert(value_eq(ys@[j], xs@[i]));
            }
        },
        _ => {},
    }
}

impl PartialEq for CandyShared {
    fn eq(&self, other: &CandyShared) -> (r: bool) {
        values_equal(self, other)
    }
}

impl vstd::std_specs::cmp::PartialEqSpecImpl for CandyShared {
    open spec fn obeys_eq_spec() -> bool {
        true
    }

    open spec fn eq_spec(&self, other: &CandyShared) -> bool {
        value_eq(*self, *other)
    }
}

impl Eq for CandyShared {

}

} // verus!
