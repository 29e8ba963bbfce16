//! A hash of values that agrees with their equality.

use vstd::prelude::*;
use crate::number::{bytes_be, Int, Nat};
use crate::blob::kind_of;
use crate::equality::{element_covered, entry_covered, has_element, has_entry, value_eq};
use crate::render::abs;
use crate::types::{float_equal, float_exponent, float_fraction, CandyKind, Float, PropertyShared};
use crate::value::CandyShared;

verus! {

/// One step of the hash: the state combined with one word.
pub open spec fn mix(h: u64, x: u64) -> u64 {
    (h ^ x).wrapping_mul(0x100_0000_01b3u64)
}

/// The state after mixing in each byte.
pub open spec fn mix_bytes(h: u64, b: Seq<u8>) -> u64
    decreases b.len(),
{
    if b.len() == 0 {
        h
    } else {
        mix(mix_bytes(h, b.drop_last()), b.last() as u64)
    }
}

/// The state after mixing in each character's code point.
pub open spec fn mix_chars(h: u64, s: Seq<char>) -> u64
    decreases s.len(),
{
    if s.len() == 0 {
        h
    } else {
        mix(mix_chars(h, s.drop_last()), s.last() as u32 as u64)
    }
}

/// A number identifying the variant.
pub open spec fn kind_code(k: CandyKind) -> u64 {
    match k {
        CandyKind::Int => 1,
        CandyKind::Int8 => 2,
        CandyKind::Int16 => 3,
        CandyKind::Int32 => 4,
        CandyKind::Int64 => 5,
        CandyKind::Ints => 6,
        CandyKind::Nat => 7,
        CandyKind::Nat8 => 8,
        CandyKind::Nat16 => 9,
        CandyKind::Nat32 => 10,
        CandyKind::Nat64 => 11,
        CandyKind::Float => 12,
        CandyKind::Text => 13,
        CandyKind::Bool => 14,
        CandyKind::Blob => 15,
        CandyKind::Bytes => 16,
        CandyKind::Class => 17,
        CandyKind::Principal => 18,
        CandyKind::Option => 19,
        CandyKind::Array => 20,
        CandyKind::Nats => 21,
        CandyKind::Floats => 22,
        CandyKind::ValueMap => 23,
        CandyKind::ValueSet => 24,
        CandyKind::Empty => 25,
    }
}

/// The float's bits, with both zeros mapped to the same word.
pub open spec fn float_key(bits: u64) -> u64 {
    if float_exponent(bits) == 0 && float_fraction(bits) == 0 {
        0
    } else {
        bits
    }
}

/// The hash of a value: the variant mixed with the payload. Scalars, text and
/// byte strings contribute their contents; records and arrays fold in their
/// parts in order, numeric vectors their elements in order; maps and sets
/// contribute their length and the bitwise or of their entries' hashes, which
/// depends neither on the order nor on repeats of entries.
pub open spec fn hash_of(v: CandyShared) -> u64
    decreases v,
{
    let h = mix(0xcbf2_9ce4_8422_2325u64, kind_code(kind_of(v)));
    match v {
        CandyShared::Int(n) => mix_bytes(mix(h, if n@ < 0 { 1u64 } else { 0u64 }), bytes_be(abs(n@))),
        CandyShared::Int8(x) => mix(h, x as u64),
        CandyShared::Int16(x) => mix(h, x as u64),
        CandyShared::Int32(x) => mix(h, x as u64),
        CandyShared::Int64(x) => mix(h, x as u64),
        CandyShared::Ints(ns) => ints_hash(h, ns@),
        CandyShared::Nat(n) => mix_bytes(h, bytes_be(n@)),
        CandyShared::Nat8(x) => mix(h, x as u64),
        CandyShared::Nat16(x) => mix(h, x as u64),
        CandyShared::Nat32(x) => mix(h, x as u64),
        CandyShared::Nat64(x) => mix(h, x),
        CandyShared::Float(f) => mix(h, float_key(f.bits)),
        CandyShared::Text(t) => mix_chars(h, t@),
        CandyShared::Bool(b) => mix(h, if b { 1u64 } else { 0u64 }),
        CandyShared::Blob(b) => mix_bytes(h, b@),
        CandyShared::Bytes(b) => mix_bytes(h, b@),
        CandyShared::Class(ps) => fields_hash(h, ps@),
        CandyShared::Principal(p) => mix_bytes(h, p@),
        CandyShared::Option(o) => match o {
            Some(b) => mix(mix(h, 1), hash_of(*b)),
            None => mix(h, 0),
        },
        CandyShared::Array(a) => values_hash(h, a@),
        CandyShared::Nats(ns) => nats_hash(h, ns@),
        CandyShared::Floats(fs) => floats_hash(h, fs@),
        CandyShared::ValueMap(es) => mix(mix(h, es@.len() as u64), entries_or(es@)),
        CandyShared::ValueSet(xs) => mix(mix(h, xs@.len() as u64), elements_or(xs@)),
    }
}

/// The hash of a map entry.
pub open spec fn entry_hash(k: CandyShared, v: CandyShared) -> u64 {
    mix(hash_of(k), hash_of(v))
}

/// The bitwise or of the entries' hashes.
pub open spec fn entries_or(s: Seq<(CandyShared, CandyShared)>) -> u64
    decreases s,
{
    if s.len() == 0 {
        0
    } else {
        entries_or(s.subrange(0, s.len() - 1)) | mix(hash_of(s[s.len() - 1].0), hash_of(s[s.len() - 1].1))
    }
}

/// The bitwise or of the elements' hashes.
pub open spec fn elements_or(s: Seq<CandyShared>) -> u64
    decreases s,
{
    if s.len() == 0 {
        0
    } else {
        elements_or(s.subrange(0, s.len() - 1)) | hash_of(s[s.len() - 1])
    }
}

/// The state after folding in each number's sign and digits, in order.
pub open spec fn ints_hash(h: u64, s: Seq<Int>) -> u64
    decreases s.len(),
{
    if s.len() == 0 {
        h
    } else {
        let n = s.last()@;
        mix_bytes(mix(ints_hash(h, s.drop_last()), if n < 0 { 1u64 } else { 0u64 }), bytes_be(abs(n)))
    }
}

/// The state after folding in each number's digits, in order.
pub open spec fn nats_hash(h: u64, s: Seq<Nat>) -> u64
    decreases s.len(),
{
    if s.len() == 0 {
        h
    } else {
        mix_bytes(mix(nats_hash(h, s.drop_last()), 0x2c), bytes_be(s.last()@))
    }
}

/// The state after folding in each float, both zeros alike, in order.
pub open spec fn floats_hash(h: u64, s: Seq<Float>) -> u64
    decreases s.len(),
{
    if s.len() == 0 {
        h
    } else {
        mix(floats_hash(h, s.drop_last()), float_key(s.last().bits))
    }
}

/// The state after folding in each element's hash, in order.
pub open spec fn values_hash(h: u64, s: Seq<CandyShared>) -> u64
    decreases s,
{
    if s.len() == 0 {
        h
    } else {
        mix(values_hash(h, s.subrange(0, s.len() - 1)), hash_of(s[s.len() - 1]))
    }
}

/// The state after folding in each field's name, flag and value hash, in order.
pub open spec fn fields_hash(h: u64, s: Seq<PropertyShared>) -> u64
    decreases s,
{
    if s.len() == 0 {
        h
    } else {
        let p = s[s.len() - 1];
        mix(
            mix(
                mix_chars(fields_hash(h, s.subrange(0, s.len() - 1)), p.name@),
                if p.immutable { 1u64 } else { 0u64 },
            ),
            hash_of(p.value),
        )
    }
}

fn mix_exec(h: u64, x: u64) -> (r: u64)
    ensures
        r == mix(h, x),
{
    (h ^ x).wrapping_mul(0x100_0000_01b3u64)
}

fn mix_bytes_exec(h: u64, b: &Vec<u8>) -> (r: u64)
    ensures
        r == mix_bytes(h, b@),
{
    let mut acc = h;
    let mut i: usize = 0;
    while i < b.len()
        invariant
            0 <= i <= b@.len(),
            acc == mix_bytes(h, b@.take(i as int)),
        decreases b@.len() - i,
    {
        assert(b@.take(i + 1).drop_last() =~= b@.take(i as int));
        acc = mix_exec(acc, b[i] as u64);
        i = i + 1;
    }
    assert(b@.take(i as int) =~= b@);
    acc
}

fn mix_chars_exec(h: u64, t: &String) -> (r: u64)
    ensures
        r == mix_chars(h, t@),
{
    let s = t.as_str();
    let mut acc = h;
    proof {
        vstd::string::axiom_spec_iter(s);
    }
    for c in it: s.chars()
        invariant
            s@ == t@,
            it.seq() == t@,
            acc == mix_chars(h, t@.take(it.index() as int)),
    {
        proof {
            let k = it.index() as int;
            assert(t@.take(k + 1).drop_last() =~= t@.take(k));
        }
        acc = mix_exec(acc, c as u32 as u64);
    }
    assert(t@.take(t@.len() as int) =~= t@);
    acc
}

fn values_hash_exec(h: u64, a: &Vec<CandyShared>) -> (r: u64)
    ensures
        r == values_hash(h, a@),
    decreases a,
{
    let mut acc = h;
    let mut i: usize = 0;
    while i < a.len()
        invariant
            0 <= i <= a@.len(),
            acc == values_hash(h, a@.subrange(0, i as int)),
        decreases a@.len() - i,
    {
        assert(a@.subrange(0, i + 1).subrange(0, i as int) =~= a@.subrange(0, i as int));
        let x = hash_value(&a[i]);
        acc = mix_exec(acc, x);
        i = i + 1;
    }
    assert(a@.subrange(0, i as int) =~= a@);
    acc
}

fn fields_hash_exec(h: u64, ps: &Vec<PropertyShared>) -> (r: u64)
    ensures
        r == fields_hash(h, ps@),
    decreases ps,
{
    let mut acc = h;
    let mut i: usize = 0;
    while i < ps.len()
        invariant
            0 <= i <= ps@.len(),
            acc == fields_hash(h, ps@.subrange(0, i as int)),
        decreases ps@.len() - i,
    {
        assert(ps@.subrange(0, i + 1).subrange(0, i as int) =~= ps@.subrange(0, i as int));
        let p = &ps[i];
        let x = hash_value(&p.value);
        acc = mix_exec(mix_exec(mix_chars_exec(acc, &p.name), if p.immutable { 1 } else { 0 }), x);
        i = i + 1;
    }
    assert(ps@.subrange(0, i as int) =~= ps@);
    acc
}

fn float_key_exec(b: u64) -> (r: u64)
    ensures
        r == float_key(b),
{
    if ((b >> 52u64) & 0x7ffu64) == 0 && (b & 0xf_ffff_ffff_ffffu64) == 0 {
        0
    } else {
        b
    }
}

fn ints_hash_exec(h: u64, ns: &Vec<Int>) -> (r: u64)
    ensures
        r == ints_hash(h, ns@),
{
    let mut acc = h;
    let mut i: usize = 0;
    while i < ns.len()
        invariant
            0 <= i <= ns@.len(),
            acc == ints_hash(h, ns@.take(i as int)),
        decreases ns@.len() - i,
    {
        assert(ns@.take(i + 1).drop_last() =~= ns@.take(i as int));
        let n = &ns[i];
        let signed = mix_exec(acc, if n.is_negative() { 1 } else { 0 });
        acc = mix_bytes_exec(signed, &n.magnitude().to_bytes_be());
        i = i + 1;
    }
    assert(ns@.take(i as int) =~= ns@);
    acc
}

fn nats_hash_exec(h: u64, ns: &Vec<Nat>) -> (r: u64)
    ensures
        r == nats_hash(h, ns@),
{
    let mut acc = h;
    let mut i: usize = 0;
    while i < ns.len()
        invariant
            0 <= i <= ns@.len(),
            acc == nats_hash(h, ns@.take(i as int)),
        decreases ns@.len() - i,
    {
        assert(ns@.take(i + 1).drop_last() =~= ns@.take(i as int));
        acc = mix_bytes_exec(mix_exec(acc, 0x2c), &ns[i].to_bytes_be());
        i = i + 1;
    }
    assert(ns@.take(i as int) =~= ns@);
    acc
}

fn floats_hash_exec(h: u64, fs: &Vec<Float>) -> (r: u64)
    ensures
        r == floats_hash(h, fs@),
{
    let mut acc = h;
    let mut i: usize = 0;
    while i < fs.len()
        invariant
            0 <= i <= fs@.len(),
            acc == floats_hash(h, fs@.take(i as int)),
        decreases fs@.len() - i,
    {
        assert(fs@.take(i + 1).drop_last() =~= fs@.take(i as int));
        acc = mix_exec(acc, float_key_exec(fs[i].bits));
        i = i + 1;
    }
    assert(fs@.take(i as int) =~= fs@);
    acc
}

fn entries_or_exec(es: &Vec<(CandyShared, CandyShared)>) -> (r: u64)
    ensures
        r == entries_or(es@),
    decreases es,
{
    let mut acc: u64 = 0;
    let mut i: usize = 0;
    while i < es.len()
        invariant
            0 <= i <= es@.len(),
            acc == entries_or(es@.subrange(0, i as int)),
        decreases es@.len() - i,
    {
        assert(es@.subrange(0, i + 1).subrange(0, i as int) =~= es@.subrange(0, i as int));
        let k = hash_value(&es[i].0);
        let v = hash_value(&es[i].1);
        acc = acc | mix_exec(k, v);
        i = i + 1;
    }
    assert(es@.subrange(0, i as int) =~= es@);
    acc
}

fn elements_or_exec(xs: &Vec<CandyShared>) -> (r: u64)
    ensures
        r == elements_or(xs@),
    decreases xs,
{
    let mut acc: u64 = 0;
    let mut i: usize = 0;
    while i < xs.len()
        invariant
            0 <= i <= xs@.len(),
            acc == elements_or(xs@.subrange(0, i as int)),
        decreases xs@.len() - i,
    {
        assert(xs@.subrange(0, i + 1).subrange(0, i as int) =~= xs@.subrange(0, i as int));
        acc = acc | hash_value(&xs[i]);
        i = i + 1;
    }
    assert(xs@.subrange(0, i as int) =~= xs@);
    acc
}

/// The hash of a value (see [`hash_of`]).
pub fn hash_value(v: &CandyShared) -> (r: u64)
    ensures
        r == hash_of(*v),
    decreases v,
{
    let h = mix_exec(0xcbf2_9ce4_8422_2325u64, kind_number(v));
    match v {
        CandyShared::Int(n) => {
            let sign = mix_exec(h, if n.is_negative() { 1 } else { 0 });
            mix_bytes_exec(sign, &n.magnitude().to_bytes_be())
        },
        CandyShared::Int8(x) => mix_exec(h, *x as u64),
        CandyShared::Int16(x) => mix_exec(h, *x as u64),
        CandyShared::Int32(x) => mix_exec(h, *x as u64),
        CandyShared::Int64(x) => mix_exec(h, *x as u64),
        CandyShared::Ints(ns) => ints_hash_exec(h, ns),
        CandyShared::Nat(n) => mix_bytes_exec(h, &n.to_bytes_be()),
        CandyShared::Nat8(x) => mix_exec(h, *x as u64),
        CandyShared::Nat16(x) => mix_exec(h, *x as u64),
        CandyShared::Nat32(x) => mix_exec(h, *x as u64),
        CandyShared::Nat64(x) => mix_exec(h, *x),
        CandyShared::Float(f) => {
            let b = f.bits;
            let key = if ((b >> 52u64) & 0x7ffu64) == 0 && (b & 0xf_ffff_ffff_ffffu64) == 0 {
                0
            } else {
                b
            };
            mix_exec(h, key)
        },
        CandyShared::Text(t) => mix_chars_exec(h, t),
        CandyShared::Bool(b) => mix_exec(h, if *b { 1 } else { 0 }),
        CandyShared::Blob(b) => mix_bytes_exec(h, b),
        CandyShared::Bytes(b) => mix_bytes_exec(h, b),
        CandyShared::Class(ps) => fields_hash_exec(h, ps),
        CandyShared::Principal(p) => mix_bytes_exec(h, p.as_bytes()),
        CandyShared::Option(o) => match o {
            Some(b) => mix_exec(mix_exec(h, 1), hash_value(b)),
            None => mix_exec(h, 0),
        },
        CandyShared::Array(a) => values_hash_exec(h, a),
        CandyShared::Nats(ns) => nats_hash_exec(h, ns),
        CandyShared::Floats(fs) => floats_hash_exec(h, fs),
        CandyShared::ValueMap(es) => mix_exec(mix_exec(h, es.len() as u64), entries_or_exec(es)),
        CandyShared::ValueSet(xs) => mix_exec(mix_exec(h, xs.len() as u64), elements_or_exec(xs)),
    }
}

fn kind_number(v: &CandyShared) -> (r: u64)
    ensures
        r == kind_code(kind_of(*v)),
{
    match v.kind() {
        CandyKind::Int => 1,
        CandyKind::Int8 => 2,
        CandyKind::Int16 => 3,
        CandyKind::Int32 => 4,
        CandyKind::Int64 => 5,
        CandyKind::Ints => 6,
        CandyKind::Nat => 7,
        CandyKind::Nat8 => 8,
        CandyKind::Nat16 => 9,
        CandyKind::Nat32 => 10,
        CandyKind::Nat64 => 11,
        CandyKind::Float => 12,
        CandyKind::Text => 13,
        CandyKind::Bool => 14,
        CandyKind::Blob => 15,
        CandyKind::Bytes => 16,
        CandyKind::Class => 17,
        CandyKind::Principal => 18,
        CandyKind::Option => 19,
        CandyKind::Array => 20,
        CandyKind::Nats => 21,
        CandyKind::Floats => 22,
        CandyKind::ValueMap => 23,
        CandyKind::ValueSet => 24,
        CandyKind::Empty => 25,
    }
}

/// Relies on std's `Hasher::write_u64`: feeds the value's hash to the hasher.
impl core::hash::Hash for CandyShared {
    #[verifier::external_body]
    fn hash<H: core::hash::Hasher>(&self, state: &mut H) {
        state.write_u64(hash_value(self))
    }
}

impl CandyShared {
    /// The hash of the value (see [`hash_of`]); equal values hash alike.
    pub fn hash_value(&self) -> (r: u64)
        ensures
            r == hash_of(*self),
    {
        hash_value(self)
    }
}


/// Equal values hash alike, so values can key hash-based collections.
pub proof fn lemma_equal_values_hash_alike(a: CandyShared, b: CandyShared)
    requires
        value_eq(a, b),
    ensures
        hash_of(a) == hash_of(b),
    decreases a,
{
    assert(kind_of(a) == kind_of(b));
    let h = mix(0xcbf2_9ce4_8422_2325u64, kind_code(kind_of(a)));
    match a {
        CandyShared::Ints(ns) => {
            lemma_ints_hash_alike(h, ns@, (b->Ints_0)@);
        },
        CandyShared::Nats(ns) => {
            lemma_nats_hash_alike(h, ns@, (b->Nats_0)@);
        },
        CandyShared::Floats(fs) => {
            lemma_floats_hash_alike(h, fs@, (b->Floats_0)@);
        },
        CandyShared::Class(ps) => {
            let qs = b->Class_0;
            lemma_fields_hash_alike(h, ps@, qs@);
        },
        CandyShared::Array(xs) => {
            let ys = b->Array_0;
            lemma_values_hash_alike(h, xs@, ys@);
        },
        CandyShared::Option(o) => {
            if let Some(x) = o {
                let y = b->Option_0->Some_0;
                lemma_equal_values_hash_alike(*x, *y);
            }
        },
        CandyShared::ValueMap(es) => {
            lemma_map_hash_alike(es@, (b->ValueMap_0)@);
        },
        CandyShared::ValueSet(xs) => {
            lemma_set_hash_alike(xs@, (b->ValueSet_0)@);
        },
        _ => {},
    }
}

/// Whether `x` is the hash of some entry of `s`.
pub open spec fn entry_hash_in(x: u64, s: Seq<(CandyShared, CandyShared)>) -> bool {
    exists|i: int| 0 <= i < s.len() && #[trigger] entry_hash(s[i].0, s[i].1) == x
}

/// Whether `x` is the hash of some element of `s`.
pub open spec fn element_hash_in(x: u64, s: Seq<CandyShared>) -> bool {
    exists|i: int| 0 <= i < s.len() && #[trigger] hash_of(s[i]) == x
}

proof fn lemma_or_facts(a: u64, b: u64, c: u64)
    ensures
        (a | b) | c == (a | c) | b,
        (a | c) | c == a | c,
        a | b == b | a,
        0u64 | a == a,
{
    assert((a | b) | c == (a | c) | b) by (bit_vector);
    assert((a | c) | c == a | c) by (bit_vector);
    assert(a | b == b | a) by (bit_vector);
    assert(0u64 | a == a) by (bit_vector);
}

proof fn lemma_entries_or_absorbs(s: Seq<(CandyShared, CandyShared)>, x: u64)
    requires
        entry_hash_in(x, s),
    ensures
        entries_or(s) | x == entries_or(s),
    decreases s.len(),
{
    let n = s.len() - 1;
    let t = s.subrange(0, n);
    let e = entry_hash(s[n].0, s[n].1);
    assert(entries_or(s) == entries_or(t) | e);
    lemma_or_facts(entries_or(t), e, x);
    if e != x {
        let i = choose|i: int| 0 <= i < s.len() && #[trigger] entry_hash(s[i].0, s[i].1) == x;
        assert(i < n);
        assert(t[i] == s[i]);
        assert(entry_hash_in(x, t));
        lemma_entries_or_absorbs(t, x);
    }
}

proof fn lemma_entries_or_covered(s: Seq<(CandyShared, CandyShared)>, t: Seq<(CandyShared, CandyShared)>)
    requires
        forall|j: int| 0 <= j < t.len() ==> entry_hash_in(#[trigger] entry_hash(t[j].0, t[j].1), s),
    ensures
        entries_or(t) | entries_or(s) == entries_or(s),
    decreases t.len(),
{
    lemma_or_facts(entries_or(s), 0, 0);
    if t.len() > 0 {
        let n = t.len() - 1;
        let u = t.subrange(0, n);
        assert forall|j: int| 0 <= j < u.len() implies entry_hash_in(
            #[trigger] entry_hash(u[j].0, u[j].1),
            s,
        ) by {
            assert(u[j] == t[j]);
        }
        lemma_entries_or_covered(s, u);
        let e = entry_hash(t[n].0, t[n].1);
        assert(entry_hash_in(e, s));
        assert(entries_or(t) == entries_or(u) | e);
        lemma_entries_or_absorbs(s, e);
        lemma_or_facts(entries_or(u), e, entries_or(s));
    }
}

proof fn lemma_elements_or_absorbs(s: Seq<CandyShared>, x: u64)
    requires
        element_hash_in(x, s),
    ensures
        elements_or(s) | x == elements_or(s),
    decreases s.len(),
{
    let n = s.len() - 1;
    let t = s.subrange(0, n);
    let e = hash_of(s[n]);
    assert(elements_or(s) == elements_or(t) | e);
    lemma_or_facts(elements_or(t), e, x);
    if e != x {
        let i = choose|i: int| 0 <= i < s.len() && #[trigger] hash_of(s[i]) == x;
        assert(i < n);
        assert(t[i] == s[i]);
        assert(element_hash_in(x, t));
        lemma_elements_or_absorbs(t, x);
    }
}

proof fn lemma_elements_or_covered(s: Seq<CandyShared>, t: Seq<CandyShared>)
    requires
        forall|j: int| 0 <= j < t.len() ==> element_hash_in(#[trigger] hash_of(t[j]), s),
    ensures
        elements_or(t) | elements_or(s) == elements_or(s),
    decreases t.len(),
{
    lemma_or_facts(elements_or(s), 0, 0);
    if t.len() > 0 {
        let n = t.len() - 1;
        let u = t.subrange(0, n);
        assert forall|j: int| 0 <= j < u.len() implies element_hash_in(#[trigger] hash_of(u[j]), s) by {
            assert(u[j] == t[j]);
        }
        lemma_elements_or_covered(s, u);
        let e = hash_of(t[n]);
        assert(element_hash_in(e, s));
        assert(elements_or(t) == elements_or(u) | e);
        lemma_elements_or_absorbs(s, e);
        lemma_or_facts(elements_or(u), e, elements_or(s));
    }
}

proof fn lemma_map_hash_alike(es: Seq<(CandyShared, CandyShared)>, fs: Seq<(CandyShared, CandyShared)>)
    requires
        forall|i: int| 0 <= i < es.len() ==> has_entry(#[trigger] es[i], fs),
        forall|j: int| 0 <= j < fs.len() ==> entry_covered(#[trigger] fs[j], es),
    ensures
        entries_or(es) == entries_or(fs),
    decreases es,
{
    assert forall|i: int| 0 <= i < es.len() implies entry_hash_in(
        #[trigger] entry_hash(es[i].0, es[i].1),
        fs,
    ) by {
        assert(has_entry(es[i], fs));
        let j = choose|j: int|
            0 <= j < fs.len() && value_eq(es[i].0, #[trigger] fs[j].0) && value_eq(es[i].1, fs[j].1);
        lemma_equal_values_hash_alike(es[i].0, fs[j].0);
        lemma_equal_values_hash_alike(es[i].1, fs[j].1);
        assert(entry_hash(fs[j].0, fs[j].1) == entry_hash(es[i].0, es[i].1));
    }
    assert forall|j: int| 0 <= j < fs.len() implies entry_hash_in(
        #[trigger] entry_hash(fs[j].0, fs[j].1),
        es,
    ) by {
        assert(entry_covered(fs[j], es));
        let i = choose|i: int|
            0 <= i < es.len() && value_eq(#[trigger] es[i].0, fs[j].0) && value_eq(es[i].1, fs[j].1);
        lemma_equal_values_hash_alike(es[i].0, fs[j].0);
        lemma_equal_values_hash_alike(es[i].1, fs[j].1);
        assert(entry_hash(es[i].0, es[i].1) == entry_hash(fs[j].0, fs[j].1));
    }
    lemma_entries_or_covered(fs, es);
    lemma_entries_or_covered(es, fs);
    lemma_or_facts(entries_or(es), entries_or(fs), 0);
}

proof fn lemma_set_hash_alike(xs: Seq<CandyShared>, ys: Seq<CandyShared>)
    requires
        forall|i: int| 0 <= i < xs.len() ==> has_element(#[trigger] xs[i], ys),
        forall|j: int| 0 <= j < ys.len() ==> element_covered(#[trigger] ys[j], xs),
    ensures
        elements_or(xs) == elements_or(ys),
    decreases xs,
{
    assert forall|i: int| 0 <= i < xs.len() implies element_hash_in(#[trigger] hash_of(xs[i]), ys) by {
        assert(has_element(xs[i], ys));
        let j = choose|j: int| 0 <= j < ys.len() && value_eq(xs[i], #[trigger] ys[j]);
        lemma_equal_values_hash_alike(xs[i], ys[j]);
    }
    assert forall|j: int| 0 <= j < ys.len() implies element_hash_in(#[trigger] hash_of(ys[j]), xs) by {
        assert(element_covered(ys[j], xs));
        let i = choose|i: int| 0 <= i < xs.len() && value_eq(#[trigger] xs[i], ys[j]);
        lemma_equal_values_hash_alike(xs[i], ys[j]);
    }
    lemma_elements_or_covered(ys, xs);
    lemma_elements_or_covered(xs, ys);
    lemma_or_facts(elements_or(xs), elements_or(ys), 0);
}

proof fn lemma_ints_hash_alike(h: u64, s1: Seq<Int>, s2: Seq<Int>)
    requires
        s1.len() == s2.len(),
        forall|i: int| 0 <= i < s1.len() ==> #[trigger] s1[i]@ == s2[i]@,
    ensures
        ints_hash(h, s1) == ints_hash(h, s2),
    decreases s1.len(),
{
    if s1.len() > 0 {
        lemma_ints_hash_alike(h, s1.drop_last(), s2.drop_last());
        assert(s1.last()@ == s2.last()@);
    }
}

proof fn lemma_nats_hash_alike(h: u64, s1: Seq<Nat>, s2: Seq<Nat>)
    requires
        s1.len() == s2.len(),
        forall|i: int| 0 <= i < s1.len() ==> #[trigger] s1[i]@ == s2[i]@,
    ensures
        nats_hash(h, s1) == nats_hash(h, s2),
    decreases s1.len(),
{
    if s1.len() > 0 {
        lemma_nats_hash_alike(h, s1.drop_last(), s2.drop_last());
        assert(s1.last()@ == s2.last()@);
    }
}

proof fn lemma_floats_hash_alike(h: u64, s1: Seq<Float>, s2: Seq<Float>)
    requires
        s1.len() == s2.len(),
        forall|i: int| 0 <= i < s1.len() ==> float_equal(#[trigger] s1[i].bits, s2[i].bits),
    ensures
        floats_hash(h, s1) == floats_hash(h, s2),
    decreases s1.len(),
{
    if s1.len() > 0 {
        lemma_floats_hash_alike(h, s1.drop_last(), s2.drop_last());
        assert(float_equal(s1.last().bits, s2.last().bits));
    }
}

proof fn lemma_values_hash_alike(h: u64, s1: Seq<CandyShared>, s2: Seq<CandyShared>)
    requires
        s1.len() == s2.len(),
        forall|i: int| 0 <= i < s1.len() ==> value_eq(#[trigger] s1[i], s2[i]),
    ensures
        values_hash(h, s1) == values_hash(h, s2),
    decreases s1,
{
    if s1.len() > 0 {
        let n = s1.len() - 1;
        let t1 = s1.subrange(0, n);
        let t2 = s2.subrange(0, n);
        assert forall|i: int| 0 <= i < t1.len() implies value_eq(#[trigger] t1[i], t2[i]) by {
            assert(t1[i] == s1[i]);
        }
        lemma_values_hash_alike(h, t1, t2);
        lemma_equal_values_hash_alike(s1[n], s2[n]);
    }
}

proof fn lemma_fields_hash_alike(h: u64, s1: Seq<PropertyShared>, s2: Seq<PropertyShared>)
    requires
        s1.len() == s2.len(),
        forall|i: int|
            #![trigger s1[i]]
            0 <= i < s1.len() ==> s1[i].name@ == s2[i].name@ && s1[i].immutable == s2[i].immutable
                && value_eq(s1[i].value, s2[i].value),
    ensures
        fields_hash(h, s1) == fields_hash(h, s2),
    decreases s1,
{
    if s1.len() > 0 {
        let n = s1.len() - 1;
        let t1 = s1.subrange(0, n);
        let t2 = s2.subrange(0, n);
        assert forall|i: int|
            #![trigger t1[i]]
            0 <= i < t1.len() implies t1[i].name@ == t2[i].name@ && t1[i].immutable
                == t2[i].immutable && value_eq(t1[i].value, t2[i].value) by {
            assert(t1[i] == s1[i]);
            assert(t2[i] == s2[i]);
        }
        lemma_fields_hash_alike(h, t1, t2);
        lemma_equal_values_hash_alike(s1[n].value, s2[n].value);
    }
}

} // verus!
