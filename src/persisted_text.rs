//! The display form of persisted values.

use vstd::prelude::*;
use vstd::string::StringExecFns;
use crate::number::{decimal, signed_decimal};
use crate::render::{
    abs, append_str, decimal_string, hex_of, hex_string, join, lemma_join_push, number_list,
    principal_text, principal_text_of, signed_decimal_string, wrap,
};
use crate::stable::{self, CandyValue, Property};

verus! {

/// The display form of a persisted value, by the same rules as
/// [`crate::render::text_of`]; the empty value renders as nothing.
pub open spec fn persisted_text(v: CandyValue) -> Seq<char>
    decreases v,
{
    match v {
        CandyValue::Int(x) => signed_decimal(x < 0, abs(x as int)),
        CandyValue::Int8(x) => signed_decimal(x < 0, abs(x as int)),
        CandyValue::Int16(x) => signed_decimal(x < 0, abs(x as int)),
        CandyValue::Int32(x) => signed_decimal(x < 0, abs(x as int)),
        CandyValue::Int64(x) => signed_decimal(x < 0, abs(x as int)),
        CandyValue::Nat(x) => decimal(x as nat),
        CandyValue::Nat8(x) => decimal(x as nat),
        CandyValue::Nat16(x) => decimal(x as nat),
        CandyValue::Nat32(x) => decimal(x as nat),
        CandyValue::Nat64(x) => decimal(x as nat),
        CandyValue::Float(f) => f.text@,
        CandyValue::Text(t) => t@,
        CandyValue::Bool(b) => if b {
            "true"@
        } else {
            "false"@
        },
        CandyValue::Blob(b) => hex_of(b@),
        CandyValue::Class(ps) => "{"@ + join(persisted_field_parts(ps@), " "@) + "}"@,
        CandyValue::Principal(p) => principal_text_of(p@),
        CandyValue::Option(o) => match o {
            Some(b) => persisted_text(*b),
            None => "null"@,
        },
        CandyValue::Array(a) => match a {
            stable::Array::Frozen(xs) => "["@ + join(persisted_parts(xs@), " "@) + "]"@,
            stable::Array::Thawed(xs) => "["@ + join(persisted_parts(xs@), " "@) + "]"@,
        },
        CandyValue::Nats(n) => match n {
            stable::Nats::Frozen(xs) => nats_text(xs@),
            stable::Nats::Thawed(xs) => nats_text(xs@),
        },
        CandyValue::Floats(n) => match n {
            stable::Floats::Frozen(xs) => "["@ + join(Seq::new(xs@.len(), |i: int| xs@[i].text@), " "@)
                + "]"@,
            stable::Floats::Thawed(xs) => "["@ + join(Seq::new(xs@.len(), |i: int| xs@[i].text@), " "@)
                + "]"@,
        },
        CandyValue::Bytes(b) => match b {
            stable::Bytes::Frozen(xs) => hex_of(xs@),
            stable::Bytes::Thawed(xs) => hex_of(xs@),
        },
        CandyValue::Empty => Seq::empty(),
    }
}

/// `[n n ...]` in plain decimal.
pub open spec fn nats_text(xs: Seq<u128>) -> Seq<char> {
    "["@ + join(Seq::new(xs.len(), |i: int| decimal(xs[i] as nat)), " "@) + "]"@
}

/// `{value}` for each element.
pub open spec fn persisted_parts(s: Seq<CandyValue>) -> Seq<Seq<char>>
    decreases s,
{
    if s.len() == 0 {
        Seq::empty()
    } else {
        persisted_parts(s.subrange(0, s.len() - 1)).push("{"@ + persisted_text(s[s.len() - 1]) + "}"@)
    }
}

/// `name:value;` for each field, with `var ` before the value when immutable.
pub open spec fn persisted_field_parts(s: Seq<Property>) -> Seq<Seq<char>>
    decreases s,
{
    if s.len() == 0 {
        Seq::empty()
    } else {
        let p = s[s.len() - 1];
        persisted_field_parts(s.subrange(0, s.len() - 1)).push(
            p.name@ + ":"@ + (if p.immutable {
                "var "@
            } else {
                Seq::empty()
            }) + persisted_text(p.value) + ";"@,
        )
    }
}

fn persisted_values(a: &[CandyValue]) -> (r: String)
    ensures
        r@ == join(persisted_parts(a@), " "@),
    decreases a@,
{
    let mut out = String::new();
    let mut i: usize = 0;
    while i < a.len()
        invariant
            0 <= i <= a@.len(),
            out@ == join(persisted_parts(a@.subrange(0, i as int)), " "@),
            persisted_parts(a@.subrange(0, i as int)).len() == i,
        decreases a@.len() - i,
    {
        proof {
            assert(a@.subrange(0, i + 1).subrange(0, i as int) =~= a@.subrange(0, i as int));
            lemma_join_push(
                persisted_parts(a@.subrange(0, i as int)),
                "{"@ + persisted_text(a@[i as int]) + "}"@,
                " "@,
            );
        }
        let part = persisted_display(&a[i]);
        if i > 0 {
            append_str(&mut out, " ");
        }
        append_str(&mut out, "{");
        append_str(&mut out, part.as_str());
        append_str(&mut out, "}");
        proof {
            assert(out@ =~= join(persisted_parts(a@.subrange(0, i + 1)), " "@));
        }
        i = i + 1;
    }
    assert(a@.subrange(0, i as int) =~= a@);
    out
}

fn persisted_fields(ps: &[Property]) -> (r: String)
    ensures
        r@ == join(persisted_field_parts(ps@), " "@),
    decreases ps@,
{
    let mut out = String::new();
    let mut i: usize = 0;
    while i < ps.len()
        invariant
            0 <= i <= ps@.len(),
            out@ == join(persisted_field_parts(ps@.subrange(0, i as int)), " "@),
            persisted_field_parts(ps@.subrange(0, i as int)).len() == i,
        decreases ps@.len() - i,
    {
        let p = &ps[i];
        let ghost part = p.name@ + ":"@ + (if p.immutable {
            "var "@
        } else {
            Seq::empty()
        }) + persisted_text(p.value) + ";"@;
        proof {
            assert(ps@.subrange(0, i + 1).subrange(0, i as int) =~= ps@.subrange(0, i as int));
            lemma_join_push(persisted_field_parts(ps@.subrange(0, i as int)), part, " "@);
        }
        let value = persisted_display(&p.value);
        if i > 0 {
            append_str(&mut out, " ");
        }
        append_str(&mut out, p.name.as_str());
        append_str(&mut out, ":");
        if p.immutable {
            append_str(&mut out, "var ");
        }
        append_str(&mut out, value.as_str());
        append_str(&mut out, ";");
        proof {
            assert(out@ =~= join(persisted_field_parts(ps@.subrange(0, i + 1)), " "@));
        }
        i = i + 1;
    }
    assert(ps@.subrange(0, i as int) =~= ps@);
    out
}

fn nats_string(xs: &Vec<u128>) -> (r: String)
    ensures
        r@ == nats_text(xs@),
{
    let mut parts: Vec<String> = Vec::new();
    let mut i: usize = 0;
    while i < xs.len()
        invariant
            0 <= i <= xs@.len(),
            parts@.len() == i,
            forall|j: int| 0 <= j < i ==> #[trigger] parts@[j]@ == decimal(xs@[j] as nat),
        decreases xs@.len() - i,
    {
        parts.push(decimal_string(xs[i]));
        i = i + 1;
    }
    let r = wrap("[", number_list(&parts, " "), "]");
    assert(Seq::new(parts@.len(), |j: int| parts@[j]@) =~= Seq::new(
        xs@.len(),
        |j: int| decimal(xs@[j] as nat),
    ));
    r
}

fn floats_string(xs: &Vec<crate::types::Float>) -> (r: String)
    ensures
        r@ == "["@ + join(Seq::new(xs@.len(), |i: int| xs@[i].text@), " "@) + "]"@,
{
    let mut parts: Vec<String> = Vec::new();
    let mut i: usize = 0;
    while i < xs.len()
        invariant
            0 <= i <= xs@.len(),
            parts@.len() == i,
            forall|j: int| 0 <= j < i ==> #[trigger] parts@[j]@ == xs@[j].text@,
        decreases xs@.len() - i,
    {
        parts.push(xs[i].text.clone());
        i = i + 1;
    }
    let r = wrap("[", number_list(&parts, " "), "]");
    assert(Seq::new(parts@.len(), |j: int| parts@[j]@) =~= Seq::new(xs@.len(), |j: int| xs@[j].text@));
    r
}

fn persisted_display(v: &CandyValue) -> (r: String)
    ensures
        r@ == persisted_text(*v),
    decreases v,
{
    match v {
        CandyValue::Int(x) => signed_decimal_string(*x),
        CandyValue::Int8(x) => signed_decimal_string(*x as i128),
        CandyValue::Int16(x) => signed_decimal_string(*x as i128),
        CandyValue::Int32(x) => signed_decimal_string(*x as i128),
        CandyValue::Int64(x) => signed_decimal_string(*x as i128),
        CandyValue::Nat(x) => decimal_string(*x),
        CandyValue::Nat8(x) => decimal_string(*x as u128),
        CandyValue::Nat16(x) => decimal_string(*x as u128),
        CandyValue::Nat32(x) => decimal_string(*x as u128),
        CandyValue::Nat64(x) => decimal_string(*x as u128),
        CandyValue::Float(f) => f.text.clone(),
        CandyValue::Text(t) => t.clone(),
        CandyValue::Bool(b) => if *b {
            String::from_str("true")
        } else {
            String::from_str("false")
        },
        CandyValue::Blob(b) => hex_string(b),
        CandyValue::Class(ps) => wrap("{", persisted_fields(ps.as_slice()), "}"),
        CandyValue::Principal(p) => principal_text(p.as_bytes()),
        CandyValue::Option(o) => match o {
            Some(b) => persisted_display(b),
            None => String::from_str("null"),
        },
        CandyValue::Array(a) => match a {
            stable::Array::Frozen(xs) => wrap("[", persisted_values(xs.as_slice()), "]"),
            stable::Array::Thawed(xs) => wrap("[", persisted_values(xs.as_slice()), "]"),
        },
        CandyValue::Nats(n) => match n {
            stable::Nats::Frozen(xs) => nats_string(xs),
            stable::Nats::Thawed(xs) => nats_string(xs),
        },
        CandyValue::Floats(n) => match n {
            stable::Floats::Frozen(xs) => floats_string(xs),
            stable::Floats::Thawed(xs) => floats_string(xs),
        },
        CandyValue::Bytes(b) => match b {
            stable::Bytes::Frozen(xs) => hex_string(xs),
            stable::Bytes::Thawed(xs) => hex_string(xs),
        },
        CandyValue::Empty => String::new(),
    }
}

impl CandyValue {
    /// The display form of the value (see [`persisted_text`]).
    pub fn to_string(self) -> (r: String)
        ensures
            r@ == persisted_text(self),
    {
        persisted_display(&self)
    }

    /// `[{v} {v} ...]`: the display form of each value in braces.
    pub fn stringify_array_of_values(vals: &[CandyValue]) -> (r: String)
        ensures
            r@ == "["@ + join(persisted_parts(vals@), " "@) + "]"@,
    {
        wrap("[", persisted_values(vals), "]")
    }
}

impl Property {
    /// `name:value; `, with `var ` before the value when the field is immutable.
    pub fn to_string(&self) -> (r: String)
        ensures
            r@ == self.name@ + ":"@ + (if self.immutable {
                "var "@
            } else {
                Seq::empty()
            }) + persisted_text(self.value) + "; "@,
    {
        let value = persisted_display(&self.value);
        let mut r = self.name.clone();
        append_str(&mut r, ":");
        if self.immutable {
            append_str(&mut r, "var ");
        }
        append_str(&mut r, value.as_str());
        append_str(&mut r, "; ");
        r
    }

    /// `{name:value; ...}`: the display form of a record.
    pub fn stringify_properties(props: &[Property]) -> (r: String)
        ensures
            r@ == "{"@ + join(persisted_field_parts(props@), " "@) + "}"@,
    {
        wrap("{", persisted_fields(props), "}")
    }
}

impl stable::Array {
    /// `[{v} {v} ...]`: the display form of the elements.
    pub fn to_string(&self) -> (r: String)
        ensures
            r@ == "["@ + join(
                persisted_parts(
                    match self {
                        stable::Array::Frozen(xs) => xs@,
                        stable::Array::Thawed(xs) => xs@,
                    },
                ),
                " "@,
            ) + "]"@,
    {
        match self {
            stable::Array::Frozen(xs) => wrap("[", persisted_values(xs.as_slice()), "]"),
            stable::Array::Thawed(xs) => wrap("[", persisted_values(xs.as_slice()), "]"),
        }
    }
}

impl stable::Nats {
    /// `[n n ...]` in plain decimal.
    pub fn to_string(&self) -> (r: String)
        ensures
            r@ == nats_text(
                match self {
                    stable::Nats::Frozen(xs) => xs@,
                    stable::Nats::Thawed(xs) => xs@,
                },
            ),
    {
        match self {
            stable::Nats::Frozen(xs) => nats_string(xs),
            stable::Nats::Thawed(xs) => nats_string(xs),
        }
    }
}

impl stable::Bytes {
    /// Two lowercase hexadecimal digits per byte.
    pub fn to_string(&self) -> (r: String)
        ensures
            r@ == hex_of(
                match self {
                    stable::Bytes::Frozen(xs) => xs@,
                    stable::Bytes::Thawed(xs) => xs@,
                },
            ),
    {
        match self {
            stable::Bytes::Frozen(xs) => hex_string(xs),
            stable::Bytes::Thawed(xs) => hex_string(xs),
        }
    }
}


impl stable::Floats {
    /// `[f f ...]`: the rendering of each float.
    pub fn to_string(&self) -> (r: String)
        ensures
            r@ == "["@ + join(
                Seq::new(
                    match self {
                        stable::Floats::Frozen(xs) => xs@.len(),
                        stable::Floats::Thawed(xs) => xs@.len(),
                    },
                    |i: int|
                        match self {
                            stable::Floats::Frozen(xs) => xs@[i].text@,
                            stable::Floats::Thawed(xs) => xs@[i].text@,
                        },
                ),
                " "@,
            ) + "]"@,
    {
        let r = match self {
            stable::Floats::Frozen(xs) => floats_string(xs),
            stable::Floats::Thawed(xs) => floats_string(xs),
        };
        proof {
            match self {
                stable::Floats::Frozen(xs) => {
                    assert(Seq::new(xs@.len(), |i: int| xs@[i].text@) =~= Seq::new(
                        xs@.len(),
                        |i: int|
                            match self {
                                stable::Floats::Frozen(xs) => xs@[i].text@,
                                stable::Floats::Thawed(xs) => xs@[i].text@,
                            },
                    ));
                },
                stable::Floats::Thawed(xs) => {
                    assert(Seq::new(xs@.len(), |i: int| xs@[i].text@) =~= Seq::new(
                        xs@.len(),
                        |i: int|
                            match self {
                                stable::Floats::Frozen(xs) => xs@[i].text@,
                                stable::Floats::Thawed(xs) => xs@[i].text@,
                            },
                    ));
                },
            }
        }
        r
    }
}

} // verus!
