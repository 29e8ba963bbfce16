//! Text renderings of values: the display form and the JSON form.

use vstd::prelude::*;
use vstd::string::StringExecFns;
use crate::number::{decimal, digit_char, group_thousands, signed_decimal, signed_grouped};
use crate::types::PropertyShared;
use crate::value::CandyShared;

verus! {

/// The parts joined with `sep` between each two of them.
pub open spec fn join(ps: Seq<Seq<char>>, sep: Seq<char>) -> Seq<char>
    decreases ps.len(),
{
    if ps.len() == 0 {
        Seq::empty()
    } else if ps.len() == 1 {
        ps[0]
    } else {
        join(ps.drop_last(), sep) + sep + ps.last()
    }
}

/// The lowercase hexadecimal digit for `d < 16`.
pub open spec fn hex_digit(d: nat) -> char {
    if d < 10 {
        ((d + 48) as u8) as char
    } else {
        ((d + 87) as u8) as char
    }
}

/// Two lowercase hexadecimal digits per byte.
pub open spec fn hex_of(b: Seq<u8>) -> Seq<char>
    decreases b.len(),
{
    if b.len() == 0 {
        Seq::empty()
    } else {
        hex_of(b.drop_last()) + seq![hex_digit(b.last() as nat / 16), hex_digit(b.last() as nat % 16)]
    }
}

/// The textual form of an opaque identifier with the given bytes.
pub uninterp spec fn principal_text_of(bytes: Seq<u8>) -> Seq<char>;

/// One character as it appears inside a JSON string.
pub open spec fn escape_char(c: char) -> Seq<char> {
    if c == '"' {
        seq!['\\', '"']
    } else if c == '\\' {
        seq!['\\', '\\']
    } else if c == '\u{8}' {
        seq!['\\', 'b']
    } else if c == '\u{c}' {
        seq!['\\', 'f']
    } else if c == '\n' {
        seq!['\\', 'n']
    } else if c == '\r' {
        seq!['\\', 'r']
    } else if c == '\t' {
        seq!['\\', 't']
    } else if (c as u32) < 0x20 {
        seq!['\\', 'u', '0', '0', hex_digit((c as u32) as nat / 16), hex_digit((c as u32) as nat % 16)]
    } else {
        seq![c]
    }
}

/// Each character escaped as in a JSON string.
pub open spec fn escaped(s: Seq<char>) -> Seq<char>
    decreases s.len(),
{
    if s.len() == 0 {
        Seq::empty()
    } else {
        escaped(s.drop_last()) + escape_char(s.last())
    }
}

/// The text as a quoted, escaped JSON string.
pub open spec fn json_quote(s: Seq<char>) -> Seq<char> {
    seq!['"'] + escaped(s) + seq!['"']
}

/// The magnitude of an integer.
pub open spec fn abs(n: int) -> nat {
    if n < 0 {
        (-n) as nat
    } else {
        n as nat
    }
}

/// The JSON form of a value: plain decimal numbers (never grouped), the
/// float's rendering, quoted and escaped text, objects for records, arrays
/// for arrays and numeric vectors, the contents or `null` for options, quoted
/// hexadecimal for blobs and bytes, the quoted textual identifier, `"true"` or
/// `"false"` as strings for booleans, and nothing for maps and sets.
pub open spec fn json_of(v: CandyShared) -> Seq<char>
    decreases v,
{
    match v {
        CandyShared::Int(n) => signed_decimal(n@ < 0, abs(n@)),
        CandyShared::Int8(x) => signed_decimal(x < 0, abs(x as int)),
        CandyShared::Int16(x) => signed_decimal(x < 0, abs(x as int)),
        CandyShared::Int32(x) => signed_decimal(x < 0, abs(x as int)),
        CandyShared::Int64(x) => signed_decimal(x < 0, abs(x as int)),
        CandyShared::Ints(ns) => "["@ + join(
            Seq::new(ns@.len(), |i: int| signed_decimal(ns@[i]@ < 0, abs(ns@[i]@))),
            ","@,
        ) + "]"@,
        CandyShared::Nat(n) => decimal(n@),
        CandyShared::Nat8(x) => decimal(x as nat),
        CandyShared::Nat16(x) => decimal(x as nat),
        CandyShared::Nat32(x) => decimal(x as nat),
        CandyShared::Nat64(x) => decimal(x as nat),
        CandyShared::Float(f) => f.text@,
        CandyShared::Text(t) => json_quote(t@),
        CandyShared::Bool(b) => if b {
            "\"true\""@
        } else {
            "\"false\""@
        },
        CandyShared::Blob(b) => "\""@ + hex_of(b@) + "\""@,
        CandyShared::Bytes(b) => "\""@ + hex_of(b@) + "\""@,
        CandyShared::Class(ps) => "{"@ + join(json_field_parts(ps@), ","@) + "}"@,
        CandyShared::Principal(p) => "\""@ + principal_text_of(p@) + "\""@,
        CandyShared::Option(o) => match o {
            Some(b) => json_of(*b),
            None => "null"@,
        },
        CandyShared::Array(a) => "["@ + join(json_parts(a@), ","@) + "]"@,
        CandyShared::Nats(ns) => "["@ + join(Seq::new(ns@.len(), |i: int| decimal(ns@[i]@)), ","@)
            + "]"@,
        CandyShared::Floats(fs) => "["@ + join(Seq::new(fs@.len(), |i: int| fs@[i].text@), ","@)
            + "]"@,
        CandyShared::ValueMap(_) => Seq::empty(),
        CandyShared::ValueSet(_) => Seq::empty(),
    }
}

/// The JSON forms of the elements.
pub open spec fn json_parts(s: Seq<CandyShared>) -> Seq<Seq<char>>
    decreases s,
{
    if s.len() == 0 {
        Seq::empty()
    } else {
        json_parts(s.subrange(0, s.len() - 1)).push(json_of(s[s.len() - 1]))
    }
}

/// `"name":value` for each field.
pub open spec fn json_field_parts(s: Seq<PropertyShared>) -> Seq<Seq<char>>
    decreases s,
{
    if s.len() == 0 {
        Seq::empty()
    } else {
        json_field_parts(s.subrange(0, s.len() - 1)).push(
            "\""@ + s[s.len() - 1].name@ + "\":"@ + json_of(s[s.len() - 1].value),
        )
    }
}

/// The display form of a value: plain decimal scalars, the float's rendering,
/// the text itself, `true`/`false`, lowercase hexadecimal for blobs and bytes,
/// `{name:value; ...}` for records (with `var ` before the value of an
/// immutable field), the textual identifier, the contents or `null` for
/// options, `[{v} {v} ...]` for arrays, `[v v ...]` for numeric vectors (big
/// integers grouped by three with `_`), `{k: v, ...}` for maps and `{v, ...}`
/// for sets.
pub open spec fn text_of(v: CandyShared) -> Seq<char>
    decreases v,
{
    match v {
        CandyShared::Int(n) => signed_decimal(n@ < 0, abs(n@)),
        CandyShared::Int8(x) => signed_decimal(x < 0, abs(x as int)),
        CandyShared::Int16(x) => signed_decimal(x < 0, abs(x as int)),
        CandyShared::Int32(x) => signed_decimal(x < 0, abs(x as int)),
        CandyShared::Int64(x) => signed_decimal(x < 0, abs(x as int)),
        CandyShared::Ints(ns) => "["@ + join(
            Seq::new(ns@.len(), |i: int| signed_grouped(ns@[i]@ < 0, abs(ns@[i]@))),
            " "@,
        ) + "]"@,
        CandyShared::Nat(n) => decimal(n@),
        CandyShared::Nat8(x) => decimal(x as nat),
        CandyShared::Nat16(x) => decimal(x as nat),
        CandyShared::Nat32(x) => decimal(x as nat),
        CandyShared::Nat64(x) => decimal(x as nat),
        CandyShared::Float(f) => f.text@,
        CandyShared::Text(t) => t@,
        CandyShared::Bool(b) => if b {
            "true"@
        } else {
            "false"@
        },
        CandyShared::Blob(b) => hex_of(b@),
        CandyShared::Bytes(b) => hex_of(b@),
        CandyShared::Class(ps) => "{"@ + join(text_field_parts(ps@), " "@) + "}"@,
        CandyShared::Principal(p) => principal_text_of(p@),
        CandyShared::Option(o) => match o {
            Some(b) => text_of(*b),
            None => "null"@,
        },
        CandyShared::Array(a) => "["@ + join(text_parts(a@), " "@) + "]"@,
        CandyShared::Nats(ns) => "["@ + join(
            Seq::new(ns@.len(), |i: int| group_thousands(decimal(ns@[i]@))),
            " "@,
        ) + "]"@,
        CandyShared::Floats(fs) => "["@ + join(Seq::new(fs@.len(), |i: int| fs@[i].text@), " "@)
            + "]"@,
        CandyShared::ValueMap(es) => "{"@ + join(entry_parts(es@), ", "@) + "}"@,
        CandyShared::ValueSet(a) => "{"@ + join(element_parts(a@), ", "@) + "}"@,
    }
}

/// `{value}` for each element.
pub open spec fn text_parts(s: Seq<CandyShared>) -> Seq<Seq<char>>
    decreases s,
{
    if s.len() == 0 {
        Seq::empty()
    } else {
        text_parts(s.subrange(0, s.len() - 1)).push("{"@ + text_of(s[s.len() - 1]) + "}"@)
    }
}

/// The display form of each element.
pub open spec fn element_parts(s: Seq<CandyShared>) -> Seq<Seq<char>>
    decreases s,
{
    if s.len() == 0 {
        Seq::empty()
    } else {
        element_parts(s.subrange(0, s.len() - 1)).push(text_of(s[s.len() - 1]))
    }
}

/// `key: value` for each entry.
pub open spec fn entry_parts(s: Seq<(CandyShared, CandyShared)>) -> Seq<Seq<char>>
    decreases s,
{
    if s.len() == 0 {
        Seq::empty()
    } else {
        entry_parts(s.subrange(0, s.len() - 1)).push(
            text_of(s[s.len() - 1].0) + ": "@ + text_of(s[s.len() - 1].1),
        )
    }
}

/// The display form of each field: `name:value;`, with `var ` before the
/// value when the field is immutable.
pub open spec fn text_field_parts(s: Seq<PropertyShared>) -> Seq<Seq<char>>
    decreases s,
{
    if s.len() == 0 {
        Seq::empty()
    } else {
        let p = s[s.len() - 1];
        text_field_parts(s.subrange(0, s.len() - 1)).push(
            p.name@ + ":"@ + (if p.immutable {
                "var "@
            } else {
                Seq::empty()
            }) + text_of(p.value) + ";"@,
        )
    }
}


/// Relies on std's `String::push`: appends one character.
#[verifier::external_body]
pub(crate) fn push_char(s: &mut String, c: char)
    ensures
        final(s)@ == old(s)@.push(c),
{
    s.push(c)
}

/// Relies on hex's `encode`: two lowercase hexadecimal digits per byte.
#[verifier::external_body]
pub(crate) fn hex_string(b: &Vec<u8>) -> (r: String)
    ensures
        r@ == hex_of(b@),
{
    hex::encode(b)
}

/// Relies on candid's `Principal::to_text`, which panics on more than 29 bytes.
#[verifier::external_body]
pub(crate) fn principal_text(bytes: &Vec<u8>) -> (r: String)
    requires
        bytes@.len() <= 29,
    ensures
        r@ == principal_text_of(bytes@),
{
    candid::Principal::from_slice(bytes).to_text()
}

/// Relies on serde_json's `to_string` for a string: quoted, with `"`, `\`
/// and control characters escaped; it cannot fail on a string.
#[verifier::external_body]
fn json_string(s: &String) -> (r: String)
    ensures
        r@ == json_quote(s@),
{
    match serde_json::to_string(s) {
        Ok(t) => t,
        Err(_) => String::new(),
    }
}

pub(crate) proof fn lemma_join_push(ps: Seq<Seq<char>>, p: Seq<char>, sep: Seq<char>)
    ensures
        join(ps.push(p), sep) == (if ps.len() == 0 {
            p
        } else {
            join(ps, sep) + sep + p
        }),
{
    assert(ps.push(p).drop_last() =~= ps);
}

pub(crate) fn append_str(out: &mut String, s: &str)
    ensures
        final(out)@ == old(out)@ + s@,
{
    out.append(s);
}

pub(crate) fn decimal_string(n: u128) -> (r: String)
    ensures
        r@ == decimal(n as nat),
    decreases n,
{
    if n < 10 {
        let mut r = String::new();
        push_char(&mut r, ((n as u8) + 48) as char);
        assert(r@ =~= seq![digit_char(n as nat)]);
        r
    } else {
        let mut r = decimal_string(n / 10);
        push_char(&mut r, (((n % 10) as u8) + 48) as char);
        r
    }
}

pub(crate) fn signed_decimal_string(v: i128) -> (r: String)
    ensures
        r@ == signed_decimal(v < 0, abs(v as int)),
{
    if v < 0 {
        let m: u128 = ((-(v + 1)) as u128) + 1;
        let mut r = String::from_str("-");
        let d = decimal_string(m);
        r.append(d.as_str());
        proof {
            reveal_strlit("-");
            assert(r@ =~= seq!['-'] + decimal(abs(v as int)));
        }
        r
    } else {
        decimal_string(v as u128)
    }
}

pub(crate) fn wrap(open: &str, body: String, close: &str) -> (r: String)
    ensures
        r@ == open@ + body@ + close@,
{
    let mut r = String::from_str(open);
    r.append(body.as_str());
    r.append(close);
    r
}

fn json_values(a: &Vec<CandyShared>) -> (r: String)
    ensures
        r@ == join(json_parts(a@), ","@),
    decreases a,
{
    let mut out = String::new();
    let mut i: usize = 0;
    while i < a.len()
        invariant
            0 <= i <= a@.len(),
            out@ == join(json_parts(a@.subrange(0, i as int)), ","@),
            json_parts(a@.subrange(0, i as int)).len() == i,
        decreases a@.len() - i,
    {
        proof {
            assert(a@.subrange(0, i + 1).subrange(0, i as int) =~= a@.subrange(0, i as int));
            lemma_join_push(json_parts(a@.subrange(0, i as int)), json_of(a@[i as int]), ","@);
        }
        let part = json_text(&a[i]);
        if i > 0 {
            append_str(&mut out, ",");
        }
        append_str(&mut out, part.as_str());
        i = i + 1;
    }
    assert(a@.subrange(0, i as int) =~= a@);
    out
}

fn json_fields(ps: &[PropertyShared]) -> (r: String)
    ensures
        r@ == join(json_field_parts(ps@), ","@),
    decreases ps@,
{
    let mut out = String::new();
    let mut i: usize = 0;
    while i < ps.len()
        invariant
            0 <= i <= ps@.len(),
            out@ == join(json_field_parts(ps@.subrange(0, i as int)), ","@),
            json_field_parts(ps@.subrange(0, i as int)).len() == i,
        decreases ps@.len() - i,
    {
        let p = &ps[i];
        proof {
            assert(ps@.subrange(0, i + 1).subrange(0, i as int) =~= ps@.subrange(0, i as int));
            lemma_join_push(
                json_field_parts(ps@.subrange(0, i as int)),
                "\""@ + p.name@ + "\":"@ + json_of(p.value),
                ","@,
            );
        }
        let value = json_text(&p.value);
        if i > 0 {
            append_str(&mut out, ",");
        }
        append_str(&mut out, "\"");
        append_str(&mut out, p.name.as_str());
        append_str(&mut out, "\":");
        append_str(&mut out, value.as_str());
        proof {
            assert(out@ =~= join(json_field_parts(ps@.subrange(0, i + 1)), ","@));
        }
        i = i + 1;
    }
    assert(ps@.subrange(0, i as int) =~= ps@);
    out
}

pub(crate) fn number_list(parts: &Vec<String>, sep: &str) -> (r: String)
    ensures
        r@ == join(Seq::new(parts@.len(), |i: int| parts@[i]@), sep@),
{
    let mut out = String::new();
    let mut i: usize = 0;
    while i < parts.len()
        invariant
            0 <= i <= parts@.len(),
            out@ == join(Seq::new(i as nat, |j: int| parts@[j]@), sep@),
        decreases parts@.len() - i,
    {
        proof {
            lemma_join_push(Seq::new(i as nat, |j: int| parts@[j]@), parts@[i as int]@, sep@);
            assert(Seq::new((i + 1) as nat, |j: int| parts@[j]@) =~= Seq::new(
                i as nat,
                |j: int| parts@[j]@,
            ).push(parts@[i as int]@));
        }
        if i > 0 {
            append_str(&mut out, sep);
        }
        append_str(&mut out, parts[i].as_str());
        i = i + 1;
    }
    out
}

/// The JSON form of a value (see [`json_of`]).
pub fn json_text(v: &CandyShared) -> (r: String)
    ensures
        r@ == json_of(*v),
    decreases v,
{
    match v {
        CandyShared::Int(n) => n.to_decimal(),
        CandyShared::Int8(x) => signed_decimal_string(*x as i128),
        CandyShared::Int16(x) => signed_decimal_string(*x as i128),
        CandyShared::Int32(x) => signed_decimal_string(*x as i128),
        CandyShared::Int64(x) => signed_decimal_string(*x as i128),
        CandyShared::Ints(ns) => {
            let mut parts: Vec<String> = Vec::new();
            let mut i: usize = 0;
            while i < ns.len()
                invariant
                    0 <= i <= ns@.len(),
                    parts@.len() == i,
                    forall|j: int| 0 <= j < i ==> #[trigger] parts@[j]@ == signed_decimal(ns@[j]@ < 0, abs(ns@[j]@)),
                decreases ns@.len() - i,
            {
                parts.push(ns[i].to_decimal());
                i = i + 1;
            }
            let r = wrap("[", number_list(&parts, ","), "]");
            assert(Seq::new(parts@.len(), |j: int| parts@[j]@) =~= Seq::new(ns@.len(), |j: int| signed_decimal(ns@[j]@ < 0, abs(ns@[j]@))));
            r
        },
        CandyShared::Nat(n) => n.to_decimal(),
        CandyShared::Nat8(x) => decimal_string(*x as u128),
        CandyShared::Nat16(x) => decimal_string(*x as u128),
        CandyShared::Nat32(x) => decimal_string(*x as u128),
        CandyShared::Nat64(x) => decimal_string(*x as u128),
        CandyShared::Float(f) => f.text.clone(),
        CandyShared::Text(t) => json_string(t),
        CandyShared::Bool(b) => if *b {
            String::from_str("\"true\"")
        } else {
            String::from_str("\"false\"")
        },
        CandyShared::Blob(b) => wrap("\"", hex_string(b), "\""),
        CandyShared::Bytes(b) => wrap("\"", hex_string(b), "\""),
        CandyShared::Class(ps) => wrap("{", json_fields(ps.as_slice()), "}"),
        CandyShared::Principal(p) => wrap("\"", principal_text(p.as_bytes()), "\""),
        CandyShared::Option(o) => match o {
            Some(b) => json_text(b),
            None => String::from_str("null"),
        },
        CandyShared::Array(a) => wrap("[", json_values(a), "]"),
        CandyShared::Nats(ns) => {
            let mut parts: Vec<String> = Vec::new();
            let mut i: usize = 0;
            while i < ns.len()
                invariant
                    0 <= i <= ns@.len(),
                    parts@.len() == i,
                    forall|j: int| 0 <= j < i ==> #[trigger] parts@[j]@ == decimal(ns@[j]@),
                decreases ns@.len() - i,
            {
                parts.push(ns[i].to_decimal());
                i = i + 1;
            }
            let r = wrap("[", number_list(&parts, ","), "]");
            assert(Seq::new(parts@.len(), |j: int| parts@[j]@) =~= Seq::new(ns@.len(), |j: int| decimal(ns@[j]@)));
            r
        },
        CandyShared::Floats(fs) => {
            let mut parts: Vec<String> = Vec::new();
            let mut i: usize = 0;
            while i < fs.len()
                invariant
                    0 <= i <= fs@.len(),
                    parts@.len() == i,
                    forall|j: int| 0 <= j < i ==> #[trigger] parts@[j]@ == fs@[j].text@,
                decreases fs@.len() - i,
            {
                parts.push(fs[i].text.clone());
                i = i + 1;
            }
            let r = wrap("[", number_list(&parts, ","), "]");
            assert(Seq::new(parts@.len(), |j: int| parts@[j]@) =~= Seq::new(fs@.len(), |j: int| fs@[j].text@));
            r
        },
        CandyShared::ValueMap(_) => String::new(),
        CandyShared::ValueSet(_) => String::new(),
    }
}


fn text_values(a: &[CandyShared]) -> (r: String)
    ensures
        r@ == join(text_parts(a@), " "@),
    decreases a@,
{
    let mut out = String::new();
    let mut i: usize = 0;
    while i < a.len()
        invariant
            0 <= i <= a@.len(),
            out@ == join(text_parts(a@.subrange(0, i as int)), " "@),
            text_parts(a@.subrange(0, i as int)).len() == i,
        decreases a@.len() - i,
    {
        proof {
            assert(a@.subrange(0, i + 1).subrange(0, i as int) =~= a@.subrange(0, i as int));
            lemma_join_push(
                text_parts(a@.subrange(0, i as int)),
                "{"@ + text_of(a@[i as int]) + "}"@,
                " "@,
            );
        }
        let part = display_text(&a[i]);
        if i > 0 {
            append_str(&mut out, " ");
        }
        append_str(&mut out, "{");
        append_str(&mut out, part.as_str());
        append_str(&mut out, "}");
        proof {
            assert(out@ =~= join(text_parts(a@.subrange(0, i + 1)), " "@));
        }
        i = i + 1;
    }
    assert(a@.subrange(0, i as int) =~= a@);
    out
}

fn element_values(a: &Vec<CandyShared>) -> (r: String)
    ensures
        r@ == join(element_parts(a@), ", "@),
    decreases a,
{
    let mut out = String::new();
    let mut i: usize = 0;
    while i < a.len()
        invariant
            0 <= i <= a@.len(),
            out@ == join(element_parts(a@.subrange(0, i as int)), ", "@),
            element_parts(a@.subrange(0, i as int)).len() == i,
        decreases a@.len() - i,
    {
        proof {
            assert(a@.subrange(0, i + 1).subrange(0, i as int) =~= a@.subrange(0, i as int));
            lemma_join_push(element_parts(a@.subrange(0, i as int)), text_of(a@[i as int]), ", "@);
        }
        let part = display_text(&a[i]);
        if i > 0 {
            append_str(&mut out, ", ");
        }
        append_str(&mut out, part.as_str());
        i = i + 1;
    }
    assert(a@.subrange(0, i as int) =~= a@);
    out
}

fn entry_values(es: &Vec<(CandyShared, CandyShared)>) -> (r: String)
    ensures
        r@ == join(entry_parts(es@), ", "@),
    decreases es,
{
    let mut out = String::new();
    let mut i: usize = 0;
    while i < es.len()
        invariant
            0 <= i <= es@.len(),
            out@ == join(entry_parts(es@.subrange(0, i as int)), ", "@),
            entry_parts(es@.subrange(0, i as int)).len() == i,
        decreases es@.len() - i,
    {
        proof {
            assert(es@.subrange(0, i + 1).subrange(0, i as int) =~= es@.subrange(0, i as int));
            lemma_join_push(
                entry_parts(es@.subrange(0, i as int)),
                text_of(es@[i as int].0) + ": "@ + text_of(es@[i as int].1),
                ", "@,
            );
        }
        let k = display_text(&es[i].0);
        let v = display_text(&es[i].1);
        if i > 0 {
            append_str(&mut out, ", ");
        }
        append_str(&mut out, k.as_str());
        append_str(&mut out, ": ");
        append_str(&mut out, v.as_str());
        proof {
            assert(out@ =~= join(entry_parts(es@.subrange(0, i + 1)), ", "@));
        }
        i = i + 1;
    }
    assert(es@.subrange(0, i as int) =~= es@);
    out
}

fn text_fields(ps: &[PropertyShared]) -> (r: String)
    ensures
        r@ == join(text_field_parts(ps@), " "@),
    decreases ps@,
{
    let mut out = String::new();
    let mut i: usize = 0;
    while i < ps.len()
        invariant
            0 <= i <= ps@.len(),
            out@ == join(text_field_parts(ps@.subrange(0, i as int)), " "@),
            text_field_parts(ps@.subrange(0, i as int)).len() == i,
        decreases ps@.len() - i,
    {
        let p = &ps[i];
        let ghost part = p.name@ + ":"@ + (if p.immutable {
            "var "@
        } else {
            Seq::empty()
        }) + text_of(p.value) + ";"@;
        proof {
            assert(ps@.subrange(0, i + 1).subrange(0, i as int) =~= ps@.subrange(0, i as int));
            lemma_join_push(text_field_parts(ps@.subrange(0, i as int)), part, " "@);
        }
        let value = display_text(&p.value);
        if i > 0 {
            append_str(&mut out, " ");
        }
        append_str(&mut out, p.name.as_str());
        append_str(&mut out, ":");
        if p.immutable {
            append_str(&mut out, "var ");
        }
        append_str(&mut out, value.as_str());
        append_str(&mut out, ";");
        proof {
            assert(out@ =~= join(text_field_parts(ps@.subrange(0, i + 1)), " "@));
        }
        i = i + 1;
    }
    assert(ps@.subrange(0, i as int) =~= ps@);
    out
}

/// The display form of a value (see [`text_of`]).
pub fn display_text(v: &CandyShared) -> (r: String)
    ensures
        r@ == text_of(*v),
    decreases v,
{
    match v {
        CandyShared::Int(n) => n.to_decimal(),
        CandyShared::Int8(x) => signed_decimal_string(*x as i128),
        CandyShared::Int16(x) => signed_decimal_string(*x as i128),
        CandyShared::Int32(x) => signed_decimal_string(*x as i128),
        CandyShared::Int64(x) => signed_decimal_string(*x as i128),
        CandyShared::Ints(ns) => {
            let mut parts: Vec<String> = Vec::new();
            let mut i: usize = 0;
            while i < ns.len()
                invariant
                    0 <= i <= ns@.len(),
                    parts@.len() == i,
                    forall|j: int| 0 <= j < i ==> #[trigger] parts@[j]@ == signed_grouped(ns@[j]@ < 0, abs(ns@[j]@)),
                decreases ns@.len() - i,
            {
                parts.push(ns[i].to_grouped());
                i = i + 1;
            }
            let r = wrap("[", number_list(&parts, " "), "]");
            assert(Seq::new(parts@.len(), |j: int| parts@[j]@) =~= Seq::new(ns@.len(), |j: int| signed_grouped(ns@[j]@ < 0, abs(ns@[j]@))));
            r
        },
        CandyShared::Nat(n) => n.to_decimal(),
        CandyShared::Nat8(x) => decimal_string(*x as u128),
        CandyShared::Nat16(x) => decimal_string(*x as u128),
        CandyShared::Nat32(x) => decimal_string(*x as u128),
        CandyShared::Nat64(x) => decimal_string(*x as u128),
        CandyShared::Float(f) => f.text.clone(),
        CandyShared::Text(t) => t.clone(),
        CandyShared::Bool(b) => if *b {
            String::from_str("true")
        } else {
            String::from_str("false")
        },
        CandyShared::Blob(b) => hex_string(b),
        CandyShared::Bytes(b) => hex_string(b),
        CandyShared::Class(ps) => wrap("{", text_fields(ps.as_slice()), "}"),
        CandyShared::Principal(p) => principal_text(p.as_bytes()),
        CandyShared::Option(o) => match o {
            Some(b) => display_text(b),
            None => String::from_str("null"),
        },
        CandyShared::Array(a) => wrap("[", text_values(a.as_slice()), "]"),
        CandyShared::Nats(ns) => {
            let mut parts: Vec<String> = Vec::new();
            let mut i: usize = 0;
            while i < ns.len()
                invariant
                    0 <= i <= ns@.len(),
                    parts@.len() == i,
                    forall|j: int| 0 <= j < i ==> #[trigger] parts@[j]@ == group_thousands(decimal(ns@[j]@)),
                decreases ns@.len() - i,
            {
                parts.push(ns[i].to_grouped());
                i = i + 1;
            }
            let r = wrap("[", number_list(&parts, " "), "]");
            assert(Seq::new(parts@.len(), |j: int| parts@[j]@) =~= Seq::new(ns@.len(), |j: int| group_thousands(decimal(ns@[j]@))));
            r
        },
        CandyShared::Floats(fs) => {
            let mut parts: Vec<String> = Vec::new();
            let mut i: usize = 0;
            while i < fs.len()
                invariant
                    0 <= i <= fs@.len(),
                    parts@.len() == i,
                    forall|j: int| 0 <= j < i ==> #[trigger] parts@[j]@ == fs@[j].text@,
                decreases fs@.len() - i,
            {
                parts.push(fs[i].text.clone());
                i = i + 1;
            }
            let r = wrap("[", number_list(&parts, " "), "]");
            assert(Seq::new(parts@.len(), |j: int| parts@[j]@) =~= Seq::new(fs@.len(), |j: int| fs@[j].text@));
            r
        },
        CandyShared::ValueMap(es) => wrap("{", entry_values(es), "}"),
        CandyShared::ValueSet(a) => wrap("{", element_values(a), "}"),
    }
}

impl CandyShared {
    /// The JSON form of the value (see [`json_of`]).
    pub fn to_json(self) -> (r: String)
        ensures
            r@ == json_of(self),
    {
        json_text(&self)
    }

    /// The display form of the value (see [`text_of`]).
    pub fn to_string(&self) -> (r: String)
        ensures
            r@ == text_of(*self),
    {
        display_text(self)
    }

    /// `[{v} {v} ...]`: the display form of each value in braces.
    pub fn stringify_array_of_values(vals: &[CandyShared]) -> (r: String)
        ensures
            r@ == "["@ + join(text_parts(vals@), " "@) + "]"@,
    {
        wrap("[", text_values(vals), "]")
    }
}

impl PropertyShared {
    /// `name:value; `, with `var ` before the value when the field is immutable.
    pub fn to_string(&self) -> (r: String)
        ensures
            r@ == self.name@ + ":"@ + (if self.immutable {
                "var "@
            } else {
                Seq::empty()
            }) + text_of(self.value) + "; "@,
    {
        let value = display_text(&self.value);
        let mut r = self.name.clone();
        append_str(&mut r, ":");
        if self.immutable {
            append_str(&mut r, "var ");
        }
        append_str(&mut r, value.as_str());
        append_str(&mut r, "; ");
        r
    }

    /// `"name":value`, the field as a JSON object member.
    pub fn to_json(self) -> (r: String)
        ensures
            r@ == "\""@ + self.name@ + "\":"@ + json_of(self.value),
    {
        let value = json_text(&self.value);
        let mut r = String::from_str("\"");
        r.append(self.name.as_str());
        r.append("\":");
        r.append(value.as_str());
        r
    }

    /// `{name:value; ...}`: the display form of a record.
    pub fn stringify_properties(props: &[PropertyShared]) -> (r: String)
        ensures
            r@ == "{"@ + join(text_field_parts(props@), " "@) + "}"@,
    {
        wrap("{", text_fields(props), "}")
    }

    /// `{"name":value,...}`: the JSON form of a record.
    pub fn props_to_json(props: &[PropertyShared]) -> (r: String)
        ensures
            r@ == "{"@ + join(json_field_parts(props@), ","@) + "}"@,
    {
        wrap("{", json_fields(props), "}")
    }
}

} // verus!
