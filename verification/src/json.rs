//! JSON texts, put together from texts that are JSON already.
use vstd::prelude::*;

use crate::{outside, text};

verus! {

// --- meanings ---------------------------------------------------------------

/// The JSON string for a name that needs no escapes.
pub open spec fn key(name: Seq<char>) -> Seq<char> {
    "\""@ + name + "\""@
}

/// A field of an object: a JSON string and the value under it.
pub open spec fn field(f: (Seq<char>, Seq<char>)) -> Seq<char> {
    f.0 + ":"@ + f.1
}

/// The fields of an object, each as its text.
pub open spec fn field_texts(fields: Seq<(Seq<char>, Seq<char>)>) -> Seq<Seq<char>> {
    fields.map_values(|f: (Seq<char>, Seq<char>)| field(f))
}

/// An object with fields in this order.
pub open spec fn object(fields: Seq<(Seq<char>, Seq<char>)>) -> Seq<char> {
    "{"@ + text::joined(field_texts(fields), ","@) + "}"@
}

/// A list of values in this order.
pub open spec fn array(items: Seq<Seq<char>>) -> Seq<char> {
    "["@ + text::joined(items, ","@) + "]"@
}

/// Texts as JSON strings.
pub open spec fn quoted(items: Seq<Seq<char>>) -> Seq<Seq<char>> {
    items.map_values(|s: Seq<char>| outside::json_text(s))
}

/// A truth value.
pub open spec fn truth(b: bool) -> Seq<char> {
    if b {
        "true"@
    } else {
        "false"@
    }
}

// --- operations -------------------------------------------------------------

/// Puts a field behind others, under a name that needs no escapes.
pub fn push_field(fields: &mut Vec<(String, String)>, name: &str, value: String)
    ensures
        outside::pair_texts(final(fields)@) == outside::pair_texts(old(fields)@).push(
            (key(name@), value@),
        ),
{
    let quoted_name = "\"".to_owned().concat(name).concat("\"");
    fields.push((quoted_name, value));
    assert(outside::pair_texts(fields@) =~= outside::pair_texts(old(fields)@).push(
        (key(name@), value@),
    ));
}

/// An object with these fields.
pub fn to_object(fields: &Vec<(String, String)>) -> (res: String)
    ensures
        res@ == object(outside::pair_texts(fields@)),
{
    let mut parts: Vec<String> = Vec::new();
    let mut i: usize = 0;
    let ghost all = field_texts(outside::pair_texts(fields@));
    assert(text::texts(parts@) =~= all.take(0));
    while i < fields.len()
        invariant
            i <= fields@.len(),
            all == field_texts(outside::pair_texts(fields@)),
            text::texts(parts@) == all.take(i as int),
        decreases fields@.len() - i,
    {
        let ghost before = text::texts(parts@);
        let part = fields[i].0.clone().concat(":").concat(fields[i].1.as_str());
        assert(outside::pair_texts(fields@)[i as int] == (
            fields@[i as int].0@,
            fields@[i as int].1@,
        ));
        assert(all.take(i + 1) =~= before.push(part@));
        parts.push(part);
        assert(text::texts(parts@) =~= before.push(part@));
        i = i + 1;
    }
    assert(all.take(fields@.len() as int) =~= all);
    "{".to_owned().concat(text::join(&parts, ",").as_str()).concat("}")
}

/// A list of these values.
pub fn to_array(items: &Vec<String>) -> (res: String)
    ensures
        res@ == array(text::texts(items@)),
{
    "[".to_owned().concat(text::join(items, ",").as_str()).concat("]")
}

/// Texts as JSON strings.
pub fn quote_all(items: &Vec<String>) -> (res: Vec<String>)
    ensures
        text::texts(res@) == quoted(text::texts(items@)),
{
    let mut out: Vec<String> = Vec::new();
    let mut i: usize = 0;
    let ghost all = quoted(text::texts(items@));
    assert(text::texts(out@) =~= all.take(0));
    while i < items.len()
        invariant
            i <= items@.len(),
            all == quoted(text::texts(items@)),
            text::texts(out@) == all.take(i as int),
        decreases items@.len() - i,
    {
        let ghost before = text::texts(out@);
        let q = outside::json_string(items[i].as_str());
        assert(all.take(i + 1) =~= before.push(q@));
        out.push(q);
        assert(text::texts(out@) =~= before.push(q@));
        i = i + 1;
    }
    assert(all.take(items@.len() as int) =~= all);
    out
}

/// A truth value.
pub fn bool_text(b: bool) -> (res: &'static str)
    ensures
        res@ == truth(b),
{
    if b {
        "true"
    } else {
        "false"
    }
}

} // verus!
