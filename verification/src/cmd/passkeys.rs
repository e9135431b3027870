//! `latch passkeys`: list, reset.
//!
//! list prints the registered passkeys. reset deletes them all, once somebody
//! has said so: at the terminal, or with `--yes`.
use vstd::prelude::*;

use serde_json::Value;
use webauthn_rs::prelude::Passkey;

use crate::output::Error;
use crate::{json, outside, output, text};

verus! {

// --- what a passkey says of itself ------------------------------------------

/// What is shown of a passkey.
#[derive(Debug)]
pub struct Info {
    pub cred_id: String,
    pub aaguid: Option<String>,
}

/// The contents of an `Info`.
pub struct InfoView {
    pub cred_id: Seq<char>,
    pub aaguid: Option<Seq<char>>,
}

impl View for Info {
    type V = InfoView;

    open spec fn view(&self) -> InfoView {
        InfoView { cred_id: self.cred_id@, aaguid: text::text_of(self.aaguid) }
    }
}

/// The contents of a list of optional texts.
pub open spec fn found_texts(v: Seq<Option<String>>) -> Seq<Option<Seq<char>>> {
    v.map_values(|o: Option<String>| text::text_of(o))
}

/// The credential id among the texts that were found where it can stand: the
/// first.
pub open spec fn chosen_id(found: Seq<Option<Seq<char>>>) -> Seq<char>
    decreases found.len(),
{
    if found.len() == 0 {
        "?"@
    } else {
        match found[0] {
            Some(s) => s,
            None => chosen_id(found.skip(1)),
        }
    }
}

/// An AAGUID that says something.
pub open spec fn telling(s: Option<Seq<char>>) -> bool {
    s matches Some(t) && t.len() > 0 && t != "00000000-0000-0000-0000-000000000000"@
}

/// The AAGUID among the texts that were found where it can stand: the first
/// that says something.
pub open spec fn chosen_aaguid(found: Seq<Option<Seq<char>>>) -> Option<Seq<char>>
    decreases found.len(),
{
    if found.len() == 0 {
        None
    } else if telling(found[0]) {
        found[0]
    } else {
        chosen_aaguid(found.skip(1))
    }
}

/// The credential id among the texts that were found where it can stand.
pub fn choose_id(found: &Vec<Option<String>>) -> (res: String)
    ensures
        res@ == chosen_id(found_texts(found@)),
{
    let ghost all = found_texts(found@);
    let mut i: usize = 0;
    assert(all.skip(0) =~= all);
    while i < found.len()
        invariant
            i <= found@.len(),
            all == found_texts(found@),
            chosen_id(all) == chosen_id(all.skip(i as int)),
        decreases found@.len() - i,
    {
        assert(all.skip(i as int)[0] == text::text_of(found@[i as int]));
        assert(all.skip(i as int).skip(1) =~= all.skip(i + 1));
        if let Some(s) = &found[i] {
            return s.clone();
        }
        i = i + 1;
    }
    "?".to_owned()
}

fn is_telling(s: &str) -> (res: bool)
    ensures
        res == telling(Some(s@)),
{
    text::chars_of(s).len() > 0 && !text::same(s, "00000000-0000-0000-0000-000000000000")
}

/// The AAGUID among the texts that were found where it can stand.
pub fn choose_aaguid(found: &Vec<Option<String>>) -> (res: Option<String>)
    ensures
        text::text_of(res) == chosen_aaguid(found_texts(found@)),
{
    let ghost all = found_texts(found@);
    let mut i: usize = 0;
    assert(all.skip(0) =~= all);
    while i < found.len()
        invariant
            i <= found@.len(),
            all == found_texts(found@),
            chosen_aaguid(all) == chosen_aaguid(all.skip(i as int)),
        decreases found@.len() - i,
    {
        assert(all.skip(i as int)[0] == text::text_of(found@[i as int]));
        assert(all.skip(i as int).skip(1) =~= all.skip(i + 1));
        if let Some(s) = &found[i] {
            if is_telling(s.as_str()) {
                return Some(s.clone());
            }
        }
        i = i + 1;
    }
    None
}

/// The value that a path of keys leads to.
pub open spec fn dug(v: Value, path: Seq<Seq<char>>) -> Option<Value>
    decreases path.len(),
{
    if path.len() == 0 {
        Some(v)
    } else {
        match outside::member_in(v, path[0]) {
            Some(w) => dug(w, path.skip(1)),
            None => None,
        }
    }
}

/// The text that a path of keys leads to.
pub open spec fn text_at(v: Value, path: Seq<Seq<char>>) -> Option<Seq<char>> {
    match dug(v, path) {
        Some(w) => outside::text_in(w),
        None => None,
    }
}

/// The credential id that a passkey gives, under one of the names it can
/// have.
pub open spec fn cred_id_in(v: Value) -> Seq<char> {
    chosen_id(
        seq![
            text_at(v, seq!["cred"@, "cred_id"@]),
            text_at(v, seq!["cred_id"@]),
            text_at(v, seq!["id"@]),
        ],
    )
}

/// The AAGUID that a passkey gives, under one of the names it can have.
pub open spec fn aaguid_in(v: Value) -> Option<Seq<char>> {
    chosen_aaguid(seq![text_at(v, seq!["cred"@, "aaguid"@]), text_at(v, seq!["aaguid"@])])
}

/// The value that a path of keys leads to.
pub fn dig<'a>(v: &'a Value, path: &Vec<String>) -> (res: Option<&'a Value>)
    ensures
        match res {
            Some(w) => dug(*v, text::texts(path@)) == Some(*w),
            None => dug(*v, text::texts(path@)) is None,
        },
{
    let ghost all = text::texts(path@);
    let mut cur = v;
    let mut i: usize = 0;
    assert(all.skip(0) =~= all);
    while i < path.len()
        invariant
            i <= path@.len(),
            all == text::texts(path@),
            dug(*v, all) == dug(*cur, all.skip(i as int)),
        decreases path@.len() - i,
    {
        assert(all.skip(i as int)[0] == path@[i as int]@);
        assert(all.skip(i as int).skip(1) =~= all.skip(i + 1));
        match outside::value_member(cur, path[i].as_str()) {
            Some(w) => {
                cur = w;
            },
            None => {
                return None;
            },
        }
        i = i + 1;
    }
    Some(cur)
}

/// The text under a key, or under two of them.
fn dig_text(v: &Value, first: &str, second: Option<&str>) -> (res: Option<String>)
    ensures
        text::text_of(res) == text_at(
            *v,
            match second {
                Some(s) => seq![first@, s@],
                None => seq![first@],
            },
        ),
{
    let mut path: Vec<String> = Vec::new();
    path.push(first.to_owned());
    if let Some(s) = second {
        path.push(s.to_owned());
    }
    assert(text::texts(path@) =~= match second {
        Some(s) => seq![first@, s@],
        None => seq![first@],
    });
    match dig(v, &path) {
        Some(w) => outside::value_text(w),
        None => None,
    }
}

/// The credential id that a passkey gives.
pub fn passkey_cred_id_from_json(v: &Value) -> (res: String)
    ensures
        res@ == cred_id_in(*v),
{
    let mut found: Vec<Option<String>> = Vec::new();
    found.push(dig_text(v, "cred", Some("cred_id")));
    found.push(dig_text(v, "cred_id", None));
    found.push(dig_text(v, "id", None));
    assert(found_texts(found@) =~= seq![
        text_at(*v, seq!["cred"@, "cred_id"@]),
        text_at(*v, seq!["cred_id"@]),
        text_at(*v, seq!["id"@]),
    ]);
    choose_id(&found)
}

/// The AAGUID that a passkey gives.
pub fn passkey_aaguid_from_json(v: &Value) -> (res: Option<String>)
    ensures
        text::text_of(res) == aaguid_in(*v),
{
    let mut found: Vec<Option<String>> = Vec::new();
    found.push(dig_text(v, "cred", Some("aaguid")));
    found.push(dig_text(v, "aaguid", None));
    assert(found_texts(found@) =~= seq![
        text_at(*v, seq!["cred"@, "aaguid"@]),
        text_at(*v, seq!["aaguid"@]),
    ]);
    choose_aaguid(&found)
}

/// What is shown of a passkey, given its JSON, if it has any.
pub open spec fn info_in(v: Option<Value>) -> InfoView {
    match v {
        Some(v) => InfoView { cred_id: cred_id_in(v), aaguid: aaguid_in(v) },
        None => InfoView { cred_id: "?"@, aaguid: None },
    }
}

/// What is shown of a passkey.
pub open spec fn info_of(passkey: Passkey) -> InfoView {
    info_in(outside::passkey_value_of(passkey))
}

/// The credential id of a passkey.
pub fn passkey_cred_id(passkey: &Passkey) -> (res: String)
    ensures
        res@ == info_of(*passkey).cred_id,
{
    match outside::passkey_value(passkey) {
        Some(v) => passkey_cred_id_from_json(&v),
        None => "?".to_owned(),
    }
}

/// The AAGUID of a passkey.
pub fn passkey_aaguid(passkey: &Passkey) -> (res: Option<String>)
    ensures
        text::text_of(res) == info_of(*passkey).aaguid,
{
    match outside::passkey_value(passkey) {
        Some(v) => passkey_aaguid_from_json(&v),
        None => None,
    }
}

/// What is shown of a passkey.
pub fn passkey_info(passkey: &Passkey) -> (res: Info)
    ensures
        res@ == info_of(*passkey),
{
    Info { cred_id: passkey_cred_id(passkey), aaguid: passkey_aaguid(passkey) }
}

// --- list -------------------------------------------------------------------

/// The fields of a passkey as a JSON object, in alphabetical order.
pub open spec fn info_fields(p: InfoView) -> Seq<(Seq<char>, Seq<char>)> {
    seq![
        (
            json::key("aaguid"@),
            match p.aaguid {
                Some(a) => outside::json_text(a),
                None => "null"@,
            },
        ),
        (json::key("cred_id"@), outside::json_text(p.cred_id)),
    ]
}

/// A passkey as one JSON object.
pub open spec fn info_json(p: InfoView) -> Seq<char> {
    json::object(info_fields(p))
}

/// A passkey in one line, with its number.
pub open spec fn info_line(p: InfoView, i: nat) -> Seq<char> {
    let line = "  ["@ + text::decimal_text(i) + "] cred_id="@ + p.cred_id;
    match p.aaguid {
        Some(a) => line + "  aaguid="@ + a + "\n"@,
        None => line + "\n"@,
    }
}

/// The contents of a list of what is shown.
pub open spec fn infos(v: Seq<Info>) -> Seq<InfoView> {
    v.map_values(|p: Info| p@)
}

/// What is shown of passkeys.
pub open spec fn infos_of(passkeys: Seq<Passkey>) -> Seq<InfoView> {
    passkeys.map_values(|p: Passkey| info_of(p))
}

/// The passkeys as JSON objects.
pub open spec fn info_items(v: Seq<InfoView>) -> Seq<Seq<char>> {
    v.map_values(|p: InfoView| info_json(p))
}

/// The passkeys in lines.
pub open spec fn info_lines(v: Seq<InfoView>) -> Seq<char>
    decreases v.len(),
{
    if v.len() == 0 {
        Seq::empty()
    } else {
        info_lines(v.drop_last()) + info_line(v.last(), (v.len() - 1) as nat)
    }
}

/// What `passkeys list` prints.
pub open spec fn listing(v: Seq<InfoView>, path: Seq<char>, json: bool) -> Seq<char> {
    if json {
        json::array(info_items(v)) + "\n"@
    } else if v.len() == 0 {
        "0 passkeys at "@ + path + "\n"@
    } else {
        text::decimal_text(v.len()) + " passkey(s) at "@ + path + "\n"@ + info_lines(v)
    }
}

/// What is shown of a passkey as one JSON object.
pub fn info_to_json(p: &Info) -> (res: String)
    ensures
        res@ == info_json(p@),
{
    let aaguid = match &p.aaguid {
        Some(a) => outside::json_string(a.as_str()),
        None => "null".to_owned(),
    };
    let mut fields: Vec<(String, String)> = Vec::new();
    json::push_field(&mut fields, "aaguid", aaguid);
    json::push_field(&mut fields, "cred_id", outside::json_string(p.cred_id.as_str()));
    assert(outside::pair_texts(fields@) =~= info_fields(p@));
    json::to_object(&fields)
}

/// A passkey as one JSON object.
pub fn passkey_json(passkey: &Passkey) -> (res: String)
    ensures
        res@ == info_json(info_of(*passkey)),
{
    info_to_json(&passkey_info(passkey))
}

/// What `passkeys list` prints, given what is shown of the passkeys in the file
/// at `path`.
pub fn list_infos(shown: &Vec<Info>, path: &str, json: bool) -> (res: String)
    ensures
        res@ == listing(infos(shown@), path@, json),
{
    let ghost v = infos(shown@);
    if json {
        let mut items: Vec<String> = Vec::new();
        let mut i: usize = 0;
        let ghost all = info_items(v);
        assert(text::texts(items@) =~= all.take(0));
        while i < shown.len()
            invariant
                i <= shown@.len(),
                v == infos(shown@),
                all == info_items(v),
                text::texts(items@) == all.take(i as int),
            decreases shown@.len() - i,
        {
            let ghost before = text::texts(items@);
            let item = info_to_json(&shown[i]);
            assert(all.take(i + 1) =~= before.push(item@));
            items.push(item);
            assert(text::texts(items@) =~= before.push(item@));
            i = i + 1;
        }
        assert(all.take(shown@.len() as int) =~= all);
        return json::to_array(&items).concat("\n");
    }
    if shown.len() == 0 {
        return "0 passkeys at ".to_owned().concat(path).concat("\n");
    }
    let head = text::decimal(shown.len() as u64).concat(" passkey(s) at ").concat(path).concat(
        "\n",
    );
    let mut lines = String::new();
    let mut i: usize = 0;
    assert(v.take(0) =~= Seq::empty());
    while i < shown.len()
        invariant
            i <= shown@.len(),
            v == infos(shown@),
            lines@ == info_lines(v.take(i as int)),
        decreases shown@.len() - i,
    {
        assert(v.take(i + 1).drop_last() =~= v.take(i as int));
        assert(v.take(i + 1).last() == shown@[i as int]@);
        let p = &shown[i];
        let line = "  [".to_owned().concat(text::decimal(i as u64).as_str()).concat(
            "] cred_id=",
        ).concat(p.cred_id.as_str());
        let line = match &p.aaguid {
            Some(a) => line.concat("  aaguid=").concat(a.as_str()).concat("\n"),
            None => line.concat("\n"),
        };
        lines.append(line.as_str());
        i = i + 1;
    }
    assert(v.take(shown@.len() as int) =~= v);
    head.concat(lines.as_str())
}

/// What `passkeys list` prints, for the passkeys in the file at `path`.
pub fn list(passkeys: &Vec<Passkey>, path: &str, json: bool) -> (res: String)
    ensures
        res@ == listing(infos_of(passkeys@), path@, json),
{
    let mut shown: Vec<Info> = Vec::new();
    let mut i: usize = 0;
    let ghost all = infos_of(passkeys@);
    assert(infos(shown@) =~= all.take(0));
    while i < passkeys.len()
        invariant
            i <= passkeys@.len(),
            all == infos_of(passkeys@),
            infos(shown@) == all.take(i as int),
        decreases passkeys@.len() - i,
    {
        let ghost before = infos(shown@);
        let p = passkey_info(&passkeys[i]);
        assert(all.take(i + 1) =~= before.push(p@));
        shown.push(p);
        assert(infos(shown@) =~= before.push(p@));
        i = i + 1;
    }
    assert(all.take(passkeys@.len() as int) =~= all);
    list_infos(&shown, path, json)
}

// --- reset ------------------------------------------------------------------

/// What `passkeys reset` does next.
#[derive(Debug)]
pub enum Reset {
    /// Ask, and go on if the answer is yes.
    Ask(String),
    /// Go on.
    Proceed,
}

/// What `passkeys reset` does first: deleting takes a yes, from somebody at
/// the terminal or from the command line, even where there is nothing to
/// delete.
pub fn reset(n: u64, path: &str, yes: bool, stdin_tty: bool) -> (res: Result<Reset, Error>)
    ensures
        match res {
            Ok(Reset::Proceed) => yes,
            Ok(Reset::Ask(question)) => !yes && stdin_tty && question@ == "This will delete "@
                + text::decimal_text(n as nat) + " passkey(s) at "@ + path@
                + ". Continue? [y/N] "@,
            Err(e) => !yes && !stdin_tty && e@ == output::hinted_error(
                "would delete "@ + text::decimal_text(n as nat) + " passkey(s) at "@ + path@,
                "pass --yes to confirm on a non-TTY"@,
                output::EX_USAGE,
            ),
        },
{
    if yes {
        return Ok(Reset::Proceed);
    }
    let count = text::decimal(n);
    if !stdin_tty {
        return Err(
            Error::usage(
                "would delete ".to_owned().concat(count.as_str()).concat(" passkey(s) at ").concat(
                    path,
                ).as_str(),
            ).with_hint("pass --yes to confirm on a non-TTY"),
        );
    }
    Ok(
        Reset::Ask(
            "This will delete ".to_owned().concat(count.as_str()).concat(" passkey(s) at ").concat(
                path,
            ).concat(". Continue? [y/N] "),
        ),
    )
}

/// Whether the passkeys are deleted, given the line that was answered: only
/// for a yes.
pub fn confirm(line: &str) -> (res: Result<(), Error>)
    ensures
        match res {
            Ok(_) => text::same_letters(text::trimmed(line@), "y"@),
            Err(e) => !text::same_letters(text::trimmed(line@), "y"@) && e@ == output::plain_error(
                "aborted"@,
                output::EX_FAIL,
            ),
        },
{
    if text::same_ignoring_case(text::trim(line).as_str(), "y") {
        Ok(())
    } else {
        Err(Error::fail("aborted"))
    }
}

/// What is said where there is no file to delete.
pub fn nothing_to_delete(path: &str) -> (res: String)
    ensures
        res@ == "nothing to delete ("@ + path@ + " doesn't exist)\n"@,
{
    "nothing to delete (".to_owned().concat(path).concat(" doesn't exist)\n")
}

/// The error where the file cannot be deleted.
pub fn remove_error(path: &str, error: &str) -> (res: Error)
    ensures
        res@ == output::plain_error("remove "@ + path@ + ": "@ + error@, output::EX_FAIL),
{
    Error::fail("remove ".to_owned().concat(path).concat(": ").concat(error).as_str())
}

/// What is said once the file has been deleted.
pub fn deleted(path: &str, n: u64) -> (res: String)
    ensures
        res@ == "deleted "@ + path@ + " ("@ + text::decimal_text(n as nat)
            + " passkey(s))\nthe next visit to the page will register a new passkey.\n"@,
{
    "deleted ".to_owned().concat(path).concat(" (").concat(text::decimal(n).as_str()).concat(
        " passkey(s))\nthe next visit to the page will register a new passkey.\n",
    )
}

} // verus!
