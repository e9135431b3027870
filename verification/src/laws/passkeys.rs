//! What `latch passkeys` promises, and the files of passkeys and key.
use vstd::prelude::*;

use serde_json::Value;
use webauthn_rs::prelude::Passkey;

use super::text::{chain, lemma_chain_push};
use crate::cmd::passkeys::{self, InfoView};
use crate::state;
use crate::{json, laws, outside, text};

verus! {

// --- what a passkey says of itself ------------------------------------------

/// The text under one key, or under two, of a JSON value.
pub open spec fn under_one(v: Value, a: Seq<char>) -> Option<Seq<char>> {
    if let Some(w) = outside::member_in(v, a) {
        outside::text_in(w)
    } else {
        None
    }
}

pub open spec fn under_two(v: Value, a: Seq<char>, b: Seq<char>) -> Option<Seq<char>> {
    if let Some(w) = outside::member_in(v, a) {
        under_one(w, b)
    } else {
        None
    }
}

proof fn lemma_paths(v: Value, a: Seq<char>, b: Seq<char>)
    ensures
        passkeys::text_at(v, seq![a]) == under_one(v, a),
        passkeys::text_at(v, seq![a, b]) == under_two(v, a, b),
{
    reveal_with_fuel(passkeys::dug, 3);
    assert(seq![a].skip(1) =~= Seq::<Seq<char>>::empty());
    assert(seq![a, b].skip(1) =~= seq![b]);
    assert(seq![b].skip(1) =~= Seq::<Seq<char>>::empty());
}

/// A passkey is shown by the credential id in its JSON, which stands in its
/// credential or by itself; without one, by a question mark.
pub proof fn passkeys_are_shown_by_their_id(v: Value, id: Seq<char>)
    ensures
        under_two(v, "cred"@, "cred_id"@) == Some(id) ==> passkeys::cred_id_in(v) == id,
        under_two(v, "cred"@, "cred_id"@) is None && under_one(v, "cred_id"@) == Some(id)
            ==> passkeys::cred_id_in(v) == id,
        under_two(v, "cred"@, "cred_id"@) is None && under_one(v, "cred_id"@) is None && under_one(
            v,
            "id"@,
        ) == Some(id) ==> passkeys::cred_id_in(v) == id,
        under_two(v, "cred"@, "cred_id"@) is None && under_one(v, "cred_id"@) is None && under_one(
            v,
            "id"@,
        ) is None ==> passkeys::cred_id_in(v) == seq!['?'],
{
    lemma_paths(v, "cred"@, "cred_id"@);
    lemma_paths(v, "cred_id"@, "id"@);
    lemma_paths(v, "id"@, "id"@);
    reveal_strlit("?");
    assert("?"@ =~= seq!['?']);
    let all = seq![
        passkeys::text_at(v, seq!["cred"@, "cred_id"@]),
        passkeys::text_at(v, seq!["cred_id"@]),
        passkeys::text_at(v, seq!["id"@]),
    ];
    reveal_with_fuel(passkeys::chosen_id, 4);
    assert(all.skip(1).skip(1)[0] == all[2]);
    assert(all.skip(1)[0] == all[1]);
    assert(all.skip(1).skip(1).skip(1).len() == 0);
}

/// An AAGUID that says nothing: none, an empty one, or nothing but zeros.
pub open spec fn says_nothing(s: Option<Seq<char>>) -> bool {
    s is None || s == Some(Seq::<char>::empty()) || s == Some(
        "00000000-0000-0000-0000-000000000000"@,
    )
}

/// The kind of authenticator is shown where it is known: where an AAGUID that
/// says something stands in the credential or by itself.
pub proof fn the_aaguid_is_shown_where_it_says_something(v: Value)
    ensures
        !says_nothing(under_two(v, "cred"@, "aaguid"@)) ==> passkeys::aaguid_in(v) == under_two(
            v,
            "cred"@,
            "aaguid"@,
        ),
        says_nothing(under_two(v, "cred"@, "aaguid"@)) && !says_nothing(under_one(v, "aaguid"@))
            ==> passkeys::aaguid_in(v) == under_one(v, "aaguid"@),
        says_nothing(under_two(v, "cred"@, "aaguid"@)) && says_nothing(under_one(v, "aaguid"@))
            ==> passkeys::aaguid_in(v) is None,
{
    lemma_paths(v, "cred"@, "aaguid"@);
    lemma_paths(v, "aaguid"@, "aaguid"@);
    let a = passkeys::text_at(v, seq!["cred"@, "aaguid"@]);
    let b = passkeys::text_at(v, seq!["aaguid"@]);
    lemma_telling(a);
    lemma_telling(b);
    let all = seq![a, b];
    reveal_with_fuel(passkeys::chosen_aaguid, 3);
    assert(all.skip(1)[0] == b);
    assert(all.skip(1).skip(1).len() == 0);
}

proof fn lemma_telling(s: Option<Seq<char>>)
    ensures
        passkeys::telling(s) == !says_nothing(s),
{
    reveal_strlit("00000000-0000-0000-0000-000000000000");
    if let Some(t) = s {
        if t.len() == 0 {
            assert(t =~= Seq::<char>::empty());
        }
    }
}

// --- the list ---------------------------------------------------------------

/// The line of the passkey at `i`.
pub open spec fn line(p: InfoView, i: int) -> Seq<char> {
    let start = "  ["@ + text::decimal_text(i as nat) + "] cred_id="@ + p.cred_id;
    if let Some(a) = p.aaguid {
        start + "  aaguid="@ + a
    } else {
        start
    }
}

/// The list for people: how many passkeys there are and where, and a line for
/// each, in order and numbered from zero.
pub proof fn the_lines_of_the_list(v: Seq<InfoView>, path: Seq<char>)
    ensures
        v.len() == 0 ==> passkeys::listing(v, path, false) == "0 passkeys at "@ + path + seq!['\n'],
        v.len() > 0 ==> passkeys::listing(v, path, false) == chain(
            (seq![text::decimal_text(v.len()) + " passkey(s) at "@ + path] + Seq::new(
                v.len(),
                |i: int| line(v[i], i),
            )).push(Seq::empty()),
            seq!['\n'],
        ),
{
    reveal_strlit("\n");
    assert("\n"@ =~= seq!['\n']);
    if v.len() > 0 {
        let first = text::decimal_text(v.len()) + " passkey(s) at "@ + path;
        lemma_lines(first, v);
        assert(first + "\n"@ + passkeys::info_lines(v) =~= passkeys::listing(v, path, false));
    }
}

proof fn lemma_lines(first: Seq<char>, v: Seq<InfoView>)
    ensures
        chain(
            (seq![first] + Seq::new(v.len(), |i: int| line(v[i], i))).push(Seq::empty()),
            seq!['\n'],
        ) == first + "\n"@ + passkeys::info_lines(v),
    decreases v.len(),
{
    reveal_strlit("\n");
    let e = Seq::<char>::empty();
    let n = seq!['\n'];
    assert("\n"@ =~= n);
    let rows = Seq::new(v.len(), |i: int| line(v[i], i));
    let all = seq![first] + rows;
    lemma_chain_push(all, e, n);
    if v.len() == 0 {
        assert(all =~= seq![first]);
        assert(first + n + e =~= first + "\n"@ + passkeys::info_lines(v));
    } else {
        let w = v.drop_last();
        let before = seq![first] + Seq::new(w.len(), |i: int| line(w[i], i));
        let last = line(v.last(), v.len() - 1);
        lemma_lines(first, w);
        assert(all =~= before.push(last));
        lemma_chain_push(before, e, n);
        lemma_chain_push(before, last, n);
        assert(passkeys::info_line(v.last(), (v.len() - 1) as nat) =~= last + n);
        assert(chain(before, n) + n + last + n + e =~= chain(before, n) + n + e + (last + n));
        assert(chain(before, n) + n + e == first + "\n"@ + passkeys::info_lines(w));
        assert(first + "\n"@ + passkeys::info_lines(w) + (last + n) =~= first + "\n"@ + (
        passkeys::info_lines(w) + (last + n)));
    }
}

/// One passkey for programs.
pub open spec fn item(p: InfoView) -> Seq<char> {
    "{\"aaguid\":"@ + (if let Some(a) = p.aaguid {
        outside::json_text(a)
    } else {
        "null"@
    }) + ",\"cred_id\":"@ + outside::json_text(p.cred_id) + "}"@
}

/// The list for programs: a JSON object for each passkey, in order.
pub proof fn the_items_of_the_list(v: Seq<InfoView>, path: Seq<char>)
    ensures
        passkeys::listing(v, path, true) == seq!['['] + chain(
            Seq::new(v.len(), |i: int| item(v[i])),
            seq![','],
        ) + seq![']'] + seq!['\n'],
{
    reveal_strlit("\n");
    assert("\n"@ =~= seq!['\n']);
    assert forall|i: int| 0 <= i < v.len() implies #[trigger] passkeys::info_items(v)[i] == item(
        v[i],
    ) by {
        lemma_item(v[i]);
    }
    assert(passkeys::info_items(v) =~= Seq::new(v.len(), |i: int| item(v[i])));
    laws::tokens::objects_and_lists(Seq::empty(), passkeys::info_items(v));
}

proof fn lemma_item(p: InfoView)
    ensures
        passkeys::info_json(p) == item(p),
{
    reveal_strlit("\"");
    reveal_strlit("aaguid");
    reveal_strlit("cred_id");
    reveal_strlit("{\"aaguid\":");
    reveal_strlit(",\"cred_id\":");
    reveal_strlit("}");
    let f = passkeys::info_fields(p);
    laws::tokens::objects_and_lists(f, Seq::empty());
    let parts = laws::tokens::fields_in(f);
    assert(parts.skip(1) =~= seq![parts[1]]);
    reveal_with_fuel(chain, 3);
    assert(chain(parts, seq![',']) == parts[0] + seq![','] + parts[1]);
    assert(json::key("aaguid"@) =~= seq!['"', 'a', 'a', 'g', 'u', 'i', 'd', '"']);
    assert(json::object(f) =~= item(p));
}

/// Passkeys are deleted after nothing but a yes, in upper or lower case.
pub proof fn only_yes_is_yes(answer: Seq<char>)
    ensures
        text::same_letters(answer, "y"@) <==> answer == seq!['y'] || answer == seq!['Y'],
{
    reveal_strlit("y");
    laws::text::case_is_all_that_does_not_count(answer, "y"@);
    if text::same_letters(answer, "y"@) {
        assert(laws::text::is_same_letter(answer[0], "y"@[0]));
        assert(answer =~= seq!['y'] || answer =~= seq!['Y']);
    }
    if answer == seq!['y'] || answer == seq!['Y'] {
        assert forall|i: int| 0 <= i < answer.len() implies laws::text::is_same_letter(
            #[trigger] answer[i],
            "y"@[i],
        ) by {}
    }
}

// --- files ------------------------------------------------------------------

/// A file holds a signing key exactly where it holds 32 bytes, which are the
/// key; and its file is for nobody but its owner.
pub proof fn keys_are_files_of_32_bytes(b: Seq<u8>)
    ensures
        b.len() == 32 ==> state::key_in(Some(b)) == Some(b),
        b.len() != 32 ==> state::key_in(Some(b)) is None,
        state::key_in(None) is None,
        state::KEY_PERMISSIONS == 384,
{
}

/// A file that is missing, or holds something else, is as good as an empty
/// one: there is no passkey and nothing was logged out.
pub proof fn files_that_hold_nothing(b: Seq<u8>)
    ensures
        state::passkeys_held(None).len() == 0,
        outside::passkeys_in(b) is None ==> state::passkeys_held(Some(b)).len() == 0,
        outside::passkeys_in(b) matches Some(list) ==> state::passkeys_held(Some(b)) == list,
        state::denylist_in(None).dom() =~= Set::<Seq<char>>::empty(),
        outside::revoked_in(b) is None ==> state::denylist_in(Some(b)).dom() =~= Set::<
            Seq<char>,
        >::empty(),
        outside::revoked_in(b) matches Some(m) ==> state::denylist_in(Some(b)) == m,
{
}

/// Every passkey is shown, in order, by what its JSON says; one without JSON
/// by a question mark.
pub proof fn every_passkey_is_shown(list: Seq<Passkey>, i: int)
    requires
        0 <= i < list.len(),
    ensures
        ({
            let shown = passkeys::infos_of(list);
            &&& shown.len() == list.len()
            &&& match outside::passkey_value_of(list[i]) {
                Some(v) => shown[i].cred_id == passkeys::cred_id_in(v) && shown[i].aaguid
                    == passkeys::aaguid_in(v),
                None => shown[i].cred_id == seq!['?'] && shown[i].aaguid is None,
            }
        }),
{
    reveal_strlit("?");
    assert("?"@ =~= seq!['?']);
}

} // verus!
