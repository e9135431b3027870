//! What `latch update` promises.
use vstd::prelude::*;
use vstd::utf8::*;

use super::text::{is_blank, is_white};
use crate::cmd::update::{
    self, ActionView, Event, Fetched, PlanView, Stage, Unpacked, UpdateView,
};
use crate::{laws, outside, text};

verus! {

/// Where the archive of a release is.
pub open spec fn archive_of(tag: Seq<char>) -> Seq<char> {
    "https://github.com/TerryTsai/latch/releases/download/"@ + tag
        + "/latch-x86_64-unknown-linux-musl.tar.gz"@
}

proof fn lemma_version(vs: Seq<char>, version: Seq<char>)
    requires
        forall|i: int| 0 <= i < vs.len() ==> #[trigger] vs[i] == 'v',
        version.len() > 0 ==> version[0] != 'v',
    ensures
        update::without_v(vs + version) == version,
    decreases vs.len(),
{
    let s = vs + version;
    if vs.len() == 0 {
        assert(s =~= version);
    } else {
        assert(vs[0] == 'v');
        assert(s.drop_first() =~= vs.drop_first() + version);
        assert forall|i: int| 0 <= i < vs.len() - 1 implies #[trigger] vs.drop_first()[i] == 'v' by {
            assert(vs.drop_first()[i] == vs[i + 1]);
        }
        lemma_version(vs.drop_first(), version);
    }
}

/// A release is fetched exactly where its tag, without the `v`s before it,
/// names another version than the running one, and then from the place of that
/// tag; else nothing is done but to say that all is up to date.
pub proof fn every_other_version_is_fetched(
    current: Seq<char>,
    vs: Seq<char>,
    version: Seq<char>,
)
    requires
        forall|i: int| 0 <= i < vs.len() ==> #[trigger] vs[i] == 'v',
        version.len() > 0 ==> version[0] != 'v',
    ensures
        ({
            let tag = vs + version;
            let plan = update::planned(current, tag);
            &&& current == version ==> plan == PlanView::UpToDate(
                "already up to date ("@ + current + ")\n"@,
            )
            &&& current != version ==> plan == PlanView::Fetch {
                notes: "updating: "@ + current + " \u{2192} "@ + version + "\ndownloading "@
                    + archive_of(tag) + "\n"@,
                version,
                archive: archive_of(tag),
                checksum: archive_of(tag) + ".sha256"@,
            }
        }),
{
    lemma_version(vs, version);
}

/// The tag of the latest release is what stands in the first quotes behind its
/// name; an answer without that name, or without quotes behind it, has none.
pub proof fn tags_stand_behind_their_name(
    a: Seq<char>,
    x: Seq<char>,
    tag: Seq<char>,
    b: Seq<char>,
)
    requires
        !x.contains('"'),
        !tag.contains('"'),
        forall|j: int|
            0 <= j < a.len() && j + 11 <= a.len() + 11 + x.len() + tag.len() + b.len() + 2
                ==> #[trigger] (a + "\"tag_name\":"@ + (x + seq!['"'] + tag + seq!['"']
                + b)).subrange(j, j + 11) != "\"tag_name\":"@,
        !text::holds(x + seq!['"'] + tag + seq!['"'] + b, "\"tag_name\":"@),
    ensures
        update::tag_in(a + "\"tag_name\":"@ + (x + seq!['"'] + tag + seq!['"'] + b)) == Ok::<
            Seq<char>,
            Seq<char>,
        >(tag),
{
    reveal_strlit("\"tag_name\":");
    let mark = "\"tag_name\":"@;
    let rest = x + seq!['"'] + tag + seq!['"'] + b;
    let s = a + mark + rest;
    assert(mark.len() == 11);
    laws::text::the_first_place_is_the_first(s, mark);
    assert(s.subrange(a.len() as int, (a.len() + mark.len()) as int) =~= mark);
    assert(text::first_at(s, mark) == Some(a.len() as int));
    assert(s.skip((a.len() + mark.len()) as int) =~= rest);
    text::lemma_holds(rest, mark);
    assert(update::behind(s, mark) == Some(rest));
    text::lemma_pieces_first(x, '"', tag + seq!['"'] + b);
    assert(rest =~= x + seq!['"'] + (tag + seq!['"'] + b));
    lemma_second_piece(x, tag, b);
}

proof fn lemma_second_piece(x: Seq<char>, tag: Seq<char>, b: Seq<char>)
    requires
        !x.contains('"'),
        !tag.contains('"'),
    ensures
        text::pieces(x + seq!['"'] + tag + seq!['"'] + b, '"').len() >= 2,
        text::pieces(x + seq!['"'] + tag + seq!['"'] + b, '"')[1] == tag,
    decreases b.len(),
{
    let s = x + seq!['"'] + tag + seq!['"'] + b;
    let head = x + seq!['"'] + tag;
    text::lemma_pieces_single(x, '"');
    text::lemma_pieces_append(x, '"', tag);
    if b.len() == 0 {
        text::lemma_pieces_append(head, '"', b);
        assert(s =~= head + seq!['"'] + b);
    } else {
        let c = b.drop_last();
        lemma_second_piece(x, tag, c);
        let t = x + seq!['"'] + tag + seq!['"'] + c;
        assert(s.drop_last() =~= t);
        assert(s.last() == b.last());
        lemma_three_pieces(x, tag, c);
    }
}

proof fn lemma_three_pieces(x: Seq<char>, tag: Seq<char>, c: Seq<char>)
    requires
        !x.contains('"'),
        !tag.contains('"'),
    ensures
        text::pieces(x + seq!['"'] + tag + seq!['"'] + c, '"').len() >= 3,
    decreases c.len(),
{
    let s = x + seq!['"'] + tag + seq!['"'] + c;
    let head = x + seq!['"'] + tag;
    text::lemma_pieces_single(x, '"');
    text::lemma_pieces_append(x, '"', tag);
    if c.len() == 0 {
        text::lemma_pieces_append(head, '"', c);
        assert(s =~= head + seq!['"'] + c);
    } else {
        lemma_three_pieces(x, tag, c.drop_last());
        assert(s.drop_last() =~= x + seq!['"'] + tag + seq!['"'] + c.drop_last());
    }
}

/// An answer that does not name a tag has none.
pub proof fn answers_without_a_tag(body: Seq<char>)
    requires
        forall|a: Seq<char>, b: Seq<char>| body != #[trigger] (a + "\"tag_name\":"@ + b),
    ensures
        update::tag_in(body) == Err::<Seq<char>, Seq<char>>("no tag_name in API response"@),
{
    text::lemma_holds(body, "\"tag_name\":"@);
    if text::holds(body, "\"tag_name\":"@) {
        laws::text::what_a_text_holds_stands_in_it(body, "\"tag_name\":"@);
    }
}

/// A binary may be replaced by root, by its owner, and by anybody where all
/// others may write to it: where the second bit of its permissions is set.
pub proof fn who_may_replace_the_binary(uid: u32, owner: u32, permissions: u32)
    ensures
        update::may_replace(uid, owner, permissions) <==> uid == 0 || uid == owner || (permissions
            / 2) % 2 == 1,
{
    assert((permissions & 2 != 0) == ((permissions / 2) % 2 == 1)) by (bit_vector);
}

/// The SHA-256 that is expected of an archive is the first word of its checksum
/// file, in lower case, whatever stands around it.
pub proof fn the_checksum_is_the_first_word(a: Seq<char>, w: Seq<char>, rest: Seq<char>)
    requires
        is_blank(a),
        forall|i: int| 0 <= i < w.len() ==> !is_white(#[trigger] w[i] as int),
        rest.len() > 0 ==> is_white(rest[0] as int),
    ensures
        w.len() > 0 ==> update::expected_digest(a + w + rest) == Some(outside::lowercase_text(w)),
        update::expected_digest(a) is None,
{
    if w.len() > 0 {
        laws::text::the_first_word_stands_first(a, w, rest);
    }
    laws::text::blanks_have_no_word(a);
}

/// An archive passes exactly where its SHA-256, in hexadecimal, is the one
/// that is expected; else both are said.
pub proof fn archives_pass_by_their_checksum(want: Seq<char>, got: Seq<char>, why: Seq<char>)
    ensures
        update::download_verdict(Some(want), Ok(got)) is Ok <==> want == got,
        want != got ==> update::download_verdict(Some(want), Ok(got)) == Err::<(), Seq<char>>(
            "sha256 mismatch: expected "@ + want + ", got "@ + got,
        ),
        update::download_verdict(None, Ok(got)) == Err::<(), Seq<char>>("malformed sha256 file"@),
        update::download_verdict(Some(want), Err(why)) == Err::<(), Seq<char>>(why),
{
}

/// The bytes of a response, which are the UTF-8 of a text.
pub open spec fn says(fetched: Fetched, body: Seq<char>) -> bool {
    fetched matches Fetched::Bytes(b) && valid_utf8(b@) && decode_utf8(b@) == body
}

/// An update for which everything goes well asks for the latest release, the
/// archive of it, and the checksum of that; then it has the archive unpacked,
/// installed, and the service restarted where it runs. What it says names the
/// versions, the place of the archive and the binary.
pub proof fn the_way_of_an_update(
    current: Seq<char>,
    path: String,
    uid: u32,
    owner: u32,
    permissions: u32,
    answer: Fetched,
    body: Seq<char>,
    vs: Seq<char>,
    version: Seq<char>,
    archive: Vec<u8>,
    sums: Fetched,
    checksum: Seq<char>,
    active: bool,
)
    requires
        uid == 0 || uid == owner,
        says(answer, body),
        forall|i: int| 0 <= i < vs.len() ==> #[trigger] vs[i] == 'v',
        version.len() > 0 ==> version[0] != 'v',
        update::tag_in(body) == Ok::<Seq<char>, Seq<char>>(vs + version),
        current != version,
        says(sums, checksum),
        update::expected_digest(checksum) == Some(
            text::hex_text(outside::sha256_of(archive@)),
        ),
    ensures
        ({
            let digest = Ok::<Seq<char>, Seq<char>>(text::hex_text(outside::sha256_of(archive@)));
            let a = update::started(current);
            let b = update::stepped(a, Event::Binary { path, uid, owner, permissions }, digest);
            let c = update::stepped(b, Event::Fetched(answer), digest);
            let d = update::stepped(c, Event::Fetched(Fetched::Bytes(archive)), digest);
            let e = update::stepped(d, Event::Fetched(sums), digest);
            let f = update::stepped(e, Event::Unpacked(Unpacked::Done { binary: true }), digest);
            let g = update::stepped(f, Event::Installed, digest);
            let h = update::stepped(g, Event::Service { active }, digest);
            let i = update::stepped(h, Event::Restarted, digest);
            let tag = vs + version;
            &&& update::asked(a) == ActionView::Inspect
            &&& update::asked(b) == ActionView::Fetch(
                "https://api.github.com/repos/TerryTsai/latch/releases/latest"@,
            )
            &&& update::asked(c) == ActionView::Fetch(archive_of(tag))
            &&& c.said == "updating: "@ + current + " \u{2192} "@ + version + "\ndownloading "@
                + archive_of(tag) + "\n"@
            &&& update::asked(d) == ActionView::Fetch(archive_of(tag) + ".sha256"@)
            &&& update::asked(e) == ActionView::Unpack
            &&& e.archive == archive@
            &&& e.said == "sha256 verified\n"@
            &&& update::asked(f) == ActionView::Install
            &&& f.archive == archive@
            &&& update::asked(g) == ActionView::AskService
            &&& g.said == "replaced "@ + path@ + " with "@ + version + "\n"@
            &&& active ==> update::asked(h) == ActionView::Restart && h.said
                == "restarting systemd service...\n"@
            &&& !active ==> update::asked(h) == ActionView::Done && h.said
                == "not running under systemd; restart manually if needed.\n"@
            &&& update::asked(i) == ActionView::Done
        }),
{
    every_other_version_is_fetched(current, vs, version);
}

/// Fetching that fails is reported with the URL, whatever was fetched, and so
/// is a binary that may not be replaced, or an archive without one.
pub proof fn failures_are_reported(
    s: UpdateView,
    words: String,
    path: String,
    uid: u32,
    owner: u32,
    permissions: u32,
    digest: Result<Seq<char>, Seq<char>>,
)
    ensures
        s.stage == Stage::Latest ==> update::asked(
            update::stepped(s, Event::Fetched(Fetched::Failed(words)), digest),
        ) == ActionView::Fail(
            "curl "@ + "https://api.github.com/repos/TerryTsai/latch/releases/latest"@ + ": "@
                + words@,
        ),
        s.stage == Stage::Archive ==> update::asked(
            update::stepped(s, Event::Fetched(Fetched::Failed(words)), digest),
        ) == ActionView::Fail("curl "@ + s.archive_url + ": "@ + words@),
        s.stage == Stage::Checksum ==> update::asked(
            update::stepped(s, Event::Fetched(Fetched::Failed(words)), digest),
        ) == ActionView::Fail("curl "@ + s.checksum_url + ": "@ + words@),
        s.stage == Stage::Latest || s.stage == Stage::Archive || s.stage == Stage::Checksum
            ==> update::asked(
            update::stepped(s, Event::Fetched(Fetched::NotRun(words)), digest),
        ) == ActionView::Fail("curl: "@ + words@),
        s.stage == Stage::Inspect && uid != 0 && uid != owner && (permissions / 2) % 2 == 0
            ==> update::asked(
            update::stepped(s, Event::Binary { path, uid, owner, permissions }, digest),
        ) == ActionView::Fail(
            "can't replace "@ + path@ + " as the current user.\nrun:\n    sudo latch update"@,
        ),
        s.stage == Stage::Unpack ==> update::asked(
            update::stepped(s, Event::Unpacked(Unpacked::Failed), digest),
        ) == ActionView::Fail("tar failed"@),
        s.stage == Stage::Unpack ==> update::asked(
            update::stepped(s, Event::Unpacked(Unpacked::NotRun(words)), digest),
        ) == ActionView::Fail("tar: "@ + words@),
        s.stage == Stage::Unpack ==> update::asked(
            update::stepped(s, Event::Unpacked(Unpacked::Done { binary: false }), digest),
        ) == ActionView::Fail("tarball didn't contain `latch`"@),
{
    who_may_replace_the_binary(uid, owner, permissions);
}

proof fn lemma_first(s: Seq<char>, p: Seq<char>, i: int)
    requires
        0 <= i <= i + p.len() <= s.len(),
        s.subrange(i, i + p.len()) == p,
        forall|j: int| 0 <= j < i ==> !#[trigger] text::occurs_at(s, p, j),
    ensures
        text::first_at(s, p) == Some(i),
{
    laws::text::the_first_place_is_the_first(s, p);
    assert(text::occurs_at(s, p, i));
    match text::first_at(s, p) {
        Some(k) => {
            assert(text::occurs_at(s, p, k));
        },
        None => {
            assert(s.subrange(i, i + p.len()) != p);
        },
    }
}

/// A name of the tag that is followed by another before any quotes has no tag.
pub proof fn names_without_quotes_have_no_tag(a: Seq<char>, x: Seq<char>, b: Seq<char>)
    requires
        !x.contains('"'),
        forall|j: int|
            0 <= j < a.len() ==> !#[trigger] text::occurs_at(
                a + "\"tag_name\":"@ + (x + "\"tag_name\":"@ + b),
                "\"tag_name\":"@,
                j,
            ),
    ensures
        update::tag_in(a + "\"tag_name\":"@ + (x + "\"tag_name\":"@ + b)) == Err::<
            Seq<char>,
            Seq<char>,
        >("no tag_name in API response"@),
{
    reveal_strlit("\"tag_name\":");
    let mark = "\"tag_name\":"@;
    let rest = x + mark + b;
    let s = a + mark + rest;
    assert(s.subrange(a.len() as int, (a.len() + mark.len()) as int) =~= mark);
    lemma_first(s, mark, a.len() as int);
    assert(s.skip((a.len() + mark.len()) as int) =~= rest);
    assert(rest.subrange(x.len() as int, (x.len() + mark.len()) as int) =~= mark);
    assert forall|j: int| 0 <= j < x.len() implies !#[trigger] text::occurs_at(rest, mark, j) by {
        if text::occurs_at(rest, mark, j) {
            assert(rest.subrange(j, j + mark.len())[0] == rest[j]);
            assert(x[j] == '"');
        }
    }
    lemma_first(rest, mark, x.len() as int);
    assert(rest.take(x.len() as int) =~= x);
    text::lemma_pieces_single(x, '"');
}

/// Where the latest release runs already, that is said and nothing more is
/// done.
pub proof fn updates_end_where_all_is_up_to_date(
    s: UpdateView,
    answer: Fetched,
    body: Seq<char>,
    vs: Seq<char>,
    digest: Result<Seq<char>, Seq<char>>,
)
    requires
        s.stage == Stage::Latest,
        s.failure is None,
        says(answer, body),
        forall|i: int| 0 <= i < vs.len() ==> #[trigger] vs[i] == 'v',
        s.current.len() > 0 ==> s.current[0] != 'v',
        update::tag_in(body) == Ok::<Seq<char>, Seq<char>>(vs + s.current),
    ensures
        ({
            let t = update::stepped(s, Event::Fetched(answer), digest);
            &&& update::asked(t) == ActionView::Done
            &&& t.said == "already up to date ("@ + s.current + ")\n"@
        }),
{
    every_other_version_is_fetched(s.current, vs, s.current);
}

/// Whatever else fails ends the update with its words, at every stage but the
/// last; what is no answer to what was asked changes nothing, and behind the
/// end nothing does.
pub proof fn updates_end_where_something_fails(
    s: UpdateView,
    why: String,
    event: Event,
    b: Vec<u8>,
    digest: Result<Seq<char>, Seq<char>>,
)
    ensures
        s.stage != Stage::Over ==> update::asked(update::stepped(s, Event::Failed(why), digest))
            == ActionView::Fail(why@),
        s.stage == Stage::Over ==> update::asked(update::stepped(s, event, digest))
            == update::asked(s),
        s.stage == Stage::Inspect && !(event is Binary) && !(event is Failed) ==> update::asked(
            update::stepped(s, event, digest),
        ) == update::asked(s),
        (s.stage == Stage::Latest || s.stage == Stage::Archive || s.stage == Stage::Checksum) && !(
        event is Fetched) && !(event is Failed) ==> update::asked(update::stepped(s, event, digest))
            == update::asked(s),
        s.stage == Stage::Unpack && !(event is Unpacked) && !(event is Failed) ==> update::asked(
            update::stepped(s, event, digest),
        ) == update::asked(s),
        s.stage == Stage::Install && !(event is Installed) && !(event is Failed) ==> update::asked(
            update::stepped(s, event, digest),
        ) == update::asked(s),
        s.stage == Stage::Service && !(event is Service) && !(event is Failed) ==> update::asked(
            update::stepped(s, event, digest),
        ) == update::asked(s),
        s.stage == Stage::Restart && !(event is Restarted) && !(event is Failed) ==> update::asked(
            update::stepped(s, event, digest),
        ) == update::asked(s),
        (s.stage == Stage::Latest || s.stage == Stage::Checksum) && !valid_utf8(b@)
            ==> update::asked(update::stepped(s, Event::Fetched(Fetched::Bytes(b)), digest))
            == ActionView::Fail("response not utf-8: "@ + outside::utf8_complaint(b@)),
{
}

} // verus!
