//! What reading requests and writing URLs promises.
use vstd::prelude::*;
use vstd::utf8::*;

use super::text::is_same_letter;
use crate::http::{self, Method, RequestView, Route};
use crate::{laws, text};

verus! {

// --- routes -----------------------------------------------------------------

/// The query of a URL plays no part in its path.
pub proof fn queries_are_no_part_of_the_path(path: Seq<char>, query: Seq<char>)
    requires
        !path.contains('?'),
    ensures
        http::path_of(path) == path,
        http::path_of(path + seq!['?'] + query) == path,
{
    text::lemma_pieces_single(path, '?');
    text::lemma_pieces_first(path, '?', query);
}

/// Each request is for one thing: the page and `/verify` are got, the
/// ceremonies and the logout are posted to, and there is nothing else.
pub proof fn requests_are_for_one_thing(method: Method, path: Seq<char>)
    ensures
        http::routed(method, path) is Index <==> method is Get && (path == seq!['/'] || path
            == seq!['/', 'l', 'o', 'g', 'i', 'n']),
        http::routed(method, path) is Verify <==> method is Get && path == seq![
            '/',
            'v',
            'e',
            'r',
            'i',
            'f',
            'y',
        ],
        http::routed(method, path) is Begin <==> method is Post && path == seq![
            '/',
            'b',
            'e',
            'g',
            'i',
            'n',
        ],
        http::routed(method, path) is Complete <==> method is Post && path == seq![
            '/',
            'c',
            'o',
            'm',
            'p',
            'l',
            'e',
            't',
            'e',
        ],
        http::routed(method, path) is Logout <==> method is Post && path == seq![
            '/',
            'l',
            'o',
            'g',
            'o',
            'u',
            't',
        ],
{
    reveal_strlit("/");
    reveal_strlit("/login");
    reveal_strlit("/verify");
    reveal_strlit("/begin");
    reveal_strlit("/complete");
    reveal_strlit("/logout");
    assert("/"@ =~= seq!['/']);
    assert("/login"@ =~= seq!['/', 'l', 'o', 'g', 'i', 'n']);
    assert("/verify"@ =~= seq!['/', 'v', 'e', 'r', 'i', 'f', 'y']);
    assert("/begin"@ =~= seq!['/', 'b', 'e', 'g', 'i', 'n']);
    assert("/complete"@ =~= seq!['/', 'c', 'o', 'm', 'p', 'l', 'e', 't', 'e']);
    assert("/logout"@ =~= seq!['/', 'l', 'o', 'g', 'o', 'u', 't']);
}

// --- headers ----------------------------------------------------------------

/// Two names of headers are the same, whatever their case.
pub open spec fn is_same_name(a: Seq<char>, b: Seq<char>) -> bool {
    a.len() == b.len() && forall|i: int| 0 <= i < a.len() ==> is_same_letter(#[trigger] a[i], b[i])
}

/// The header at `i` is the first with a name.
pub open spec fn is_first_header(
    headers: Seq<(Seq<char>, Seq<char>)>,
    name: Seq<char>,
    i: int,
) -> bool {
    &&& 0 <= i < headers.len()
    &&& is_same_name(headers[i].0, name)
    &&& forall|j: int| 0 <= j < i ==> !is_same_name(#[trigger] headers[j].0, name)
}

/// The value of a header is that of the first with its name, and there is none
/// where no header has the name.
pub proof fn the_first_header_counts(headers: Seq<(Seq<char>, Seq<char>)>, name: Seq<char>)
    ensures
        match http::header_in(headers, name) {
            Some(v) => exists|i: int| #[trigger]
                is_first_header(headers, name, i) && headers[i].1 == v,
            None => forall|j: int|
                0 <= j < headers.len() ==> !is_same_name(#[trigger] headers[j].0, name),
        },
    decreases headers.len(),
{
    if headers.len() > 0 {
        laws::text::case_is_all_that_does_not_count(headers[0].0, name);
        if text::same_letters(headers[0].0, name) {
            assert(is_first_header(headers, name, 0));
        } else {
            let rest = headers.skip(1);
            the_first_header_counts(rest, name);
            match http::header_in(rest, name) {
                Some(v) => {
                    let i = choose|i: int| #[trigger]
                        is_first_header(rest, name, i) && rest[i].1 == v;
                    assert forall|j: int| 0 <= j < i + 1 implies !is_same_name(
                        #[trigger] headers[j].0,
                        name,
                    ) by {
                        if j > 0 {
                            assert(rest[j - 1] == headers[j]);
                        }
                    }
                    assert(is_first_header(headers, name, i + 1));
                },
                None => {
                    assert forall|j: int| 0 <= j < headers.len() implies !is_same_name(
                        #[trigger] headers[j].0,
                        name,
                    ) by {
                        if j > 0 {
                            assert(rest[j - 1] == headers[j]);
                        }
                    }
                },
            }
        }
    }
}

/// The value of the first header with a name is what is found under it.
pub proof fn headers_are_found(headers: Seq<(Seq<char>, Seq<char>)>, name: Seq<char>, i: int)
    requires
        is_first_header(headers, name, i),
    ensures
        http::header_in(headers, name) == Some(headers[i].1),
{
    the_first_header_counts(headers, name);
    if let Some(v) = http::header_in(headers, name) {
        let k = choose|k: int| #[trigger] is_first_header(headers, name, k) && headers[k].1 == v;
        if k < i {
            assert(!is_same_name(headers[k].0, name));
        }
        if i < k {
            assert(!is_same_name(headers[i].0, name));
        }
    }
}

// --- cookies ----------------------------------------------------------------

/// A piece of a `Cookie` header gives a cookie its value: it is the name, an
/// equals sign and the value, with white space around them.
pub open spec fn gives(piece: Seq<char>, name: Seq<char>, v: Seq<char>) -> bool {
    text::trimmed(piece) == name + seq!['='] + v
}

/// A piece gives no cookie of a name a value.
pub open spec fn gives_nothing(piece: Seq<char>, name: Seq<char>) -> bool {
    forall|w: Seq<char>| !#[trigger] gives(piece, name, w)
}

/// The piece at `i` is the first that gives the cookie of a name a value, and
/// that is `v`.
pub open spec fn is_first_to_give(
    parts: Seq<Seq<char>>,
    name: Seq<char>,
    v: Seq<char>,
    i: int,
) -> bool {
    &&& 0 <= i < parts.len()
    &&& gives(parts[i], name, v)
    &&& forall|j: int| 0 <= j < i ==> gives_nothing(#[trigger] parts[j], name)
}

/// The first piece that gives the cookie of a name a value gives it `v`.
pub open spec fn is_given_first(parts: Seq<Seq<char>>, name: Seq<char>, v: Seq<char>) -> bool {
    exists|i: int| is_first_to_give(parts, name, v, i)
}

/// The value of a cookie is what the first piece with its name gives, the
/// pieces standing between semicolons; and there is none where no piece does.
pub proof fn the_first_cookie_counts(header: Seq<char>, name: Seq<char>)
    ensures
        match http::cookie_in(header, name) {
            Some(v) => is_given_first(text::pieces(header, ';'), name, v),
            None => forall|j: int|
                0 <= j < text::pieces(header, ';').len() ==> gives_nothing(
                    #[trigger] text::pieces(header, ';')[j],
                    name,
                ),
        },
{
    lemma_first_piece(text::pieces(header, ';'), name);
}

proof fn lemma_gives(piece: Seq<char>, name: Seq<char>)
    ensures
        (name + seq!['=']).is_prefix_of(text::trimmed(piece)) ==> gives(
            piece,
            name,
            text::trimmed(piece).skip((name.len() + 1) as int),
        ),
        !(name + seq!['=']).is_prefix_of(text::trimmed(piece)) ==> gives_nothing(piece, name),
{
    let t = text::trimmed(piece);
    let p = name + seq!['='];
    if p.is_prefix_of(t) {
        assert(t =~= p + t.skip(p.len() as int));
    } else {
        assert forall|w: Seq<char>| !#[trigger] gives(piece, name, w) by {
            if gives(piece, name, w) {
                assert((p + w).take(p.len() as int) =~= p);
            }
        }
    }
}

proof fn lemma_first_piece(parts: Seq<Seq<char>>, name: Seq<char>)
    ensures
        match http::first_with_prefix(parts, name + seq!['=']) {
            Some(v) => is_given_first(parts, name, v),
            None => forall|j: int|
                0 <= j < parts.len() ==> gives_nothing(#[trigger] parts[j], name),
        },
    decreases parts.len(),
{
    if parts.len() > 0 {
        lemma_gives(parts[0], name);
        if (name + seq!['=']).is_prefix_of(text::trimmed(parts[0])) {
            let v = text::trimmed(parts[0]).skip((name.len() + 1) as int);
            assert((name + seq!['=']).len() == name.len() + 1);
            assert(http::first_with_prefix(parts, name + seq!['=']) == Some(v));
            assert(is_first_to_give(parts, name, v, 0));
            assert(is_given_first(parts, name, v));
        } else {
            let rest = parts.skip(1);
            lemma_first_piece(rest, name);
            assert(http::first_with_prefix(parts, name + seq!['=']) == http::first_with_prefix(
                rest,
                name + seq!['='],
            ));
            match http::first_with_prefix(rest, name + seq!['=']) {
                Some(v) => {
                    let i = choose|i: int| is_first_to_give(rest, name, v, i);
                    assert(parts[i + 1] == rest[i]);
                    assert forall|j: int| 0 <= j < i + 1 implies gives_nothing(
                        #[trigger] parts[j],
                        name,
                    ) by {
                        if j > 0 {
                            assert(rest[j - 1] == parts[j]);
                        }
                    }
                    assert(is_first_to_give(parts, name, v, i + 1));
                    assert(is_given_first(parts, name, v));
                },
                None => {
                    assert forall|j: int| 0 <= j < parts.len() implies gives_nothing(
                        #[trigger] parts[j],
                        name,
                    ) by {
                        if j > 0 {
                            assert(rest[j - 1] == parts[j]);
                        }
                    }
                },
            }
        }
    }
}

/// The cookies of a request are those of its first `Cookie` header.
pub proof fn cookies_stand_in_the_first_cookie_header(req: RequestView, name: Seq<char>, i: int)
    requires
        is_first_header(req.headers, seq!['c', 'o', 'o', 'k', 'i', 'e'], i),
    ensures
        http::cookie_of(req, name) == http::cookie_in(req.headers[i].1, name),
{
    reveal_strlit("cookie");
    assert("cookie"@ =~= seq!['c', 'o', 'o', 'k', 'i', 'e']);
    headers_are_found(req.headers, "cookie"@, i);
}

// --- programs and browsers --------------------------------------------------

/// Who takes JSON is a program, whatever else it takes, unless it takes pages
/// as well.
pub proof fn who_takes_json_is_a_program(req: RequestView, a: Seq<char>, b: Seq<char>)
    requires
        http::header_in(req.headers, "Accept"@) == Some(a + "application/json"@ + b),
        forall|x: Seq<char>, y: Seq<char>|
            a + "application/json"@ + b != #[trigger] (x + "text/html"@ + y),
    ensures
        http::is_api(req),
{
    let accept = a + "application/json"@ + b;
    laws::text::a_text_holds_what_stands_in_it(a, "application/json"@, b);
    if text::holds(accept, "text/html"@) {
        laws::text::what_a_text_holds_stands_in_it(accept, "text/html"@);
    }
}

/// Who takes pages is a browser, whatever else it takes, unless it says that
/// it is a program.
pub proof fn who_takes_pages_is_a_browser(req: RequestView, a: Seq<char>, b: Seq<char>)
    requires
        http::header_in(req.headers, "Accept"@) == Some(a + "text/html"@ + b),
        http::header_in(req.headers, "X-Requested-With"@) is None,
    ensures
        !http::is_api(req),
{
    laws::text::a_text_holds_what_stands_in_it(a, "text/html"@, b);
}

/// Who takes no JSON is a browser, unless it says that it is a program.
pub proof fn who_takes_no_json_is_a_browser(req: RequestView)
    requires
        http::header_in(req.headers, "Accept"@) matches Some(accept) ==> forall|
            x: Seq<char>,
            y: Seq<char>,
        | accept != #[trigger] (x + "application/json"@ + y),
        http::header_in(req.headers, "X-Requested-With"@) is None,
    ensures
        !http::is_api(req),
{
    let none = Seq::<char>::empty();
    reveal_strlit("application/json");
    match http::header_in(req.headers, "Accept"@) {
        Some(accept) => {
            if text::holds(accept, "application/json"@) {
                laws::text::what_a_text_holds_stands_in_it(accept, "application/json"@);
            }
        },
        None => {
            if text::holds(none, "application/json"@) {
                laws::text::what_a_text_holds_stands_in_it(none, "application/json"@);
            }
        },
    }
}

/// Who says that it is a program is one, in upper or lower case, whatever it
/// takes; who says something else there is judged by what it takes.
pub proof fn who_says_so_is_a_program(req: RequestView, v: Seq<char>)
    requires
        http::header_in(req.headers, "X-Requested-With"@) == Some(v),
    ensures
        is_same_name(v, "XMLHttpRequest"@) ==> http::is_api(req),
        !is_same_name(v, "XMLHttpRequest"@) ==> http::is_api(req) == http::is_api(
            without(req, "X-Requested-With"@),
        ),
{
    laws::text::case_is_all_that_does_not_count(v, "XMLHttpRequest"@);
    if !is_same_name(v, "XMLHttpRequest"@) {
        lemma_without(req.headers, "X-Requested-With"@, "X-Requested-With"@);
        lemma_without(req.headers, "X-Requested-With"@, "Accept"@);
        lemma_names_differ();
    }
}

/// A request without the headers of a name.
pub open spec fn without(req: RequestView, name: Seq<char>) -> RequestView {
    RequestView { headers: kept(req.headers, name), ..req }
}

/// The headers with another name.
pub open spec fn kept(headers: Seq<(Seq<char>, Seq<char>)>, name: Seq<char>) -> Seq<
    (Seq<char>, Seq<char>),
>
    decreases headers.len(),
{
    if headers.len() == 0 {
        headers
    } else if is_same_name(headers[0].0, name) {
        kept(headers.skip(1), name)
    } else {
        seq![headers[0]] + kept(headers.skip(1), name)
    }
}

proof fn lemma_names_differ()
    ensures
        !is_same_name("Accept"@, "X-Requested-With"@),
        is_same_name("X-Requested-With"@, "X-Requested-With"@),
{
    reveal_strlit("Accept");
    reveal_strlit("X-Requested-With");
}

proof fn lemma_same_name(a: Seq<char>, b: Seq<char>, c: Seq<char>)
    requires
        is_same_name(a, b),
        is_same_name(a, c),
    ensures
        is_same_name(b, c),
{
    assert forall|i: int| 0 <= i < b.len() implies is_same_letter(#[trigger] b[i], c[i]) by {
        assert(is_same_letter(a[i], b[i]) && is_same_letter(a[i], c[i]));
    }
}

proof fn lemma_without(headers: Seq<(Seq<char>, Seq<char>)>, gone: Seq<char>, name: Seq<char>)
    ensures
        is_same_name(gone, name) ==> http::header_in(kept(headers, gone), name) is None,
        !is_same_name(name, gone) ==> http::header_in(kept(headers, gone), name)
            == http::header_in(headers, name),
    decreases headers.len(),
{
    if headers.len() > 0 {
        let rest = headers.skip(1);
        lemma_without(rest, gone, name);
        laws::text::case_is_all_that_does_not_count(headers[0].0, name);
        if is_same_name(headers[0].0, gone) {
            if is_same_name(headers[0].0, name) {
                lemma_same_name(headers[0].0, name, gone);
            }
        } else {
            let all = seq![headers[0]] + kept(rest, gone);
            assert(all.skip(1) =~= kept(rest, gone));
            if is_same_name(headers[0].0, name) && is_same_name(gone, name) {
                assert forall|i: int| 0 <= i < name.len() implies is_same_letter(
                    #[trigger] headers[0].0[i],
                    gone[i],
                ) by {
                    assert(is_same_letter(headers[0].0[i], name[i]));
                    assert(is_same_letter(gone[i], name[i]));
                }
            }
        }
    }
}

/// The URL that a browser wanted is by https, on the host and at the place
/// that the proxy forwards, and else the root of this host.
pub proof fn wanted_urls_are_what_was_forwarded(
    req: RequestView,
    hostname: Seq<char>,
    host: Seq<char>,
    uri: Seq<char>,
)
    ensures
        http::header_in(req.headers, "X-Forwarded-Host"@) == Some(host) && http::header_in(
            req.headers,
            "X-Forwarded-Uri"@,
        ) == Some(uri) ==> http::wanted_url(req, hostname) == "https://"@ + host + uri,
        http::header_in(req.headers, "X-Forwarded-Host"@) is None && http::header_in(
            req.headers,
            "X-Forwarded-Uri"@,
        ) == Some(uri) ==> http::wanted_url(req, hostname) == "https://"@ + hostname + uri,
        http::header_in(req.headers, "X-Forwarded-Host"@) == Some(host) && http::header_in(
            req.headers,
            "X-Forwarded-Uri"@,
        ) is None ==> http::wanted_url(req, hostname) == "https://"@ + host + seq!['/'],
        http::header_in(req.headers, "X-Forwarded-Host"@) is None && http::header_in(
            req.headers,
            "X-Forwarded-Uri"@,
        ) is None ==> http::wanted_url(req, hostname) == "https://"@ + hostname + seq!['/'],
{
    reveal_strlit("/");
    assert("/"@ =~= seq!['/']);
}

// --- percent encoding -------------------------------------------------------

/// The characters that stand for themselves in a URL: letters, digits and
/// `-._~`.
pub open spec fn is_plain_in_urls(n: int) -> bool {
    48 <= n <= 57 || 65 <= n <= 90 || 97 <= n <= 122 || n == 45 || n == 46 || n == 95 || n == 126
}

/// An encoded text holds nothing but characters that stand for themselves and
/// percent signs, each with two hexadecimal digits in upper case behind it;
/// bytes that stand for themselves stay, and texts are encoded one by one.
pub proof fn encoding_changes_what_it_must(a: Seq<u8>, b: Seq<u8>)
    ensures
        http::percent_encoded(a + b) == http::percent_encoded(a) + http::percent_encoded(b),
        a.len() == 1 && is_plain_in_urls(a[0] as int) ==> http::percent_encoded(a) == seq![
            a[0] as char,
        ],
        a.len() == 1 && !is_plain_in_urls(a[0] as int) ==> {
            let s = http::percent_encoded(a);
            &&& s.len() == 3
            &&& s[0] == '%'
            &&& http::hex_value(s[1]) * 16 + http::hex_value(s[2]) == a[0]
            &&& forall|i: int|
                1 <= i < 3 ==> {
                    let n = #[trigger] s[i] as int;
                    48 <= n <= 57 || 65 <= n <= 70
                }
        },
    decreases a.len(),
{
    reveal_with_fuel(http::percent_encoded, 2);
    if a.len() == 0 {
        assert(a + b =~= b);
        assert(http::percent_encoded(a) + http::percent_encoded(b) =~= http::percent_encoded(b));
    } else {
        assert((a + b).skip(1) =~= a.skip(1) + b);
        encoding_changes_what_it_must(a.skip(1), b);
        assert(http::percent_unit(a[0]) + (http::percent_encoded(a.skip(1)) + http::percent_encoded(
            b,
        )) =~= http::percent_encoded(a) + http::percent_encoded(b));
        if a.len() == 1 {
            assert(a.skip(1) =~= Seq::<u8>::empty());
            assert(http::percent_encoded(a) =~= http::percent_unit(a[0]));
        }
    }
}

/// Decoding an encoded text gives the text back.
pub proof fn encoded_texts_are_read_back(s: Seq<char>)
    ensures
        http::percent_decoded(http::percent_encoded(encode_utf8(s))) == encode_utf8(s),
{
    http::percent_decoding_undoes_encoding(encode_utf8(s));
}

// --- parameters -------------------------------------------------------------

/// The pair at `i` is the first with a name.
pub open spec fn is_first_pair(pairs: Seq<(Seq<char>, Seq<char>)>, key: Seq<char>, i: int) -> bool {
    0 <= i < pairs.len() && pairs[i].0 == key && forall|j: int|
        0 <= j < i ==> #[trigger] pairs[j].0 != key
}

/// The value of a parameter is that of the first pair with its name, and empty
/// where there is none.
pub proof fn the_first_parameter_counts(pairs: Seq<(Seq<char>, Seq<char>)>, key: Seq<char>, i: int)
    ensures
        is_first_pair(pairs, key, i) ==> http::value_in(Some(pairs), key) == pairs[i].1,
        (forall|j: int| 0 <= j < pairs.len() ==> #[trigger] pairs[j].0 != key) ==> http::value_in(
            Some(pairs),
            key,
        ) == Seq::<char>::empty(),
        http::value_in(None, key) == Seq::<char>::empty(),
    decreases pairs.len(),
{
    if pairs.len() > 0 && pairs[0].0 != key {
        let rest = pairs.skip(1);
        the_first_parameter_counts(rest, key, i - 1);
        if is_first_pair(pairs, key, i) {
            assert(i > 0);
            assert forall|j: int| 0 <= j < i - 1 implies #[trigger] rest[j].0 != key by {
                assert(rest[j] == pairs[j + 1]);
            }
            assert(is_first_pair(rest, key, i - 1));
        }
        if forall|j: int| 0 <= j < pairs.len() ==> #[trigger] pairs[j].0 != key {
            assert forall|j: int| 0 <= j < rest.len() implies #[trigger] rest[j].0 != key by {
                assert(rest[j] == pairs[j + 1]);
            }
        }
    }
}

// --- replies ----------------------------------------------------------------

/// Replies carry the status, the headers and the body that they are made of.
pub proof fn replies_carry_what_they_are_made_of(
    status: u16,
    name: Seq<char>,
    value: Seq<char>,
    body: Seq<char>,
)
    ensures
        ({
            let plain = http::plain_reply(status, body);
            let empty = http::empty_reply(status, name, value);
            let typed = http::typed_reply(status, value, body);
            let more = http::and_header(typed, name, body);
            &&& plain.status == status && plain.body == Some(body) && plain.headers.len() == 0
            &&& empty.status == status && empty.body is None && empty.headers == seq![(name, value)]
            &&& typed.status == status && typed.body == Some(body) && typed.headers
                == seq![("Content-Type"@, value)]
            &&& more.status == status && more.body == Some(body) && more.headers
                == seq![("Content-Type"@, value), (name, body)]
        }),
{
}

} // verus!
