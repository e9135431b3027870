//! Requests and replies as plain values, and what is read out of the former
//! and written into the latter.
use vstd::prelude::*;
use vstd::utf8::*;

use crate::{config, outside, text};

verus! {

// --- requests ---------------------------------------------------------------

/// The request methods that latch tells apart.
#[derive(Copy, Clone, Debug, PartialEq, Eq, Structural)]
pub enum Method {
    Get,
    Post,
    Other,
}

/// A request, without its body.
#[derive(Debug)]
pub struct Request {
    pub method: Method,
    pub url: String,
    pub headers: Vec<(String, String)>,
}

/// The contents of a `Request`.
pub struct RequestView {
    pub method: Method,
    pub url: Seq<char>,
    pub headers: Seq<(Seq<char>, Seq<char>)>,
}

impl View for Request {
    type V = RequestView;

    open spec fn view(&self) -> RequestView {
        RequestView {
            method: self.method,
            url: self.url@,
            headers: outside::pair_texts(self.headers@),
        }
    }
}

/// What a request asks for.
#[derive(Copy, Clone, Debug, PartialEq, Eq, Structural)]
pub enum Route {
    Index,
    Verify,
    Begin,
    Complete,
    Logout,
    NotFound,
}

/// The path of a URL: what stands before its first `?`.
pub open spec fn path_of(url: Seq<char>) -> Seq<char> {
    text::pieces(url, '?')[0]
}

/// What a request asks for.
pub open spec fn routed(method: Method, path: Seq<char>) -> Route {
    if method == Method::Get && (path == "/"@ || path == "/login"@) {
        Route::Index
    } else if method == Method::Get && path == "/verify"@ {
        Route::Verify
    } else if method == Method::Post && path == "/begin"@ {
        Route::Begin
    } else if method == Method::Post && path == "/complete"@ {
        Route::Complete
    } else if method == Method::Post && path == "/logout"@ {
        Route::Logout
    } else {
        Route::NotFound
    }
}

/// What a request asks for.
pub fn route(req: &Request) -> (res: Route)
    ensures
        res == routed(req@.method, path_of(req@.url)),
{
    let parts = text::split(req.url.as_str(), '?');
    assert(text::texts(parts@)[0] == parts@[0]@);
    let path = parts[0].as_str();
    match req.method {
        Method::Get => if text::same(path, "/") || text::same(path, "/login") {
            Route::Index
        } else if text::same(path, "/verify") {
            Route::Verify
        } else {
            Route::NotFound
        },
        Method::Post => if text::same(path, "/begin") {
            Route::Begin
        } else if text::same(path, "/complete") {
            Route::Complete
        } else if text::same(path, "/logout") {
            Route::Logout
        } else {
            Route::NotFound
        },
        Method::Other => Route::NotFound,
    }
}

// --- headers ----------------------------------------------------------------

/// The value of the first header with a name, upper and lower case being the
/// same in names.
pub open spec fn header_in(headers: Seq<(Seq<char>, Seq<char>)>, name: Seq<char>) -> Option<
    Seq<char>,
>
    decreases headers.len(),
{
    if headers.len() == 0 {
        None
    } else if text::same_letters(headers[0].0, name) {
        Some(headers[0].1)
    } else {
        header_in(headers.skip(1), name)
    }
}

pub fn header_value(req: &Request, name: &str) -> (res: Option<String>)
    ensures
        text::text_of(res) == header_in(req@.headers, name@),
{
    let ghost all = req@.headers;
    let mut i: usize = 0;
    assert(all.skip(0) =~= all);
    while i < req.headers.len()
        invariant
            i <= req.headers@.len(),
            all == outside::pair_texts(req.headers@),
            header_in(all, name@) == header_in(all.skip(i as int), name@),
        decreases req.headers@.len() - i,
    {
        assert(all.skip(i as int)[0] == (req.headers@[i as int].0@, req.headers@[i as int].1@));
        assert(all.skip(i as int).skip(1) =~= all.skip(i + 1));
        if text::same_ignoring_case(req.headers[i].0.as_str(), name) {
            return Some(req.headers[i].1.clone());
        }
        i = i + 1;
    }
    None
}

/// What follows `prefix` in the first piece that, without white space around
/// it, starts with it.
pub open spec fn first_with_prefix(parts: Seq<Seq<char>>, prefix: Seq<char>) -> Option<Seq<char>>
    decreases parts.len(),
{
    if parts.len() == 0 {
        None
    } else if prefix.is_prefix_of(text::trimmed(parts[0])) {
        Some(text::trimmed(parts[0]).skip(prefix.len() as int))
    } else {
        first_with_prefix(parts.skip(1), prefix)
    }
}

/// The value of a cookie in the text of a `Cookie` header.
pub open spec fn cookie_in(header: Seq<char>, name: Seq<char>) -> Option<Seq<char>> {
    first_with_prefix(text::pieces(header, ';'), name + seq!['='])
}

/// The value of a cookie in a request. Only the first `Cookie` header counts.
pub open spec fn cookie_of(req: RequestView, name: Seq<char>) -> Option<Seq<char>> {
    match header_in(req.headers, "cookie"@) {
        Some(header) => cookie_in(header, name),
        None => None,
    }
}

pub fn cookie(req: &Request, name: &str) -> (res: Option<String>)
    ensures
        text::text_of(res) == cookie_of(req@, name@),
{
    let header = match header_value(req, "cookie") {
        Some(h) => h,
        None => {
            return None;
        },
    };
    let mut prefix = name.to_owned();
    prefix.push('=');
    assert(prefix@ =~= name@ + seq!['=']);
    let parts = text::split(header.as_str(), ';');
    let ghost all = text::texts(parts@);
    let mut i: usize = 0;
    assert(all.skip(0) =~= all);
    while i < parts.len()
        invariant
            i <= parts@.len(),
            all == text::texts(parts@),
            cookie_of(req@, name@) == first_with_prefix(all, prefix@),
            first_with_prefix(all, prefix@) == first_with_prefix(all.skip(i as int), prefix@),
        decreases parts@.len() - i,
    {
        assert(all.skip(i as int)[0] == parts@[i as int]@);
        assert(all.skip(i as int).skip(1) =~= all.skip(i + 1));
        let part = text::trim(parts[i].as_str());
        if let Some(value) = text::strip_prefix(part.as_str(), prefix.as_str()) {
            return Some(value);
        }
        i = i + 1;
    }
    None
}

/// A request from a program rather than from a browser's address bar: it says
/// so, or it takes JSON and no page.
pub open spec fn is_api(req: RequestView) -> bool {
    let accept = config::given_or(header_in(req.headers, "Accept"@), Seq::empty());
    ||| header_in(req.headers, "X-Requested-With"@) matches Some(v) && text::same_letters(
        v,
        "XMLHttpRequest"@,
    )
    ||| text::holds(accept, "application/json"@) && !text::holds(accept, "text/html"@)
}

pub fn is_api_request(req: &Request) -> (res: bool)
    ensures
        res == is_api(req@),
{
    if let Some(v) = header_value(req, "X-Requested-With") {
        if text::same_ignoring_case(v.as_str(), "XMLHttpRequest") {
            return true;
        }
    }
    let accept = match header_value(req, "Accept") {
        Some(a) => a,
        None => String::new(),
    };
    text::contains(accept.as_str(), "application/json") && !text::contains(
        accept.as_str(),
        "text/html",
    )
}

/// The URL that a browser was trying to reach, put together from what the
/// proxy forwards. It is always https: TLS may end before the proxy.
pub open spec fn wanted_url(req: RequestView, hostname: Seq<char>) -> Seq<char> {
    "https://"@ + config::given_or(header_in(req.headers, "X-Forwarded-Host"@), hostname)
        + config::given_or(header_in(req.headers, "X-Forwarded-Uri"@), "/"@)
}

pub fn build_return_to(req: &Request, hostname: &str) -> (res: String)
    ensures
        res@ == wanted_url(req@, hostname@),
{
    let host = match header_value(req, "X-Forwarded-Host") {
        Some(h) => h,
        None => hostname.to_owned(),
    };
    let uri = match header_value(req, "X-Forwarded-Uri") {
        Some(u) => u,
        None => "/".to_owned(),
    };
    "https://".to_owned().concat(host.as_str()).concat(uri.as_str())
}

// --- percent encoding -------------------------------------------------------

/// The bytes that stand for themselves in a URL.
pub open spec fn is_unreserved(b: u8) -> bool {
    ||| 65 <= b <= 90
    ||| 97 <= b <= 122
    ||| 48 <= b <= 57
    ||| b == 45
    ||| b == 46
    ||| b == 95
    ||| b == 126
}

/// One byte in a URL.
pub open spec fn percent_unit(b: u8) -> Seq<char> {
    if is_unreserved(b) {
        seq![b as char]
    } else {
        seq!['%'] + text::hex_pair(b, true)
    }
}

/// Bytes in a URL.
pub open spec fn percent_encoded(bytes: Seq<u8>) -> Seq<char>
    decreases bytes.len(),
{
    if bytes.len() == 0 {
        Seq::empty()
    } else {
        percent_unit(bytes[0]) + percent_encoded(bytes.skip(1))
    }
}

/// A text for use inside a URL: each byte of its UTF-8 stands for itself if it
/// is a letter, a digit or one of `-._~`, and is `%` and two hexadecimal
/// digits otherwise.
pub fn url_encode(s: &str) -> (res: String)
    ensures
        res@ == percent_encoded(encode_utf8(s@)),
{
    let bytes = s.as_bytes();
    let mut out = String::new();
    let mut i: usize = 0;
    assert(bytes@.skip(0) =~= bytes@);
    assert(percent_encoded(bytes@) =~= out@ + percent_encoded(bytes@.skip(0)));
    while i < bytes.len()
        invariant
            i <= bytes@.len(),
            percent_encoded(bytes@) == out@ + percent_encoded(bytes@.skip(i as int)),
        decreases bytes@.len() - i,
    {
        let b: u8 = bytes[i];
        let ghost before = out@;
        assert(bytes@.skip(i as int).skip(1) =~= bytes@.skip(i + 1));
        if (65 <= b && b <= 90) || (97 <= b && b <= 122) || (48 <= b && b <= 57) || b == 45 || b
            == 46 || b == 95 || b == 126 {
            out.push(b as char);
        } else {
            out.push('%');
            text::push_hex(&mut out, b, true);
        }
        assert(out@ =~= before + percent_unit(b));
        assert(out@ + percent_encoded(bytes@.skip(i + 1)) =~= before + (percent_unit(b)
            + percent_encoded(bytes@.skip(i + 1))));
        i = i + 1;
    }
    assert(percent_encoded(bytes@.skip(bytes@.len() as int)) =~= Seq::<char>::empty());
    assert(out@ =~= percent_encoded(bytes@));
    out
}

// --- query parameters -------------------------------------------------------

/// The value of the first pair with a name, and nothing where there is none.
pub open spec fn first_value(pairs: Seq<(Seq<char>, Seq<char>)>, key: Seq<char>) -> Seq<char>
    decreases pairs.len(),
{
    if pairs.len() == 0 {
        Seq::empty()
    } else if pairs[0].0 == key {
        pairs[0].1
    } else {
        first_value(pairs.skip(1), key)
    }
}

/// The value of a parameter among the pairs of a query, if it could be read.
pub open spec fn value_in(query: Option<Seq<(Seq<char>, Seq<char>)>>, key: Seq<char>) -> Seq<char> {
    match query {
        Some(pairs) => first_value(pairs, key),
        None => Seq::empty(),
    }
}

/// The value of a parameter among the pairs of a query, if it could be read.
pub fn query_value(query: Option<Vec<(String, String)>>, key: &str) -> (res: String)
    ensures
        res@ == value_in(outside::query_text(query), key@),
{
    let pairs = match query {
        Some(p) => p,
        None => {
            return String::new();
        },
    };
    let ghost all = outside::pair_texts(pairs@);
    let mut i: usize = 0;
    assert(all.skip(0) =~= all);
    while i < pairs.len()
        invariant
            i <= pairs@.len(),
            all == outside::pair_texts(pairs@),
            value_in(outside::query_text(query), key@) == first_value(all, key@),
            first_value(all, key@) == first_value(all.skip(i as int), key@),
        decreases pairs@.len() - i,
    {
        assert(all.skip(i as int)[0] == (pairs@[i as int].0@, pairs@[i as int].1@));
        assert(all.skip(i as int).skip(1) =~= all.skip(i + 1));
        if text::same(pairs[i].0.as_str(), key) {
            return pairs[i].1.clone();
        }
        i = i + 1;
    }
    String::new()
}

/// The value of a parameter in the query of a request's URL.
pub open spec fn param_of(url: Seq<char>, key: Seq<char>) -> Seq<char> {
    value_in(outside::url_query("http://x"@ + url), key)
}

pub fn query_param(url: &str, key: &str) -> (res: String)
    ensures
        res@ == param_of(url@, key@),
{
    let absolute = "http://x".to_owned().concat(url);
    query_value(outside::parse_query(absolute.as_str()), key)
}

// --- replies ----------------------------------------------------------------

/// A reply. Without a body nothing is said of a content type either.
#[derive(Debug)]
pub struct Reply {
    pub status: u16,
    pub headers: Vec<(String, String)>,
    pub body: Option<String>,
}

/// The contents of a `Reply`.
pub struct ReplyView {
    pub status: u16,
    pub headers: Seq<(Seq<char>, Seq<char>)>,
    pub body: Option<Seq<char>>,
}

impl View for Reply {
    type V = ReplyView;

    open spec fn view(&self) -> ReplyView {
        ReplyView {
            status: self.status,
            headers: outside::pair_texts(self.headers@),
            body: text::text_of(self.body),
        }
    }
}

/// A reply with a status and a text.
pub open spec fn plain_reply(status: u16, body: Seq<char>) -> ReplyView {
    ReplyView { status, headers: Seq::empty(), body: Some(body) }
}

/// A reply with a status and one header, and no body.
pub open spec fn empty_reply(status: u16, name: Seq<char>, value: Seq<char>) -> ReplyView {
    ReplyView { status, headers: seq![(name, value)], body: None }
}

/// A reply with a status and a text of a content type.
pub open spec fn typed_reply(status: u16, content_type: Seq<char>, body: Seq<char>) -> ReplyView {
    ReplyView { status, headers: seq![("Content-Type"@, content_type)], body: Some(body) }
}

pub(crate) fn plain(status: u16, body: &str) -> (res: Reply)
    ensures
        res@ == plain_reply(status, body@),
{
    let res = Reply { status, headers: Vec::new(), body: Some(body.to_owned()) };
    assert(res@.headers =~= Seq::empty());
    res
}

pub(crate) fn empty(status: u16, name: &str, value: &str) -> (res: Reply)
    ensures
        res@ == empty_reply(status, name@, value@),
{
    let mut res = Reply { status, headers: Vec::new(), body: None };
    res.headers.push((name.to_owned(), value.to_owned()));
    assert(res@.headers =~= seq![(name@, value@)]);
    res
}

pub(crate) fn typed(status: u16, content_type: &str, body: &str) -> (res: Reply)
    ensures
        res@ == typed_reply(status, content_type@, body@),
{
    let mut res = Reply { status, headers: Vec::new(), body: Some(body.to_owned()) };
    res.headers.push(("Content-Type".to_owned(), content_type.to_owned()));
    assert(res@.headers =~= seq![("Content-Type"@, content_type@)]);
    res
}

/// The reply with one header more.
pub open spec fn and_header(r: ReplyView, name: Seq<char>, value: Seq<char>) -> ReplyView {
    ReplyView { headers: r.headers.push((name, value)), ..r }
}

pub(crate) fn with_header(reply: Reply, name: &str, value: &str) -> (res: Reply)
    ensures
        res@ == and_header(reply@, name@, value@),
{
    let mut res = reply;
    let ghost before = res@.headers;
    res.headers.push((name.to_owned(), value.to_owned()));
    assert(res@.headers =~= before.push((name@, value@)));
    res
}

/// The reply to a request that cannot be met.
pub fn bad(msg: &str) -> (res: Reply)
    ensures
        res@ == plain_reply(400, msg@),
{
    plain(400, msg)
}

/// The reply to a request for nothing that there is.
pub fn not_found() -> (res: Reply)
    ensures
        res@ == plain_reply(404, "not found"@),
{
    plain(404, "not found")
}

// --- laws -------------------------------------------------------------------

/// The value of a hexadecimal digit in upper case.
pub open spec fn hex_value(c: char) -> int {
    if '0' <= c <= '9' {
        c as int - 48
    } else {
        c as int - 55
    }
}

/// The bytes that a percent-encoded text stands for.
pub open spec fn percent_decoded(s: Seq<char>) -> Seq<u8>
    decreases s.len(),
{
    if s.len() == 0 {
        Seq::empty()
    } else if s[0] == '%' && s.len() >= 3 {
        seq![(hex_value(s[1]) * 16 + hex_value(s[2])) as u8] + percent_decoded(s.skip(3))
    } else {
        seq![s[0] as u8] + percent_decoded(s.skip(1))
    }
}

/// Decoding a percent-encoded text gives its bytes back.
pub proof fn percent_decoding_undoes_encoding(bytes: Seq<u8>)
    ensures
        percent_decoded(percent_encoded(bytes)) == bytes,
    decreases bytes.len(),
{
    if bytes.len() == 0 {
        assert(bytes =~= Seq::<u8>::empty());
    } else {
        let b = bytes[0];
        let unit = percent_unit(b);
        let rest = percent_encoded(bytes.skip(1));
        let s = unit + rest;
        percent_decoding_undoes_encoding(bytes.skip(1));
        assert(bytes =~= seq![b] + bytes.skip(1));
        if is_unreserved(b) {
            assert(s[0] == b as char);
            assert(s.skip(1) =~= rest);
        } else {
            let hi = text::hex_digit((b / 16) as nat, true);
            let lo = text::hex_digit((b % 16) as nat, true);
            assert(s[0] == '%' && s[1] == hi && s[2] == lo);
            assert(s.skip(3) =~= rest);
            assert(hex_value(hi) == b / 16);
            assert(hex_value(lo) == b % 16);
        }
    }
}

/// A percent-encoded text holds nothing but letters, digits and `-._~%`: it
/// cannot end the URL it stands in.
pub proof fn percent_encoding_is_safe(bytes: Seq<u8>)
    ensures
        forall|i: int|
            0 <= i < percent_encoded(bytes).len() ==> {
                let c = #[trigger] percent_encoded(bytes)[i];
                c == '%' || (c as u32 <= 126 && is_unreserved(c as u8))
            },
    decreases bytes.len(),
{
    if bytes.len() > 0 {
        percent_encoding_is_safe(bytes.skip(1));
        let unit = percent_unit(bytes[0]);
        let rest = percent_encoded(bytes.skip(1));
        let s = percent_encoded(bytes);
        assert forall|i: int| 0 <= i < s.len() implies {
            let c = #[trigger] s[i];
            c == '%' || (c as u32 <= 126 && is_unreserved(c as u8))
        } by {
            if i < unit.len() {
                assert(s[i] == unit[i]);
            } else {
                assert(s[i] == rest[i - unit.len()]);
            }
        }
    }
}

/// A text that neither starts nor ends with white space stays as it is, and
/// loses a space put before it.
proof fn lemma_trimmed(t: Seq<char>)
    requires
        t.len() > 0,
        !text::is_space(t[0]),
        !text::is_space(t.last()),
    ensures
        text::trimmed(t) == t,
        text::trimmed(seq![' '] + t) == t,
{
    let s = seq![' '] + t;
    assert(s.drop_first() =~= t);
    assert(text::trimmed_start(s) == text::trimmed_start(t));
}

proof fn lemma_first_with_prefix(parts: Seq<Seq<char>>, last: Seq<char>, prefix: Seq<char>)
    requires
        first_with_prefix(parts, prefix) is None,
    ensures
        first_with_prefix(parts.push(last), prefix) == first_with_prefix(seq![last], prefix),
    decreases parts.len(),
{
    if parts.len() == 0 {
        assert(parts.push(last) =~= seq![last]);
    } else {
        assert(parts.push(last).skip(1) =~= parts.skip(1).push(last));
        lemma_first_with_prefix(parts.skip(1), last, prefix);
    }
}

/// A text that a cookie can carry: without `;`, and with no white space at
/// its end.
pub open spec fn is_cookie_value(v: Seq<char>) -> bool {
    !v.contains(';') && (v.len() > 0 ==> !text::is_space(v.last()))
}

/// A text that a cookie can be named by.
pub open spec fn is_cookie_name(n: Seq<char>) -> bool {
    n.len() > 0 && !n.contains(';') && !text::is_space(n[0])
}

/// A cookie that a browser sends back is read back as it was set, alone or
/// behind cookies with other names.
pub proof fn cookies_are_read_back(name: Seq<char>, value: Seq<char>, before: Seq<char>)
    requires
        is_cookie_name(name),
        is_cookie_value(value),
        cookie_in(before, name) is None,
    ensures
        cookie_in(name + seq!['='] + value, name) == Some(value),
        cookie_in(before + "; "@ + (name + seq!['='] + value), name) == Some(value),
{
    reveal_strlit("; ");
    let prefix = name + seq!['='];
    let t = prefix + value;
    assert(!t.contains(';')) by {
        if t.contains(';') {
            let i = t.index_of(';');
            if i < name.len() {
                assert(name[i] == ';');
            } else if i > name.len() {
                assert(value[i - prefix.len()] == ';');
            }
        }
    }
    assert(t.last() == if value.len() > 0 {
        value.last()
    } else {
        '='
    });
    lemma_trimmed(t);
    assert(prefix.is_prefix_of(t)) by {
        assert(t.take(prefix.len() as int) =~= prefix);
    }
    assert(t.skip(prefix.len() as int) =~= value);
    text::lemma_pieces_single(t, ';');
    let u = seq![' '] + t;
    assert(!u.contains(';')) by {
        if u.contains(';') {
            let i = u.index_of(';');
            assert(i > 0);
            assert(t[i - 1] == ';');
        }
    }
    text::lemma_pieces_append(before, ';', u);
    assert(before + "; "@ + t =~= before + seq![';'] + u);
    lemma_first_with_prefix(text::pieces(before, ';'), u, prefix);
}

} // verus!
