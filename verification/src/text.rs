//! Text as a sequence of characters: the string operations that the rest of
//! the library is written with, each with its meaning.
use vstd::prelude::*;
use vstd::utf8::*;

verus! {

// --- meanings ---------------------------------------------------------------

/// The texts of a list of strings.
pub open spec fn texts(v: Seq<String>) -> Seq<Seq<char>> {
    v.map_values(|s: String| s@)
}

/// The text of an optional string.
pub open spec fn text_of(o: Option<String>) -> Option<Seq<char>> {
    match o {
        Some(s) => Some(s@),
        None => None,
    }
}

/// The text of an optional string slice.
pub open spec fn slice_text_of(o: Option<&str>) -> Option<Seq<char>> {
    match o {
        Some(s) => Some(s@),
        None => None,
    }
}

/// `p` stands in `s` with its first character at `i`.
pub open spec fn occurs_at(s: Seq<char>, p: Seq<char>, i: int) -> bool {
    0 <= i && i + p.len() <= s.len() && s.subrange(i, i + p.len()) == p
}

/// `p` stands somewhere in `s`.
pub open spec fn holds(s: Seq<char>, p: Seq<char>) -> bool {
    exists|i: int| occurs_at(s, p, i)
}

/// The first place at or after `from` where `p` stands in `s`.
pub open spec fn find_from(s: Seq<char>, p: Seq<char>, from: int) -> Option<int>
    decreases s.len() + 1 - from,
{
    if from < 0 || from + p.len() > s.len() {
        None
    } else if occurs_at(s, p, from) {
        Some(from)
    } else {
        find_from(s, p, from + 1)
    }
}

/// The first place where `p` stands in `s`.
pub open spec fn first_at(s: Seq<char>, p: Seq<char>) -> Option<int> {
    find_from(s, p, 0)
}

/// `s` cut at each `sep`: one piece more than there are separators.
pub open spec fn pieces(s: Seq<char>, sep: char) -> Seq<Seq<char>>
    decreases s.len(),
{
    if s.len() == 0 {
        seq![Seq::<char>::empty()]
    } else {
        let head = pieces(s.drop_last(), sep);
        if s.last() == sep {
            head.push(Seq::<char>::empty())
        } else {
            head.drop_last().push(head.last().push(s.last()))
        }
    }
}

/// The characters with Unicode's `White_Space` property.
pub open spec fn is_space(c: char) -> bool {
    ||| '\u{9}' <= c <= '\u{d}'
    ||| c == '\u{20}'
    ||| c == '\u{85}'
    ||| c == '\u{a0}'
    ||| c == '\u{1680}'
    ||| '\u{2000}' <= c <= '\u{200a}'
    ||| c == '\u{2028}'
    ||| c == '\u{2029}'
    ||| c == '\u{202f}'
    ||| c == '\u{205f}'
    ||| c == '\u{3000}'
}

/// `s` without the white space it starts with.
pub open spec fn trimmed_start(s: Seq<char>) -> Seq<char>
    decreases s.len(),
{
    if s.len() > 0 && is_space(s[0]) {
        trimmed_start(s.drop_first())
    } else {
        s
    }
}

/// `s` without the white space it ends with.
pub open spec fn trimmed_end(s: Seq<char>) -> Seq<char>
    decreases s.len(),
{
    if s.len() > 0 && is_space(s.last()) {
        trimmed_end(s.drop_last())
    } else {
        s
    }
}

/// `s` without white space at either end.
pub open spec fn trimmed(s: Seq<char>) -> Seq<char> {
    trimmed_end(trimmed_start(s))
}

/// The characters before the first white space.
pub open spec fn until_space(s: Seq<char>) -> Seq<char>
    decreases s.len(),
{
    if s.len() == 0 || is_space(s[0]) {
        Seq::empty()
    } else {
        seq![s[0]] + until_space(s.drop_first())
    }
}

/// The first word of `s`, words being parted by white space.
pub open spec fn leading_word(s: Seq<char>) -> Option<Seq<char>> {
    let t = trimmed_start(s);
    if t.len() == 0 {
        None
    } else {
        Some(until_space(t))
    }
}

/// ASCII letters in lower case, every other character as it is.
pub open spec fn lower(c: char) -> char {
    if 'A' <= c <= 'Z' {
        (c as u8 + 32) as char
    } else {
        c
    }
}

/// The same text, ASCII letters being compared without their case.
pub open spec fn same_letters(a: Seq<char>, b: Seq<char>) -> bool {
    a.len() == b.len() && forall|i: int| 0 <= i < a.len() ==> lower(#[trigger] a[i]) == lower(b[i])
}

/// `s` with `to` in place of each `from`, from left to right.
pub open spec fn replaced(s: Seq<char>, from: Seq<char>, to: Seq<char>) -> Seq<char>
    decreases s.len(),
{
    match first_at(s, from) {
        Some(i) => if 0 < from.len() && 0 <= i && i + from.len() <= s.len() {
            s.take(i) + to + replaced(s.skip(i + from.len()), from, to)
        } else {
            s
        },
        None => s,
    }
}

/// The decimal digit for a value below ten.
pub open spec fn digit(d: nat) -> char {
    (48 + d) as char
}

/// A number in decimal, without leading zeros.
pub open spec fn decimal_text(n: nat) -> Seq<char>
    decreases n,
{
    if n < 10 {
        seq![digit(n)]
    } else {
        decimal_text(n / 10).push(digit(n % 10))
    }
}

/// A number in decimal, with its sign if it is negative.
pub open spec fn signed_text(n: int) -> Seq<char> {
    if n < 0 {
        "-"@ + decimal_text((-n) as nat)
    } else {
        decimal_text(n as nat)
    }
}

/// `n` spaces.
pub open spec fn spaces(n: nat) -> Seq<char> {
    Seq::new(n, |i: int| ' ')
}

/// `s` filled up with spaces to `width` characters.
pub open spec fn padded(s: Seq<char>, width: nat) -> Seq<char> {
    if s.len() < width {
        s + spaces((width - s.len()) as nat)
    } else {
        s
    }
}

/// The texts in order, with `sep` between neighbours.
pub open spec fn joined(parts: Seq<Seq<char>>, sep: Seq<char>) -> Seq<char>
    decreases parts.len(),
{
    if parts.len() == 0 {
        Seq::empty()
    } else if parts.len() == 1 {
        parts[0]
    } else {
        joined(parts.drop_last(), sep) + sep + parts.last()
    }
}

/// The hexadecimal digit, in upper or lower case, for a value below sixteen.
pub open spec fn hex_digit(d: nat, upper: bool) -> char {
    if d < 10 {
        (48 + d) as char
    } else if upper {
        (55 + d) as char
    } else {
        (87 + d) as char
    }
}

/// The two hexadecimal digits of a byte.
pub open spec fn hex_pair(b: u8, upper: bool) -> Seq<char> {
    seq![hex_digit((b / 16) as nat, upper), hex_digit((b % 16) as nat, upper)]
}

/// The bytes in hexadecimal, in lower case.
pub open spec fn hex_text(bytes: Seq<u8>) -> Seq<char>
    decreases bytes.len(),
{
    if bytes.len() == 0 {
        Seq::empty()
    } else {
        hex_text(bytes.drop_last()) + hex_pair(bytes.last(), false)
    }
}

// --- facts ------------------------------------------------------------------

/// A text without the separator is one piece.
pub proof fn lemma_pieces_single(s: Seq<char>, sep: char)
    requires
        !s.contains(sep),
    ensures
        pieces(s, sep) == seq![s],
    decreases s.len(),
{
    if s.len() > 0 {
        let t = s.drop_last();
        assert(!t.contains(sep)) by {
            if t.contains(sep) {
                let i = t.index_of(sep);
                assert(s[i] == sep);
            }
        }
        lemma_pieces_single(t, sep);
        assert(s.last() != sep) by {
            if s.last() == sep {
                assert(s[s.len() - 1] == sep);
            }
        }
        assert(t.push(s.last()) =~= s);
        assert(pieces(s, sep) =~= seq![s]);
    } else {
        assert(s =~= Seq::<char>::empty());
    }
}

/// The last separator parts the last piece from the others.
pub proof fn lemma_pieces_append(a: Seq<char>, sep: char, b: Seq<char>)
    requires
        !b.contains(sep),
    ensures
        pieces(a + seq![sep] + b, sep) == pieces(a, sep).push(b),
    decreases b.len(),
{
    let s = a + seq![sep] + b;
    if b.len() == 0 {
        assert(s.drop_last() =~= a);
        assert(b =~= Seq::<char>::empty());
        assert(s.last() == sep);
    } else {
        let c = b.drop_last();
        assert(!c.contains(sep)) by {
            if c.contains(sep) {
                let i = c.index_of(sep);
                assert(b[i] == sep);
            }
        }
        lemma_pieces_append(a, sep, c);
        assert(s.drop_last() =~= a + seq![sep] + c);
        assert(s.last() == b.last());
        assert(b.last() != sep) by {
            if b.last() == sep {
                assert(b[b.len() - 1] == sep);
            }
        }
        let head = pieces(s.drop_last(), sep);
        assert(head == pieces(a, sep).push(c));
        assert(head.drop_last() =~= pieces(a, sep));
        assert(head.last() == c);
        assert(c.push(b.last()) =~= b);
    }
}

/// The first separator parts the first piece from the others.
pub proof fn lemma_pieces_first(a: Seq<char>, sep: char, b: Seq<char>)
    requires
        !a.contains(sep),
    ensures
        pieces(a + seq![sep] + b, sep).len() >= 2,
        pieces(a + seq![sep] + b, sep)[0] == a,
    decreases b.len(),
{
    let s = a + seq![sep] + b;
    if b.len() == 0 {
        assert(s.drop_last() =~= a);
        assert(s.last() == sep);
        lemma_pieces_single(a, sep);
    } else {
        lemma_pieces_first(a, sep, b.drop_last());
        assert(s.drop_last() =~= a + seq![sep] + b.drop_last());
    }
}

/// The first place found is one where the text stands, and none comes before.
pub proof fn lemma_find_from(s: Seq<char>, p: Seq<char>, from: int)
    requires
        0 <= from,
    ensures
        match find_from(s, p, from) {
            Some(i) => from <= i && occurs_at(s, p, i) && forall|j: int|
                from <= j < i ==> !occurs_at(s, p, j),
            None => forall|j: int| from <= j ==> !occurs_at(s, p, j),
        },
    decreases s.len() + 1 - from,
{
    if from + p.len() <= s.len() && !occurs_at(s, p, from) {
        lemma_find_from(s, p, from + 1);
    }
}

/// A text holds another exactly when a first place for it is found.
pub proof fn lemma_holds(s: Seq<char>, p: Seq<char>)
    ensures
        holds(s, p) <==> first_at(s, p) is Some,
{
    lemma_find_from(s, p, 0);
}

// --- operations -------------------------------------------------------------

/// The characters of a string slice, in order.
pub fn chars_of(s: &str) -> (res: Vec<char>)
    ensures
        res@ == s@,
{
    let mut out: Vec<char> = Vec::new();
    for c in it: s.chars()
        invariant
            out@ == s@.take(it.index()),
            it.seq() == s@,
    {
        proof {
            assert(s@.take(it.index() + 1) =~= s@.take(it.index() as int).push(c));
        }
        out.push(c);
    }
    assert(s@.take(s@.len() as int) =~= s@);
    out
}

/// The string made of the characters from `from` up to `to`.
pub fn string_of(chars: &Vec<char>, from: usize, to: usize) -> (res: String)
    requires
        from <= to <= chars@.len(),
    ensures
        res@ == chars@.subrange(from as int, to as int),
{
    let mut out = String::new();
    let mut i: usize = from;
    assert(out@ =~= chars@.subrange(from as int, from as int));
    while i < to
        invariant
            from <= i <= to <= chars@.len(),
            out@ == chars@.subrange(from as int, i as int),
        decreases to - i,
    {
        proof {
            assert(chars@.subrange(from as int, i + 1) =~= chars@.subrange(
                from as int,
                i as int,
            ).push(chars@[i as int]));
        }
        out.push(chars[i]);
        i = i + 1;
    }
    out
}

/// Whether two strings hold the same text.
pub fn same(a: &str, b: &str) -> (res: bool)
    ensures
        res == (a@ == b@),
{
    let x = a.as_bytes();
    let y = b.as_bytes();
    proof {
        encode_utf8_decode_utf8(a@);
        encode_utf8_decode_utf8(b@);
    }
    if x.len() != y.len() {
        return false;
    }
    let mut i: usize = 0;
    while i < x.len()
        invariant
            i <= x@.len(),
            x@.len() == y@.len(),
            x@ == encode_utf8(a@),
            y@ == encode_utf8(b@),
            forall|j: int| 0 <= j < i ==> x@[j] == y@[j],
        decreases x@.len() - i,
    {
        if x[i] != y[i] {
            return false;
        }
        i = i + 1;
    }
    assert(x@ =~= y@);
    true
}

/// Whether two lists hold the same texts, in the same order.
pub fn same_list(a: &Vec<String>, b: &Vec<String>) -> (res: bool)
    ensures
        res == (texts(a@) == texts(b@)),
{
    if a.len() != b.len() {
        return false;
    }
    let mut i: usize = 0;
    while i < a.len()
        invariant
            i <= a@.len(),
            a@.len() == b@.len(),
            forall|j: int| 0 <= j < i ==> (#[trigger] a@[j])@ == b@[j]@,
        decreases a@.len() - i,
    {
        if !same(a[i].as_str(), b[i].as_str()) {
            assert(texts(a@)[i as int] != texts(b@)[i as int]);
            return false;
        }
        i = i + 1;
    }
    assert(texts(a@) =~= texts(b@));
    true
}

fn stands_at(s: &Vec<char>, p: &Vec<char>, at: usize) -> (res: bool)
    requires
        at <= s@.len(),
    ensures
        res == occurs_at(s@, p@, at as int),
{
    let n: usize = s.len();
    if n - at < p.len() {
        return false;
    }
    let mut i: usize = 0;
    while i < p.len()
        invariant
            i <= p@.len(),
            n == s@.len(),
            at + p@.len() <= n,
            forall|j: int| 0 <= j < i ==> s@[at + j] == p@[j],
        decreases p@.len() - i,
    {
        if s[at + i] != p[i] {
            assert(s@.subrange(at as int, at + p@.len())[i as int] != p@[i as int]);
            return false;
        }
        i = i + 1;
    }
    assert(s@.subrange(at as int, at + p@.len()) =~= p@);
    true
}

/// The first place at or after `from` where `p` stands in `s`.
pub fn position(s: &Vec<char>, p: &Vec<char>, from: usize) -> (res: Option<usize>)
    requires
        from <= s@.len(),
    ensures
        match res {
            Some(i) => find_from(s@, p@, from as int) == Some(i as int) && i + p@.len() <= s@.len(),
            None => find_from(s@, p@, from as int) is None,
        },
{
    let mut i: usize = from;
    while i <= s.len() && p.len() <= s.len() - i
        invariant
            from <= i,
            i <= s@.len() + 1,
            find_from(s@, p@, from as int) == find_from(s@, p@, i as int),
        decreases s@.len() + 1 - i,
    {
        if stands_at(s, p, i) {
            return Some(i);
        }
        if i == s.len() {
            assert(find_from(s@, p@, i + 1) is None);
            return None;
        }
        i = i + 1;
    }
    None
}

/// Whether `s` starts with `p`.
pub fn starts_with(s: &str, p: &str) -> (res: bool)
    ensures
        res == p@.is_prefix_of(s@),
{
    let a = chars_of(s);
    let b = chars_of(p);
    let res = stands_at(&a, &b, 0);
    assert(res == p@.is_prefix_of(s@)) by {
        if p@.len() <= s@.len() {
            assert(s@.subrange(0, p@.len() as int) =~= s@.take(p@.len() as int));
        }
    }
    res
}

/// Whether `s` ends with `p`.
pub fn ends_with(s: &str, p: &str) -> (res: bool)
    ensures
        res == p@.is_suffix_of(s@),
{
    let a = chars_of(s);
    let b = chars_of(p);
    if a.len() < b.len() {
        return false;
    }
    let at: usize = a.len() - b.len();
    let res = stands_at(&a, &b, at);
    assert(s@.subrange(at as int, at + p@.len()) =~= s@.skip(at as int));
    res
}

/// Whether `p` stands somewhere in `s`.
pub fn contains(s: &str, p: &str) -> (res: bool)
    ensures
        res == holds(s@, p@),
{
    let a = chars_of(s);
    let b = chars_of(p);
    proof {
        lemma_holds(s@, p@);
    }
    position(&a, &b, 0).is_some()
}

/// What follows `p` at the start of `s`.
pub fn strip_prefix(s: &str, p: &str) -> (res: Option<String>)
    ensures
        match res {
            Some(rest) => p@.is_prefix_of(s@) && rest@ == s@.skip(p@.len() as int),
            None => !p@.is_prefix_of(s@),
        },
{
    if !starts_with(s, p) {
        return None;
    }
    let a = chars_of(s);
    let n: usize = chars_of(p).len();
    let rest = string_of(&a, n, a.len());
    assert(rest@ =~= s@.skip(n as int));
    Some(rest)
}

/// `s` cut at each `sep`.
pub fn split(s: &str, sep: char) -> (res: Vec<String>)
    ensures
        texts(res@) == pieces(s@, sep),
        res@.len() >= 1,
{
    let a = chars_of(s);
    let mut out: Vec<String> = Vec::new();
    let mut cur = String::new();
    let mut i: usize = 0;
    assert(s@.take(0) =~= Seq::<char>::empty());
    assert(texts(out@).push(cur@) =~= pieces(s@.take(0), sep));
    while i < a.len()
        invariant
            a@ == s@,
            i <= a@.len(),
            texts(out@).push(cur@) == pieces(s@.take(i as int), sep),
        decreases a@.len() - i,
    {
        let ghost before = texts(out@).push(cur@);
        proof {
            assert(s@.take(i + 1).drop_last() =~= s@.take(i as int));
            assert(s@.take(i + 1).last() == s@[i as int]);
            assert(before.drop_last() =~= texts(out@));
        }
        if a[i] == sep {
            let ghost done = out@;
            out.push(cur);
            cur = String::new();
            assert(texts(out@) =~= before);
        } else {
            cur.push(a[i]);
        }
        i = i + 1;
    }
    assert(s@.take(a@.len() as int) =~= s@);
    let ghost all = texts(out@).push(cur@);
    out.push(cur);
    assert(texts(out@) =~= all);
    out
}

/// Whether a character is white space.
pub fn is_whitespace(c: char) -> (res: bool)
    ensures
        res == is_space(c),
{
    ('\u{9}' <= c && c <= '\u{d}') || c == '\u{20}' || c == '\u{85}' || c == '\u{a0}' || c
        == '\u{1680}' || ('\u{2000}' <= c && c <= '\u{200a}') || c == '\u{2028}' || c == '\u{2029}'
        || c == '\u{202f}' || c == '\u{205f}' || c == '\u{3000}'
}

/// How many characters of white space `a` starts with.
fn leading_space(a: &Vec<char>) -> (n: usize)
    ensures
        n <= a@.len(),
        trimmed_start(a@) == a@.skip(n as int),
        n < a@.len() ==> !is_space(a@[n as int]),
{
    let mut n: usize = 0;
    assert(a@.skip(0) =~= a@);
    while n < a.len() && is_whitespace(a[n])
        invariant
            n <= a@.len(),
            trimmed_start(a@) == trimmed_start(a@.skip(n as int)),
        decreases a@.len() - n,
    {
        assert(a@.skip(n as int).drop_first() =~= a@.skip(n + 1));
        n = n + 1;
    }
    n
}

/// `s` without white space at either end.
pub fn trim(s: &str) -> (res: String)
    ensures
        res@ == trimmed(s@),
{
    let a = chars_of(s);
    let from: usize = leading_space(&a);
    let mut to: usize = a.len();
    let ghost rest = a@.skip(from as int);
    assert(a@.subrange(from as int, to as int) =~= rest);
    while from < to && is_whitespace(a[to - 1])
        invariant
            from <= to <= a@.len(),
            trimmed_end(rest) == trimmed_end(a@.subrange(from as int, to as int)),
        decreases to - from,
    {
        assert(a@.subrange(from as int, to as int).drop_last() =~= a@.subrange(
            from as int,
            to - 1,
        ));
        to = to - 1;
    }
    string_of(&a, from, to)
}

/// The first word of `s`.
pub fn first_word(s: &str) -> (res: Option<String>)
    ensures
        text_of(res) == leading_word(s@),
{
    let a = chars_of(s);
    let from: usize = leading_space(&a);
    if from == a.len() {
        return None;
    }
    let ghost rest = a@.skip(from as int);
    let mut to: usize = from;
    assert(a@.subrange(from as int, from as int) =~= Seq::<char>::empty());
    assert(until_space(rest) =~= a@.subrange(from as int, to as int) + until_space(rest));
    while to < a.len() && !is_whitespace(a[to])
        invariant
            from <= to <= a@.len(),
            until_space(rest) == a@.subrange(from as int, to as int) + until_space(
                a@.skip(to as int),
            ),
        decreases a@.len() - to,
    {
        proof {
            let t = a@.skip(to as int);
            assert(t.drop_first() =~= a@.skip(to + 1));
            assert(a@.subrange(from as int, to + 1) =~= a@.subrange(from as int, to as int).push(
                a@[to as int],
            ));
            assert(a@.subrange(from as int, to as int) + (seq![t[0]] + until_space(
                t.drop_first(),
            )) =~= a@.subrange(from as int, to + 1) + until_space(a@.skip(to + 1)));
        }
        to = to + 1;
    }
    assert(until_space(a@.skip(to as int)) =~= Seq::<char>::empty());
    let w = string_of(&a, from, to);
    assert(w@ =~= until_space(rest));
    Some(w)
}

fn lower_char(c: char) -> (res: char)
    ensures
        res == lower(c),
{
    if 'A' <= c && c <= 'Z' {
        (c as u8 + 32) as char
    } else {
        c
    }
}

/// Whether two texts are the same, ASCII letters being compared without
/// their case.
pub fn same_ignoring_case(a: &str, b: &str) -> (res: bool)
    ensures
        res == same_letters(a@, b@),
{
    let x = chars_of(a);
    let y = chars_of(b);
    if x.len() != y.len() {
        return false;
    }
    let mut i: usize = 0;
    while i < x.len()
        invariant
            i <= x@.len(),
            x@.len() == y@.len(),
            x@ == a@,
            y@ == b@,
            forall|j: int| 0 <= j < i ==> lower(#[trigger] x@[j]) == lower(y@[j]),
        decreases x@.len() - i,
    {
        if lower_char(x[i]) != lower_char(y[i]) {
            assert(lower(a@[i as int]) != lower(b@[i as int]));
            return false;
        }
        i = i + 1;
    }
    true
}

/// `s` with `to` in place of each `from`.
pub fn replace(s: &str, from: &str, to: &str) -> (res: String)
    requires
        from@.len() > 0,
    ensures
        res@ == replaced(s@, from@, to@),
{
    let a = chars_of(s);
    let p = chars_of(from);
    let n: usize = a.len();
    let mut out = String::new();
    let mut done: usize = 0;
    assert(s@.skip(0) =~= s@);
    assert(replaced(s@, from@, to@) =~= out@ + replaced(s@, from@, to@));
    loop
        invariant
            a@ == s@,
            p@ == from@,
            from@.len() > 0,
            n == a@.len(),
            done <= n,
            replaced(s@, from@, to@) == out@ + replaced(s@.skip(done as int), from@, to@),
        decreases a@.len() - done,
    {
        proof {
            lemma_find_from_skip(s@, from@, done as int, 0);
        }
        match position(&a, &p, done) {
            Some(i) => {
                proof {
                    lemma_find_from(s@, from@, done as int);
                    let t = s@.skip(done as int);
                    assert(t.take(i - done) =~= a@.subrange(done as int, i as int));
                    assert(t.skip(i - done + from@.len()) =~= s@.skip(i + from@.len()));
                    assert(replaced(t, from@, to@) == t.take(i - done) + to@ + replaced(
                        t.skip(i - done + from@.len()),
                        from@,
                        to@,
                    ));
                    assert(out@ + (t.take(i - done) + to@ + replaced(
                        s@.skip(i + from@.len()),
                        from@,
                        to@,
                    )) =~= (out@ + a@.subrange(done as int, i as int) + to@) + replaced(
                        s@.skip(i + from@.len()),
                        from@,
                        to@,
                    ));
                }
                out.append(string_of(&a, done, i).as_str());
                out.append(to);
                done = i + p.len();
            },
            None => {
                out.append(string_of(&a, done, a.len()).as_str());
                assert(s@.skip(done as int) =~= a@.subrange(done as int, a@.len() as int));
                return out;
            },
        }
    }
}

/// Searching behind the first `n` characters is searching what follows them.
proof fn lemma_find_from_skip(s: Seq<char>, p: Seq<char>, n: int, from: int)
    requires
        0 <= n <= s.len(),
        0 <= from,
    ensures
        find_from(s, p, n + from) == match find_from(s.skip(n), p, from) {
            Some(i) => Some(i + n),
            None => None,
        },
    decreases s.len() + 1 - from,
{
    let t = s.skip(n);
    if from + p.len() <= t.len() {
        assert(t.subrange(from, from + p.len()) =~= s.subrange(n + from, n + from + p.len()));
        if !occurs_at(t, p, from) {
            lemma_find_from_skip(s, p, n, from + 1);
        }
    }
}

/// A number in decimal.
pub fn decimal(n: u64) -> (res: String)
    ensures
        res@ == decimal_text(n as nat),
    decreases n,
{
    let mut out = if n < 10 {
        String::new()
    } else {
        decimal(n / 10)
    };
    let d: u8 = (n % 10) as u8;
    out.push((48 + d) as char);
    assert(out@ =~= decimal_text(n as nat));
    out
}

/// A number in decimal, with its sign if it is negative.
pub fn signed(n: i32) -> (res: String)
    ensures
        res@ == signed_text(n as int),
{
    let wide: i64 = n as i64;
    if wide < 0 {
        "-".to_owned().concat(decimal((-wide) as u64).as_str())
    } else {
        decimal(wide as u64)
    }
}

/// `s` filled up with spaces to `width` characters.
pub fn pad(s: &str, width: usize) -> (res: String)
    ensures
        res@ == padded(s@, width as nat),
{
    let mut n: usize = chars_of(s).len();
    let ghost start = n as int;
    let mut out = s.to_owned();
    assert(out@ =~= s@ + spaces(0));
    while n < width
        invariant
            start == s@.len(),
            start <= n,
            n <= width || n == start,
            out@ == s@ + spaces((n - start) as nat),
        decreases width - n,
    {
        assert(spaces((n + 1 - start) as nat) =~= spaces((n - start) as nat).push(' '));
        out.push(' ');
        assert(out@ =~= s@ + spaces((n + 1 - start) as nat));
        n = n + 1;
    }
    assert(s@ + spaces(0) =~= s@);
    out
}

/// The strings in order, with `sep` between neighbours.
pub fn join(parts: &Vec<String>, sep: &str) -> (res: String)
    ensures
        res@ == joined(texts(parts@), sep@),
{
    let mut out = String::new();
    let mut i: usize = 0;
    let ghost all = texts(parts@);
    assert(all.take(0) =~= Seq::<Seq<char>>::empty());
    while i < parts.len()
        invariant
            i <= parts@.len(),
            all == texts(parts@),
            out@ == joined(all.take(i as int), sep@),
        decreases parts@.len() - i,
    {
        assert(all.take(i + 1).drop_last() =~= all.take(i as int));
        if i > 0 {
            out.append(sep);
        }
        out.append(parts[i].as_str());
        assert(i == 0 ==> out@ =~= all[0]);
        i = i + 1;
    }
    assert(all.take(parts@.len() as int) =~= all);
    out
}

fn hex_char(d: u8, upper: bool) -> (res: char)
    requires
        d < 16,
    ensures
        res == hex_digit(d as nat, upper),
{
    if d < 10 {
        (48 + d) as char
    } else if upper {
        (55 + d) as char
    } else {
        (87 + d) as char
    }
}

/// Puts the two hexadecimal digits of a byte behind the text.
pub fn push_hex(out: &mut String, b: u8, upper: bool)
    ensures
        final(out)@ == old(out)@ + hex_pair(b, upper),
{
    out.push(hex_char(b / 16, upper));
    out.push(hex_char(b % 16, upper));
    assert(out@ =~= old(out)@ + hex_pair(b, upper));
}

/// The bytes in hexadecimal, in lower case.
pub fn hex(bytes: &Vec<u8>) -> (res: String)
    ensures
        res@ == hex_text(bytes@),
{
    let mut out = String::new();
    let mut i: usize = 0;
    assert(bytes@.take(0) =~= Seq::<u8>::empty());
    while i < bytes.len()
        invariant
            i <= bytes@.len(),
            out@ == hex_text(bytes@.take(i as int)),
        decreases bytes@.len() - i,
    {
        assert(bytes@.take(i + 1).drop_last() =~= bytes@.take(i as int));
        push_hex(&mut out, bytes[i], false);
        i = i + 1;
    }
    assert(bytes@.take(bytes@.len() as int) =~= bytes@);
    out
}

/// An owned copy of an optional string slice.
pub fn owned(o: Option<&str>) -> (res: Option<String>)
    ensures
        text_of(res) == slice_text_of(o),
{
    match o {
        Some(s) => Some(s.to_owned()),
        None => None,
    }
}

/// An owned copy of an optional string.
pub fn copy(o: &Option<String>) -> (res: Option<String>)
    ensures
        text_of(res) == text_of(*o),
{
    match o {
        Some(s) => Some(s.clone()),
        None => None,
    }
}

} // verus!
