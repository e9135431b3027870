//! What the operations on text promise.
use vstd::prelude::*;

use crate::text;

verus! {

// --- searching --------------------------------------------------------------

/// A text holds what stands in it, whatever comes before and behind.
pub proof fn a_text_holds_what_stands_in_it(a: Seq<char>, p: Seq<char>, b: Seq<char>)
    ensures
        text::holds(a + p + b, p),
{
    let s = a + p + b;
    assert(s.subrange(a.len() as int, (a.len() + p.len()) as int) =~= p);
    assert(text::occurs_at(s, p, a.len() as int));
}

/// A text that holds another is that one with something before and behind.
pub proof fn what_a_text_holds_stands_in_it(s: Seq<char>, p: Seq<char>)
    requires
        text::holds(s, p),
    ensures
        exists|a: Seq<char>, b: Seq<char>| s == #[trigger] (a + p + b),
{
    let i = choose|i: int| text::occurs_at(s, p, i);
    let a = s.take(i);
    let b = s.skip(i + p.len());
    assert(s =~= a + p + b);
}

/// The first place of a text is one where it stands, and it stands nowhere
/// before.
pub proof fn the_first_place_is_the_first(s: Seq<char>, p: Seq<char>)
    ensures
        match text::first_at(s, p) {
            Some(i) => 0 <= i && i + p.len() <= s.len() && s.subrange(i, i + p.len()) == p
                && forall|j: int|
                0 <= j < i && j + p.len() <= s.len() ==> #[trigger] s.subrange(j, j + p.len()) != p,
            None => forall|j: int|
                0 <= j && j + p.len() <= s.len() ==> #[trigger] s.subrange(j, j + p.len()) != p,
        },
{
    text::lemma_find_from(s, p, 0);
    match text::first_at(s, p) {
        Some(i) => {
            assert forall|j: int| 0 <= j < i && j + p.len() <= s.len() implies #[trigger] s.subrange(
                j,
                j + p.len(),
            ) != p by {
                assert(!text::occurs_at(s, p, j));
            }
        },
        None => {
            assert forall|j: int| 0 <= j && j + p.len() <= s.len() implies #[trigger] s.subrange(
                j,
                j + p.len(),
            ) != p by {
                assert(!text::occurs_at(s, p, j));
            }
        },
    }
}

// --- cutting and joining ----------------------------------------------------

/// Texts behind each other, with something between neighbours.
pub open spec fn chain(parts: Seq<Seq<char>>, between: Seq<char>) -> Seq<char>
    decreases parts.len(),
{
    if parts.len() == 0 {
        Seq::empty()
    } else if parts.len() == 1 {
        parts[0]
    } else {
        parts[0] + between + chain(parts.skip(1), between)
    }
}

pub proof fn lemma_chain_push(parts: Seq<Seq<char>>, x: Seq<char>, between: Seq<char>)
    requires
        parts.len() > 0,
    ensures
        chain(parts.push(x), between) == chain(parts, between) + between + x,
    decreases parts.len(),
{
    reveal_with_fuel(chain, 2);
    let all = parts.push(x);
    if parts.len() == 1 {
        assert(all.skip(1) =~= seq![x]);
    } else {
        assert(all.skip(1) =~= parts.skip(1).push(x));
        lemma_chain_push(parts.skip(1), x, between);
        assert(parts[0] + between + (chain(parts.skip(1), between) + between + x) =~= (parts[0]
            + between + chain(parts.skip(1), between)) + between + x);
    }
}

/// What follows lines behind the end of the last is one line more.
pub proof fn lemma_next_line(lines: Seq<Seq<char>>, lit: Seq<char>, head: Seq<char>, v: Seq<char>)
    requires
        lines.len() > 0,
        lit == seq!['\n'] + head,
    ensures
        chain(lines.push(head + v), seq!['\n']) == chain(lines, seq!['\n']) + lit + v,
{
    lemma_chain_push(lines, head + v, seq!['\n']);
    assert(chain(lines, seq!['\n']) + seq!['\n'] + (head + v) =~= chain(lines, seq!['\n']) + lit
        + v);
}

/// The end of a line leaves an empty one behind it.
pub proof fn lemma_last_line(lines: Seq<Seq<char>>)
    requires
        lines.len() > 0,
    ensures
        chain(lines.push(Seq::empty()), seq!['\n']) == chain(lines, seq!['\n']) + "\n"@,
{
    reveal_strlit("\n");
    lemma_chain_push(lines, Seq::empty(), seq!['\n']);
    assert(chain(lines, seq!['\n']) + seq!['\n'] + Seq::<char>::empty() =~= chain(
        lines,
        seq!['\n'],
    ) + "\n"@);
}

/// Joining puts the texts behind each other, with the separator between
/// neighbours.
pub proof fn joining_is_chaining(parts: Seq<Seq<char>>, sep: Seq<char>)
    ensures
        text::joined(parts, sep) == chain(parts, sep),
    decreases parts.len(),
{
    if parts.len() > 1 {
        let head = parts.drop_last();
        joining_is_chaining(head, sep);
        lemma_chain_push(head, parts.last(), sep);
        assert(head.push(parts.last()) =~= parts);
    }
}

proof fn lemma_chain_last(parts: Seq<Seq<char>>, c: char, between: Seq<char>)
    requires
        parts.len() > 0,
    ensures
        chain(parts.drop_last().push(parts.last().push(c)), between) == chain(parts, between).push(
            c,
        ),
{
    let head = parts.drop_last();
    if head.len() == 0 {
        assert(head.push(parts.last().push(c)) =~= seq![parts.last().push(c)]);
    } else {
        lemma_chain_push(head, parts.last(), between);
        lemma_chain_push(head, parts.last().push(c), between);
        assert(head.push(parts.last()) =~= parts);
        assert(chain(head, between) + between + parts.last().push(c) =~= (chain(head, between)
            + between + parts.last()).push(c));
    }
}

/// The pieces of a text are what its separators part: none holds the
/// separator, and with it between them they are the text again.
pub proof fn pieces_are_what_separators_part(s: Seq<char>, sep: char)
    ensures
        text::pieces(s, sep).len() > 0,
        chain(text::pieces(s, sep), seq![sep]) == s,
        forall|i: int, j: int|
            0 <= i < text::pieces(s, sep).len() && 0 <= j < text::pieces(s, sep)[i].len()
                ==> #[trigger] text::pieces(s, sep)[i][j] != sep,
    decreases s.len(),
{
    if s.len() > 0 {
        let head = text::pieces(s.drop_last(), sep);
        pieces_are_what_separators_part(s.drop_last(), sep);
        assert(s.drop_last().push(s.last()) =~= s);
        if s.last() == sep {
            lemma_chain_push(head, Seq::empty(), seq![sep]);
            assert(s.drop_last() + seq![sep] + Seq::<char>::empty() =~= s);
        } else {
            lemma_chain_last(head, s.last(), seq![sep]);
            let all = text::pieces(s, sep);
            assert forall|i: int, j: int|
                0 <= i < all.len() && 0 <= j < all[i].len() implies #[trigger] all[i][j] != sep by {
                if i < head.len() - 1 {
                    assert(all[i] == head[i]);
                    assert(head[i][j] != sep);
                } else if j < head.last().len() {
                    assert(head[head.len() - 1][j] != sep);
                }
            }
        }
    } else {
        assert(s =~= Seq::<char>::empty());
    }
}

// --- white space ------------------------------------------------------------

/// The code points that Unicode counts as white space.
pub open spec fn is_white(n: int) -> bool {
    ||| 9 <= n <= 13
    ||| n == 32
    ||| n == 133
    ||| n == 160
    ||| n == 5760
    ||| 8192 <= n <= 8202
    ||| n == 8232
    ||| n == 8233
    ||| n == 8239
    ||| n == 8287
    ||| n == 12288
}

/// Nothing but white space.
pub open spec fn is_blank(s: Seq<char>) -> bool {
    forall|i: int| 0 <= i < s.len() ==> is_white(#[trigger] s[i] as int)
}

/// White space is what Unicode counts as such.
pub proof fn white_space_is_what_unicode_says(c: char)
    ensures
        text::is_space(c) == is_white(c as int),
{
}

proof fn lemma_trimmed_start(s: Seq<char>)
    ensures
        exists|a: Seq<char>| is_blank(a) && s == #[trigger] (a + text::trimmed_start(s)),
        text::trimmed_start(s).len() > 0 ==> !is_white(text::trimmed_start(s)[0] as int),
    decreases s.len(),
{
    if s.len() > 0 && text::is_space(s[0]) {
        let t = s.drop_first();
        lemma_trimmed_start(t);
        let a = choose|a: Seq<char>| is_blank(a) && t == #[trigger] (a + text::trimmed_start(t));
        let b = seq![s[0]] + a;
        assert(is_blank(b)) by {
            assert forall|i: int| 0 <= i < b.len() implies is_white(#[trigger] b[i] as int) by {
                if i > 0 {
                    assert(b[i] == a[i - 1]);
                }
            }
        }
        assert(text::trimmed_start(s) == text::trimmed_start(t));
        assert(s =~= seq![s[0]] + t);
        assert(seq![s[0]] + (a + text::trimmed_start(t)) =~= b + text::trimmed_start(s));
    } else {
        let a = Seq::<char>::empty();
        assert(is_blank(a));
        assert(s =~= a + text::trimmed_start(s));
    }
}

proof fn lemma_trimmed_end(s: Seq<char>)
    ensures
        exists|b: Seq<char>| is_blank(b) && s == #[trigger] (text::trimmed_end(s) + b),
        text::trimmed_end(s).len() > 0 ==> !is_white(text::trimmed_end(s).last() as int)
            && text::trimmed_end(s)[0] == s[0],
    decreases s.len(),
{
    if s.len() > 0 && text::is_space(s.last()) {
        let t = s.drop_last();
        lemma_trimmed_end(t);
        let b = choose|b: Seq<char>| is_blank(b) && t == #[trigger] (text::trimmed_end(t) + b);
        let c = b.push(s.last());
        assert(is_blank(c)) by {
            assert forall|i: int| 0 <= i < c.len() implies is_white(#[trigger] c[i] as int) by {
                if i < b.len() {
                    assert(c[i] == b[i]);
                }
            }
        }
        assert(text::trimmed_end(s) == text::trimmed_end(t));
        assert(s =~= t.push(s.last()));
        assert((text::trimmed_end(t) + b).push(s.last()) =~= text::trimmed_end(s) + c);
    } else {
        let b = Seq::<char>::empty();
        assert(is_blank(b));
        assert(s =~= text::trimmed_end(s) + b);
    }
}

/// Trimming takes away white space at both ends, all of it and nothing else.
pub proof fn trimming_takes_white_space_away(s: Seq<char>)
    ensures
        exists|a: Seq<char>, b: Seq<char>|
            is_blank(a) && is_blank(b) && s == #[trigger] (a + text::trimmed(s) + b),
        text::trimmed(s).len() > 0 ==> !is_white(text::trimmed(s)[0] as int) && !is_white(
            text::trimmed(s).last() as int,
        ),
{
    lemma_trimmed_start(s);
    let t = text::trimmed_start(s);
    lemma_trimmed_end(t);
    let a = choose|a: Seq<char>| is_blank(a) && s == #[trigger] (a + t);
    let b = choose|b: Seq<char>| is_blank(b) && t == #[trigger] (text::trimmed_end(t) + b);
    assert(s =~= a + text::trimmed(s) + b);
}

/// A text with no white space at its ends is what is left of it when white
/// space is put around it.
pub proof fn trimming_undoes_blanks(a: Seq<char>, t: Seq<char>, b: Seq<char>)
    requires
        is_blank(a),
        is_blank(b),
        t.len() > 0 ==> !is_white(t[0] as int) && !is_white(t.last() as int),
    ensures
        text::trimmed(a + t + b) == t,
    decreases a.len() + b.len(),
{
    let s = a + t + b;
    if a.len() > 0 {
        assert(text::is_space(s[0])) by {
            assert(s[0] == a[0]);
            assert(is_white(a[0] as int));
        }
        assert(s.drop_first() =~= a.drop_first() + t + b);
        assert(is_blank(a.drop_first())) by {
            assert forall|i: int| 0 <= i < a.len() - 1 implies is_white(
                #[trigger] a.drop_first()[i] as int,
            ) by {
                assert(a.drop_first()[i] == a[i + 1]);
            }
        }
        trimming_undoes_blanks(a.drop_first(), t, b);
        assert(text::trimmed_start(s) == text::trimmed_start(s.drop_first()));
    } else if t.len() == 0 {
        assert(s =~= b);
        assert(t =~= Seq::<char>::empty());
        lemma_blank_start(b);
    } else {
        assert(s =~= t + b);
        assert(!text::is_space(s[0]));
        assert(text::trimmed_start(s) == s);
        lemma_blank_end(t, b);
    }
}

proof fn lemma_blank_start(b: Seq<char>)
    requires
        is_blank(b),
    ensures
        text::trimmed_start(b) == Seq::<char>::empty(),
    decreases b.len(),
{
    if b.len() > 0 {
        assert(is_white(b[0] as int));
        assert(is_blank(b.drop_first())) by {
            assert forall|i: int| 0 <= i < b.len() - 1 implies is_white(
                #[trigger] b.drop_first()[i] as int,
            ) by {
                assert(b.drop_first()[i] == b[i + 1]);
            }
        }
        lemma_blank_start(b.drop_first());
    } else {
        assert(b =~= Seq::<char>::empty());
    }
}

proof fn lemma_blank_end(t: Seq<char>, b: Seq<char>)
    requires
        t.len() > 0,
        !is_white(t.last() as int),
        is_blank(b),
    ensures
        text::trimmed_end(t + b) == t,
    decreases b.len(),
{
    let s = t + b;
    if b.len() > 0 {
        assert(s.last() == b.last());
        assert(is_white(b[b.len() - 1] as int));
        assert(s.drop_last() =~= t + b.drop_last());
        assert(is_blank(b.drop_last())) by {
            assert forall|i: int| 0 <= i < b.len() - 1 implies is_white(
                #[trigger] b.drop_last()[i] as int,
            ) by {
                assert(b.drop_last()[i] == b[i]);
            }
        }
        lemma_blank_end(t, b.drop_last());
    } else {
        assert(s =~= t);
    }
}

proof fn lemma_until_space(w: Seq<char>, rest: Seq<char>)
    requires
        forall|i: int| 0 <= i < w.len() ==> !is_white(#[trigger] w[i] as int),
        rest.len() > 0 ==> is_white(rest[0] as int),
    ensures
        text::until_space(w + rest) == w,
    decreases w.len(),
{
    let s = w + rest;
    if w.len() == 0 {
        assert(s =~= rest);
        assert(w =~= Seq::<char>::empty());
    } else {
        assert(!is_white(w[0] as int));
        assert(s[0] == w[0]);
        assert(s.drop_first() =~= w.drop_first() + rest);
        assert forall|i: int| 0 <= i < w.len() - 1 implies !is_white(
            #[trigger] w.drop_first()[i] as int,
        ) by {
            assert(w.drop_first()[i] == w[i + 1]);
        }
        lemma_until_space(w.drop_first(), rest);
        assert(seq![w[0]] + w.drop_first() =~= w);
    }
}

/// The first word is what stands between the white space at the start and the
/// white space behind it.
pub proof fn the_first_word_stands_first(a: Seq<char>, w: Seq<char>, rest: Seq<char>)
    requires
        is_blank(a),
        w.len() > 0,
        forall|i: int| 0 <= i < w.len() ==> !is_white(#[trigger] w[i] as int),
        rest.len() > 0 ==> is_white(rest[0] as int),
    ensures
        text::leading_word(a + w + rest) == Some(w),
    decreases a.len(),
{
    let s = a + w + rest;
    lemma_start_behind_blank(a, w + rest);
    assert(s =~= a + (w + rest));
    assert(!is_white(w[0] as int));
    lemma_until_space(w, rest);
}

proof fn lemma_start_behind_blank(a: Seq<char>, t: Seq<char>)
    requires
        is_blank(a),
        t.len() > 0 ==> !is_white(t[0] as int),
    ensures
        text::trimmed_start(a + t) == t,
    decreases a.len(),
{
    let s = a + t;
    if a.len() > 0 {
        assert(is_white(a[0] as int));
        assert(s[0] == a[0]);
        assert(s.drop_first() =~= a.drop_first() + t);
        assert(is_blank(a.drop_first())) by {
            assert forall|i: int| 0 <= i < a.len() - 1 implies is_white(
                #[trigger] a.drop_first()[i] as int,
            ) by {
                assert(a.drop_first()[i] == a[i + 1]);
            }
        }
        lemma_start_behind_blank(a.drop_first(), t);
    } else {
        assert(s =~= t);
    }
}

/// White space alone has no word in it.
pub proof fn blanks_have_no_word(s: Seq<char>)
    requires
        is_blank(s),
    ensures
        text::leading_word(s) is None,
{
    lemma_blank_start(s);
}

// --- letters ----------------------------------------------------------------

/// Two characters that are the same, or the same letter of the alphabet in
/// upper and in lower case.
pub open spec fn is_same_letter(a: char, b: char) -> bool {
    ||| a == b
    ||| 65 <= a as int <= 90 && b as int == a as int + 32
    ||| 65 <= b as int <= 90 && a as int == b as int + 32
}

/// Comparing without case takes upper and lower case of the letters of the
/// alphabet for the same, and nothing else.
pub proof fn case_is_all_that_does_not_count(a: Seq<char>, b: Seq<char>)
    ensures
        text::same_letters(a, b) <==> a.len() == b.len() && forall|i: int|
            0 <= i < a.len() ==> is_same_letter(#[trigger] a[i], b[i]),
{
    assert forall|x: char, y: char| #[trigger]
        is_same_letter(x, y) <==> text::lower(x) == text::lower(y) by {
        lemma_lower(x);
        lemma_lower(y);
    }
    if text::same_letters(a, b) {
        assert forall|i: int| 0 <= i < a.len() implies is_same_letter(#[trigger] a[i], b[i]) by {
            assert(text::lower(a[i]) == text::lower(b[i]));
        }
    }
    if a.len() == b.len() && forall|i: int|
        0 <= i < a.len() ==> is_same_letter(#[trigger] a[i], b[i]) {
        assert forall|i: int| 0 <= i < a.len() implies text::lower(#[trigger] a[i]) == text::lower(
            b[i],
        ) by {
            assert(is_same_letter(a[i], b[i]));
        }
    }
}

proof fn lemma_lower(c: char)
    ensures
        65 <= c as int <= 90 ==> text::lower(c) as int == c as int + 32,
        !(65 <= c as int <= 90) ==> text::lower(c) == c,
{
}

// --- replacing --------------------------------------------------------------

/// A text without the mark stays as it is, and the first mark gives way to
/// what is put in its place, as the others do in the rest.
pub proof fn marks_give_way(a: Seq<char>, mark: Seq<char>, b: Seq<char>, to: Seq<char>)
    requires
        mark.len() > 0,
        forall|j: int|
            0 <= j < a.len() && j + mark.len() <= a.len() + mark.len() + b.len() ==> #[trigger] (a
                + mark + b).subrange(j, j + mark.len()) != mark,
    ensures
        text::replaced(a + mark + b, mark, to) == a + to + text::replaced(b, mark, to),
{
    let s = a + mark + b;
    the_first_place_is_the_first(s, mark);
    assert(s.subrange(a.len() as int, (a.len() + mark.len()) as int) =~= mark);
    let i = text::first_at(s, mark)->0;
    assert(i == a.len());
    assert(s.take(i) =~= a);
    assert(s.skip(i + mark.len()) =~= b);
}

/// A text without the mark stays as it is.
pub proof fn texts_without_the_mark_stay(s: Seq<char>, mark: Seq<char>, to: Seq<char>)
    requires
        forall|j: int|
            0 <= j && j + mark.len() <= s.len() ==> #[trigger] s.subrange(j, j + mark.len())
                != mark,
    ensures
        text::replaced(s, mark, to) == s,
{
    the_first_place_is_the_first(s, mark);
}

// --- numbers ----------------------------------------------------------------

/// The number that decimal digits say, read from the left.
pub open spec fn number(s: Seq<char>) -> int
    decreases s.len(),
{
    if s.len() == 0 {
        0
    } else {
        number(s.drop_last()) * 10 + (s.last() as int - 48)
    }
}

/// Nothing but decimal digits.
pub open spec fn is_digits(s: Seq<char>) -> bool {
    forall|i: int| 0 <= i < s.len() ==> 48 <= #[trigger] s[i] as int <= 57
}

/// A number in decimal is made of digits that say it, the first of them being
/// no zero but for the number zero.
pub proof fn decimals_say_their_number(n: nat)
    ensures
        text::decimal_text(n).len() > 0,
        is_digits(text::decimal_text(n)),
        number(text::decimal_text(n)) == n,
        n > 0 ==> text::decimal_text(n)[0] != '0',
        n < 10 ==> text::decimal_text(n).len() == 1,
    decreases n,
{
    let s = text::decimal_text(n);
    if n < 10 {
        assert(s.drop_last() =~= Seq::<char>::empty());
        assert(number(s.drop_last()) == 0);
    } else {
        let head = text::decimal_text(n / 10);
        decimals_say_their_number(n / 10);
        assert(s.drop_last() =~= head);
        assert(s[0] == head[0]);
        assert forall|i: int| 0 <= i < s.len() implies 48 <= #[trigger] s[i] as int <= 57 by {
            if i < head.len() {
                assert(s[i] == head[i]);
            }
        }
    }
}

/// A negative number has a sign before its digits, and no other has.
pub proof fn signs_stand_before_negative_numbers(n: int)
    ensures
        n >= 0 ==> is_digits(text::signed_text(n)) && number(text::signed_text(n)) == n,
        n < 0 ==> text::signed_text(n)[0] == '-' && is_digits(text::signed_text(n).skip(1))
            && number(text::signed_text(n).skip(1)) == -n,
{
    reveal_strlit("-");
    if n >= 0 {
        decimals_say_their_number(n as nat);
    } else {
        decimals_say_their_number((-n) as nat);
        assert(text::signed_text(n).skip(1) =~= text::decimal_text((-n) as nat));
    }
}

/// A text is filled up behind, with spaces, to the width and no further.
pub proof fn padding_fills_up(s: Seq<char>, width: nat)
    ensures
        s.is_prefix_of(text::padded(s, width)),
        text::padded(s, width).len() == if s.len() < width {
            width
        } else {
            s.len()
        },
        forall|i: int|
            s.len() <= i < text::padded(s, width).len() ==> #[trigger] text::padded(s, width)[i]
                == ' ',
{
    assert(text::padded(s, width).take(s.len() as int) =~= s);
}

/// The value of a hexadecimal digit in lower case.
pub open spec fn nibble(c: char) -> int {
    if c as int <= 57 {
        c as int - 48
    } else {
        c as int - 87
    }
}

/// Nothing but hexadecimal digits in lower case.
pub open spec fn is_hex(s: Seq<char>) -> bool {
    forall|i: int|
        0 <= i < s.len() ==> {
            let n = #[trigger] s[i] as int;
            48 <= n <= 57 || 97 <= n <= 102
        }
}

/// Bytes in hexadecimal are two digits in lower case for each, the higher
/// half first.
pub proof fn hexadecimals_say_their_bytes(b: Seq<u8>)
    ensures
        text::hex_text(b).len() == 2 * b.len(),
        is_hex(text::hex_text(b)),
        forall|i: int|
            0 <= i < b.len() ==> nibble(text::hex_text(b)[2 * i]) * 16 + nibble(
                text::hex_text(b)[2 * i + 1],
            ) == #[trigger] b[i],
    decreases b.len(),
{
    if b.len() > 0 {
        let head = b.drop_last();
        let s = text::hex_text(b);
        let t = text::hex_text(head);
        hexadecimals_say_their_bytes(head);
        assert forall|i: int| 0 <= i < s.len() implies {
            let n = #[trigger] s[i] as int;
            48 <= n <= 57 || 97 <= n <= 102
        } by {
            if i < t.len() {
                assert(s[i] == t[i]);
            }
        }
        assert forall|i: int| 0 <= i < b.len() implies nibble(s[2 * i]) * 16 + nibble(s[2 * i + 1])
            == #[trigger] b[i] by {
            if i < head.len() {
                assert(s[2 * i] == t[2 * i] && s[2 * i + 1] == t[2 * i + 1]);
                assert(head[i] == b[i]);
            }
        }
    }
}

} // verus!
