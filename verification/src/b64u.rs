//! Base64url without padding: three bytes are four symbols of six bits each,
//! and a last group of one or two bytes is two or three symbols.
use vstd::prelude::*;

use crate::text::chars_of;

verus! {

// --- meanings ---------------------------------------------------------------

/// The symbol for a value below 64.
pub open spec fn symbol(v: nat) -> char {
    if v < 26 {
        (65 + v) as char
    } else if v < 52 {
        (71 + v) as char
    } else if v < 62 {
        (v - 4) as char
    } else if v == 62 {
        '-'
    } else {
        '_'
    }
}

/// The value of a symbol.
pub open spec fn symbol_value(c: char) -> Option<nat> {
    if 'A' <= c <= 'Z' {
        Some((c as int - 65) as nat)
    } else if 'a' <= c <= 'z' {
        Some((c as int - 71) as nat)
    } else if '0' <= c <= '9' {
        Some((c as int + 4) as nat)
    } else if c == '-' {
        Some(62)
    } else if c == '_' {
        Some(63)
    } else {
        None
    }
}

/// The symbols of a byte string.
pub open spec fn encoded(b: Seq<u8>) -> Seq<char>
    decreases b.len(),
{
    if b.len() == 0 {
        Seq::empty()
    } else if b.len() == 1 {
        seq![symbol((b[0] / 4) as nat), symbol((b[0] % 4 * 16) as nat)]
    } else if b.len() == 2 {
        seq![
            symbol((b[0] / 4) as nat),
            symbol((b[0] % 4 * 16 + b[1] / 16) as nat),
            symbol((b[1] % 16 * 4) as nat),
        ]
    } else {
        seq![
            symbol((b[0] / 4) as nat),
            symbol((b[0] % 4 * 16 + b[1] / 16) as nat),
            symbol((b[1] % 16 * 4 + b[2] / 64) as nat),
            symbol((b[2] % 64) as nat),
        ] + encoded(b.skip(3))
    }
}

/// The bytes that two, three or four six-bit values stand for.
pub open spec fn group_bytes(v: Seq<nat>) -> Seq<u8> {
    if v.len() == 2 {
        seq![(v[0] * 4 + v[1] / 16) as u8]
    } else if v.len() == 3 {
        seq![(v[0] * 4 + v[1] / 16) as u8, (v[1] % 16 * 16 + v[2] / 4) as u8]
    } else {
        seq![
            (v[0] * 4 + v[1] / 16) as u8,
            (v[1] % 16 * 16 + v[2] / 4) as u8,
            (v[2] % 4 * 64 + v[3]) as u8,
        ]
    }
}

/// The values of the symbols, if each character is one.
pub open spec fn values(s: Seq<char>) -> Option<Seq<nat>> {
    if forall|i: int| 0 <= i < s.len() ==> symbol_value(#[trigger] s[i]) is Some {
        Some(Seq::new(s.len(), |i: int| symbol_value(s[i])->0))
    } else {
        None
    }
}

/// The byte string that a text stands for. A character outside the alphabet
/// and a last group of one symbol stand for nothing; the bits of the last
/// symbol that no byte needs are not looked at.
pub open spec fn decoded(s: Seq<char>) -> Option<Seq<u8>>
    decreases s.len(),
{
    if s.len() == 0 {
        Some(Seq::empty())
    } else if s.len() == 1 {
        None
    } else if s.len() <= 4 {
        match values(s) {
            Some(v) => Some(group_bytes(v)),
            None => None,
        }
    } else {
        match (values(s.take(4)), decoded(s.skip(4))) {
            (Some(v), Some(rest)) => Some(group_bytes(v) + rest),
            _ => None,
        }
    }
}

// --- operations -------------------------------------------------------------

fn symbol_of(v: u8) -> (c: char)
    requires
        v < 64,
    ensures
        c == symbol(v as nat),
{
    if v < 26 {
        (65 + v) as char
    } else if v < 52 {
        (71 + v) as char
    } else if v < 62 {
        (v - 4) as char
    } else if v == 62 {
        '-'
    } else {
        '_'
    }
}

fn value_of(c: char) -> (res: Option<u8>)
    ensures
        match res {
            Some(v) => symbol_value(c) == Some(v as nat) && v < 64,
            None => symbol_value(c) is None,
        },
{
    if 'A' <= c && c <= 'Z' {
        Some(c as u8 - 65)
    } else if 'a' <= c && c <= 'z' {
        Some(c as u8 - 71)
    } else if '0' <= c && c <= '9' {
        Some(c as u8 + 4)
    } else if c == '-' {
        Some(62)
    } else if c == '_' {
        Some(63)
    } else {
        None
    }
}

/// The base64url text of a byte string.
pub fn b64u_encode(bytes: &[u8]) -> (res: String)
    ensures
        res@ == encoded(bytes@),
{
    let n: usize = bytes.len();
    let mut out = String::new();
    let mut i: usize = 0;
    assert(bytes@.skip(0) =~= bytes@);
    assert(encoded(bytes@) =~= out@ + encoded(bytes@.skip(0)));
    while n - i >= 3
        invariant
            n == bytes@.len(),
            i <= n,
            encoded(bytes@) == out@ + encoded(bytes@.skip(i as int)),
        decreases n - i,
    {
        let ghost rest = bytes@.skip(i as int);
        let ghost before = out@;
        out.push(symbol_of(bytes[i] / 4));
        out.push(symbol_of(bytes[i] % 4 * 16 + bytes[i + 1] / 16));
        out.push(symbol_of(bytes[i + 1] % 16 * 4 + bytes[i + 2] / 64));
        out.push(symbol_of(bytes[i + 2] % 64));
        assert(rest.skip(3) =~= bytes@.skip(i + 3));
        assert(out@ + encoded(bytes@.skip(i + 3)) =~= before + encoded(rest));
        i = i + 3;
    }
    let ghost rest = bytes@.skip(i as int);
    let ghost before = out@;
    if n - i == 1 {
        out.push(symbol_of(bytes[i] / 4));
        out.push(symbol_of(bytes[i] % 4 * 16));
    } else if n - i == 2 {
        out.push(symbol_of(bytes[i] / 4));
        out.push(symbol_of(bytes[i] % 4 * 16 + bytes[i + 1] / 16));
        out.push(symbol_of(bytes[i + 1] % 16 * 4));
    }
    assert(out@ =~= before + encoded(rest));
    out
}

/// The values of up to four symbols.
fn group_values(s: &Vec<char>, from: usize, to: usize) -> (res: Option<Vec<u8>>)
    requires
        from <= to <= s@.len(),
    ensures
        match res {
            Some(v) => values(s@.subrange(from as int, to as int)) == Some(
                v@.map_values(|x: u8| x as nat),
            ) && v@.len() == to - from && forall|i: int| 0 <= i < v@.len() ==> v@[i] < 64,
            None => values(s@.subrange(from as int, to as int)) is None,
        },
{
    let ghost g = s@.subrange(from as int, to as int);
    let mut v: Vec<u8> = Vec::new();
    let mut i: usize = from;
    while i < to
        invariant
            from <= i <= to <= s@.len(),
            g == s@.subrange(from as int, to as int),
            v@.len() == i - from,
            forall|j: int|
                0 <= j < v@.len() ==> #[trigger] v@[j] < 64 && symbol_value(g[j]) == Some(
                    v@[j] as nat,
                ),
        decreases to - i,
    {
        match value_of(s[i]) {
            Some(x) => {
                assert(g[i - from] == s@[i as int]);
                v.push(x);
            },
            None => {
                assert(symbol_value(g[i - from]) is None);
                return None;
            },
        }
        i = i + 1;
    }
    proof {
        assert forall|j: int| 0 <= j < g.len() implies symbol_value(#[trigger] g[j]) is Some by {
            assert(v@[j] < 64);
        }
        assert(values(g)->0 =~= v@.map_values(|x: u8| x as nat));
    }
    Some(v)
}

/// The byte string that a base64url text stands for, if it stands for one.
pub fn b64u_decode(s: &str) -> (res: Option<Vec<u8>>)
    ensures
        match res {
            Some(b) => decoded(s@) == Some(b@),
            None => decoded(s@) is None,
        },
{
    let a = chars_of(s);
    let n: usize = a.len();
    let mut out: Vec<u8> = Vec::new();
    let mut i: usize = 0;
    assert(s@.skip(0) =~= s@);
    while i < n
        invariant
            a@ == s@,
            n == a@.len(),
            i <= n,
            match decoded(s@.skip(i as int)) {
                Some(rest) => decoded(s@) == Some(out@ + rest),
                None => decoded(s@) is None,
            },
        decreases n - i,
    {
        let ghost rest = s@.skip(i as int);
        let ghost before = out@;
        let m: usize = if n - i < 4 {
            n - i
        } else {
            4
        };
        if m < 2 {
            return None;
        }
        let ghost g = s@.subrange(i as int, i + m);
        proof {
            assert(m < 4 ==> g =~= rest);
            assert(rest.len() == 4 ==> g =~= rest);
            assert(rest.len() > 4 ==> rest.take(4) =~= g);
            assert(rest.len() > 4 ==> rest.skip(4) =~= s@.skip(i + m));
            assert(rest.len() <= 4 ==> s@.skip(i + m) =~= Seq::<char>::empty());
        }
        match group_values(&a, i, i + m) {
            Some(v) => {
                let ghost w = v@.map_values(|x: u8| x as nat);
                out.push(v[0] * 4 + v[1] / 16);
                if m > 2 {
                    out.push(v[1] % 16 * 16 + v[2] / 4);
                }
                if m > 3 {
                    out.push(v[2] % 4 * 64 + v[3]);
                }
                assert(out@ =~= before + group_bytes(w));
                proof {
                    match decoded(s@.skip(i + m)) {
                        Some(r) => {
                            assert(before + (group_bytes(w) + r) =~= out@ + r);
                            assert(group_bytes(w) + Seq::<u8>::empty() =~= group_bytes(w));
                        },
                        None => {},
                    }
                }
            },
            None => {
                return None;
            },
        }
        i = i + m;
    }
    assert(s@.skip(n as int) =~= Seq::<char>::empty());
    assert(out@ + Seq::<u8>::empty() =~= out@);
    Some(out)
}

// --- laws -------------------------------------------------------------------

/// The value of the symbol for a value is that value.
proof fn lemma_symbol_value(v: nat)
    requires
        v < 64,
    ensures
        symbol_value(symbol(v)) == Some(v),
{
}

/// Decoding the text of a byte string gives the byte string back.
pub proof fn decode_inverts_encode(b: Seq<u8>)
    ensures
        decoded(encoded(b)) == Some(b),
    decreases b.len(),
{
    let s = encoded(b);
    assert forall|v: nat| v < 64 implies symbol_value(#[trigger] symbol(v)) == Some(v) by {
        lemma_symbol_value(v);
    }
    if b.len() == 0 {
        assert(b =~= Seq::<u8>::empty());
    } else if b.len() == 1 {
        let w = values(s)->0;
        assert(group_bytes(w) =~= b);
    } else if b.len() == 2 {
        let w = values(s)->0;
        assert(group_bytes(w) =~= b);
    } else {
        decode_inverts_encode(b.skip(3));
        let g = s.take(4);
        assert(s.skip(4) =~= encoded(b.skip(3)));
        let w = values(g)->0;
        assert(group_bytes(w) =~= b.take(3));
        if b.len() == 3 {
            assert(b.skip(3) =~= Seq::<u8>::empty());
            assert(g =~= s);
            assert(b.take(3) =~= b);
        } else {
            lemma_encoded_len(b.skip(3));
            assert(group_bytes(w) + b.skip(3) =~= b);
        }
    }
}

/// `n` bytes are `4n / 3` symbols, rounded up.
pub proof fn lemma_encoded_len(b: Seq<u8>)
    ensures
        encoded(b).len() == (4 * b.len() + 2) / 3,
    decreases b.len(),
{
    if b.len() >= 3 {
        lemma_encoded_len(b.skip(3));
    }
}

/// Every character of an encoded text is a letter, a digit, `-` or `_`: no
/// padding, no separator.
pub proof fn encoded_stays_in_the_alphabet(b: Seq<u8>)
    ensures
        forall|i: int| 0 <= i < encoded(b).len() ==> symbol_value(#[trigger] encoded(b)[i]) is Some,
    decreases b.len(),
{
    assert forall|v: nat| v < 64 implies symbol_value(#[trigger] symbol(v)) == Some(v) by {
        lemma_symbol_value(v);
    }
    if b.len() >= 3 {
        encoded_stays_in_the_alphabet(b.skip(3));
        let rest = encoded(b.skip(3));
        assert forall|i: int| 0 <= i < encoded(b).len() implies symbol_value(
            #[trigger] encoded(b)[i],
        ) is Some by {
            if i >= 4 {
                assert(encoded(b)[i] == rest[i - 4]);
            }
        }
    }
}

/// Two byte strings with the same text are the same.
pub proof fn encode_is_injective(a: Seq<u8>, b: Seq<u8>)
    requires
        encoded(a) == encoded(b),
    ensures
        a == b,
{
    decode_inverts_encode(a);
    decode_inverts_encode(b);
}

} // verus!
