//! What tokens, and the texts they are made of, promise.
use vstd::prelude::*;
use vstd::utf8::*;

use super::text::chain;
use crate::jwt::{self, ClaimsView};
use crate::{b64u, json, laws, outside, text};

verus! {

// --- base64url --------------------------------------------------------------

/// The symbols of base64url, in the order of their values.
pub open spec fn alphabet() -> Seq<char> {
    "ABCDEFGHIJKLMNOPQRSTUVWXYZabcdefghijklmnopqrstuvwxyz0123456789-_"@
}

/// The symbol for a value is the one at that place of the alphabet, and has
/// that value; no other character has one.
pub proof fn symbols_stand_in_the_alphabet(v: nat, c: char)
    requires
        v < 64,
    ensures
        b64u::symbol(v) == alphabet()[v as int],
        b64u::symbol_value(alphabet()[v as int]) == Some(v),
        b64u::symbol_value(c) is Some <==> alphabet().contains(c),
{
    reveal_strlit("ABCDEFGHIJKLMNOPQRSTUVWXYZabcdefghijklmnopqrstuvwxyz0123456789-_");
    let a = alphabet();
    assert(a.len() == 64);
    if a.contains(c) {
        let i = a.index_of(c);
        assert(a[i] == c);
    }
    if let Some(w) = b64u::symbol_value(c) {
        assert(w < 64);
        assert(a[w as int] == c);
    }
}

/// The value of a symbol.
pub open spec fn value(c: char) -> int {
    alphabet().index_of(c)
}

proof fn lemma_value(v: nat)
    requires
        v < 64,
    ensures
        value(b64u::symbol(v)) == v,
{
    reveal_strlit("ABCDEFGHIJKLMNOPQRSTUVWXYZabcdefghijklmnopqrstuvwxyz0123456789-_");
    let a = alphabet();
    symbols_stand_in_the_alphabet(v, b64u::symbol(v));
    let c = b64u::symbol(v);
    assert(a[v as int] == c);
    assert(a.contains(c));
    let i = a.index_of(c);
    assert(a[i] == c);
    symbols_stand_in_the_alphabet(i as nat, c);
}

/// Three bytes are four symbols, which are the same number to the base of 64;
/// two bytes are three symbols and one byte is two, with zero bits behind. What
/// follows three bytes is encoded for itself.
pub proof fn bytes_are_symbols(a: u8, b: u8, c: u8, rest: Seq<u8>)
    ensures
        ({
            let s = b64u::encoded(seq![a, b, c]);
            &&& s.len() == 4
            &&& value(s[0]) * 262_144 + value(s[1]) * 4096 + value(s[2]) * 64 + value(s[3]) == a
                * 65_536 + b * 256 + c
            &&& b64u::encoded(seq![a, b, c] + rest) == s + b64u::encoded(rest)
        }),
        ({
            let s = b64u::encoded(seq![a, b]);
            &&& s.len() == 3
            &&& value(s[0]) * 4096 + value(s[1]) * 64 + value(s[2]) == (a * 256 + b) * 4
        }),
        ({
            let s = b64u::encoded(seq![a]);
            &&& s.len() == 2
            &&& value(s[0]) * 64 + value(s[1]) == a * 16
        }),
        b64u::encoded(Seq::empty()) == Seq::<char>::empty(),
{
    lemma_value((a / 4) as nat);
    lemma_value((a % 4 * 16) as nat);
    lemma_value((a % 4 * 16 + b / 16) as nat);
    lemma_value((b % 16 * 4) as nat);
    lemma_value((b % 16 * 4 + c / 64) as nat);
    lemma_value((c % 64) as nat);
    let three = seq![a, b, c];
    assert(three.skip(3) =~= Seq::<u8>::empty());
    assert((three + rest).skip(3) =~= rest);
    reveal_with_fuel(b64u::encoded, 2);
    assert(b64u::encoded(three) =~= seq![
        b64u::symbol((a / 4) as nat),
        b64u::symbol((a % 4 * 16 + b / 16) as nat),
        b64u::symbol((b % 16 * 4 + c / 64) as nat),
        b64u::symbol((c % 64) as nat),
    ]);
}

/// A text with a character outside the alphabet stands for nothing, nor does
/// one that leaves a single symbol over.
pub proof fn texts_that_stand_for_nothing(s: Seq<char>, i: int)
    ensures
        0 <= i < s.len() && !alphabet().contains(s[i]) ==> b64u::decoded(s) is None,
        s.len() % 4 == 1 ==> b64u::decoded(s) is None,
    decreases s.len(),
{
    if 0 <= i < s.len() {
        symbols_stand_in_the_alphabet(0, s[i]);
    }
    if s.len() > 4 {
        let t = s.skip(4);
        texts_that_stand_for_nothing(t, i - 4);
        if 0 <= i < s.len() && !alphabet().contains(s[i]) {
            if i < 4 {
                assert(s.take(4)[i] == s[i]);
            } else {
                assert(t[i - 4] == s[i]);
            }
        }
    }
}

// --- JSON -------------------------------------------------------------------

/// The texts of fields: the name, a colon and the value.
pub open spec fn fields_in(fields: Seq<(Seq<char>, Seq<char>)>) -> Seq<Seq<char>> {
    fields.map_values(|f: (Seq<char>, Seq<char>)| f.0 + seq![':'] + f.1)
}

/// An object is its fields in order, with commas between them, in braces; a
/// list is its items in order, with commas between them, in brackets.
pub proof fn objects_and_lists(fields: Seq<(Seq<char>, Seq<char>)>, items: Seq<Seq<char>>)
    ensures
        json::object(fields) == seq!['{'] + chain(fields_in(fields), seq![',']) + seq!['}'],
        json::array(items) == seq!['['] + chain(items, seq![',']) + seq![']'],
{
    reveal_strlit("{");
    reveal_strlit("}");
    reveal_strlit("[");
    reveal_strlit("]");
    reveal_strlit(",");
    reveal_strlit(":");
    assert("{"@ =~= seq!['{']);
    assert("}"@ =~= seq!['}']);
    assert("["@ =~= seq!['[']);
    assert("]"@ =~= seq![']']);
    assert(","@ =~= seq![',']);
    assert(":"@ =~= seq![':']);
    laws::text::joining_is_chaining(json::field_texts(fields), ","@);
    laws::text::joining_is_chaining(items, ","@);
    assert(json::field_texts(fields) =~= fields_in(fields));
}

/// A name as a JSON string stands in quotes, and truth is written out.
pub proof fn names_and_truth(name: Seq<char>, items: Seq<Seq<char>>)
    ensures
        json::key(name) == seq!['"'] + name + seq!['"'],
        json::truth(true) == "true"@,
        json::truth(false) == "false"@,
        json::quoted(items).len() == items.len(),
        forall|i: int|
            0 <= i < items.len() ==> #[trigger] json::quoted(items)[i] == outside::json_text(
                items[i],
            ),
{
    reveal_strlit("\"");
    assert("\""@ =~= seq!['"']);
}

// --- tokens -----------------------------------------------------------------

/// The payload of a token is a JSON object with the four claims.
pub proof fn payloads_hold_the_claims(c: ClaimsView)
    ensures
        jwt::claims_json(c) == seq!['{'] + chain(
            seq![
                "\"sub\":"@ + outside::json_text(c.sub),
                "\"iat\":"@ + text::decimal_text(c.iat as nat),
                "\"exp\":"@ + text::decimal_text(c.exp as nat),
                "\"jti\":"@ + outside::json_text(c.jti),
            ],
            seq![','],
        ) + seq!['}'],
{
    let f = seq![
        (json::key("sub"@), outside::json_text(c.sub)),
        (json::key("iat"@), text::decimal_text(c.iat as nat)),
        (json::key("exp"@), text::decimal_text(c.exp as nat)),
        (json::key("jti"@), outside::json_text(c.jti)),
    ];
    objects_and_lists(f, Seq::empty());
    reveal_strlit("\"");
    reveal_strlit("sub");
    reveal_strlit("iat");
    reveal_strlit("exp");
    reveal_strlit("jti");
    reveal_strlit("\"sub\":");
    reveal_strlit("\"iat\":");
    reveal_strlit("\"exp\":");
    reveal_strlit("\"jti\":");
    assert(json::key("sub"@) + seq![':'] =~= "\"sub\":"@);
    assert(json::key("iat"@) + seq![':'] =~= "\"iat\":"@);
    assert(json::key("exp"@) + seq![':'] =~= "\"exp\":"@);
    assert(json::key("jti"@) + seq![':'] =~= "\"jti\":"@);
    assert(fields_in(f) =~= seq![
        "\"sub\":"@ + outside::json_text(c.sub),
        "\"iat\":"@ + text::decimal_text(c.iat as nat),
        "\"exp\":"@ + text::decimal_text(c.exp as nat),
        "\"jti\":"@ + outside::json_text(c.jti),
    ]);
}

/// A token is three parts between dots: the fixed header, the claims and the
/// HMAC of the first two and the dot between them.
pub proof fn tokens_are_three_parts(c: ClaimsView, key: Seq<u8>)
    ensures
        ({
            let header = "eyJhbGciOiJIUzI1NiIsInR5cCI6IkpXVCJ9"@;
            let payload = b64u::encoded(encode_utf8(jwt::claims_json(c)));
            let mac = outside::hmac_sha256_of(key, encode_utf8(header + seq!['.'] + payload));
            text::pieces(jwt::issued(c, key), '.') == seq![header, payload, b64u::encoded(mac)]
        }),
{
    let header = "eyJhbGciOiJIUzI1NiIsInR5cCI6IkpXVCJ9"@;
    let json = encode_utf8(jwt::claims_json(c));
    let payload = b64u::encoded(json);
    let mac = outside::hmac_sha256_of(key, encode_utf8(header + seq!['.'] + payload));
    jwt::framing_is_undone(json, mac);
    let parts = text::pieces(jwt::issued(c, key), '.');
    assert(parts =~= seq![header, payload, b64u::encoded(mac)]);
}

/// A token is read only where it has three parts and the fixed header, and
/// what is wrong with another is said by the number of its parts.
pub proof fn tokens_need_their_frame(token: Seq<char>)
    ensures
        ({
            let parts = text::pieces(token, '.');
            let framed = jwt::framed(token);
            &&& parts.len() == 1 ==> framed == Err::<(Seq<char>, Seq<char>), Seq<char>>(
                "missing payload"@,
            )
            &&& parts.len() == 2 ==> framed == Err::<(Seq<char>, Seq<char>), Seq<char>>(
                "missing signature"@,
            )
            &&& parts.len() > 3 ==> framed == Err::<(Seq<char>, Seq<char>), Seq<char>>(
                "malformed"@,
            )
            &&& parts.len() == 3 && parts[0] != "eyJhbGciOiJIUzI1NiIsInR5cCI6IkpXVCJ9"@ ==> framed
                == Err::<(Seq<char>, Seq<char>), Seq<char>>("bad header"@)
            &&& parts.len() == 3 && parts[0] == "eyJhbGciOiJIUzI1NiIsInR5cCI6IkpXVCJ9"@ ==> framed
                == Ok::<(Seq<char>, Seq<char>), Seq<char>>((parts[1], parts[2]))
        }),
{
}

/// The payload of a framed token is given out only where its signature is the
/// HMAC, and each other case has its words.
pub proof fn payloads_are_given_out_for_the_signature(
    payload: Seq<char>,
    signature: Seq<char>,
    mac: Seq<u8>,
    why: Seq<char>,
)
    ensures
        jwt::opened(payload, signature, Err(why)) == Err::<Seq<u8>, Seq<char>>(why),
        b64u::decoded(signature) is None ==> jwt::opened(payload, signature, Ok(mac)) == Err::<
            Seq<u8>,
            Seq<char>,
        >("bad signature encoding"@),
        (b64u::decoded(signature) matches Some(m) && m != mac) ==> jwt::opened(
            payload,
            signature,
            Ok(mac),
        ) == Err::<Seq<u8>, Seq<char>>("invalid signature"@),
        b64u::decoded(signature) == Some(mac) && b64u::decoded(payload) is None ==> jwt::opened(
            payload,
            signature,
            Ok(mac),
        ) == Err::<Seq<u8>, Seq<char>>("bad payload encoding"@),
        b64u::decoded(signature) == Some(mac) ==> (b64u::decoded(payload) matches Some(b)
            ==> jwt::opened(payload, signature, Ok(mac)) == Ok::<Seq<u8>, Seq<char>>(b)),
{
}

/// Claims are good before the second they end in, and expired from it on;
/// nothing else of them plays a part.
pub proof fn claims_end_at_their_second(c: ClaimsView, now: u64)
    ensures
        now < c.exp ==> jwt::judged(Ok(c), now) == Ok::<ClaimsView, Seq<char>>(c),
        now >= c.exp ==> jwt::judged(Ok(c), now) == Err::<ClaimsView, Seq<char>>("expired"@),
{
}

/// By a clock that stands before the epoch no claims are good, and by any
/// other they are judged by its second.
pub proof fn clocks_before_the_epoch_are_told(c: ClaimsView, now: u64, why: Seq<char>)
    ensures
        jwt::judged_by(Ok(c), None) == Err::<ClaimsView, Seq<char>>(
            "system time before unix epoch"@,
        ),
        jwt::judged_by(Err(why), None) == Err::<ClaimsView, Seq<char>>(why),
        jwt::judged_by(Err(why), Some(now)) == Err::<ClaimsView, Seq<char>>(why),
        now < c.exp ==> jwt::judged_by(Ok(c), Some(now)) == Ok::<ClaimsView, Seq<char>>(c),
        now >= c.exp ==> jwt::judged_by(Ok(c), Some(now)) == Err::<ClaimsView, Seq<char>>(
            "expired"@,
        ),
{
}

} // verus!
