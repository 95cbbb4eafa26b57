//! Laws of percent-encoding and query strings.

use vstd::prelude::*;
use vstd::utf8::*;

use crate::laws::text::lemma_split;
use crate::numbers::parse_hex_pair;
use crate::outside::lossy_text;
use crate::percent::{
    law_percent_round_trip, lemma_one_char, lemma_scalar_bytes, lemma_written_joined, percent_byte,
    percent_bytes, percent_decode, percent_decode_bytes, percent_encode, query_param, without_mark,
};
use crate::text::{after, lemma_cut};

verus! {

/// A digit of base sixteen, in capitals.
pub open spec fn capital(n: int) -> char {
    if n < 10 {
        ('0' as int + n) as char
    } else {
        ('A' as int + n - 10) as char
    }
}

/// Text is encoded part by part.
pub proof fn law_encoding_by_parts(
    s: &str,
    a: &str,
    b: &str,
    r: String,
    ra: String,
    rb: String,
)
    requires
        s@ == a@ + b@,
        call_ensures(percent_encode, (s,), r),
        call_ensures(percent_encode, (a,), ra),
        call_ensures(percent_encode, (b,), rb),
    ensures
        r@ == ra@ + rb@,
{
    lemma_utf8_sum(a@, b@);
    lemma_bytes_sum(encode_utf8(a@), encode_utf8(b@));
}

/// A character is encoded as itself where it is a letter, a digit or one of `-_.~`; any other one
/// as `%` and two digits of base sixteen, in capitals, for each byte of its UTF-8 form.
pub proof fn law_encoding_of_a_character(s: &str, c: char, r: String, i: int)
    requires
        s@ == seq![c],
        call_ensures(percent_encode, (s,), r),
    ensures
        ({
            let kept = 'A' <= c <= 'Z' || 'a' <= c <= 'z' || '0' <= c <= '9' || c == '-' || c == '_'
                || c == '.' || c == '~';
            let bytes = encode_utf8(seq![c]);
            &&& kept ==> r@ == seq![c]
            &&& !kept ==> r@.len() == 3 * bytes.len()
            &&& !kept && 0 <= i < bytes.len() ==> r@[3 * i] == '%' && r@[3 * i + 1] == capital(
                bytes[i] as int / 16,
            ) && r@[3 * i + 2] == capital(bytes[i] as int % 16)
        }),
{
    let bytes = encode_utf8(seq![c]);
    lemma_char_bytes(c);
    if c as u32 <= 0x7f {
        assert(bytes.drop_first() =~= Seq::<u8>::empty());
        reveal_with_fuel(percent_bytes, 2);
        assert(percent_bytes(bytes) =~= percent_byte(bytes[0]));
    } else {
        lemma_reserved(bytes, i);
    }
}

/// The bytes of one character: the character's own where it is ASCII, and bytes past ASCII else.
proof fn lemma_char_bytes(c: char)
    ensures
        c as u32 <= 0x7f ==> encode_utf8(seq![c]) == seq![c as u8],
        c as u32 > 0x7f ==> forall|i: int|
            0 <= i < encode_utf8(seq![c]).len() ==> #[trigger] encode_utf8(seq![c])[i] >= 0x80,
{
    lemma_scalar_bytes(c);
    lemma_one_char(c);
}

/// Bytes that do not stand for themselves are three characters each.
proof fn lemma_reserved(bytes: Seq<u8>, i: int)
    requires
        forall|k: int| 0 <= k < bytes.len() ==> #[trigger] bytes[k] >= 0x80,
    ensures
        percent_bytes(bytes).len() == 3 * bytes.len(),
        0 <= i < bytes.len() ==> percent_bytes(bytes)[3 * i] == '%' && percent_bytes(bytes)[3 * i
            + 1] == capital(bytes[i] as int / 16) && percent_bytes(bytes)[3 * i + 2] == capital(
            bytes[i] as int % 16,
        ),
    decreases bytes.len(),
{
    if bytes.len() > 0 {
        let rest = bytes.drop_first();
        assert forall|k: int| 0 <= k < rest.len() implies #[trigger] rest[k] >= 0x80 by {
            assert(rest[k] == bytes[k + 1]);
        }
        lemma_reserved(rest, i - 1);
        assert(bytes[0] >= 0x80);
        if i > 0 && i < bytes.len() {
            assert(rest[i - 1] == bytes[i]);
            assert(percent_bytes(bytes)[3 * i] == percent_bytes(rest)[3 * (i - 1)]);
            assert(percent_bytes(bytes)[3 * i + 1] == percent_bytes(rest)[3 * (i - 1) + 1]);
            assert(percent_bytes(bytes)[3 * i + 2] == percent_bytes(rest)[3 * (i - 1) + 2]);
        }
    }
}

proof fn lemma_bytes_sum(a: Seq<u8>, b: Seq<u8>)
    ensures
        percent_bytes(a + b) == percent_bytes(a) + percent_bytes(b),
    decreases a.len(),
{
    if a.len() == 0 {
        assert(a + b =~= b);
        assert(percent_bytes(a) + percent_bytes(b) =~= percent_bytes(b));
    } else {
        lemma_bytes_sum(a.drop_first(), b);
        assert((a + b).drop_first() =~= a.drop_first() + b);
        assert((a + b)[0] == a[0]);
        assert(percent_bytes(a + b) =~= percent_bytes(a) + percent_bytes(b));
    }
}

proof fn lemma_utf8_sum(a: Seq<char>, b: Seq<char>)
    ensures
        encode_utf8(a + b) == encode_utf8(a) + encode_utf8(b),
    decreases a.len(),
{
    if a.len() == 0 {
        assert(a + b =~= b);
        assert(encode_utf8(a) + encode_utf8(b) =~= encode_utf8(b));
    } else {
        lemma_utf8_sum(a.drop_first(), b);
        assert((a + b).drop_first() =~= a.drop_first() + b);
        assert((a + b)[0] == a[0]);
        assert(encode_utf8(a + b) =~= encode_utf8(a) + encode_utf8(b));
    }
}

/// Bytes are decoded from their start: `%` and a pair of digits is one byte, `+` a space, and
/// anything else, a `%` without a pair among it, itself; the rest is decoded on its own.
pub proof fn law_decoding_step(
    bytes: &[u8],
    rest: &[u8],
    after_pair: &[u8],
    r: Vec<u8>,
    rr: Vec<u8>,
    rp: Vec<u8>,
    a: u8,
    b: u8,
    pair: Option<u8>,
)
    requires
        bytes@.len() > 0,
        rest@ == bytes@.skip(1),
        call_ensures(percent_decode_bytes, (bytes,), r),
        call_ensures(percent_decode_bytes, (rest,), rr),
        call_ensures(percent_decode_bytes, (after_pair,), rp),
        call_ensures(parse_hex_pair, (a, b), pair),
    ensures
        bytes@ == seq![0x25u8, a, b] + after_pair@ && pair is Some ==> r@ == seq![pair->0] + rp@,
        bytes@[0] == 0x25u8 && (bytes@.len() <= 2 || bytes@[1] == a && bytes@[2] == b && pair
            is None) ==> r@ == seq![0x25u8] + rr@,
        bytes@[0] == 0x2bu8 ==> r@ == seq![0x20u8] + rr@,
        bytes@[0] != 0x25u8 && bytes@[0] != 0x2bu8 ==> r@ == seq![bytes@[0]] + rr@,
{
    if bytes@ == seq![0x25u8, a, b] + after_pair@ {
        assert(bytes@.skip(3) =~= after_pair@);
        assert(bytes@[0] == 0x25u8 && bytes@[1] == a && bytes@[2] == b);
    }
}

/// Nothing is decoded from nothing.
pub proof fn law_decoding_of_nothing(bytes: &[u8], r: Vec<u8>)
    requires
        bytes@.len() == 0,
        call_ensures(percent_decode_bytes, (bytes,), r),
    ensures
        r@.len() == 0,
{
}

/// The decoded text is the one that the decoded bytes of the text encode.
pub proof fn law_decoded_text(s: &str, bytes: &[u8], r: String, plain: Vec<u8>)
    requires
        bytes@ == encode_utf8(s@),
        call_ensures(percent_decode, (s,), r),
        call_ensures(percent_decode_bytes, (bytes,), plain),
    ensures
        valid_utf8(plain@) ==> encode_utf8(r@) == plain@,
        !valid_utf8(plain@) ==> r@ == lossy_text(plain@),
{
    if valid_utf8(plain@) {
        decode_utf8_encode_utf8(plain@);
    }
}

/// Any text is decoded from its encoding, whole.
pub proof fn law_decoding_undoes_encoding(s: &str, e: &str, encoded: String, decoded: String)
    requires
        e@ == encoded@,
        call_ensures(percent_encode, (s,), encoded),
        call_ensures(percent_decode, (e,), decoded),
    ensures
        decoded@ == s@,
{
    law_percent_round_trip(s@);
}

/// One pair, with one question mark before it or none, gives its own key its decoded value, whole,
/// and no other key anything; a pair without `=` is a key without a value.
pub proof fn law_pair(
    query: &str,
    mark: Seq<char>,
    pair: Seq<char>,
    key: &str,
    k: Seq<char>,
    v: &str,
    r: Option<String>,
    decoded: String,
)
    requires
        query@ == mark + pair,
        mark == seq!['?'] || mark.len() == 0 && !(pair.len() > 0 && pair[0] == '?'),
        !pair.contains('&'),
        !k.contains('='),
        pair == k || pair == k + seq!['='] + v@,
        pair == k ==> v@.len() == 0,
        call_ensures(query_param, (query, key), r),
        call_ensures(percent_decode, (v,), decoded),
    ensures
        k == key@ ==> (r matches Some(value) && value@ == decoded@),
        k != key@ ==> r is None,
{
    assert(without_mark(query@) =~= pair);
    lemma_split(pair, '&');
    if pair == k + seq!['='] + v@ {
        assert(pair =~= k.push('=') + v@);
        lemma_cut(k, '=', v@);
    } else {
        lemma_split(pair, '=');
        assert(after(pair, '=') =~= v@);
    }
}

/// Two query strings in one give a key what the first one gives it, or else what the second one
/// does. A question mark in the middle is part of a key.
pub proof fn law_pairs(
    whole: &str,
    p: &str,
    q: Seq<char>,
    second: &str,
    key: &str,
    r: Option<String>,
    rp: Option<String>,
    rq: Option<String>,
)
    requires
        whole@ == p@ + seq!['&'] + q,
        second@ == seq!['?'] + q || second@ == q && !(q.len() > 0 && q[0] == '?'),
        call_ensures(query_param, (whole, key), r),
        call_ensures(query_param, (p, key), rp),
        call_ensures(query_param, (second, key), rq),
    ensures
        rp matches Some(v) ==> (r matches Some(w) && w@ == v@),
        rp is None ==> match rq {
            Some(v) => r matches Some(w) && w@ == v@,
            None => r is None,
        },
{
    assert(without_mark(whole@) =~= without_mark(p@).push('&') + q);
    assert(without_mark(second@) =~= q);
    lemma_written_joined(without_mark(p@), q, key@);
}

} // verus!
