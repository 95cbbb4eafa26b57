//! Percent-encoding, and the query strings that carry it.

use vstd::prelude::*;
use vstd::string::*;
use vstd::utf8::*;

use crate::numbers::{hex_digit, hex_pair, hex_value, parse_hex_pair, to_hex_digit};
use crate::outside::{is_held, lossy_text, stray, stray_among, utf8_lossy};
use crate::text::{
    after, before, chars_of, cut_at, lemma_cut, lemma_cut_within, same_text, split_once,
    text_between,
};

verus! {

/// The bytes that stand for themselves: letters, digits and `-._~`.
pub open spec fn is_unreserved(b: u8) -> bool {
    ||| 0x41 <= b <= 0x5a
    ||| 0x61 <= b <= 0x7a
    ||| 0x30 <= b <= 0x39
    ||| b == 0x2d
    ||| b == 0x5f
    ||| b == 0x2e
    ||| b == 0x7e
}

/// How one byte is written: as itself, or as `%` and its two hexadecimal digits.
pub open spec fn percent_byte(b: u8) -> Seq<char> {
    if is_unreserved(b) {
        seq![b as char]
    } else {
        seq!['%', hex_digit(b as int / 16), hex_digit(b as int % 16)]
    }
}

/// How bytes are written.
pub open spec fn percent_bytes(bytes: Seq<u8>) -> Seq<char>
    decreases bytes.len(),
{
    if bytes.len() == 0 {
        Seq::empty()
    } else {
        percent_byte(bytes[0]) + percent_bytes(bytes.drop_first())
    }
}

/// How text is written: each byte of its UTF-8 form in turn.
pub open spec fn percent_encoded(s: Seq<char>) -> Seq<char> {
    percent_bytes(encode_utf8(s))
}

/// What written bytes stand for. A `%` that no byte in hexadecimal follows stands for itself, and
/// a `+` for a space.
pub open spec fn percent_plain(bytes: Seq<u8>) -> Seq<u8>
    decreases bytes.len(),
{
    if bytes.len() == 0 {
        Seq::empty()
    } else if bytes[0] == 0x25 && bytes.len() > 2 && hex_pair(bytes[1], bytes[2]) is Some {
        seq![hex_pair(bytes[1], bytes[2])->0] + percent_plain(bytes.skip(3))
    } else {
        seq![
            if bytes[0] == 0x2b {
                0x20u8
            } else {
                bytes[0]
            },
        ] + percent_plain(bytes.skip(1))
    }
}

/// The text that bytes encode, with replacements where they are not UTF-8.
pub open spec fn text_from_utf8(bytes: Seq<u8>) -> Seq<char> {
    if valid_utf8(bytes) {
        decode_utf8(bytes)
    } else {
        lossy_text(bytes)
    }
}

/// What written text stands for.
pub open spec fn percent_decoded(s: Seq<char>) -> Seq<char> {
    text_from_utf8(percent_plain(encode_utf8(s)))
}

/// A query string without the question mark that it may start with.
pub open spec fn without_mark(query: Seq<char>) -> Seq<char> {
    if query.len() > 0 && query[0] == '?' {
        query.drop_first()
    } else {
        query
    }
}

/// The value that goes with `key` in `pairs`, as it is written there: that of the first of the
/// pairs, parted by `&`, whose part before the first `=` is `key`.
pub open spec fn written_value(pairs: Seq<char>, key: Seq<char>) -> Option<Seq<char>>
    decreases pairs.len(),
{
    let pair = before(pairs, '&');
    if before(pair, '=') == key {
        Some(after(pair, '='))
    } else if cut_at(pairs, '&') < pairs.len() {
        written_value(after(pairs, '&'), key)
    } else {
        None
    }
}

/// The value that the query string `query` gives to `key`.
pub open spec fn query_text(query: Seq<char>, key: Seq<char>) -> Option<Seq<char>> {
    match written_value(without_mark(query), key) {
        Some(v) => Some(percent_decoded(v)),
        None => None,
    }
}

/// Writes `s` for use inside a query string.
pub fn percent_encode(s: &str) -> (r: String)
    ensures
        r@ == percent_encoded(s@),
{
    let bytes = s.as_bytes();
    let mut out: String = String::new();
    let mut i: usize = 0;
    proof {
        assert(bytes@.skip(0) =~= bytes@);
        assert(out@ + percent_bytes(bytes@) =~= percent_bytes(bytes@));
    }
    while i < bytes.len()
        invariant
            i <= bytes@.len(),
            percent_bytes(bytes@) == out@ + percent_bytes(bytes@.skip(i as int)),
        decreases bytes@.len() - i,
    {
        let b: u8 = bytes[i];
        let ghost done = out@;
        if (0x41 <= b && b <= 0x5a) || (0x61 <= b && b <= 0x7a) || (0x30 <= b && b <= 0x39) || b
            == 0x2d || b == 0x5f || b == 0x2e || b == 0x7e {
            out.push(b as char);
        } else {
            out.push('%');
            out.push(to_hex_digit(b / 16));
            out.push(to_hex_digit(b % 16));
        }
        proof {
            assert(out@ =~= done + percent_byte(b));
            assert(bytes@.skip(i as int).drop_first() =~= bytes@.skip(i + 1));
            assert(done + (percent_byte(b) + percent_bytes(bytes@.skip(i + 1))) =~= out@
                + percent_bytes(bytes@.skip(i + 1)));
        }
        i += 1;
    }
    assert(out@ + percent_bytes(bytes@.skip(i as int)) =~= out@);
    out
}

/// What the written bytes stand for.
pub fn percent_decode_bytes(bytes: &[u8]) -> (r: Vec<u8>)
    ensures
        r@ == percent_plain(bytes@),
{
    let mut out: Vec<u8> = Vec::new();
    let mut i: usize = 0;
    let n: usize = bytes.len();
    proof {
        assert(bytes@.skip(0) =~= bytes@);
        assert(out@ + percent_plain(bytes@) =~= percent_plain(bytes@));
    }
    while i < n
        invariant
            i <= n,
            n == bytes@.len(),
            percent_plain(bytes@) == out@ + percent_plain(bytes@.skip(i as int)),
        decreases n - i,
    {
        let ghost done = out@;
        let ghost rest = bytes@.skip(i as int);
        let b: u8 = bytes[i];
        let escaped: Option<u8> = if b == 0x25 && n - i > 2 {
            parse_hex_pair(bytes[i + 1], bytes[i + 2])
        } else {
            None
        };
        if let Some(v) = escaped {
            out.push(v);
            proof {
                assert(rest.skip(3) =~= bytes@.skip(i + 3));
                assert(done + (seq![v] + percent_plain(rest.skip(3))) =~= out@ + percent_plain(
                    rest.skip(3),
                ));
            }
            i += 3;
        } else {
            let v: u8 = if b == 0x2b {
                0x20
            } else {
                b
            };
            out.push(v);
            proof {
                assert(rest.skip(1) =~= bytes@.skip(i + 1));
                assert(done + (seq![v] + percent_plain(rest.skip(1))) =~= out@ + percent_plain(
                    rest.skip(1),
                ));
            }
            i += 1;
        }
    }
    assert(out@ + percent_plain(bytes@.skip(i as int)) =~= out@);
    out
}

/// What the written text stands for. It takes no more bytes than the text, also where bytes that are
/// not UTF-8 are replaced.
pub fn percent_decode(s: &str) -> (r: String)
    ensures
        r@ == percent_decoded(s@),
        encode_utf8(r@).len() <= encode_utf8(s@).len(),
{
    let plain: Vec<u8> = percent_decode_bytes(s.as_bytes());
    proof {
        law_percent_decode_does_not_grow(s@);
    }
    utf8_lossy(plain.as_slice())
}

/// A query string without the question mark that it may start with.
fn drop_mark(query: &str) -> (r: String)
    ensures
        r@ == without_mark(query@),
{
    let cs: Vec<char> = chars_of(query);
    if cs.len() > 0 && cs[0] == '?' {
        assert(cs@.subrange(1, cs@.len() as int) =~= query@.drop_first());
        text_between(cs.as_slice(), 1, cs.len())
    } else {
        query.to_string()
    }
}

/// The value that the query string `query` gives to `key`. The question mark that may stand before
/// the pairs is no part of them.
pub fn query_param(query: &str, key: &str) -> (r: Option<String>)
    ensures
        match r {
            Some(v) => query_text(query@, key@) == Some(v@),
            None => query_text(query@, key@) is None,
        },
{
    let mut rest: String = drop_mark(query);
    loop
        invariant
            written_value(without_mark(query@), key@) == written_value(rest@, key@),
        decreases rest@.len(),
    {
        let (pair, more) = split_once(rest.as_str(), '&');
        let (k, v) = split_once(pair.as_str(), '=');
        if same_text(k.as_str(), key) {
            return Some(percent_decode(v.as_str()));
        }
        if pair.as_str().unicode_len() == rest.as_str().unicode_len() {
            proof {
                lemma_cut_within(rest@, '&');
            }
            return None;
        }
        proof {
            lemma_cut_within(rest@, '&');
        }
        rest = more;
    }
}

// ---------------------------------------------------------------------------------------------
// Laws
// ---------------------------------------------------------------------------------------------

/// The ASCII bytes of ASCII text.
spec fn ascii_bytes(s: Seq<char>) -> Seq<u8> {
    s.map_values(|c: char| c as u8)
}

/// Whether `c` is a character that stands for itself.
pub open spec fn is_unreserved_char(c: char) -> bool {
    ||| 'A' <= c <= 'Z'
    ||| 'a' <= c <= 'z'
    ||| '0' <= c <= '9'
    ||| c == '-'
    ||| c == '_'
    ||| c == '.'
    ||| c == '~'
}

/// Whether `c` occurs in percent-encoded text: a character that stands for itself, or `%`.
pub open spec fn is_percent_char(c: char) -> bool {
    c == '%' || is_unreserved_char(c)
}

/// Text is read back from its percent-encoding.
pub proof fn law_percent_round_trip(s: Seq<char>)
    ensures
        percent_decoded(percent_encoded(s)) == s,
{
    let bytes = encode_utf8(s);
    lemma_percent_chars(bytes);
    lemma_percent_plain(bytes);
    is_ascii_chars_encode_utf8(percent_encoded(s));
    assert(encode_utf8(percent_encoded(s)) =~= ascii_bytes(percent_encoded(s)));
    encode_utf8_valid_utf8(s);
    encode_utf8_decode_utf8(s);
}

/// Percent-encoded text holds nothing but unreserved characters and `%`; so none of the
/// characters that a query string gives a meaning to.
pub proof fn law_percent_alphabet(s: Seq<char>)
    ensures
        forall|i: int|
            0 <= i < percent_encoded(s).len() ==> is_percent_char(#[trigger] percent_encoded(s)[i]),
{
    lemma_percent_chars(encode_utf8(s));
}

/// Text that is all unreserved characters is its own percent-encoding.
pub proof fn law_percent_leaves_unreserved(s: Seq<char>)
    requires
        forall|i: int| 0 <= i < s.len() ==> is_unreserved_char(#[trigger] s[i]),
    ensures
        percent_encoded(s) == s,
{
    assert forall|i: int| 0 <= i < s.len() implies '\0' <= #[trigger] s[i] <= '\u{7f}' by {
        assert(is_unreserved_char(s[i]));
    }
    is_ascii_chars_encode_utf8(s);
    assert forall|i: int| 0 <= i < encode_utf8(s).len() implies is_unreserved(
        #[trigger] encode_utf8(s)[i],
    ) by {
        assert(is_unreserved_char(s[i]));
    }
    lemma_unreserved_bytes(encode_utf8(s));
    assert forall|i: int| 0 <= i < s.len() implies #[trigger] percent_encoded(s)[i] == s[i] by {
        assert(is_unreserved_char(s[i]));
        assert(encode_utf8(s)[i] == s[i] as u8);
    }
    assert(percent_encoded(s) =~= s);
}

/// Two texts with the same percent-encoding are the same.
pub proof fn law_percent_injective(a: Seq<char>, b: Seq<char>)
    requires
        percent_encoded(a) == percent_encoded(b),
    ensures
        a == b,
{
    law_percent_round_trip(a);
    law_percent_round_trip(b);
}

proof fn lemma_percent_chars(bytes: Seq<u8>)
    ensures
        forall|i: int|
            0 <= i < percent_bytes(bytes).len() ==> is_percent_char(
                #[trigger] percent_bytes(bytes)[i],
            ),
        is_ascii_chars(percent_bytes(bytes)),
    decreases bytes.len(),
{
    if bytes.len() > 0 {
        lemma_percent_chars(bytes.drop_first());
        let b = bytes[0];
        let head = percent_byte(b);
        let tail = percent_bytes(bytes.drop_first());
        assert forall|i: int| 0 <= i < percent_bytes(bytes).len() implies is_percent_char(
            #[trigger] percent_bytes(bytes)[i],
        ) by {
            if i < head.len() {
                assert(percent_bytes(bytes)[i] == head[i]);
                assert(is_percent_char(head[i]));
            } else {
                assert(percent_bytes(bytes)[i] == tail[i - head.len()]);
            }
        }
    }
}

proof fn lemma_percent_plain(bytes: Seq<u8>)
    ensures
        percent_plain(ascii_bytes(percent_bytes(bytes))) == bytes,
    decreases bytes.len(),
{
    let w = ascii_bytes(percent_bytes(bytes));
    if bytes.len() == 0 {
        assert(w.len() == 0);
        assert(percent_plain(w) =~= bytes);
    } else {
        let b = bytes[0];
        let rest = bytes.drop_first();
        lemma_percent_plain(rest);
        if is_unreserved(b) {
            assert(w[0] == b);
            assert(w.skip(1) =~= ascii_bytes(percent_bytes(rest)));
            assert(seq![b] + rest =~= bytes);
        } else {
            assert(w[0] == 0x25);
            assert(w[1] == hex_digit(b as int / 16) as u8);
            assert(w[2] == hex_digit(b as int % 16) as u8);
            lemma_hex_digit(b as int / 16);
            lemma_hex_digit(b as int % 16);
            assert(hex_pair(w[1], w[2]) == Some(b));
            assert(w.skip(3) =~= ascii_bytes(percent_bytes(rest)));
            assert(seq![b] + rest =~= bytes);
        }
    }
}

proof fn lemma_hex_digit(n: int)
    requires
        0 <= n < 16,
    ensures
        hex_value(hex_digit(n) as u8) == Some(n as u8),
{
}

proof fn lemma_unreserved_bytes(bytes: Seq<u8>)
    requires
        forall|i: int| 0 <= i < bytes.len() ==> is_unreserved(#[trigger] bytes[i]),
    ensures
        percent_bytes(bytes) == bytes.map_values(|b: u8| b as char),
    decreases bytes.len(),
{
    if bytes.len() > 0 {
        assert forall|i: int| 0 <= i < bytes.drop_first().len() implies is_unreserved(
            #[trigger] bytes.drop_first()[i],
        ) by {
            assert(bytes.drop_first()[i] == bytes[i + 1]);
        }
        lemma_unreserved_bytes(bytes.drop_first());
    }
    assert(percent_bytes(bytes) =~= bytes.map_values(|b: u8| b as char));
}

/// A query string that gives each key of `pairs` its value.
pub open spec fn query_string(pairs: Seq<(Seq<char>, Seq<char>)>) -> Seq<char>
    decreases pairs.len(),
{
    if pairs.len() == 0 {
        Seq::empty()
    } else if pairs.len() == 1 {
        pairs[0].0.push('=') + percent_encoded(pairs[0].1)
    } else {
        (pairs[0].0.push('=') + percent_encoded(pairs[0].1)).push('&') + query_string(
            pairs.drop_first(),
        )
    }
}

/// The value that goes with the first occurrence of `key` in `pairs`.
pub open spec fn first_value(
    pairs: Seq<(Seq<char>, Seq<char>)>,
    key: Seq<char>,
) -> Option<Seq<char>>
    decreases pairs.len(),
{
    if pairs.len() == 0 {
        None
    } else if pairs[0].0 == key {
        Some(pairs[0].1)
    } else {
        first_value(pairs.drop_first(), key)
    }
}

/// Every value is read back from a query string that was written with percent-encoded values and
/// with keys that hold neither `&` nor `=`: the first value where a key comes twice, and none for
/// a key that is not there. The question mark before the pairs makes no difference, so the first
/// key starts with none of its own.
pub proof fn law_query_round_trip(pairs: Seq<(Seq<char>, Seq<char>)>, key: Seq<char>)
    requires
        forall|i: int|
            #![trigger pairs[i]]
            0 <= i < pairs.len() ==> !pairs[i].0.contains('&') && !pairs[i].0.contains('='),
        pairs.len() > 0,
        !(pairs[0].0.len() > 0 && pairs[0].0[0] == '?'),
    ensures
        query_text(query_string(pairs), key) == first_value(pairs, key),
        query_text(seq!['?'] + query_string(pairs), key) == first_value(pairs, key),
{
    let query = query_string(pairs);
    let k = pairs[0].0;
    assert(query[0] == if k.len() > 0 {
        k[0]
    } else {
        '='
    });
    assert(without_mark(query) == query);
    assert((seq!['?'] + query).drop_first() =~= query);
    lemma_written_value(pairs, key);
    if first_value(pairs, key) is Some {
        law_percent_round_trip(first_value(pairs, key)->0);
    }
}

/// Every value stands in the query string as its percent-encoding.
proof fn lemma_written_value(pairs: Seq<(Seq<char>, Seq<char>)>, key: Seq<char>)
    requires
        forall|i: int|
            #![trigger pairs[i]]
            0 <= i < pairs.len() ==> !pairs[i].0.contains('&') && !pairs[i].0.contains('='),
        pairs.len() > 0,
    ensures
        written_value(query_string(pairs), key) == (match first_value(pairs, key) {
            Some(v) => Some(percent_encoded(v)),
            None => None,
        }),
    decreases pairs.len(),
{
    let k = pairs[0].0;
    let v = percent_encoded(pairs[0].1);
    let pair = k.push('=') + v;
    law_percent_alphabet(pairs[0].1);
    lemma_cut(k, '=', v);
    assert(!pair.contains('&')) by {
        assert forall|i: int| 0 <= i < pair.len() implies pair[i] != '&' by {
            if i < k.len() {
                assert(pair[i] == k[i]);
            } else if i > k.len() {
                assert(pair[i] == v[i - k.len() - 1]);
            }
        }
    }
    let rest = pairs.drop_first();
    lemma_cut(pair, '&', query_string(rest));
    if pairs.len() > 1 {
        assert forall|i: int| #![trigger rest[i]] 0 <= i < rest.len() implies !rest[i].0.contains(
            '&',
        ) && !rest[i].0.contains('=') by {
            assert(rest[i] == pairs[i + 1]);
        }
        lemma_written_value(rest, key);
    } else {
        assert(first_value(rest, key) is None);
    }
}

/// Two query strings in one give a key the value that the first one gives it, or else the one that
/// the second one does. The second one starts with no question mark, which would be part of its
/// first key there.
pub proof fn law_query_joined(p: Seq<char>, q: Seq<char>, key: Seq<char>)
    requires
        !(q.len() > 0 && q[0] == '?'),
    ensures
        query_text(p + "&"@ + q, key) == (match query_text(p, key) {
            Some(v) => Some(v),
            None => query_text(q, key),
        }),
{
    reveal_strlit("&");
    let whole = p + "&"@ + q;
    assert(without_mark(whole) =~= without_mark(p).push('&') + q);
    lemma_written_joined(without_mark(p), q, key);
}

/// Pairs in a row give a key what the first ones give it, or else what the others do.
pub proof fn lemma_written_joined(p: Seq<char>, q: Seq<char>, key: Seq<char>)
    ensures
        written_value(p.push('&') + q, key) == (match written_value(p, key) {
            Some(v) => Some(v),
            None => written_value(q, key),
        }),
    decreases p.len(),
{
    let whole = p.push('&') + q;
    lemma_cut_within(p, '&');
    if cut_at(p, '&') < p.len() {
        let n = cut_at(p, '&') as int;
        let head = p.take(n);
        let rest = p.skip(n + 1);
        lemma_cut_here(p, '&');
        assert(p =~= head.push('&') + rest);
        assert(whole =~= head.push('&') + (rest.push('&') + q));
        lemma_cut(head, '&', rest);
        lemma_cut(head, '&', rest.push('&') + q);
        lemma_written_joined(rest, q, key);
    } else {
        lemma_cut_here(p, '&');
        assert(p.take(p.len() as int) =~= p);
        lemma_cut(p, '&', q);
    }
}

/// A cut lies at the character, and none of it stands before.
proof fn lemma_cut_here(s: Seq<char>, c: char)
    ensures
        cut_at(s, c) < s.len() ==> s[cut_at(s, c) as int] == c,
        !s.take(cut_at(s, c) as int).contains(c),
    decreases s.len(),
{
    lemma_cut_within(s, c);
    if s.len() > 0 && s[0] != c {
        let rest = s.drop_first();
        lemma_cut_here(rest, c);
        lemma_cut_within(rest, c);
        let head = s.take(cut_at(s, c) as int);
        assert forall|i: int| 0 <= i < head.len() implies head[i] != c by {
            if i > 0 {
                let inner = rest.take(cut_at(rest, c) as int);
                assert(head[i] == inner[i - 1]);
                assert(inner.contains(inner[i - 1]));
            }
        }
    }
}

/// Text with a space for each plus sign.
pub open spec fn plus_to_space(s: Seq<char>) -> Seq<char> {
    s.map_values(
        |c: char|
            if c == '+' {
                ' '
            } else {
                c
            },
    )
}

/// Decoding changes only what is written with `%` and `+`: text with neither stays as it is, and
/// text without `%` has a space for each plus sign and keeps its length.
pub proof fn law_percent_decode_plain(s: Seq<char>)
    ensures
        !s.contains('%') ==> percent_decoded(s) == plus_to_space(s) && encode_utf8(
            percent_decoded(s),
        ).len() == encode_utf8(s).len(),
        !s.contains('%') && !s.contains('+') ==> percent_decoded(s) == s,
{
    if !s.contains('%') {
        let bytes = encode_utf8(s);
        let spaced = plus_to_space(s);
        lemma_plus_bytes(s);
        lemma_no_percent(bytes);
        encode_utf8_valid_utf8(spaced);
        encode_utf8_decode_utf8(spaced);
        if !s.contains('+') {
            assert forall|i: int| 0 <= i < s.len() implies spaced[i] == s[i] by {
                assert(s.contains(s[i]));
            }
            assert(spaced =~= s);
        }
    }
}

/// Decoding never makes more bytes than there were, not even with two bytes more for each one that
/// is part of no valid UTF-8, which is what replacing such a byte adds.
pub proof fn law_percent_decode_does_not_grow(s: Seq<char>)
    ensures
        percent_plain(encode_utf8(s)).len() + 2 * stray(percent_plain(encode_utf8(s)))
            <= encode_utf8(s).len(),
    decreases s.len(),
{
    let bytes = encode_utf8(s);
    let plain = percent_plain(bytes);
    if s.len() == 0 {
        assert(plain.len() == 0);
    } else {
        let c = s[0];
        let rest = s.drop_first();
        let head = encode_scalar(c as u32);
        lemma_scalar_bytes(c);
        lemma_scalar_len(c);
        assert(bytes.skip(head.len() as int) =~= encode_utf8(rest));
        if bytes[0] == 0x25 && bytes.len() > 2 && hex_pair(bytes[1], bytes[2]) is Some {
            lemma_first_is_ascii(s);
            lemma_first_is_ascii(rest);
            lemma_first_is_ascii(rest.drop_first());
            let more = rest.drop_first().drop_first();
            assert(bytes.skip(3) =~= encode_utf8(more));
            law_percent_decode_does_not_grow(more);
            let v = seq![hex_pair(bytes[1], bytes[2])->0];
            lemma_stray_sum(v, percent_plain(encode_utf8(more)));
            lemma_stray_bound(v, 1);
        } else {
            law_percent_decode_does_not_grow(rest);
            lemma_plain_scalar(c, encode_utf8(rest));
            let kept = if c == '+' {
                seq![0x20u8]
            } else {
                head
            };
            let plain_rest = percent_plain(encode_utf8(rest));
            assert(bytes == head + encode_utf8(rest));
            assert(valid_utf8(kept)) by {
                if c == '+' {
                    encode_utf8_valid_utf8(seq![' ']);
                    lemma_one_char(' ');
                    lemma_scalar_bytes(' ');
                    assert(kept =~= encode_utf8(seq![' ']));
                } else {
                    encode_utf8_valid_utf8(seq![c]);
                    lemma_one_char(c);
                }
            }
            assert(plain == kept + plain_rest);
            lemma_stray_sum(kept, plain_rest);
            lemma_valid_has_no_stray(kept, kept.len() as int);
        }
    }
}

/// The bytes of a single character.
pub proof fn lemma_one_char(c: char)
    ensures
        encode_utf8(seq![c]) == encode_scalar(c as u32),
{
    assert(seq![c].drop_first() =~= Seq::<char>::empty());
    assert(encode_utf8(Seq::<char>::empty()) =~= Seq::<u8>::empty());
    assert(encode_scalar(c as u32) + Seq::<u8>::empty() =~= encode_scalar(c as u32));
}

/// A character is written with one to four bytes.
proof fn lemma_scalar_len(c: char)
    ensures
        1 <= encode_scalar(c as u32).len() <= 4,
{
}

/// Text whose first byte is ASCII starts with that byte's character alone.
proof fn lemma_first_is_ascii(s: Seq<char>)
    requires
        s.len() > 0 ==> encode_utf8(s)[0] < 0x80,
        encode_utf8(s).len() > 0,
    ensures
        s.len() > 0,
        encode_utf8(s) == seq![encode_utf8(s)[0]] + encode_utf8(s.drop_first()),
        encode_utf8(s).skip(1) == encode_utf8(s.drop_first()),
{
    let head = encode_scalar(s[0] as u32);
    lemma_scalar_len(s[0]);
    lemma_scalar_bytes(s[0]);
    assert(encode_utf8(s)[0] == head[0]);
    lemma_low_byte(s[0]);
    assert(head.len() == 1);
    assert(encode_utf8(s) =~= seq![encode_utf8(s)[0]] + encode_utf8(s.drop_first()));
    assert(encode_utf8(s).skip(1) =~= encode_utf8(s.drop_first()));
}

/// A character whose first byte is ASCII has no other.
proof fn lemma_low_byte(c: char)
    requires
        encode_scalar(c as u32)[0] < 0x80,
    ensures
        encode_scalar(c as u32).len() == 1,
{
    lemma_scalar_len(c);
    lemma_scalar_bytes(c);
}

/// A character that is no written byte stands for itself, or for a space where it is a plus sign.
proof fn lemma_plain_scalar(c: char, rest: Seq<u8>)
    requires
        ({
            let bytes = encode_scalar(c as u32) + rest;
            !(bytes[0] == 0x25 && bytes.len() > 2 && hex_pair(bytes[1], bytes[2]) is Some)
        }),
    ensures
        percent_plain(encode_scalar(c as u32) + rest) == (if c == '+' {
            seq![0x20u8]
        } else {
            encode_scalar(c as u32)
        }) + percent_plain(rest),
{
    let head = encode_scalar(c as u32);
    lemma_scalar_bytes(c);
    lemma_scalar_len(c);
    if head.len() == 1 {
        lemma_lone_byte(c);
        assert((head + rest).skip(1) =~= rest);
        assert((head + rest)[0] == c as u8);
        if c != '+' {
            assert(head =~= seq![c as u8]);
        }
    } else {
        lemma_wide(c);
        lemma_high_bytes(head, rest);
    }
}

/// One byte is written for ASCII alone.
proof fn lemma_lone_byte(c: char)
    requires
        encode_scalar(c as u32).len() == 1,
    ensures
        c as u32 <= 0x7f,
        encode_scalar(c as u32) == seq![c as u8],
        (c as u8 == 0x2b) == (c == '+'),
{
    lemma_scalar_bytes(c);
}

/// More than one byte is written for what is not ASCII, so all of them are past it.
proof fn lemma_wide(c: char)
    requires
        encode_scalar(c as u32).len() > 1,
    ensures
        c != '+',
        forall|i: int|
            0 <= i < encode_scalar(c as u32).len() ==> #[trigger] encode_scalar(c as u32)[i] >= 0x80,
{
    lemma_scalar_bytes(c);
}

/// Bytes past ASCII stand for themselves.
proof fn lemma_high_bytes(head: Seq<u8>, rest: Seq<u8>)
    requires
        forall|i: int| 0 <= i < head.len() ==> #[trigger] head[i] >= 0x80,
    ensures
        percent_plain(head + rest) == head + percent_plain(rest),
    decreases head.len(),
{
    if head.len() == 0 {
        assert(head + rest =~= rest);
        assert(head + percent_plain(rest) =~= percent_plain(rest));
    } else {
        let tail = head.drop_first();
        assert forall|i: int| 0 <= i < tail.len() implies #[trigger] tail[i] >= 0x80 by {
            assert(tail[i] == head[i + 1]);
        }
        lemma_high_bytes(tail, rest);
        assert((head + rest).skip(1) =~= tail + rest);
        assert((head + rest)[0] == head[0]);
        assert(seq![head[0]] + (tail + percent_plain(rest)) =~= head + percent_plain(rest));
    }
}

/// What is part of valid UTF-8 stays so with more bytes around it.
proof fn lemma_held_in_sum(x: Seq<u8>, y: Seq<u8>, i: int)
    ensures
        is_held(x, i) ==> is_held(x + y, i),
        is_held(y, i) ==> is_held(x + y, i + x.len()),
{
    if is_held(x, i) {
        let (a, b) = choose|a: int, b: int|
            0 <= a <= i < b <= x.len() && valid_utf8(#[trigger] x.subrange(a, b));
        assert((x + y).subrange(a, b) =~= x.subrange(a, b));
    }
    if is_held(y, i) {
        let (a, b) = choose|a: int, b: int|
            0 <= a <= i < b <= y.len() && valid_utf8(#[trigger] y.subrange(a, b));
        assert((x + y).subrange(a + x.len(), b + x.len()) =~= y.subrange(a, b));
    }
}

/// Two runs of bytes have no more strays together than apart.
proof fn lemma_stray_sum(x: Seq<u8>, y: Seq<u8>)
    ensures
        stray(x + y) <= stray(x) + stray(y),
{
    lemma_stray_first(x, y, x.len() as int);
    lemma_stray_second(x, y, y.len() as int);
}

proof fn lemma_stray_first(x: Seq<u8>, y: Seq<u8>, n: int)
    requires
        0 <= n <= x.len(),
    ensures
        stray_among(x + y, n) <= stray_among(x, n),
    decreases n,
{
    if n > 0 {
        lemma_stray_first(x, y, n - 1);
        lemma_held_in_sum(x, y, n - 1);
    }
}

proof fn lemma_stray_second(x: Seq<u8>, y: Seq<u8>, n: int)
    requires
        0 <= n <= y.len(),
    ensures
        stray_among(x + y, x.len() + n) <= stray(x) + stray_among(y, n),
    decreases n,
{
    if n > 0 {
        lemma_stray_second(x, y, n - 1);
        lemma_held_in_sum(x, y, n - 1);
    } else {
        lemma_stray_first(x, y, x.len() as int);
    }
}

/// No more bytes are strays than there are.
proof fn lemma_stray_bound(bytes: Seq<u8>, n: int)
    requires
        0 <= n,
    ensures
        stray_among(bytes, n) <= n,
    decreases n,
{
    if n > 0 {
        lemma_stray_bound(bytes, n - 1);
    }
}

/// Valid UTF-8 has no strays.
proof fn lemma_valid_has_no_stray(bytes: Seq<u8>, n: int)
    requires
        valid_utf8(bytes),
        0 <= n <= bytes.len(),
    ensures
        stray_among(bytes, n) == 0,
    decreases n,
{
    if n > 0 {
        lemma_valid_has_no_stray(bytes, n - 1);
        assert(bytes.subrange(0, bytes.len() as int) =~= bytes);
        assert(is_held(bytes, n - 1));
    }
}

/// A space for the byte of a plus sign; any other byte as it is.
spec fn plus_byte(b: u8) -> u8 {
    if b == 0x2b {
        0x20
    } else {
        b
    }
}

proof fn lemma_no_percent(bytes: Seq<u8>)
    requires
        forall|i: int| 0 <= i < bytes.len() ==> #[trigger] bytes[i] != 0x25,
    ensures
        percent_plain(bytes) == bytes.map_values(|b: u8| plus_byte(b)),
    decreases bytes.len(),
{
    if bytes.len() > 0 {
        let rest = bytes.skip(1);
        assert forall|i: int| 0 <= i < rest.len() implies #[trigger] rest[i] != 0x25 by {
            assert(rest[i] == bytes[i + 1]);
        }
        lemma_no_percent(rest);
    }
    assert(percent_plain(bytes) =~= bytes.map_values(|b: u8| plus_byte(b)));
}

/// One byte is written for an ASCII character, and bytes past ASCII for any other.
pub proof fn lemma_scalar_bytes(c: char)
    ensures
        c as u32 <= 0x7f ==> encode_scalar(c as u32) == seq![c as u8],
        c as u32 > 0x7f ==> forall|i: int|
            0 <= i < encode_scalar(c as u32).len() ==> #[trigger] encode_scalar(c as u32)[i] >= 0x80,
{
    let v = c as u32;
    assert(v <= 0x7f ==> leading_byte_width_1(v) == v as u8) by (bit_vector);
    assert(leading_byte_width_2(v) >= 0x80) by (bit_vector);
    assert(leading_byte_width_3(v) >= 0x80) by (bit_vector);
    assert(leading_byte_width_4(v) >= 0x80) by (bit_vector);
    assert(last_continuation_byte(v) >= 0x80) by (bit_vector);
    assert(second_last_continuation_byte(v) >= 0x80) by (bit_vector);
    assert(third_last_continuation_byte(v) >= 0x80) by (bit_vector);
}

/// The bytes of one character other than `%`: none is that of `%`, and a plus sign alone has its.
proof fn lemma_plus_scalar(c: char, d: char)
    requires
        c != '%',
        d == if c == '+' {
            ' '
        } else {
            c
        },
    ensures
        encode_scalar(d as u32) == encode_scalar(c as u32).map_values(|b: u8| plus_byte(b)),
        forall|i: int|
            0 <= i < encode_scalar(c as u32).len() ==> #[trigger] encode_scalar(c as u32)[i] != 0x25,
{
    lemma_scalar_bytes(c);
    lemma_scalar_bytes(d);
    assert(encode_scalar(d as u32) =~= encode_scalar(c as u32).map_values(|b: u8| plus_byte(b)));
}

proof fn lemma_plus_bytes(s: Seq<char>)
    requires
        !s.contains('%'),
    ensures
        encode_utf8(plus_to_space(s)) == encode_utf8(s).map_values(|b: u8| plus_byte(b)),
        forall|i: int| 0 <= i < encode_utf8(s).len() ==> #[trigger] encode_utf8(s)[i] != 0x25,
    decreases s.len(),
{
    let bytes = encode_utf8(s);
    let spaced = plus_to_space(s);
    if s.len() > 0 {
        let rest = s.drop_first();
        let c = s[0];
        assert(s.contains(c));
        assert forall|i: int| 0 <= i < rest.len() implies rest[i] != '%' by {
            assert(s.contains(s[i + 1]));
        }
        lemma_plus_bytes(rest);
        lemma_plus_scalar(c, spaced[0]);
        assert(spaced.drop_first() =~= plus_to_space(rest));
        let head = encode_scalar(c as u32);
        assert forall|i: int| 0 <= i < bytes.len() implies #[trigger] bytes[i] != 0x25 by {
            if i < head.len() {
                assert(bytes[i] == head[i]);
            } else {
                assert(bytes[i] == encode_utf8(rest)[i - head.len()]);
            }
        }
    }
    assert(encode_utf8(spaced) =~= bytes.map_values(|b: u8| plus_byte(b)));
}

} // verus!
