//! Base64 as the services want it: basic credentials, data URLs and picture uploads.

use vstd::prelude::*;
use vstd::string::*;
use vstd::utf8::*;

use crate::outside::{
    base64_error, base64_fits, base64_symbol, base64_text, byte_or_zero, decode_base64_text,
    encode_base64, sextet,
};
use crate::text::{
    after, cut_at, drop_white_space, is_white_space, lemma_cut, lemma_cut_within, split_once,
    start_trimmed, starts_with, trim_start, without_white_space,
};

verus! {

/// What decoding a base64 text gives: the bytes that it encodes, or the decoder's message.
pub open spec fn base64_bytes(text: Seq<char>) -> Result<Seq<u8>, Seq<char>> {
    if exists|b: Seq<u8>| #[trigger] base64_text(b) == text {
        Ok(choose|b: Seq<u8>| #[trigger] base64_text(b) == text)
    } else {
        Err(base64_error(text))
    }
}

/// The view of what decoding gives.
pub open spec fn decoded_view(r: Result<Vec<u8>, String>) -> Result<Seq<u8>, Seq<char>> {
    match r {
        Ok(bytes) => Ok(bytes@),
        Err(e) => Err(e@),
    }
}

/// A name and a secret as the value of an `Authorization` header.
pub open spec fn basic_credentials(user: Seq<char>, secret: Seq<char>) -> Seq<char> {
    "Basic "@ + base64_text(encode_utf8(user + ":"@ + secret))
}

/// Bytes as a data URL.
pub open spec fn data_url_of(mime: Seq<char>, bytes: Seq<u8>) -> Seq<char> {
    "data:"@ + mime + ";base64,"@ + base64_text(bytes)
}

/// The base64 text in an upload, which is the text itself or a data URL: there it is what follows
/// the first comma. White space does not count.
pub open spec fn upload_text(image: Seq<char>) -> Seq<char> {
    without_white_space(
        if "data:"@.is_prefix_of(trim_start(image)) && cut_at(image, ',') < image.len() {
            after(image, ',')
        } else {
            image
        },
    )
}

/// The bytes that a base64 text encodes.
pub fn decode_base64(text: &str) -> (r: Result<Vec<u8>, String>)
    ensures
        decoded_view(r) == base64_bytes(text@),
{
    let r = decode_base64_text(text);
    proof {
        if r is Ok {
            let bytes = r->Ok_0@;
            let b = choose|b: Seq<u8>| #[trigger] base64_text(b) == text@;
            assert(base64_text(bytes) == text@);
            law_base64_injective(b, bytes);
        }
    }
    r
}

/// The value of an `Authorization` header with basic credentials.
pub fn basic_auth(user: &str, secret: &str) -> (r: String)
    requires
        base64_fits(encode_utf8(user@ + ":"@ + secret@).len()),
    ensures
        r@ == basic_credentials(user@, secret@),
{
    let pair: String = user.to_string().concat(":").concat(secret);
    "Basic ".to_string().concat(encode_base64(pair.as_str().as_bytes()).as_str())
}

/// Whether the base64 text of `len` bytes fits into one allocation.
pub fn can_encode(len: usize) -> (r: bool)
    ensures
        r == base64_fits(len as nat),
{
    let groups: usize = if len % 3 == 0 {
        len / 3
    } else {
        len / 3 + 1
    };
    groups <= isize::MAX as usize / 4
}

/// Bytes as a data URL.
pub fn data_url(mime: &str, bytes: &[u8]) -> (r: String)
    requires
        base64_fits(bytes@.len()),
    ensures
        r@ == data_url_of(mime@, bytes@),
{
    let encoded: String = encode_base64(bytes);
    "data:".to_string().concat(mime).concat(";base64,").concat(encoded.as_str())
}

/// The base64 text in an upload.
pub fn upload_payload(image: &str) -> (r: String)
    ensures
        r@ == upload_text(image@),
{
    let (head, tail) = split_once(image, ',');
    let start: String = start_trimmed(image);
    proof {
        lemma_cut_within(image@, ',');
    }
    if starts_with(start.as_str(), "data:") && head.as_str().unicode_len() < image.unicode_len() {
        drop_white_space(tail.as_str())
    } else {
        drop_white_space(image)
    }
}

// ---------------------------------------------------------------------------------------------
// Laws
// ---------------------------------------------------------------------------------------------

/// Different bytes have different base64 texts.
pub proof fn law_base64_injective(a: Seq<u8>, b: Seq<u8>)
    requires
        base64_text(a) == base64_text(b),
    ensures
        a == b,
{
    let s = base64_text(a);
    let t = base64_text(b);
    if a.len() != b.len() {
        let (short, long) = if a.len() < b.len() {
            (a, b)
        } else {
            (b, a)
        };
        assert(s.len() == t.len());
        // The character after the last six bits of the shorter one: padding there, a symbol here.
        let k = (8 * short.len() + 5) / 6;
        assert(base64_text(short)[k as int] == '=');
        assert(base64_text(long)[k as int] == base64_symbol(sextet(long, k as int)));
        lemma_sextet_range(long, k as int);
        assert(false);
    }
    assert forall|i: int| 0 <= i < a.len() implies a[i] == b[i] by {
        let g = i / 3;
        lemma_group(a, b, g);
    }
    assert(a =~= b);
}

proof fn lemma_sextet_range(bytes: Seq<u8>, k: int)
    requires
        0 <= k,
    ensures
        0 <= sextet(bytes, k) < 64,
{
}

proof fn lemma_group(a: Seq<u8>, b: Seq<u8>, g: int)
    requires
        base64_text(a) == base64_text(b),
        a.len() == b.len(),
        0 <= g,
        3 * g < a.len(),
    ensures
        byte_or_zero(a, 3 * g) == byte_or_zero(b, 3 * g),
        byte_or_zero(a, 3 * g + 1) == byte_or_zero(b, 3 * g + 1),
        byte_or_zero(a, 3 * g + 2) == byte_or_zero(b, 3 * g + 2),
{
    lemma_sextets(a, g);
    lemma_sextets(b, g);
    lemma_same_sextet(a, b, 4 * g);
    lemma_same_sextet(a, b, 4 * g + 1);
    lemma_same_sextet(a, b, 4 * g + 2);
    lemma_same_sextet(a, b, 4 * g + 3);
    lemma_twenty_four_bits(group(a, g), group(b, g));
    lemma_three_bytes(
        byte_or_zero(a, 3 * g),
        byte_or_zero(a, 3 * g + 1),
        byte_or_zero(a, 3 * g + 2),
        byte_or_zero(b, 3 * g),
        byte_or_zero(b, 3 * g + 1),
        byte_or_zero(b, 3 * g + 2),
    );
}

/// The three bytes of a group as one number.
spec fn group(bytes: Seq<u8>, g: int) -> int {
    byte_or_zero(bytes, 3 * g) * 65536 + byte_or_zero(bytes, 3 * g + 1) * 256 + byte_or_zero(
        bytes,
        3 * g + 2,
    )
}

proof fn lemma_sextets(bytes: Seq<u8>, g: int)
    requires
        0 <= g,
    ensures
        sextet(bytes, 4 * g) == group(bytes, g) / 262144,
        sextet(bytes, 4 * g + 1) == group(bytes, g) / 4096 % 64,
        sextet(bytes, 4 * g + 2) == group(bytes, g) / 64 % 64,
        sextet(bytes, 4 * g + 3) == group(bytes, g) % 64,
{
    assert((4 * g) / 4 == g && (4 * g) % 4 == 0);
    assert((4 * g + 1) / 4 == g && (4 * g + 1) % 4 == 1);
    assert((4 * g + 2) / 4 == g && (4 * g + 2) % 4 == 2);
    assert((4 * g + 3) / 4 == g && (4 * g + 3) % 4 == 3);
}

proof fn lemma_same_sextet(a: Seq<u8>, b: Seq<u8>, k: int)
    requires
        base64_text(a) == base64_text(b),
        a.len() == b.len(),
        0 <= k < base64_text(a).len(),
    ensures
        sextet(a, k) == sextet(b, k),
{
    lemma_sextet_range(a, k);
    lemma_sextet_range(b, k);
    if 6 * k < 8 * a.len() {
        assert(base64_text(a)[k] == base64_symbol(sextet(a, k)));
        assert(base64_text(b)[k] == base64_symbol(sextet(b, k)));
    } else {
        lemma_padding(a, k);
        lemma_padding(b, k);
    }
}

/// The six bits of a padding character are zero.
proof fn lemma_padding(bytes: Seq<u8>, k: int)
    requires
        0 <= k,
        6 * k >= 8 * bytes.len(),
    ensures
        sextet(bytes, k) == 0,
{
    let g = k / 4;
    lemma_sextets(bytes, g);
    if k % 4 == 2 {
        assert(byte_or_zero(bytes, 3 * g + 1) == 0);
        assert(byte_or_zero(bytes, 3 * g + 2) == 0);
        assert(k == 4 * g + 2);
    } else if k % 4 == 3 {
        assert(byte_or_zero(bytes, 3 * g + 2) == 0);
        assert(k == 4 * g + 3);
    } else if k % 4 == 1 {
        assert(byte_or_zero(bytes, 3 * g) == 0);
        assert(byte_or_zero(bytes, 3 * g + 1) == 0);
        assert(byte_or_zero(bytes, 3 * g + 2) == 0);
        assert(k == 4 * g + 1);
    } else {
        assert(byte_or_zero(bytes, 3 * g) == 0);
        assert(byte_or_zero(bytes, 3 * g + 1) == 0);
        assert(byte_or_zero(bytes, 3 * g + 2) == 0);
        assert(k == 4 * g);
    }
}

proof fn lemma_twenty_four_bits(x: int, y: int)
    requires
        x / 262144 == y / 262144,
        x / 4096 % 64 == y / 4096 % 64,
        x / 64 % 64 == y / 64 % 64,
        x % 64 == y % 64,
    ensures
        x == y,
{
    assert(x / 4096 / 64 == x / 262144);
    assert(y / 4096 / 64 == y / 262144);
    assert(x / 4096 == y / 4096);
    assert(x / 64 / 64 == x / 4096);
    assert(y / 64 / 64 == y / 4096);
    assert(x / 64 == y / 64);
}

proof fn lemma_three_bytes(x0: int, x1: int, x2: int, y0: int, y1: int, y2: int)
    requires
        0 <= x0 < 256,
        0 <= x1 < 256,
        0 <= x2 < 256,
        0 <= y0 < 256,
        0 <= y1 < 256,
        0 <= y2 < 256,
        x0 * 65536 + x1 * 256 + x2 == y0 * 65536 + y1 * 256 + y2,
    ensures
        x0 == y0,
        x1 == y1,
        x2 == y2,
{
}

/// A base64 text decodes to the bytes that it encodes.
pub proof fn law_base64_round_trip(bytes: Seq<u8>)
    ensures
        base64_bytes(base64_text(bytes)) == Ok::<Seq<u8>, Seq<char>>(bytes),
{
    let b = choose|b: Seq<u8>| #[trigger] base64_text(b) == base64_text(bytes);
    law_base64_injective(b, bytes);
}

/// Bytes that were made a data URL are what an upload of that URL carries. A media type holds no
/// comma.
pub proof fn law_data_url_round_trip(mime: Seq<char>, bytes: Seq<u8>)
    requires
        !mime.contains(','),
    ensures
        base64_bytes(upload_text(data_url_of(mime, bytes))) == Ok::<Seq<u8>, Seq<char>>(bytes),
{
    let url = data_url_of(mime, bytes);
    let body = base64_text(bytes);
    reveal_strlit("data:");
    reveal_strlit(";base64,");
    let head = "data:"@ + mime + ";base64"@;
    reveal_strlit(";base64");
    assert(url =~= head.push(',') + body);
    assert(!head.contains(',')) by {
        assert forall|i: int| 0 <= i < head.len() implies head[i] != ',' by {
            if i < 5 {
            } else if i < 5 + mime.len() {
                assert(head[i] == mime[i - 5]);
            } else {
                assert(head[i] == ";base64"@[i - 5 - mime.len()]);
            }
        }
    }
    lemma_cut(head, ',', body);
    assert(url[0] == 'd');
    assert(trim_start(url) == url);
    assert("data:"@.is_prefix_of(url)) by {
        assert("data:"@ =~= url.subrange(0, 5));
    }
    lemma_base64_has_no_space(bytes);
    lemma_nothing_to_drop(body);
    law_base64_round_trip(bytes);
}

/// A base64 text that stands alone is what an upload of it carries, with any white space in it
/// left out.
pub proof fn law_bare_upload(text: Seq<char>, bytes: Seq<u8>)
    requires
        without_white_space(text) == base64_text(bytes),
    ensures
        base64_bytes(upload_text(text)) == Ok::<Seq<u8>, Seq<char>>(bytes),
{
    if text.contains(',') {
        lemma_only_space_drops(text, ',');
        let body = base64_text(bytes);
        let k = choose|k: int| 0 <= k < body.len() && body[k] == ',';
        lemma_sextet_range(bytes, k);
        assert(false);
    }
    lemma_cut(text, ',', Seq::empty());
    law_base64_round_trip(bytes);
}

/// A character that is no white space stays where white space is left out.
proof fn lemma_only_space_drops(s: Seq<char>, c: char)
    requires
        s.contains(c),
        !is_white_space(c),
    ensures
        without_white_space(s).contains(c),
    decreases s.len(),
{
    let rest = without_white_space(s.drop_last());
    if s.last() == c {
        assert(rest.push(c)[rest.len() as int] == c);
    } else {
        let i = choose|i: int| 0 <= i < s.len() && s[i] == c;
        assert(s.drop_last()[i] == c);
        lemma_only_space_drops(s.drop_last(), c);
        let k = choose|k: int| 0 <= k < rest.len() && rest[k] == c;
        assert(rest.push(s.last())[k] == c);
    }
}

proof fn lemma_base64_has_no_space(bytes: Seq<u8>)
    ensures
        forall|i: int|
            0 <= i < base64_text(bytes).len() ==> !is_white_space(#[trigger] base64_text(bytes)[i]),
{
    assert forall|i: int| 0 <= i < base64_text(bytes).len() implies !is_white_space(
        #[trigger] base64_text(bytes)[i],
    ) by {
        lemma_sextet_range(bytes, i);
    }
}

proof fn lemma_nothing_to_drop(s: Seq<char>)
    requires
        forall|i: int| 0 <= i < s.len() ==> !is_white_space(#[trigger] s[i]),
    ensures
        without_white_space(s) == s,
    decreases s.len(),
{
    if s.len() > 0 {
        assert forall|i: int| 0 <= i < s.drop_last().len() implies !is_white_space(
            #[trigger] s.drop_last()[i],
        ) by {
            assert(s.drop_last()[i] == s[i]);
        }
        lemma_nothing_to_drop(s.drop_last());
        assert(!is_white_space(s[s.len() - 1]));
        assert(s.drop_last().push(s.last()) =~= s);
    } else {
        assert(s =~= Seq::empty());
    }
}

} // verus!
