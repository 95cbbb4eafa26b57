//! Laws of base64 in credentials, data URLs and uploads.

use vstd::prelude::*;
use vstd::utf8::*;

use crate::encoding::{
    basic_auth, can_encode, data_url, decode_base64, law_base64_injective, upload_payload,
};
use crate::laws::text::{all_white, lemma_split, lemma_trim_start, lemma_without_white_space};
use crate::outside::{base64_error, base64_text};
use crate::text::{is_white_space, lemma_cut, trim_start};

verus! {

/// Credentials are both texts in full, with a colon between them, in base64 behind `Basic `.
pub proof fn law_credentials(user: &str, secret: &str, r: String)
    requires
        call_ensures(basic_auth, (user, secret), r),
    ensures
        "Basic "@.is_prefix_of(r@),
        r@.skip("Basic "@.len() as int) == base64_text(encode_utf8(user@ + ":"@ + secret@)),
{
    let tail = base64_text(encode_utf8(user@ + ":"@ + secret@));
    assert(r@.skip("Basic "@.len() as int) =~= tail);
    assert(r@.take("Basic "@.len() as int) =~= "Basic "@);
}

/// Decoding gives the bytes that a text encodes, all of them, and refuses a text that encodes none.
pub proof fn law_decoding(text: &str, bytes: Seq<u8>, r: Result<Vec<u8>, String>)
    requires
        call_ensures(decode_base64, (text,), r),
    ensures
        text@ == base64_text(bytes) ==> (r matches Ok(b) && b@ == bytes),
        r matches Ok(b) ==> text@ == base64_text(b@),
        r matches Err(e) ==> e@ == base64_error(text@),
{
    if text@ == base64_text(bytes) {
        let b = choose|b: Seq<u8>| #[trigger] base64_text(b) == text@;
        law_base64_injective(b, bytes);
    }
}

/// A data URL names its media type and holds all of the bytes.
pub proof fn law_data_url(mime: &str, bytes: &[u8], r: String)
    requires
        call_ensures(data_url, (mime, bytes), r),
    ensures
        r@ == "data:"@ + mime@ + ";base64,"@ + base64_text(bytes@),
{
}

/// Bytes can be encoded where four characters for each three of them fit into an allocation.
pub proof fn law_room(len: usize, r: bool)
    requires
        call_ensures(can_encode, (len,), r),
    ensures
        r <==> (len + 2) / 3 * 4 <= isize::MAX,
{
}

/// An upload carries what follows the first comma of a data URL, and any other text whole; of
/// either every character that is no white space, in its order.
pub proof fn law_upload(image: &str, start: Seq<char>, head: Seq<char>, tail: Seq<char>, r: String)
    requires
        call_ensures(upload_payload, (image,), r),
    ensures
        all_white(start) && image@ == start + ("data:"@ + head) + seq![','] + tail
            && !head.contains(',') ==> r@ == tail.filter(|c: char| !is_white_space(c)),
        !image@.contains(',') ==> r@ == image@.filter(|c: char| !is_white_space(c)),
        !(exists|a: Seq<char>, b: Seq<char>|
            #![trigger all_white(a), a + ("data:"@ + b)]
            all_white(a) && image@ == a + ("data:"@ + b)) ==> r@ == image@.filter(
            |c: char| !is_white_space(c),
        ),
{
    reveal_strlit("data:");
    lemma_without_white_space(image@);
    lemma_split(image@, ',');
    if all_white(start) && image@ == start + ("data:"@ + head) + seq![','] + tail && !head.contains(
        ',',
    ) {
        let front = start + ("data:"@ + head);
        assert forall|i: int| 0 <= i < front.len() implies front[i] != ',' by {
            if i < start.len() {
                assert(is_white_space(start[i]));
            } else if i >= start.len() + 5 {
                assert(head.contains(head[i - start.len() - 5]));
            } else {
                assert(front[i] == "data:"@[i - start.len()]);
            }
        }
        assert(image@ =~= front.push(',') + tail);
        lemma_cut(front, ',', tail);
        assert(image@[front.len() as int] == ',');
        let rest = "data:"@ + head + seq![','] + tail;
        assert(image@ =~= start + rest);
        lemma_skips(start, rest);
        assert("data:"@ =~= rest.take(5));
        lemma_without_white_space(tail);
    }
    lemma_trim_start(image@);
    let t = trim_start(image@);
    if "data:"@.is_prefix_of(t) {
        let a = image@.take(image@.len() - t.len());
        let b = t.skip(5);
        assert(t =~= "data:"@ + b);
        assert(image@ =~= a + ("data:"@ + b));
        assert(all_white(a));
    }
}

/// White space before `data:` is skipped.
proof fn lemma_skips(a: Seq<char>, b: Seq<char>)
    requires
        all_white(a),
        b.len() > 0,
        !is_white_space(b[0]),
    ensures
        trim_start(a + b) == b,
    decreases a.len(),
{
    if a.len() == 0 {
        assert(a + b =~= b);
    } else {
        let rest = a.drop_first();
        assert forall|i: int| 0 <= i < rest.len() implies is_white_space(#[trigger] rest[i]) by {
            assert(rest[i] == a[i + 1]);
        }
        lemma_skips(rest, b);
        assert((a + b)[0] == a[0]);
        assert((a + b).drop_first() =~= rest + b);
    }
}

} // verus!
