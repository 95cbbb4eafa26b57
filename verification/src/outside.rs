//! What the library has from std and from other crates: every call whose contract is believed
//! rather than proved stands in this module.

use base64::Engine;
use rand::Rng;
use vstd::prelude::*;
use vstd::utf8::*;

verus! {

// ---------------------------------------------------------------------------------------------
// std
// ---------------------------------------------------------------------------------------------

/// `String::push` appends one character.
pub assume_specification[ String::push ](s: &mut String, c: char)
    ensures
        final(s)@ == old(s)@.push(c),
;

/// What `String::from_utf8_lossy` makes of bytes that are not UTF-8.
pub uninterp spec fn lossy_text(bytes: Seq<u8>) -> Seq<char>;

/// Whether the byte at `i` is part of valid UTF-8.
pub open spec fn is_held(bytes: Seq<u8>, i: int) -> bool {
    exists|a: int, b: int|
        0 <= a <= i < b <= bytes.len() && valid_utf8(#[trigger] bytes.subrange(a, b))
}

/// How many of the first `n` bytes are part of no valid UTF-8.
pub open spec fn stray_among(bytes: Seq<u8>, n: int) -> nat
    decreases n,
{
    if n <= 0 {
        0
    } else if is_held(bytes, n - 1) {
        stray_among(bytes, n - 1)
    } else {
        stray_among(bytes, n - 1) + 1
    }
}

/// How many bytes are part of no valid UTF-8.
pub open spec fn stray(bytes: Seq<u8>) -> nat {
    stray_among(bytes, bytes.len() as int)
}

/// `String::from_utf8_lossy`: bytes that are UTF-8 give the text they encode. Of other bytes what
/// is valid stays, and each invalid sequence, which is at least one byte, becomes U+FFFD, which is
/// three; so there are at most two bytes more for each one that is part of no valid UTF-8. How the
/// invalid bytes are parted into sequences is left to the name.
#[verifier::external_body]
pub(crate) fn utf8_lossy(bytes: &[u8]) -> (r: String)
    ensures
        encode_utf8(r@).len() <= bytes@.len() + 2 * stray(bytes@),
        r@ == if valid_utf8(bytes@) {
            decode_utf8(bytes@)
        } else {
            lossy_text(bytes@)
        },
{
    String::from_utf8_lossy(bytes).into_owned()
}

/// What `str::to_lowercase` makes of text that is not all ASCII.
pub uninterp spec fn unicode_lowercase(text: Seq<char>) -> Seq<char>;

/// An ASCII capital letter in lower case; any other character as it is.
pub open spec fn ascii_lower(c: char) -> char {
    if 'A' <= c <= 'Z' {
        (c as int + 32) as char
    } else {
        c
    }
}

/// `str::to_lowercase`: ASCII text changes letter by letter. What becomes of other text is left
/// to the name.
#[verifier::external_body]
pub(crate) fn to_lower(s: &str) -> (r: String)
    ensures
        r@ == if is_ascii_chars(s@) {
            s@.map_values(|c: char| ascii_lower(c))
        } else {
            unicode_lowercase(s@)
        },
{
    s.to_lowercase()
}

/// `SystemTime::elapsed` of the Unix epoch: the whole seconds that the system clock counts since
/// then, or nothing where it stands before that time. Nothing is claimed of the reading.
#[verifier::external_body]
pub(crate) fn unix_clock() -> (r: Option<u64>) {
    match std::time::SystemTime::UNIX_EPOCH.elapsed() {
        Ok(elapsed) => Some(elapsed.as_secs()),
        Err(_) => None,
    }
}

// ---------------------------------------------------------------------------------------------
// base64
// ---------------------------------------------------------------------------------------------

/// The symbol that stands for six bits in the standard base64 alphabet.
pub open spec fn base64_symbol(v: int) -> char
    recommends
        0 <= v < 64,
{
    if v < 26 {
        ('A' as int + v) as char
    } else if v < 52 {
        ('a' as int + v - 26) as char
    } else if v < 62 {
        ('0' as int + v - 52) as char
    } else if v == 62 {
        '+'
    } else {
        '/'
    }
}

/// The byte at `i`, zero past the end.
pub open spec fn byte_or_zero(bytes: Seq<u8>, i: int) -> int {
    if 0 <= i < bytes.len() {
        bytes[i] as int
    } else {
        0
    }
}

/// The `k`th six bits of `bytes`, which are followed by zeros.
pub open spec fn sextet(bytes: Seq<u8>, k: int) -> int {
    let group = byte_or_zero(bytes, k / 4 * 3) * 65536 + byte_or_zero(bytes, k / 4 * 3 + 1) * 256
        + byte_or_zero(bytes, k / 4 * 3 + 2);
    if k % 4 == 0 {
        group / 262144
    } else if k % 4 == 1 {
        group / 4096 % 64
    } else if k % 4 == 2 {
        group / 64 % 64
    } else {
        group % 64
    }
}

/// `bytes` in base64 with the standard alphabet: four characters for each three bytes, one for
/// each six bits, padded with `=`.
pub open spec fn base64_text(bytes: Seq<u8>) -> Seq<char> {
    Seq::new(
        (bytes.len() + 2) / 3 * 4,
        |k: int|
            if 6 * k < 8 * bytes.len() {
                base64_symbol(sextet(bytes, k))
            } else {
                '='
            },
    )
}

/// Whether the base64 text of `len` bytes fits into one allocation.
pub open spec fn base64_fits(len: nat) -> bool {
    (len + 2) / 3 * 4 <= isize::MAX
}

/// `Engine::encode` of `base64::engine::general_purpose::STANDARD`. It panics where the text
/// would outgrow an allocation.
#[verifier::external_body]
pub(crate) fn encode_base64(bytes: &[u8]) -> (r: String)
    requires
        base64_fits(bytes@.len()),
    ensures
        r@ == base64_text(bytes@),
{
    base64::engine::general_purpose::STANDARD.encode(bytes)
}

/// The message of the error with which the base64 decoder refuses a text.
pub uninterp spec fn base64_error(text: Seq<char>) -> Seq<char>;

/// `Engine::decode` of `base64::engine::general_purpose::STANDARD`, which demands canonical
/// padding and no stray bits: it accepts exactly the texts that encoding produces, and gives the
/// bytes that were encoded. The error's message is left to the name.
#[verifier::external_body]
pub(crate) fn decode_base64_text(text: &str) -> (r: Result<Vec<u8>, String>)
    ensures
        match r {
            Ok(bytes) => base64_text(bytes@) == text@,
            Err(e) => e@ == base64_error(text@) && forall|b: Seq<u8>| #[trigger]
                base64_text(b) != text@,
        },
{
    match base64::engine::general_purpose::STANDARD.decode(text) {
        Ok(bytes) => Ok(bytes),
        Err(e) => Err(e.to_string()),
    }
}

// ---------------------------------------------------------------------------------------------
// bcrypt
// ---------------------------------------------------------------------------------------------

/// What `bcrypt::verify` says of a password and a stored hash: whether they match, or the message
/// of the error with which it refuses the hash.
pub uninterp spec fn bcrypt_verdict(password: Seq<char>, hash: Seq<char>) -> Result<
    bool,
    Seq<char>,
>;

/// `bcrypt::hash` at the default cost, with a salt from the operating system. The hash is sixty
/// characters long, names its version and its cost, and `bcrypt::verify` accepts the password
/// against it. Nothing is claimed of when the system has no randomness to give, which is the one
/// way to fail and the one that the message of the error names.
#[verifier::external_body]
pub(crate) fn bcrypt_hash(password: &str) -> (r: Result<String, String>)
    ensures
        r matches Ok(h) ==> {
            &&& bcrypt_verdict(password@, h@) == Ok::<bool, Seq<char>>(true)
            &&& h@.len() == 60
            &&& h@.subrange(0, 7) == seq!['$', '2', 'b', '$', '1', '2', '$']
        },
        r matches Err(e) ==> "Rand error: "@.is_prefix_of(e@),
{
    match bcrypt::hash(password, bcrypt::DEFAULT_COST) {
        Ok(hash) => Ok(hash),
        Err(e) => Err(e.to_string()),
    }
}

/// `bcrypt::verify`: a function of the password and the hash alone.
#[verifier::external_body]
pub(crate) fn bcrypt_verify(password: &str, hash: &str) -> (r: Result<bool, String>)
    ensures
        bcrypt_verdict(password@, hash@) == (match r {
            Ok(b) => Ok::<bool, Seq<char>>(b),
            Err(e) => Err(e@),
        }),
{
    match bcrypt::verify(password, hash) {
        Ok(verdict) => Ok(verdict),
        Err(e) => Err(e.to_string()),
    }
}

// ---------------------------------------------------------------------------------------------
// rand
// ---------------------------------------------------------------------------------------------

/// `Rng::gen_range` of `rand::thread_rng`: some number below `bound`. The generator panics where
/// the system has no randomness to seed it with, whatever the bound.
#[verifier::external_body]
pub(crate) fn random_below(bound: u8) -> (r: u8)
    requires
        bound > 0,
    ensures
        r < bound,
{
    rand::thread_rng().gen_range(0..bound)
}

// ---------------------------------------------------------------------------------------------
// serde_json
// ---------------------------------------------------------------------------------------------

/// A parsed JSON document.
#[verifier::external_type_specification]
#[verifier::external_body]
pub struct ExJsonValue(serde_json::Value);

/// One member of a JSON object, as far as the library reads it: a string, a number with the
/// integers it can be read as, or anything else.
pub enum JsonScalar {
    Text(String),
    Number { unsigned: Option<u64>, signed: Option<i64> },
    Other,
}

/// The same in contracts.
pub enum JsonMember {
    Text(Seq<char>),
    Number { unsigned: Option<u64>, signed: Option<i64> },
    Other,
}

impl View for JsonScalar {
    type V = JsonMember;

    open spec fn view(&self) -> JsonMember {
        match *self {
            JsonScalar::Text(s) => JsonMember::Text(s@),
            JsonScalar::Number { unsigned, signed } => JsonMember::Number { unsigned, signed },
            JsonScalar::Other => JsonMember::Other,
        }
    }
}

/// The members of a document that is an object; a document of another kind has none.
pub uninterp spec fn json_members(value: serde_json::Value) -> Map<Seq<char>, JsonMember>;

/// A document printed on one line, as its `Display` prints it.
pub uninterp spec fn json_print(value: serde_json::Value) -> Seq<char>;

/// What `serde_json::from_str` reads from a text: the members of the document and its print, or
/// the message of the error.
pub uninterp spec fn json_document(text: Seq<char>) -> Result<
    (Map<Seq<char>, JsonMember>, Seq<char>),
    Seq<char>,
>;

/// `serde_json::from_str::<serde_json::Value>`: a function of the text alone.
#[verifier::external_body]
pub(crate) fn parse_json(text: &str) -> (r: Result<serde_json::Value, String>)
    ensures
        match r {
            Ok(value) => json_document(text@) == Ok::<
                (Map<Seq<char>, JsonMember>, Seq<char>),
                Seq<char>,
            >((json_members(value), json_print(value))),
            Err(e) => json_document(text@) == Err::<
                (Map<Seq<char>, JsonMember>, Seq<char>),
                Seq<char>,
            >(e@),
        },
{
    match serde_json::from_str::<serde_json::Value>(text) {
        Ok(value) => Ok(value),
        Err(e) => Err(e.to_string()),
    }
}

/// `serde_json::Value::get` with a string: the member of that name.
#[verifier::external_body]
pub(crate) fn json_member(value: &serde_json::Value, key: &str) -> (r: Option<JsonScalar>)
    ensures
        r is Some <==> json_members(*value).contains_key(key@),
        r matches Some(m) ==> m@ == json_members(*value)[key@],
{
    match value.get(key) {
        None => None,
        Some(serde_json::Value::String(s)) => Some(JsonScalar::Text(s.clone())),
        Some(serde_json::Value::Number(n)) => Some(
            JsonScalar::Number { unsigned: n.as_u64(), signed: n.as_i64() },
        ),
        Some(_) => Some(JsonScalar::Other),
    }
}

/// The `Display` of `serde_json::Value`.
#[verifier::external_body]
pub(crate) fn print_json(value: &serde_json::Value) -> (r: String)
    ensures
        r@ == json_print(*value),
{
    value.to_string()
}

} // verus!
