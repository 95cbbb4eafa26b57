//! Laws of token replies and of the token cache.

use vstd::prelude::*;

use crate::http::Outcome;
use crate::numbers::u64_of;
use crate::outside::{json_document, JsonMember, JsonScalar};
use crate::tokens::{
    cached_token, expiry, lasting_token, read_reply, seconds_or_zero, seconds_to_live,
    signed_member, store_token, text_member, token_from, token_from_outcome, token_from_parsed,
    TokenCache, TokenReply,
};

verus! {

/// The member of a document that a reply has under a name.
pub open spec fn holds_member(
    read: Option<JsonScalar>,
    members: Map<Seq<char>, JsonMember>,
    name: Seq<char>,
) -> bool {
    match read {
        Some(scalar) => members.contains_key(name) && scalar@ == members[name],
        None => !members.contains_key(name),
    }
}

/// A reply is read as the document says: each member under its own name, whatever it holds, and the
/// print of the whole; text that is no document gives the parser's message.
pub proof fn law_reply_is_read(text: &str, r: Result<TokenReply, String>)
    requires
        call_ensures(read_reply, (text,), r),
    ensures
        match json_document(text@) {
            Ok((members, printed)) => r matches Ok(reply) && {
                &&& holds_member(reply.access_token, members, "access_token"@)
                &&& holds_member(reply.refresh_token, members, "refresh_token"@)
                &&& holds_member(reply.expires_in, members, "expires_in"@)
                &&& holds_member(
                    reply.refresh_token_expires_in,
                    members,
                    "refresh_token_expires_in"@,
                )
                &&& reply.printed@ == printed
            },
            Err(e) => r matches Err(m) && m@ == e,
        },
{
}

/// The text of a member is the whole text, and only a string has one; a number is the number
/// itself, and anything else counts as 0.
pub proof fn law_members_are_read(
    member: Option<JsonScalar>,
    text: Option<String>,
    number: i64,
    ttl: u64,
)
    requires
        call_ensures(text_member, (member,), text),
        call_ensures(signed_member, (&member,), number),
        call_ensures(seconds_to_live, (&member,), ttl),
    ensures
        match member {
            Some(JsonScalar::Text(s)) => {
                &&& text matches Some(t) && t@ == s@
                &&& number == 0
                &&& ttl == match u64_of(s@) {
                    Some(n) => n,
                    None => 3600,
                }
            },
            Some(JsonScalar::Number { unsigned, signed }) => {
                &&& text is None
                &&& number == match signed {
                    Some(n) => n,
                    None => 0,
                }
                &&& ttl == match unsigned {
                    Some(n) => n,
                    None => 3600,
                }
            },
            _ => text is None && number == 0 && ttl == 3600,
        },
{
}

/// The token of a reply is the whole text of its access token, of any length; without one the
/// caller is told the status with the reply's text, or with the parser's message.
pub proof fn law_token_is_whole(
    status: u16,
    text: String,
    parsed: Result<TokenReply, String>,
    r: Result<String, (u16, String)>,
)
    requires
        call_ensures(token_from_parsed, (status, text, parsed), r),
    ensures
        match parsed {
            Ok(reply) => match reply.access_token {
                Some(JsonScalar::Text(t)) => r matches Ok(token) && token@ == t@,
                _ => r matches Err((s, b)) && s == status && b@ == text@,
            },
            Err(e) => r matches Err((s, b)) && s == status && b@ == e@,
        },
{
}

/// A token request yields the access token that the document of a successful reply has, of any
/// length; a refusal is told with its own status and text, and an error with status 0.
pub proof fn law_token_of_outcome(outcome: Outcome, r: Result<String, (u16, String)>)
    requires
        call_ensures(token_from_outcome, (outcome,), r),
    ensures
        match outcome {
            Outcome::Failed(e) => r matches Err((s, b)) && s == 0 && b@ == e@,
            Outcome::Reply { status, body } => if status / 100 != 2 {
                r matches Err((s, b)) && s == status && b@ == body@
            } else {
                match json_document(body@) {
                    Err(e) => r matches Err((s, b)) && s == status && b@ == e,
                    Ok((members, _)) => if members.contains_key("access_token"@)
                        && members["access_token"@] is Text {
                        r matches Ok(t) && t@ == members["access_token"@]->Text_0
                    } else {
                        r matches Err((s, b)) && s == status && b@ == body@
                    },
                }
            },
        },
{
}

/// A carrier's token is the whole text of its access token, and lives as long as the reply says: a
/// number, a number as text, or an hour.
pub proof fn law_lasting_token(
    parsed: Result<TokenReply, String>,
    r: Option<(String, u64)>,
    ttl: u64,
)
    requires
        call_ensures(lasting_token, (parsed,), r),
        parsed matches Ok(reply) ==> call_ensures(seconds_to_live, (&reply.expires_in,), ttl),
    ensures
        match parsed {
            Ok(reply) => match reply.access_token {
                Some(JsonScalar::Text(t)) => r matches Some((token, life)) && token@ == t@ && life
                    == ttl,
                _ => r is None,
            },
            Err(_) => r is None,
        },
{
}

/// The token in a text is the one in the reply that the text is read as.
pub proof fn law_token_in_text(
    body: &str,
    parsed: Result<TokenReply, String>,
    r: Option<(String, u64)>,
    of_parsed: Option<(String, u64)>,
)
    requires
        call_ensures(read_reply, (body,), parsed),
        call_ensures(token_from, (body,), r),
        call_ensures(lasting_token, (parsed,), of_parsed),
    ensures
        match of_parsed {
            Some((token, ttl)) => r matches Some((t, l)) && t@ == token@ && l == ttl,
            None => r is None,
        },
{
}

/// The cache hands out the token that it holds under the name, whole, until a minute before it
/// expires; and nothing else.
pub proof fn law_cache_hands_out(cache: &TokenCache, key: &str, now: u64, r: Option<String>)
    requires
        now + 60 <= u64::MAX,
        call_ensures(cached_token, (cache, key, now), r),
    ensures
        r is Some <==> cache@.contains_key(key@) && cache@[key@].1 > now + 60,
        r matches Some(token) ==> token@ == cache@[key@].0,
{
}

/// A new cache hands out nothing.
pub proof fn law_new_cache(cache: TokenCache, key: &str, now: u64, r: Option<String>)
    requires
        now + 60 <= u64::MAX,
        call_ensures(TokenCache::new, (), cache),
        call_ensures(cached_token, (&cache, key, now), r),
    ensures
        r is None,
{
}

/// A token lives for the seconds that it was given, and for a minute at least.
pub proof fn law_expiry(now: u64, ttl: u64)
    ensures
        ttl >= 60 ==> expiry(now, ttl) == now + ttl,
        ttl < 60 ==> expiry(now, ttl) == now + 60,
{
}

/// A token is kept whole under its name until its life is over, and for a minute at least; what is
/// kept under other names stays.
pub proof fn law_keeping(cache: &mut TokenCache, key: &str, token: &str, ttl: u64, now: u64)
    requires
        now + ttl <= u64::MAX,
        now + 60 <= u64::MAX,
        call_ensures(store_token, (cache, key, token, ttl, now), ()),
    ensures
        final(cache)@.contains_key(key@),
        final(cache)@[key@].0 == token@,
        ttl >= 60 ==> final(cache)@[key@].1 == now + ttl,
        ttl < 60 ==> final(cache)@[key@].1 == now + 60,
        forall|other: Seq<char>|
            other != key@ ==> {
                &&& final(cache)@.contains_key(other) == old(cache)@.contains_key(other)
                &&& old(cache)@.contains_key(other) ==> #[trigger] final(cache)@[other]
                    == old(cache)@[other]
            },
{
}

/// A reading of the clock is the second itself; a clock before the epoch counts as second 0.
pub proof fn law_reading(reading: Option<u64>, r: u64)
    requires
        call_ensures(seconds_or_zero, (reading,), r),
    ensures
        reading matches Some(n) ==> r == n,
        reading is None ==> r == 0,
{
}

} // verus!
