//! Access tokens: reading them from replies, and keeping the carriers' until they expire.

use vstd::hash_map::StringHashMap;
use vstd::prelude::*;

use crate::http::{is_success, succeeded, Outcome, OutcomeView};
use crate::numbers::{parse_u64, u64_of};
use crate::outside::{
    json_document, json_member, parse_json, print_json, unix_clock, JsonMember, JsonScalar,
};

verus! {

// ---------------------------------------------------------------------------------------------
// Replies
// ---------------------------------------------------------------------------------------------

/// The members of a token reply that the library reads, and the whole reply on one line.
pub struct TokenReply {
    pub access_token: Option<JsonScalar>,
    pub refresh_token: Option<JsonScalar>,
    pub expires_in: Option<JsonScalar>,
    pub refresh_token_expires_in: Option<JsonScalar>,
    pub printed: String,
}

/// A token reply in contracts.
pub struct TokenReplyView {
    pub access_token: Option<JsonMember>,
    pub refresh_token: Option<JsonMember>,
    pub expires_in: Option<JsonMember>,
    pub refresh_token_expires_in: Option<JsonMember>,
    pub printed: Seq<char>,
}

/// The member that an optional scalar is.
pub open spec fn scalar_view(s: Option<JsonScalar>) -> Option<JsonMember> {
    match s {
        Some(s) => Some(s@),
        None => None,
    }
}

impl View for TokenReply {
    type V = TokenReplyView;

    open spec fn view(&self) -> TokenReplyView {
        TokenReplyView {
            access_token: scalar_view(self.access_token),
            refresh_token: scalar_view(self.refresh_token),
            expires_in: scalar_view(self.expires_in),
            refresh_token_expires_in: scalar_view(self.refresh_token_expires_in),
            printed: self.printed@,
        }
    }
}

/// What reading a reply gives, in contracts: the reply, or the parser's message.
pub type Parsed = Result<TokenReplyView, Seq<char>>;

/// The view of what reading a reply gives.
pub open spec fn parsed_view(parsed: Result<TokenReply, String>) -> Parsed {
    match parsed {
        Ok(reply) => Ok(reply@),
        Err(e) => Err(e@),
    }
}

/// The member of an object that has the name `key`.
pub open spec fn member_of(members: Map<Seq<char>, JsonMember>, key: Seq<char>) -> Option<
    JsonMember,
> {
    if members.contains_key(key) {
        Some(members[key])
    } else {
        None
    }
}

/// The token reply that `text` is.
pub open spec fn reply_in(text: Seq<char>) -> Parsed {
    match json_document(text) {
        Ok((members, printed)) => Ok(
            TokenReplyView {
                access_token: member_of(members, "access_token"@),
                refresh_token: member_of(members, "refresh_token"@),
                expires_in: member_of(members, "expires_in"@),
                refresh_token_expires_in: member_of(members, "refresh_token_expires_in"@),
                printed,
            },
        ),
        Err(e) => Err(e),
    }
}

/// The text of a member that is a string.
pub open spec fn member_text(member: Option<JsonMember>) -> Option<Seq<char>> {
    match member {
        Some(JsonMember::Text(s)) => Some(s),
        _ => None,
    }
}

/// The value of a member that is an integer in the range of `i64`; 0 for anything else.
pub open spec fn member_signed(member: Option<JsonMember>) -> i64 {
    match member {
        Some(JsonMember::Number { signed: Some(n), .. }) => n,
        _ => 0,
    }
}

/// For how many seconds a token lives: a number, or a number as text; an hour where the reply
/// says nothing that can be read.
pub open spec fn lifetime(expires_in: Option<JsonMember>) -> u64 {
    match expires_in {
        Some(JsonMember::Number { unsigned: Some(n), .. }) => n,
        Some(JsonMember::Text(s)) => match u64_of(s) {
            Some(n) => n,
            None => 3600,
        },
        _ => 3600,
    }
}

/// A token, or the status and the text to report in its place.
pub type TokenResult = Result<Seq<char>, (u16, Seq<char>)>;

/// The view of a token or of what to report in its place.
pub open spec fn token_result_view(r: Result<String, (u16, String)>) -> TokenResult {
    match r {
        Ok(token) => Ok(token@),
        Err((status, body)) => Err((status, body@)),
    }
}

/// The token that a successful reply holds. Where the text is not JSON, the parser's message is
/// reported, and where it holds no token, the text.
pub open spec fn token_of(status: u16, text: Seq<char>, parsed: Parsed) -> TokenResult {
    match parsed {
        Ok(reply) => match member_text(reply.access_token) {
            Some(token) => Ok(token),
            None => Err((status, text)),
        },
        Err(e) => Err((status, e)),
    }
}

/// The token that a token request yielded.
pub open spec fn token_in(outcome: OutcomeView) -> TokenResult {
    match outcome {
        OutcomeView::Reply { status, body } => if is_success(status) {
            token_of(status, body, reply_in(body))
        } else {
            Err((status, body))
        },
        OutcomeView::Failed(e) => Err((0, e)),
    }
}

/// The token of a carrier's reply and for how many seconds it lives.
pub open spec fn lasting_token_of(parsed: Parsed) -> Option<(Seq<char>, u64)> {
    match parsed {
        Ok(reply) => match member_text(reply.access_token) {
            Some(token) => Some((token, lifetime(reply.expires_in))),
            None => None,
        },
        Err(_) => None,
    }
}

/// Reads a token reply.
pub fn read_reply(text: &str) -> (r: Result<TokenReply, String>)
    ensures
        parsed_view(r) == reply_in(text@),
{
    match parse_json(text) {
        Ok(value) => Ok(
            TokenReply {
                access_token: json_member(&value, "access_token"),
                refresh_token: json_member(&value, "refresh_token"),
                expires_in: json_member(&value, "expires_in"),
                refresh_token_expires_in: json_member(&value, "refresh_token_expires_in"),
                printed: print_json(&value),
            },
        ),
        Err(e) => Err(e),
    }
}

/// The text of a member that is a string.
pub fn text_member(member: Option<JsonScalar>) -> (r: Option<String>)
    ensures
        member_text(scalar_view(member)) == (match r {
            Some(s) => Some(s@),
            None => None,
        }),
{
    match member {
        Some(JsonScalar::Text(s)) => Some(s),
        _ => None,
    }
}

/// The value of a member that is an integer in the range of `i64`; 0 for anything else.
pub fn signed_member(member: &Option<JsonScalar>) -> (r: i64)
    ensures
        r == member_signed(scalar_view(*member)),
{
    match member {
        Some(JsonScalar::Number { signed: Some(n), .. }) => *n,
        _ => 0,
    }
}

/// For how many seconds a token lives.
pub fn seconds_to_live(expires_in: &Option<JsonScalar>) -> (r: u64)
    ensures
        r == lifetime(scalar_view(*expires_in)),
{
    match expires_in {
        Some(JsonScalar::Number { unsigned: Some(n), .. }) => *n,
        Some(JsonScalar::Text(s)) => match parse_u64(s.as_str()) {
            Some(n) => n,
            None => 3600,
        },
        _ => 3600,
    }
}

/// The token that a successful reply holds, once it has been read.
pub fn token_from_parsed(
    status: u16,
    text: String,
    parsed: Result<TokenReply, String>,
) -> (r: Result<String, (u16, String)>)
    ensures
        token_result_view(r) == token_of(status, text@, parsed_view(parsed)),
{
    match parsed {
        Ok(reply) => match text_member(reply.access_token) {
            Some(token) => Ok(token),
            None => Err((status, text)),
        },
        Err(e) => Err((status, e)),
    }
}

/// The token that a token request yielded.
pub fn token_from_outcome(outcome: Outcome) -> (r: Result<String, (u16, String)>)
    ensures
        token_result_view(r) == token_in(outcome@),
{
    match outcome {
        Outcome::Reply { status, body } => if succeeded(status) {
            let parsed: Result<TokenReply, String> = read_reply(body.as_str());
            token_from_parsed(status, body, parsed)
        } else {
            Err((status, body))
        },
        Outcome::Failed(e) => Err((0, e)),
    }
}

/// The token of a carrier's reply and for how many seconds it lives, once it has been read.
pub fn lasting_token(parsed: Result<TokenReply, String>) -> (r: Option<(String, u64)>)
    ensures
        match r {
            Some((token, ttl)) => lasting_token_of(parsed_view(parsed)) == Some((token@, ttl)),
            None => lasting_token_of(parsed_view(parsed)) is None,
        },
{
    match parsed {
        Ok(reply) => {
            let ttl: u64 = seconds_to_live(&reply.expires_in);
            match text_member(reply.access_token) {
                Some(token) => Some((token, ttl)),
                None => None,
            }
        },
        Err(_) => None,
    }
}

/// The token of a carrier's reply and for how many seconds it lives.
pub fn token_from(body: &str) -> (r: Option<(String, u64)>)
    ensures
        match r {
            Some((token, ttl)) => lasting_token_of(reply_in(body@)) == Some((token@, ttl)),
            None => lasting_token_of(reply_in(body@)) is None,
        },
{
    lasting_token(read_reply(body))
}

// ---------------------------------------------------------------------------------------------
// The cache
// ---------------------------------------------------------------------------------------------

/// Tokens by name, each with the second at which it expires.
pub struct TokenCache {
    entries: StringHashMap<(String, u64)>,
}

impl View for TokenCache {
    type V = Map<Seq<char>, (Seq<char>, u64)>;

    closed spec fn view(&self) -> Map<Seq<char>, (Seq<char>, u64)> {
        self.entries@.map_values(|e: (String, u64)| (e.0@, e.1))
    }
}

/// How long before it expires a token is no longer handed out, and the shortest life that a token
/// is given, in seconds.
pub const MARGIN: u64 = 60;

/// The second at which a token expires that was stored at second `now`.
pub open spec fn expiry(now: u64, ttl: u64) -> int {
    now + if ttl < MARGIN {
        MARGIN
    } else {
        ttl
    }
}

/// The token of that name, unless it expires within the margin.
pub open spec fn live_token(
    cache: Map<Seq<char>, (Seq<char>, u64)>,
    key: Seq<char>,
    now: u64,
) -> Option<Seq<char>> {
    if cache.contains_key(key) && cache[key].1 > now + MARGIN {
        Some(cache[key].0)
    } else {
        None
    }
}

impl TokenCache {
    /// No tokens.
    pub fn new() -> (r: TokenCache)
        ensures
            r@ == Map::<Seq<char>, (Seq<char>, u64)>::empty(),
    {
        let r = TokenCache { entries: StringHashMap::new() };
        assert(r@ =~= Map::<Seq<char>, (Seq<char>, u64)>::empty());
        r
    }
}

/// The token of that name, unless it expires within the margin of second `now`.
pub fn cached_token(cache: &TokenCache, key: &str, now: u64) -> (r: Option<String>)
    requires
        now + MARGIN <= u64::MAX,
    ensures
        match r {
            Some(token) => live_token(cache@, key@, now) == Some(token@),
            None => live_token(cache@, key@, now) is None,
        },
{
    match cache.entries.get(key) {
        Some(entry) => if entry.1 > now + MARGIN {
            Some(entry.0.clone())
        } else {
            None
        },
        None => None,
    }
}

/// Keeps a token that was received at second `now` and lives for `ttl` seconds.
pub fn store_token(cache: &mut TokenCache, key: &str, token: &str, ttl: u64, now: u64)
    requires
        expiry(now, ttl) <= u64::MAX,
    ensures
        final(cache)@ == old(cache)@.insert(key@, (token@, expiry(now, ttl) as u64)),
{
    let life: u64 = if ttl < MARGIN {
        MARGIN
    } else {
        ttl
    };
    cache.entries.insert(key.to_string(), (token.to_string(), now + life));
    assert(cache@ =~= old(cache)@.insert(key@, (token@, expiry(now, ttl) as u64)));
}

// ---------------------------------------------------------------------------------------------
// The clock
// ---------------------------------------------------------------------------------------------

/// The second that a reading of the clock stands for; 0 where it stood before the epoch.
pub fn seconds_or_zero(reading: Option<u64>) -> (r: u64)
    ensures
        r == second_of(reading),
{
    match reading {
        Some(n) => n,
        None => 0,
    }
}

/// The second that a reading of the clock stands for.
pub open spec fn second_of(reading: Option<u64>) -> u64 {
    match reading {
        Some(n) => n,
        None => 0,
    }
}

/// Whether the system's clock gave the reading.
pub closed spec fn was_read(reading: Option<u64>) -> bool {
    call_ensures(unix_clock, (), reading)
}

/// The current second since the Unix epoch; 0 where the clock stands before it. Which second that
/// is rests on the machine's clock.
pub fn now_secs() -> (r: u64)
    ensures
        exists|reading: Option<u64>| #[trigger] was_read(reading) && r == second_of(reading),
{
    let reading: Option<u64> = unix_clock();
    assert(was_read(reading));
    seconds_or_zero(reading)
}

// ---------------------------------------------------------------------------------------------
// Laws
// ---------------------------------------------------------------------------------------------

/// The current second is what the clock was read to be; a clock before the epoch counts as second
/// 0.
pub(crate) proof fn law_clock_is_read(r: u64)
    requires
        call_ensures(now_secs, (), r),
    ensures
        exists|reading: Option<u64>| #[trigger]
            call_ensures(unix_clock, (), reading) && match reading {
                Some(n) => r == n,
                None => r == 0,
            },
{
    let reading = choose|reading: Option<u64>| #[trigger]
        was_read(reading) && r == second_of(reading);
    assert(call_ensures(unix_clock, (), reading));
}

/// A token that was stored is handed out until the margin before it expires and not from there
/// on; storing it changes nothing for any other name.
pub proof fn law_stored_token_is_found(
    cache: Map<Seq<char>, (Seq<char>, u64)>,
    key: Seq<char>,
    token: Seq<char>,
    ttl: u64,
    stored: u64,
    now: u64,
)
    requires
        expiry(stored, ttl) <= u64::MAX,
    ensures
        live_token(cache.insert(key, (token, expiry(stored, ttl) as u64)), key, now) == (if now
            + MARGIN < expiry(stored, ttl) {
            Some(token)
        } else {
            None
        }),
        forall|other: Seq<char>| #[trigger]
            live_token(cache.insert(key, (token, expiry(stored, ttl) as u64)), other, now)
                == live_token(cache, other, now) || other == key,
{
}

/// A token is not handed out again once it has not been: time only takes tokens away.
pub proof fn law_tokens_do_not_revive(
    cache: Map<Seq<char>, (Seq<char>, u64)>,
    key: Seq<char>,
    now: u64,
    later: u64,
)
    requires
        now <= later,
        live_token(cache, key, now) is None,
    ensures
        live_token(cache, key, later) is None,
{
}

} // verus!
