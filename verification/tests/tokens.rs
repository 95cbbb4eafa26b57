use wim::http::Outcome;
use wim::outside::JsonScalar;
use wim::tokens::{
    cached_token, lasting_token, now_secs, read_reply, seconds_or_zero, seconds_to_live,
    signed_member, store_token, text_member, token_from, token_from_outcome, token_from_parsed,
    TokenCache, TokenReply, MARGIN,
};

fn token_reply(status: u16, body: &str) -> Outcome {
    Outcome::Reply { status, body: body.to_string() }
}

fn number(unsigned: Option<u64>, signed: Option<i64>) -> Option<JsonScalar> {
    Some(JsonScalar::Number { unsigned, signed })
}

fn text_scalar(s: &str) -> Option<JsonScalar> {
    Some(JsonScalar::Text(s.to_string()))
}

fn reply_with(access_token: Option<JsonScalar>, expires_in: Option<JsonScalar>) -> TokenReply {
    TokenReply {
        access_token,
        refresh_token: None,
        expires_in,
        refresh_token_expires_in: None,
        printed: "{}".to_string(),
    }
}

#[test]
fn a_token_is_read_from_a_reply() {
    let body = "{\"access_token\":\"T\",\"expires_in\":7200}";
    assert_eq!(token_from_outcome(token_reply(200, body)), Ok("T".to_string()));
    assert_eq!(token_from(body), Some(("T".to_string(), 7200)));
}

#[test]
fn a_refused_token_is_told_as_it_came() {
    assert_eq!(
        token_from_outcome(token_reply(401, "invalid_grant")),
        Err((401, "invalid_grant".to_string()))
    );
    assert_eq!(
        token_from_outcome(Outcome::Failed("down".to_string())),
        Err((0, "down".to_string()))
    );
}

#[test]
fn a_reply_without_a_token() {
    assert_eq!(token_from_outcome(token_reply(200, "{}")), Err((200, "{}".to_string())));
    assert_eq!(
        token_from_outcome(token_reply(200, "{\"access_token\":1}")),
        Err((200, "{\"access_token\":1}".to_string()))
    );
    assert_eq!(token_from_outcome(token_reply(201, "[1]")), Err((201, "[1]".to_string())));
    assert_eq!(token_from("{}"), None);
    assert_eq!(token_from("\"access_token\""), None);
}

#[test]
fn a_reply_that_is_not_json() {
    assert_eq!(
        token_from_outcome(token_reply(200, "<html>")),
        Err((200, "expected value at line 1 column 1".to_string()))
    );
    assert_eq!(token_from("<html>"), None);
}

#[test]
fn replies_that_were_read() {
    let parsed = Ok(reply_with(text_scalar("T"), None));
    assert_eq!(token_from_parsed(200, "x".to_string(), parsed), Ok("T".to_string()));
    let parsed = Ok(reply_with(number(Some(1), Some(1)), None));
    assert_eq!(token_from_parsed(200, "x".to_string(), parsed), Err((200, "x".to_string())));
    let parsed = Err("bad".to_string());
    assert_eq!(token_from_parsed(200, "x".to_string(), parsed), Err((200, "bad".to_string())));
    let parsed = Ok(reply_with(text_scalar("T"), text_scalar("12")));
    assert_eq!(lasting_token(parsed), Some(("T".to_string(), 12)));
    assert_eq!(lasting_token(Err("bad".to_string())), None);
}

#[test]
fn members_are_read() {
    assert_eq!(text_member(text_scalar("x")), Some("x".to_string()));
    assert_eq!(text_member(Some(JsonScalar::Other)), None);
    assert_eq!(text_member(None), None);
    assert_eq!(signed_member(&number(None, Some(-3))), -3);
    assert_eq!(signed_member(&number(Some(u64::MAX), None)), 0);
    assert_eq!(signed_member(&text_scalar("5")), 0);
    assert_eq!(signed_member(&None), 0);
}

#[test]
fn lifetimes() {
    assert_eq!(seconds_to_live(&number(Some(5), Some(5))), 5);
    assert_eq!(seconds_to_live(&text_scalar("28799")), 28799);
    assert_eq!(seconds_to_live(&text_scalar("soon")), 3600);
    assert_eq!(seconds_to_live(&number(None, Some(-1))), 3600);
    assert_eq!(seconds_to_live(&Some(JsonScalar::Other)), 3600);
    assert_eq!(seconds_to_live(&None), 3600);
    assert_eq!(token_from("{\"access_token\":\"T\",\"expires_in\":\"3599\"}").unwrap().1, 3599);
    assert_eq!(token_from("{\"access_token\":\"T\",\"expires_in\":1.5}").unwrap().1, 3600);
    assert_eq!(token_from("{\"access_token\":\"T\"}").unwrap().1, 3600);
}

#[test]
fn a_document_is_printed_on_one_line() {
    let reply = read_reply("{ \"b\" : [1,\n null],\"access_token\":\"T\" }").unwrap();
    assert_eq!(reply.printed, "{\"access_token\":\"T\",\"b\":[1,null]}");
    assert!(matches!(reply.access_token, Some(JsonScalar::Text(t)) if t == "T"));
    assert!(reply.refresh_token.is_none());
}

#[test]
fn a_stored_token_lives_until_the_margin() {
    assert_eq!(MARGIN, 60);
    let mut cache = TokenCache::new();
    assert_eq!(cached_token(&cache, "usps:me", 0), None);
    store_token(&mut cache, "usps:me", "T", 3600, 1000);
    assert_eq!(cached_token(&cache, "usps:me", 1000), Some("T".to_string()));
    assert_eq!(cached_token(&cache, "usps:me", 4539), Some("T".to_string()));
    assert_eq!(cached_token(&cache, "usps:me", 4540), None);
    assert_eq!(cached_token(&cache, "usps:me", 9999), None);
    assert_eq!(cached_token(&cache, "ups:me", 1000), None);
}

#[test]
fn a_short_life_is_never_handed_out() {
    let mut cache = TokenCache::new();
    store_token(&mut cache, "k", "T", 5, 1000);
    assert_eq!(cached_token(&cache, "k", 1000), None);
    assert_eq!(cached_token(&cache, "k", 999), Some("T".to_string()));
}

#[test]
fn the_last_token_counts() {
    let mut cache = TokenCache::new();
    store_token(&mut cache, "k", "old", 3600, 1000);
    store_token(&mut cache, "other", "x", 3600, 1000);
    store_token(&mut cache, "k", "new", 3600, 2000);
    assert_eq!(cached_token(&cache, "k", 2000), Some("new".to_string()));
    assert_eq!(cached_token(&cache, "other", 2000), Some("x".to_string()));
}

#[test]
fn the_clock() {
    assert_eq!(seconds_or_zero(Some(12)), 12);
    assert_eq!(seconds_or_zero(None), 0);
    let first = now_secs();
    assert!(first > 1_600_000_000);
    assert!(now_secs() >= first);
}
