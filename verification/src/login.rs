//! The "Connect with eBay" sign-in: the consent screen, the redirect that comes back from it, and
//! the exchange of the code for a refresh token.

use vstd::prelude::*;
use vstd::string::*;
use vstd::utf8::*;

use crate::ebay::{code_request, code_request_of, credentials_fit};
use crate::hosts::{auth_base, consent_host};
use crate::http::{
    is_success, option_view, succeeded, HttpRequest, Outcome, OutcomeView, RequestView,
};
use crate::numbers::{decimal, to_decimal};
use crate::outside::{random_below, utf8_lossy};
use crate::percent::{
    first_value, is_percent_char, law_percent_alphabet, law_percent_leaves_unreserved,
    law_query_round_trip, percent_encode, percent_encoded, query_param, query_string, query_text,
    text_from_utf8,
};
use crate::text::{
    after, first_line, has_no_space, is_blank, is_white_space, lemma_cut, lemma_leading_word,
    same_text, second_word, split_once, take_first_line, take_second_word, trim, trim_start,
};
use crate::tokens::{
    member_signed, member_text, parsed_view, read_reply, reply_in, signed_member, text_member,
    Parsed, TokenReply, TokenReplyView,
};

verus! {

// ---------------------------------------------------------------------------------------------
// The state
// ---------------------------------------------------------------------------------------------

/// How many letters and digits there are to draw from.
pub const STATE_SYMBOLS: u8 = 62;

/// How many of them make a state.
pub const STATE_LEN: usize = 24;

/// The letter or digit that a draw stands for.
pub open spec fn state_symbol(n: u8) -> char {
    if n <= 25 {
        (97u8 + n) as char
    } else if n <= 51 {
        (65u8 + (n - 26)) as char
    } else {
        (48u8 + (n - 52)) as char
    }
}

/// The state that draws stand for.
pub open spec fn state_text(draws: Seq<u8>) -> Seq<char> {
    draws.map_values(|n: u8| state_symbol(n))
}

/// Whether `c` is an ASCII letter or digit.
pub open spec fn is_alphanumeric(c: char) -> bool {
    'a' <= c <= 'z' || 'A' <= c <= 'Z' || '0' <= c <= '9'
}

/// The state that draws stand for.
pub fn state_from(draws: &[u8]) -> (r: String)
    requires
        forall|i: int| 0 <= i < draws@.len() ==> #[trigger] draws@[i] < STATE_SYMBOLS,
    ensures
        r@ == state_text(draws@),
{
    let mut r: String = String::new();
    let mut i: usize = 0;
    while i < draws.len()
        invariant
            i <= draws@.len(),
            forall|j: int| 0 <= j < draws@.len() ==> #[trigger] draws@[j] < STATE_SYMBOLS,
            r@ == state_text(draws@.take(i as int)),
        decreases draws@.len() - i,
    {
        let n: u8 = draws[i];
        let c: char = if n <= 25 {
            (97u8 + n) as char
        } else if n <= 51 {
            (65u8 + (n - 26)) as char
        } else {
            (48u8 + (n - 52)) as char
        };
        r.push(c);
        assert(state_text(draws@.take(i + 1)) =~= state_text(draws@.take(i as int)).push(c));
        i += 1;
    }
    assert(draws@.take(i as int) =~= draws@);
    r
}

/// Whether the draws of a state all came from the random source.
pub closed spec fn drawn(draws: Seq<u8>) -> bool {
    &&& draws.len() == STATE_LEN
    &&& forall|i: int|
        0 <= i < draws.len() ==> call_ensures(random_below, (STATE_SYMBOLS,), #[trigger] draws[i])
}

/// A fresh state: letters and digits, each of them drawn at random. Which ones rests on chance.
pub fn random_state() -> (r: String)
    ensures
        exists|draws: Seq<u8>| #[trigger] drawn(draws) && r@ == state_text(draws),
        r@.len() == STATE_LEN,
        forall|i: int| 0 <= i < r@.len() ==> is_alphanumeric(#[trigger] r@[i]),
{
    let mut draws: Vec<u8> = Vec::new();
    while draws.len() < STATE_LEN
        invariant
            draws@.len() <= STATE_LEN,
            forall|i: int| 0 <= i < draws@.len() ==> #[trigger] draws@[i] < STATE_SYMBOLS,
            forall|i: int|
                0 <= i < draws@.len() ==> call_ensures(
                    random_below,
                    (STATE_SYMBOLS,),
                    #[trigger] draws@[i],
                ),
        decreases STATE_LEN - draws@.len(),
    {
        draws.push(random_below(STATE_SYMBOLS));
    }
    assert(drawn(draws@));
    state_from(draws.as_slice())
}

// ---------------------------------------------------------------------------------------------
// What the caller is told
// ---------------------------------------------------------------------------------------------

/// What a sign-in tells its caller.
pub struct OAuthResult {
    pub ok: bool,
    pub refresh_token: String,
    pub access_token: String,
    pub expires_in: i64,
    pub refresh_token_expires_in: i64,
    pub error: String,
    pub auth_url: String,
}

/// What a sign-in tells its caller, in contracts.
pub struct OAuthResultView {
    pub ok: bool,
    pub refresh_token: Seq<char>,
    pub access_token: Seq<char>,
    pub expires_in: i64,
    pub refresh_token_expires_in: i64,
    pub error: Seq<char>,
    pub auth_url: Seq<char>,
}

impl View for OAuthResult {
    type V = OAuthResultView;

    open spec fn view(&self) -> OAuthResultView {
        OAuthResultView {
            ok: self.ok,
            refresh_token: self.refresh_token@,
            access_token: self.access_token@,
            expires_in: self.expires_in,
            refresh_token_expires_in: self.refresh_token_expires_in,
            error: self.error@,
            auth_url: self.auth_url@,
        }
    }
}

/// A sign-in that came to nothing.
pub open spec fn failed_login(error: Seq<char>, auth_url: Seq<char>) -> OAuthResultView {
    OAuthResultView {
        ok: false,
        refresh_token: Seq::empty(),
        access_token: Seq::empty(),
        expires_in: 0,
        refresh_token_expires_in: 0,
        error,
        auth_url,
    }
}

/// A sign-in that came to nothing.
fn login_failed(error: String, auth_url: String) -> (r: OAuthResult)
    ensures
        r@ == failed_login(error@, auth_url@),
{
    OAuthResult {
        ok: false,
        refresh_token: String::new(),
        access_token: String::new(),
        expires_in: 0,
        refresh_token_expires_in: 0,
        error,
        auth_url,
    }
}

// ---------------------------------------------------------------------------------------------
// The consent screen
// ---------------------------------------------------------------------------------------------

/// The scopes of every call that WIM makes for a user. A refresh token carries only the scopes
/// that were consented to; the base scope, which comes first, is what the Trading API asks for.
pub const LOGIN_SCOPES: &'static str =
    "https://api.ebay.com/oauth/api_scope https://api.ebay.com/oauth/api_scope/sell.inventory https://api.ebay.com/oauth/api_scope/commerce.message https://api.ebay.com/oauth/api_scope/sell.fulfillment https://api.ebay.com/oauth/api_scope/sell.account.readonly https://api.ebay.com/oauth/api_scope/sell.finances https://api.ebay.com/oauth/api_scope/sell.analytics.readonly";

/// The scopes to ask for.
pub open spec fn login_scope(scope: Seq<char>) -> Seq<char> {
    if trim(scope).len() == 0 {
        LOGIN_SCOPES@
    } else {
        scope
    }
}

/// The address of the consent screen.
pub open spec fn consent_url(
    env: Seq<char>,
    app_id: Seq<char>,
    ru_name: Seq<char>,
    scope: Seq<char>,
    state: Seq<char>,
) -> Seq<char> {
    consent_host(env) + "/oauth2/authorize?client_id="@ + percent_encoded(app_id)
        + "&redirect_uri="@ + percent_encoded(ru_name) + "&response_type=code&scope="@
        + percent_encoded(login_scope(scope)) + "&state="@ + percent_encoded(state)
}

/// Whether the keys that a sign-in needs are all there.
pub open spec fn keys_given(app_id: Seq<char>, cert_id: Seq<char>, ru_name: Seq<char>) -> bool {
    trim(app_id).len() > 0 && trim(cert_id).len() > 0 && trim(ru_name).len() > 0
}

/// What a sign-in without its keys is answered.
pub open spec fn missing_keys() -> OAuthResultView {
    failed_login(
        "App ID, Cert ID, and RuName are all required before connecting."@,
        Seq::empty(),
    )
}

/// What the caller is told where the port of the local listener cannot be had.
pub open spec fn no_listener(port: u16, error: Seq<char>, auth_url: Seq<char>) -> OAuthResultView {
    failed_login(
        "Couldn't open a local listener on port "@ + decimal(port as nat) + " ("@ + error
            + "). Close anything else using that port and try again."@,
        auth_url,
    )
}

/// What the caller is told where the browser does not open.
pub open spec fn no_browser(error: Seq<char>, auth_url: Seq<char>) -> OAuthResultView {
    failed_login(
        "Couldn't open your browser automatically ("@ + error + "). Open this link yourself: "@
            + auth_url,
        auth_url,
    )
}

/// What the caller is told where the local listener fails.
pub open spec fn broken_listener(error: Seq<char>, auth_url: Seq<char>) -> OAuthResultView {
    failed_login("Local listener error: "@ + error, auth_url)
}

/// What the caller is told where the redirect does not come in time.
pub open spec fn out_of_time(auth_url: Seq<char>) -> OAuthResultView {
    failed_login(
        "Timed out waiting for you to finish signing in (3 minutes). Try again — the browser tab can be closed."@,
        auth_url,
    )
}

/// What the caller is told where the port of the local listener cannot be had.
pub fn listener_unavailable(port: u16, error: &str, auth_url: &str) -> (r: OAuthResult)
    ensures
        r@ == no_listener(port, error@, auth_url@),
{
    let error: String = "Couldn't open a local listener on port ".to_string().concat(
        to_decimal(port as u64).as_str(),
    ).concat(" (").concat(error).concat("). Close anything else using that port and try again.");
    login_failed(error, auth_url.to_string())
}

/// What the caller is told where the browser does not open.
pub fn browser_unavailable(error: &str, auth_url: &str) -> (r: OAuthResult)
    ensures
        r@ == no_browser(error@, auth_url@),
{
    let error: String = "Couldn't open your browser automatically (".to_string().concat(
        error,
    ).concat("). Open this link yourself: ").concat(auth_url);
    login_failed(error, auth_url.to_string())
}

/// What the caller is told where the local listener fails.
pub fn listener_error(error: &str, auth_url: &str) -> (r: OAuthResult)
    ensures
        r@ == broken_listener(error@, auth_url@),
{
    login_failed("Local listener error: ".to_string().concat(error), auth_url.to_string())
}

/// For how many seconds the redirect is waited for.
pub const LOGIN_TIMEOUT_SECS: u64 = 180;

/// What the caller is told where the redirect does not come in time.
pub fn login_timed_out(auth_url: &str) -> (r: OAuthResult)
    ensures
        r@ == out_of_time(auth_url@),
{
    login_failed(
        "Timed out waiting for you to finish signing in (3 minutes). Try again — the browser tab can be closed.".to_string(),
        auth_url.to_string(),
    )
}

// ---------------------------------------------------------------------------------------------
// The redirect
// ---------------------------------------------------------------------------------------------

/// How many bytes of the redirect are read.
pub const REDIRECT_LIMIT: usize = 8192;

/// What a redirect carries: the state that came back, the authorization code, and the error.
pub struct Redirect {
    pub state: String,
    pub code: Option<String>,
    pub error: Option<String>,
}

/// A redirect in contracts.
pub struct RedirectView {
    pub state: Seq<char>,
    pub code: Option<Seq<char>>,
    pub error: Option<Seq<char>>,
}

impl View for Redirect {
    type V = RedirectView;

    open spec fn view(&self) -> RedirectView {
        RedirectView {
            state: self.state@,
            code: option_view(self.code),
            error: option_view(self.error),
        }
    }
}

/// The query string in the first line of an HTTP request.
pub open spec fn request_query(text: Seq<char>) -> Seq<char> {
    after(second_word(first_line(text)), '?')
}

/// What a query string says of a sign-in. The description of an error goes before its code name.
pub open spec fn redirect_in(query: Seq<char>) -> RedirectView {
    RedirectView {
        state: match query_text(query, "state"@) {
            Some(s) => s,
            None => Seq::empty(),
        },
        code: query_text(query, "code"@),
        error: match query_text(query, "error_description"@) {
            Some(e) => Some(e),
            None => query_text(query, "error"@),
        },
    }
}

/// What the bytes of a redirect say.
pub open spec fn redirect_of(request: Seq<u8>) -> RedirectView {
    redirect_in(request_query(text_from_utf8(request)))
}

/// Reads a redirect from the text of its request.
pub fn read_redirect_text(text: &str) -> (r: Redirect)
    ensures
        r@ == redirect_in(request_query(text@)),
{
    let line: String = take_first_line(text);
    let target: String = take_second_word(line.as_str());
    let (_path, query) = split_once(target.as_str(), '?');
    let state: String = match query_param(query.as_str(), "state") {
        Some(s) => s,
        None => String::new(),
    };
    let code: Option<String> = query_param(query.as_str(), "code");
    let error: Option<String> = match query_param(query.as_str(), "error_description") {
        Some(e) => Some(e),
        None => query_param(query.as_str(), "error"),
    };
    Redirect { state, code, error }
}

/// Reads a redirect from the bytes of its request.
pub fn read_redirect(request: &[u8]) -> (r: Redirect)
    ensures
        r@ == redirect_of(request@),
{
    let text: String = utf8_lossy(request);
    read_redirect_text(text.as_str())
}

/// Whether a redirect answers the sign-in with the given state.
pub open spec fn is_accepted(redirect: RedirectView, state: Seq<char>) -> bool {
    redirect.code is Some && redirect.state == state
}

/// The title of the page that the browser is shown.
pub open spec fn page_title(redirect: RedirectView, state: Seq<char>) -> Seq<char> {
    if redirect.code is None {
        "Sign-in didn't complete"@
    } else if redirect.state != state {
        "Connection rejected"@
    } else {
        "Connected"@
    }
}

/// The message on the page that the browser is shown.
pub open spec fn page_message(redirect: RedirectView, state: Seq<char>) -> Seq<char> {
    if redirect.code is None {
        "eBay didn't return an authorization code. You can close this tab and try again in WIM."@
    } else if redirect.state != state {
        "WIM didn't recognize this sign-in attempt (state mismatch). Please close this tab and try Connect with eBay again."@
    } else {
        "You're connected — you can close this tab and go back to WIM."@
    }
}

/// The page that the browser is shown.
pub open spec fn page_html(title: Seq<char>, message: Seq<char>) -> Seq<char> {
    "<!doctype html><html><head><meta charset=\"utf-8\"><title>WIM &mdash; "@ + title
        + "</title></head><body style=\"font-family:-apple-system,Segoe UI,Arial,sans-serif;background:#f3f5f9;display:flex;align-items:center;justify-content:center;height:100vh;margin:0;\"><div style=\"background:#fff;border-radius:14px;box-shadow:0 4px 24px rgba(31,45,71,.12);padding:28px 34px;max-width:420px;text-align:center;\"><div style=\"font-size:18px;font-weight:700;color:#28313f;margin-bottom:8px;\">"@
        + title
        + "</div><div style=\"font-size:13.5px;color:#5b6472;line-height:1.5;\">"@ + message
        + "</div></div></body></html>"@
}

/// A page as an HTTP response, which states the length of the page in bytes.
pub open spec fn page_response(html: Seq<char>) -> Seq<char> {
    "HTTP/1.1 200 OK\r\nContent-Type: text/html; charset=utf-8\r\nContent-Length: "@ + decimal(
        encode_utf8(html).len(),
    ) + "\r\nConnection: close\r\n\r\n"@ + html
}

/// What the browser is answered.
pub open spec fn answer_of(redirect: RedirectView, state: Seq<char>) -> Seq<char> {
    page_response(page_html(page_title(redirect, state), page_message(redirect, state)))
}

/// What the caller is told of a redirect that is not accepted.
pub open spec fn redirect_error(redirect: RedirectView) -> Seq<char> {
    match redirect.error {
        Some(e) => e,
        None => if redirect.code is Some {
            "State mismatch — the redirect didn't match this sign-in attempt."@
        } else {
            "eBay didn't return an authorization code."@
        },
    }
}

/// What a redirect is answered, and what becomes of the sign-in: the code to exchange, or the
/// error to tell.
pub struct Answer {
    pub response: String,
    pub code: Result<String, String>,
}

/// Answers a redirect.
pub fn answer_redirect(redirect: Redirect, state: &str) -> (r: Answer)
    ensures
        r.response@ == answer_of(redirect@, state@),
        code_view(r.code) == code_of(redirect@, state@),
{
    let same: bool = same_text(redirect.state.as_str(), state);
    let (title, message): (&'static str, &'static str) = if redirect.code.is_none() {
        (
            "Sign-in didn't complete",
            "eBay didn't return an authorization code. You can close this tab and try again in WIM.",
        )
    } else if !same {
        (
            "Connection rejected",
            "WIM didn't recognize this sign-in attempt (state mismatch). Please close this tab and try Connect with eBay again.",
        )
    } else {
        ("Connected", "You're connected — you can close this tab and go back to WIM.")
    };
    let html: String =
        "<!doctype html><html><head><meta charset=\"utf-8\"><title>WIM &mdash; ".to_string().concat(
        title,
    ).concat(
        "</title></head><body style=\"font-family:-apple-system,Segoe UI,Arial,sans-serif;background:#f3f5f9;display:flex;align-items:center;justify-content:center;height:100vh;margin:0;\"><div style=\"background:#fff;border-radius:14px;box-shadow:0 4px 24px rgba(31,45,71,.12);padding:28px 34px;max-width:420px;text-align:center;\"><div style=\"font-size:18px;font-weight:700;color:#28313f;margin-bottom:8px;\">",
    ).concat(title).concat(
        "</div><div style=\"font-size:13.5px;color:#5b6472;line-height:1.5;\">",
    ).concat(message).concat("</div></div></body></html>");
    let length: usize = html.as_str().as_bytes().len();
    let response: String =
        "HTTP/1.1 200 OK\r\nContent-Type: text/html; charset=utf-8\r\nContent-Length: ".to_string().concat(
        to_decimal(length as u64).as_str(),
    ).concat("\r\nConnection: close\r\n\r\n").concat(
        html.as_str(),
    );
    let Redirect { state: _, code, error } = redirect;
    let code: Result<String, String> = match code {
        Some(code) => if same {
            Ok(code)
        } else {
            match error {
                Some(e) => Err(e),
                None => Err(
                    "State mismatch — the redirect didn't match this sign-in attempt.".to_string(),
                ),
            }
        },
        None => match error {
            Some(e) => Err(e),
            None => Err("eBay didn't return an authorization code.".to_string()),
        },
    };
    Answer { response, code }
}

/// What the caller is told of a redirect that was not accepted.
pub fn login_refused(error: String, auth_url: &str) -> (r: OAuthResult)
    ensures
        r@ == failed_login(error@, auth_url@),
{
    login_failed(error, auth_url.to_string())
}

// ---------------------------------------------------------------------------------------------
// The exchange
// ---------------------------------------------------------------------------------------------

/// What the exchange of the code yielded: the reply, or the status and the text to report.
pub open spec fn exchange_of(outcome: OutcomeView) -> Result<TokenReplyView, (u16, Seq<char>)> {
    match outcome {
        OutcomeView::Reply { status, body } => if is_success(status) {
            exchanged(status, body, reply_in(body))
        } else {
            Err((status, body))
        },
        OutcomeView::Failed(e) => Err((0, e)),
    }
}

/// What a successful status with a text that was read yields.
pub open spec fn exchanged(status: u16, text: Seq<char>, parsed: Parsed) -> Result<
    TokenReplyView,
    (u16, Seq<char>),
> {
    match parsed {
        Ok(reply) => Ok(reply),
        Err(e) => Err((status, e + ": "@ + text)),
    }
}

/// The text of a member; empty where it is missing or no string.
pub open spec fn text_or_empty(text: Option<Seq<char>>) -> Seq<char> {
    match text {
        Some(s) => s,
        None => Seq::empty(),
    }
}

/// What the caller is told of the exchange: the tokens, and no success without a refresh token.
pub open spec fn login_result_of(
    exchange: Result<TokenReplyView, (u16, Seq<char>)>,
    auth_url: Seq<char>,
) -> OAuthResultView {
    match exchange {
        Ok(reply) => {
            let refresh_token = text_or_empty(member_text(reply.refresh_token));
            OAuthResultView {
                ok: refresh_token.len() > 0,
                refresh_token,
                access_token: text_or_empty(member_text(reply.access_token)),
                expires_in: member_signed(reply.expires_in),
                refresh_token_expires_in: member_signed(reply.refresh_token_expires_in),
                error: if refresh_token.len() > 0 {
                    Seq::empty()
                } else {
                    "eBay didn't return a refresh token: "@ + reply.printed
                },
                auth_url,
            }
        },
        Err((status, body)) => failed_login(
            "eBay error exchanging the code (HTTP "@ + decimal(status as nat) + "): "@ + body,
            auth_url,
        ),
    }
}

/// The view of what an exchange yielded.
pub open spec fn exchange_view(r: Result<TokenReply, (u16, String)>) -> Result<
    TokenReplyView,
    (u16, Seq<char>),
> {
    match r {
        Ok(reply) => Ok(reply@),
        Err((status, body)) => Err((status, body@)),
    }
}

/// What a successful status with a text that was read yields.
pub fn exchange_parsed(
    status: u16,
    text: &str,
    parsed: Result<TokenReply, String>,
) -> (r: Result<TokenReply, (u16, String)>)
    ensures
        exchange_view(r) == exchanged(status, text@, parsed_view(parsed)),
{
    match parsed {
        Ok(reply) => Ok(reply),
        Err(e) => Err((status, e.concat(": ").concat(text))),
    }
}

/// What the exchange of the code yielded.
pub fn exchange_auth_code(outcome: Outcome) -> (r: Result<TokenReply, (u16, String)>)
    ensures
        exchange_view(r) == exchange_of(outcome@),
{
    match outcome {
        Outcome::Reply { status, body } => if succeeded(status) {
            exchange_parsed(status, body.as_str(), read_reply(body.as_str()))
        } else {
            Err((status, body))
        },
        Outcome::Failed(e) => Err((0, e)),
    }
}

/// The text of a member; empty where it is missing or no string.
fn string_or_empty(text: Option<String>) -> (r: String)
    ensures
        r@ == text_or_empty(option_view(text)),
{
    match text {
        Some(s) => s,
        None => String::new(),
    }
}

/// What the caller is told of the exchange.
pub fn login_result(
    exchange: Result<TokenReply, (u16, String)>,
    auth_url: &str,
) -> (r: OAuthResult)
    ensures
        r@ == login_result_of(exchange_view(exchange), auth_url@),
{
    match exchange {
        Ok(reply) => {
            let expires_in: i64 = signed_member(&reply.expires_in);
            let refresh_token_expires_in: i64 = signed_member(&reply.refresh_token_expires_in);
            let TokenReply { access_token, refresh_token, printed, .. } = reply;
            let refresh_token: String = string_or_empty(text_member(refresh_token));
            let access_token: String = string_or_empty(text_member(access_token));
            let auth_url: String = auth_url.to_string();
            if refresh_token.as_str().is_empty() {
                assert(refresh_token@ =~= Seq::<char>::empty());
                OAuthResult {
                    ok: false,
                    refresh_token: String::new(),
                    access_token,
                    expires_in,
                    refresh_token_expires_in,
                    error: "eBay didn't return a refresh token: ".to_string().concat(
                        printed.as_str(),
                    ),
                    auth_url,
                }
            } else {
                OAuthResult {
                    ok: true,
                    refresh_token,
                    access_token,
                    expires_in,
                    refresh_token_expires_in,
                    error: String::new(),
                    auth_url,
                }
            }
        },
        Err((status, body)) => {
            let error: String = "eBay error exchanging the code (HTTP ".to_string().concat(
                to_decimal(status as u64).as_str(),
            ).concat("): ").concat(body.as_str());
            login_failed(error, auth_url.to_string())
        },
    }
}

// ---------------------------------------------------------------------------------------------
// The course of a sign-in
// ---------------------------------------------------------------------------------------------

/// The keys that a sign-in is made with.
pub struct LoginKeys {
    pub env: String,
    pub app_id: String,
    pub cert_id: String,
    pub ru_name: String,
}

/// How far a sign-in has come.
pub enum Stage {
    /// The local listener is being opened.
    Binding,
    /// The browser is being opened.
    Opening,
    /// The redirect is waited for.
    Waiting,
    /// The browser is being answered. The code is exchanged then, or the error told.
    Answering(Result<String, String>),
    /// The code is being exchanged.
    Exchanging,
    /// The caller has been told.
    Finished,
}

/// How far a sign-in has come, in contracts.
pub enum StageView {
    Binding,
    Opening,
    Waiting,
    Answering(Result<Seq<char>, Seq<char>>),
    Exchanging,
    Finished,
}

/// The view of a code or an error.
pub open spec fn code_view(code: Result<String, String>) -> Result<Seq<char>, Seq<char>> {
    match code {
        Ok(code) => Ok(code@),
        Err(e) => Err(e@),
    }
}

impl View for Stage {
    type V = StageView;

    open spec fn view(&self) -> StageView {
        match *self {
            Stage::Binding => StageView::Binding,
            Stage::Opening => StageView::Opening,
            Stage::Waiting => StageView::Waiting,
            Stage::Answering(code) => StageView::Answering(code_view(code)),
            Stage::Exchanging => StageView::Exchanging,
            Stage::Finished => StageView::Finished,
        }
    }
}

/// A sign-in under way.
pub struct Login {
    keys: LoginKeys,
    port: u16,
    auth_url: String,
    state: String,
    stage: Stage,
}

/// A sign-in under way, in contracts.
pub struct LoginView {
    pub env: Seq<char>,
    pub app_id: Seq<char>,
    pub cert_id: Seq<char>,
    pub ru_name: Seq<char>,
    pub port: u16,
    pub auth_url: Seq<char>,
    pub state: Seq<char>,
    pub stage: StageView,
}

impl View for Login {
    type V = LoginView;

    closed spec fn view(&self) -> LoginView {
        LoginView {
            env: self.keys.env@,
            app_id: self.keys.app_id@,
            cert_id: self.keys.cert_id@,
            ru_name: self.keys.ru_name@,
            port: self.port,
            auth_url: self.auth_url@,
            state: self.state@,
            stage: self.stage@,
        }
    }
}

impl LoginView {
    /// The keys fit into the header of the exchange.
    pub open spec fn wf(self) -> bool {
        credentials_fit(self.app_id, self.cert_id)
    }

    /// The sign-in at another stage.
    pub open spec fn at(self, stage: StageView) -> LoginView {
        LoginView { stage, ..self }
    }
}

/// What a sign-in asks for.
pub enum LoginAction {
    /// Open a listener on this port of the local machine.
    Listen(u16),
    /// Open this address in the browser.
    Browse(String),
    /// Wait for the redirect and read the start of it.
    Await,
    /// Answer the browser.
    Reply(String),
    /// Send this request.
    Send(HttpRequest),
    /// Tell the caller.
    Finish(OAuthResult),
}

/// What a sign-in asks for, in contracts.
pub enum LoginActionView {
    Listen(u16),
    Browse(Seq<char>),
    Await,
    Reply(Seq<char>),
    Send(RequestView),
    Finish(OAuthResultView),
}

impl View for LoginAction {
    type V = LoginActionView;

    open spec fn view(&self) -> LoginActionView {
        match *self {
            LoginAction::Listen(port) => LoginActionView::Listen(port),
            LoginAction::Browse(url) => LoginActionView::Browse(url@),
            LoginAction::Await => LoginActionView::Await,
            LoginAction::Reply(response) => LoginActionView::Reply(response@),
            LoginAction::Send(request) => LoginActionView::Send(request@),
            LoginAction::Finish(result) => LoginActionView::Finish(result@),
        }
    }
}

/// What became of what a sign-in asked for.
pub enum LoginEvent {
    /// It was done.
    Done,
    /// It failed, with this message.
    Failed(String),
    /// No redirect came in time.
    TimedOut,
    /// A redirect came, which starts with these bytes.
    Redirected(Vec<u8>),
    /// The request came to this.
    Exchanged(Outcome),
}

/// What became of what a sign-in asked for, in contracts.
pub enum LoginEventView {
    Done,
    Failed(Seq<char>),
    TimedOut,
    Redirected(Seq<u8>),
    Exchanged(OutcomeView),
}

impl View for LoginEvent {
    type V = LoginEventView;

    open spec fn view(&self) -> LoginEventView {
        match *self {
            LoginEvent::Done => LoginEventView::Done,
            LoginEvent::Failed(e) => LoginEventView::Failed(e@),
            LoginEvent::TimedOut => LoginEventView::TimedOut,
            LoginEvent::Redirected(bytes) => LoginEventView::Redirected(bytes@),
            LoginEvent::Exchanged(outcome) => LoginEventView::Exchanged(outcome@),
        }
    }
}

/// The code that an answered redirect brings, or the error to tell.
pub open spec fn code_of(redirect: RedirectView, state: Seq<char>) -> Result<
    Seq<char>,
    Seq<char>,
> {
    if is_accepted(redirect, state) {
        Ok(redirect.code->0)
    } else {
        Err(redirect_error(redirect))
    }
}

/// The end of a sign-in.
pub open spec fn finished(login: LoginView, result: OAuthResultView) -> Option<
    (LoginView, LoginActionView),
> {
    Some((login.at(StageView::Finished), LoginActionView::Finish(result)))
}

/// How a sign-in goes on after an event; nowhere after an event that its stage does not wait for.
/// Whether the browser could be answered makes no difference.
pub open spec fn next_of(login: LoginView, event: LoginEventView) -> Option<
    (LoginView, LoginActionView),
> {
    match (login.stage, event) {
        (StageView::Binding, LoginEventView::Done) => Some(
            (login.at(StageView::Opening), LoginActionView::Browse(login.auth_url)),
        ),
        (StageView::Binding, LoginEventView::Failed(e)) => finished(
            login,
            no_listener(login.port, e, login.auth_url),
        ),
        (StageView::Opening, LoginEventView::Done) => Some(
            (login.at(StageView::Waiting), LoginActionView::Await),
        ),
        (StageView::Opening, LoginEventView::Failed(e)) => finished(
            login,
            no_browser(e, login.auth_url),
        ),
        (StageView::Waiting, LoginEventView::Redirected(bytes)) => {
            let redirect = redirect_of(bytes);
            Some(
                (
                    login.at(StageView::Answering(code_of(redirect, login.state))),
                    LoginActionView::Reply(answer_of(redirect, login.state)),
                ),
            )
        },
        (StageView::Waiting, LoginEventView::Failed(e)) => finished(
            login,
            broken_listener(e, login.auth_url),
        ),
        (StageView::Waiting, LoginEventView::TimedOut) => finished(
            login,
            out_of_time(login.auth_url),
        ),
        (StageView::Answering(code), LoginEventView::Done) => after_answer(login, code),
        (StageView::Answering(code), LoginEventView::Failed(_)) => after_answer(login, code),
        (StageView::Exchanging, LoginEventView::Exchanged(outcome)) => finished(
            login,
            login_result_of(exchange_of(outcome), login.auth_url),
        ),
        _ => None,
    }
}

/// How a sign-in goes on once the browser has its answer.
pub open spec fn after_answer(login: LoginView, code: Result<Seq<char>, Seq<char>>) -> Option<
    (LoginView, LoginActionView),
> {
    match code {
        Ok(code) => Some(
            (
                login.at(StageView::Exchanging),
                LoginActionView::Send(
                    code_request_of(login.env, login.app_id, login.cert_id, login.ru_name, code),
                ),
            ),
        ),
        Err(e) => finished(login, failed_login(e, login.auth_url)),
    }
}

/// A sign-in at its start.
pub open spec fn begun(
    keys: LoginKeys,
    scope: Seq<char>,
    port: u16,
    state: Seq<char>,
) -> LoginView {
    LoginView {
        env: keys.env@,
        app_id: keys.app_id@,
        cert_id: keys.cert_id@,
        ru_name: keys.ru_name@,
        port,
        auth_url: consent_url(keys.env@, keys.app_id@, keys.ru_name@, scope, state),
        state,
        stage: StageView::Binding,
    }
}

/// Begins a sign-in with the given state. It asks for a listener on `port` first.
pub fn begin_login_with(keys: LoginKeys, scope: &str, port: u16, state: String) -> (r: Result<
    (Login, LoginAction),
    OAuthResult,
>)
    requires
        credentials_fit(keys.app_id@, keys.cert_id@),
    ensures
        keys_given(keys.app_id@, keys.cert_id@, keys.ru_name@) <==> r is Ok,
        r matches Ok((login, action)) ==> {
            &&& login@ == begun(keys, scope@, port, state@)
            &&& login@.wf()
            &&& action@ == LoginActionView::Listen(port)
        },
        r matches Err(e) ==> e@ == missing_keys(),
{
    if is_blank(keys.app_id.as_str()) || is_blank(keys.cert_id.as_str()) || is_blank(
        keys.ru_name.as_str(),
    ) {
        let error: String =
            "App ID, Cert ID, and RuName are all required before connecting.".to_string();
        return Err(login_failed(error, String::new()));
    }
    let scope: String = if is_blank(scope) {
        LOGIN_SCOPES.to_string()
    } else {
        scope.to_string()
    };
    let auth_url: String = auth_base(keys.env.as_str()).to_string().concat(
        "/oauth2/authorize?client_id=",
    ).concat(percent_encode(keys.app_id.as_str()).as_str()).concat("&redirect_uri=").concat(
        percent_encode(keys.ru_name.as_str()).as_str(),
    ).concat("&response_type=code&scope=").concat(percent_encode(scope.as_str()).as_str()).concat(
        "&state=",
    ).concat(percent_encode(state.as_str()).as_str());
    Ok((Login { keys, port, auth_url, state, stage: Stage::Binding }, LoginAction::Listen(port)))
}

/// Begins a sign-in with a fresh state. Which one rests on chance.
pub fn begin_login(keys: LoginKeys, scope: &str, port: u16) -> (r: Result<
    (Login, LoginAction),
    OAuthResult,
>)
    requires
        credentials_fit(keys.app_id@, keys.cert_id@),
    ensures
        keys_given(keys.app_id@, keys.cert_id@, keys.ru_name@) <==> r is Ok,
        r matches Ok((login, action)) ==> {
            &&& exists|draws: Seq<u8>| #[trigger] drawn(draws) && login@.state == state_text(draws)
            &&& login@.state.len() == STATE_LEN
            &&& forall|i: int|
                0 <= i < login@.state.len() ==> is_alphanumeric(#[trigger] login@.state[i])
            &&& login@ == begun(keys, scope@, port, login@.state)
            &&& login@.wf()
            &&& action@ == LoginActionView::Listen(port)
        },
        r matches Err(e) ==> e@ == missing_keys(),
{
    begin_login_with(keys, scope, port, random_state())
}

impl Login {
    /// The sign-in at another stage.
    fn at(self, stage: Stage) -> (r: Login)
        ensures
            r@ == self@.at(stage@),
    {
        let Login { keys, port, auth_url, state, stage: _ } = self;
        Login { keys, port, auth_url, state, stage }
    }

    /// The end of a sign-in.
    fn finish(self, result: OAuthResult) -> (r: (Login, LoginAction))
        ensures
            Some((r.0@, r.1@)) == finished(self@, result@),
    {
        (self.at(Stage::Finished), LoginAction::Finish(result))
    }

    /// How the sign-in goes on once the browser has its answer.
    fn go_on(self) -> (r: Option<(Login, LoginAction)>)
        requires
            self@.wf(),
            self@.stage is Answering,
        ensures
            match r {
                Some((login, action)) => after_answer(self@, self@.stage->Answering_0) == Some(
                    (login@, action@),
                ),
                None => false,
            },
    {
        let Login { keys, port, auth_url, state, stage } = self;
        match stage {
            Stage::Answering(Ok(code)) => {
                let request = code_request(
                    keys.env.as_str(),
                    keys.app_id.as_str(),
                    keys.cert_id.as_str(),
                    keys.ru_name.as_str(),
                    code.as_str(),
                );
                let login = Login { keys, port, auth_url, state, stage: Stage::Exchanging };
                Some((login, LoginAction::Send(request)))
            },
            Stage::Answering(Err(e)) => {
                let result = login_refused(e, auth_url.as_str());
                let login = Login { keys, port, auth_url, state, stage: Stage::Finished };
                Some((login, LoginAction::Finish(result)))
            },
            _ => None,
        }
    }

    /// Goes on after an event: what to do next, or nothing where the sign-in does not wait for
    /// such an event.
    pub fn next(self, event: LoginEvent) -> (r: Option<(Login, LoginAction)>)
        requires
            self@.wf(),
        ensures
            next_of(self@, event@) == (match r {
                Some((login, action)) => Some((login@, action@)),
                None => None,
            }),
            r matches Some((login, _)) ==> login@.wf(),
    {
        match (&self.stage, event) {
            (Stage::Binding, LoginEvent::Done) => {
                let url: String = self.auth_url.clone();
                Some((self.at(Stage::Opening), LoginAction::Browse(url)))
            },
            (Stage::Binding, LoginEvent::Failed(e)) => {
                let result = listener_unavailable(self.port, e.as_str(), self.auth_url.as_str());
                Some(self.finish(result))
            },
            (Stage::Opening, LoginEvent::Done) => Some(
                (self.at(Stage::Waiting), LoginAction::Await),
            ),
            (Stage::Opening, LoginEvent::Failed(e)) => {
                let result = browser_unavailable(e.as_str(), self.auth_url.as_str());
                Some(self.finish(result))
            },
            (Stage::Waiting, LoginEvent::Redirected(bytes)) => {
                let redirect = read_redirect(bytes.as_slice());
                let Answer { response, code } = answer_redirect(redirect, self.state.as_str());
                Some((self.at(Stage::Answering(code)), LoginAction::Reply(response)))
            },
            (Stage::Waiting, LoginEvent::Failed(e)) => {
                let result = listener_error(e.as_str(), self.auth_url.as_str());
                Some(self.finish(result))
            },
            (Stage::Waiting, LoginEvent::TimedOut) => {
                let result = login_timed_out(self.auth_url.as_str());
                Some(self.finish(result))
            },
            (Stage::Answering(_), LoginEvent::Done) => self.go_on(),
            (Stage::Answering(_), LoginEvent::Failed(_)) => self.go_on(),
            (Stage::Exchanging, LoginEvent::Exchanged(outcome)) => {
                let result = login_result(exchange_auth_code(outcome), self.auth_url.as_str());
                Some(self.finish(result))
            },
            _ => None,
        }
    }
}

// ---------------------------------------------------------------------------------------------
// Laws
// ---------------------------------------------------------------------------------------------

/// Every character of a fresh state stands for a draw of its own, out of all letters and digits.
pub(crate) proof fn law_state_is_drawn(r: String)
    requires
        call_ensures(random_state, (), r),
    ensures
        exists|draws: Seq<u8>|
            draws.len() == 24 && r@ == #[trigger] state_text(draws) && forall|i: int|
                0 <= i < 24 ==> call_ensures(random_below, (62u8,), #[trigger] draws[i]),
{
    let draws = choose|draws: Seq<u8>| #[trigger] drawn(draws) && r@ == state_text(draws);
    assert(r@ == state_text(draws));
}

/// Different draws of the same number make different states.
pub proof fn law_states_differ(a: Seq<u8>, b: Seq<u8>)
    requires
        forall|i: int| 0 <= i < a.len() ==> #[trigger] a[i] < STATE_SYMBOLS,
        forall|i: int| 0 <= i < b.len() ==> #[trigger] b[i] < STATE_SYMBOLS,
        state_text(a) == state_text(b),
    ensures
        a == b,
{
    assert(a.len() == state_text(a).len());
    assert(b.len() == state_text(b).len());
    assert forall|i: int| 0 <= i < a.len() implies a[i] == b[i] by {
        assert(state_text(a)[i] == state_symbol(a[i]));
        assert(state_text(b)[i] == state_symbol(b[i]));
    }
    assert(a =~= b);
}

/// A redirect with another state than the one that was sent is never accepted: its code is not
/// exchanged, and the browser is not shown that it is connected.
pub proof fn law_foreign_state_is_refused(redirect: RedirectView, state: Seq<char>)
    requires
        redirect.state != state,
    ensures
        !is_accepted(redirect, state),
        page_title(redirect, state) != "Connected"@,
{
    reveal_strlit("Connected");
    reveal_strlit("Connection rejected");
    reveal_strlit("Sign-in didn't complete");
    assert("Connected"@.len() == 9);
    assert("Connection rejected"@.len() == 19);
    assert("Sign-in didn't complete"@.len() == 23);
}

/// A code is exchanged only where a redirect brought it together with the state of this very
/// sign-in, and with the keys that the sign-in began with.
pub proof fn law_exchange_follows_consent(
    waiting: LoginView,
    redirected: LoginEventView,
    answered: LoginEventView,
)
    requires
        waiting.stage is Waiting,
        next_of(waiting, redirected) matches Some((answering, _)) && next_of(
            answering,
            answered,
        ) matches Some((_, action)) && action is Send,
    ensures
        redirected matches LoginEventView::Redirected(bytes) && {
            let redirect = redirect_of(bytes);
            &&& redirect.state == waiting.state
            &&& redirect.code matches Some(code) && next_of(
                next_of(waiting, redirected).unwrap().0,
                answered,
            ).unwrap().1 == LoginActionView::Send(
                code_request_of(
                    waiting.env,
                    waiting.app_id,
                    waiting.cert_id,
                    waiting.ru_name,
                    code,
                ),
            )
        },
{
}

/// Nothing but the answering stage sends, and nothing but an event of the waiting stage leads to
/// it.
pub proof fn law_only_answers_lead_to_the_exchange(login: LoginView, event: LoginEventView)
    requires
        next_of(login, event) is Some,
    ensures
        next_of(login, event).unwrap().1 is Send ==> login.stage is Answering,
        next_of(login, event).unwrap().0.stage is Answering ==> login.stage is Waiting,
{
}

/// How many events a sign-in still waits for at most.
pub open spec fn events_left(stage: StageView) -> nat {
    match stage {
        StageView::Binding => 5,
        StageView::Opening => 4,
        StageView::Waiting => 3,
        StageView::Answering(_) => 2,
        StageView::Exchanging => 1,
        StageView::Finished => 0,
    }
}

/// A sign-in comes to an end: each event brings it closer, and the end is where the caller is told.
/// Its keys, its port, its address and its state stay what they were.
pub proof fn law_sign_in_ends(login: LoginView, event: LoginEventView)
    requires
        next_of(login, event) is Some,
    ensures
        ({
            let (next, action) = next_of(login, event)->0;
            &&& events_left(next.stage) < events_left(login.stage)
            &&& next.stage is Finished <==> action is Finish
            &&& next.at(login.stage) == login
        }),
{
}

/// Whether an event is an answer to what was asked for.
pub open spec fn answers(action: LoginActionView, event: LoginEventView) -> bool {
    match action {
        LoginActionView::Listen(_) => event is Done || event is Failed,
        LoginActionView::Browse(_) => event is Done || event is Failed,
        LoginActionView::Await => event is Redirected || event is Failed || event is TimedOut,
        LoginActionView::Reply(_) => event is Done || event is Failed,
        LoginActionView::Send(_) => event is Exchanged,
        LoginActionView::Finish(_) => false,
    }
}

/// A sign-in goes on after every answer to what it asked for, from its start to its end.
pub proof fn law_answers_are_waited_for(
    login: LoginView,
    event: LoginEventView,
    answer: LoginEventView,
)
    ensures
        login.stage is Binding && answers(LoginActionView::Listen(login.port), answer) ==> next_of(
            login,
            answer,
        ) is Some,
        next_of(login, event) matches Some((next, action)) && answers(action, answer) ==> next_of(
            next_of(login, event).unwrap().0,
            answer,
        ) is Some,
{
}

/// A sign-in succeeds exactly where the exchange gave a refresh token that is not empty; it tells
/// no error then, and some error otherwise.
pub proof fn law_success_needs_refresh_token(
    exchange: Result<TokenReplyView, (u16, Seq<char>)>,
    auth_url: Seq<char>,
)
    ensures
        ({
            let r = login_result_of(exchange, auth_url);
            &&& r.ok <==> (exchange matches Ok(reply) && member_text(reply.refresh_token) matches Some(
                t,
            ) && t.len() > 0)
            &&& r.ok <==> r.refresh_token.len() > 0
            &&& r.ok <==> r.error.len() == 0
            &&& r.auth_url == auth_url
        }),
{
    reveal_strlit("eBay didn't return a refresh token: ");
    reveal_strlit("eBay error exchanging the code (HTTP ");
    assert("eBay didn't return a refresh token: "@.len() > 0);
    assert("eBay error exchanging the code (HTTP "@.len() > 0);
}

/// The pairs that the consent screen is asked with.
pub open spec fn consent_pairs(
    app_id: Seq<char>,
    ru_name: Seq<char>,
    scope: Seq<char>,
    state: Seq<char>,
) -> Seq<(Seq<char>, Seq<char>)> {
    seq![
        ("client_id"@, app_id),
        ("redirect_uri"@, ru_name),
        ("response_type"@, "code"@),
        ("scope"@, login_scope(scope)),
        ("state"@, state),
    ]
}

/// The consent screen is asked with exactly the application, the redirect name, the scopes and
/// the state: whatever characters they hold, each is read back from the address.
pub proof fn law_consent_url_carries(
    env: Seq<char>,
    app_id: Seq<char>,
    ru_name: Seq<char>,
    scope: Seq<char>,
    state: Seq<char>,
)
    ensures
        ({
            let query = after(consent_url(env, app_id, ru_name, scope, state), '?');
            &&& query_text(query, "client_id"@) == Some(app_id)
            &&& query_text(query, "redirect_uri"@) == Some(ru_name)
            &&& query_text(query, "response_type"@) == Some("code"@)
            &&& query_text(query, "scope"@) == Some(login_scope(scope))
            &&& query_text(query, "state"@) == Some(state)
        }),
{
    let pairs = consent_pairs(app_id, ru_name, scope, state);
    reveal_strlit("client_id");
    assert(pairs[0].0[0] == 'c');
    lemma_consent_query(env, app_id, ru_name, scope, state);
    lemma_consent_keys(app_id, ru_name, scope, state);
    law_query_round_trip(pairs, "client_id"@);
    law_query_round_trip(pairs, "redirect_uri"@);
    law_query_round_trip(pairs, "response_type"@);
    law_query_round_trip(pairs, "scope"@);
    law_query_round_trip(pairs, "state"@);
}

proof fn lemma_consent_keys(
    app_id: Seq<char>,
    ru_name: Seq<char>,
    scope: Seq<char>,
    state: Seq<char>,
)
    ensures
        ({
            let pairs = consent_pairs(app_id, ru_name, scope, state);
            &&& forall|i: int|
                #![trigger pairs[i]]
                0 <= i < pairs.len() ==> !pairs[i].0.contains('&') && !pairs[i].0.contains('=')
            &&& first_value(pairs, "client_id"@) == Some(app_id)
            &&& first_value(pairs, "redirect_uri"@) == Some(ru_name)
            &&& first_value(pairs, "response_type"@) == Some("code"@)
            &&& first_value(pairs, "scope"@) == Some(login_scope(scope))
            &&& first_value(pairs, "state"@) == Some(state)
        }),
{
    let pairs = consent_pairs(app_id, ru_name, scope, state);
    reveal_strlit("client_id");
    reveal_strlit("redirect_uri");
    reveal_strlit("response_type");
    reveal_strlit("scope");
    reveal_strlit("state");
    assert("client_id"@.len() == 9);
    assert("redirect_uri"@.len() == 12);
    assert("response_type"@.len() == 13);
    assert("scope"@.len() == 5);
    assert("state"@.len() == 5);
    assert("scope"@[1] != "state"@[1]);
    reveal_with_fuel(first_value, 6);
    let p1 = pairs.drop_first();
    let p2 = p1.drop_first();
    let p3 = p2.drop_first();
    let p4 = p3.drop_first();
    assert(p1[0] == pairs[1] && p2[0] == pairs[2] && p3[0] == pairs[3] && p4[0] == pairs[4]);
}

/// The pairs of a query string after the first, once more pairs follow it.
proof fn lemma_regroup(a: Seq<char>, b: Seq<char>, c: char, s: Seq<char>)
    ensures
        (a + b).push(c) + s == a + (b.push(c) + s),
{
    assert((a + b).push(c) + s =~= a + (b.push(c) + s));
}

/// `&`, a key and `=` in one piece, then a value.
proof fn lemma_next_pair(left: Seq<char>, piece: Seq<char>, key: Seq<char>, value: Seq<char>)
    requires
        piece == seq!['&'] + key.push('='),
    ensures
        left + piece + value == left.push('&') + (key.push('=') + value),
{
    assert(left + piece + value =~= left.push('&') + (key.push('=') + value));
}

proof fn lemma_consent_pieces()
    ensures
        "/oauth2/authorize?client_id="@ == "/oauth2/authorize"@.push('?') + "client_id"@.push('='),
        "&redirect_uri="@ == seq!['&'] + "redirect_uri"@.push('='),
        "&response_type=code&scope="@ == seq!['&'] + "response_type"@.push('=') + "code"@ + (seq![
            '&',
        ] + "scope"@.push('=')),
        "&state="@ == seq!['&'] + "state"@.push('='),
        percent_encoded("code"@) == "code"@,
{
    reveal_strlit("/oauth2/authorize");
    reveal_strlit("/oauth2/authorize?client_id=");
    reveal_strlit("&redirect_uri=");
    reveal_strlit("&response_type=code&scope=");
    reveal_strlit("&state=");
    reveal_strlit("client_id");
    reveal_strlit("redirect_uri");
    reveal_strlit("response_type");
    reveal_strlit("scope");
    reveal_strlit("state");
    reveal_strlit("code");
    assert("/oauth2/authorize?client_id="@ =~= "/oauth2/authorize"@.push('?') + "client_id"@.push(
        '=',
    ));
    assert("&redirect_uri="@ =~= seq!['&'] + "redirect_uri"@.push('='));
    assert("&response_type=code&scope="@ =~= seq!['&'] + "response_type"@.push('=') + "code"@ + (
    seq!['&'] + "scope"@.push('=')));
    assert("&state="@ =~= seq!['&'] + "state"@.push('='));
    law_percent_leaves_unreserved("code"@);
}

proof fn lemma_consent_query(
    env: Seq<char>,
    app_id: Seq<char>,
    ru_name: Seq<char>,
    scope: Seq<char>,
    state: Seq<char>,
)
    ensures
        after(consent_url(env, app_id, ru_name, scope, state), '?') == query_string(
            consent_pairs(app_id, ru_name, scope, state),
        ),
{
    let pairs = consent_pairs(app_id, ru_name, scope, state);
    let host = consent_host(env) + "/oauth2/authorize"@;
    let v1 = percent_encoded(app_id);
    let v2 = percent_encoded(ru_name);
    let v3 = "code"@;
    let v4 = percent_encoded(login_scope(scope));
    let v5 = percent_encoded(state);
    let q1 = "client_id"@.push('=') + v1;
    let q2 = "redirect_uri"@.push('=') + v2;
    let q3 = "response_type"@.push('=') + v3;
    let q4 = "scope"@.push('=') + v4;
    let q5 = "state"@.push('=') + v5;
    lemma_consent_pieces();
    // The address, pair by pair.
    let u1 = consent_host(env) + "/oauth2/authorize?client_id="@ + v1;
    assert(u1 =~= host.push('?') + q1);
    let u2 = u1 + "&redirect_uri="@ + v2;
    lemma_next_pair(u1, "&redirect_uri="@, "redirect_uri"@, v2);
    let u3 = u2.push('&') + q3;
    let u4 = u2 + "&response_type=code&scope="@ + v4;
    assert(u4 =~= u3.push('&') + q4);
    let u5 = u4 + "&state="@ + v5;
    lemma_next_pair(u4, "&state="@, "state"@, v5);
    assert(u5 == consent_url(env, app_id, ru_name, scope, state));
    // The query string, from its end.
    let s4 = q4.push('&') + q5;
    let s3 = q3.push('&') + s4;
    let s2 = q2.push('&') + s3;
    let s1 = q1.push('&') + s2;
    lemma_regroup(u3.push('&'), q4, '&', q5);
    lemma_regroup(u2.push('&'), q3, '&', s4);
    lemma_regroup(u1.push('&'), q2, '&', s3);
    lemma_regroup(host.push('?'), q1, '&', s2);
    assert(u5 == host.push('?') + s1);
    assert(s1 == query_string(pairs)) by {
        reveal_with_fuel(query_string, 6);
        let p1 = pairs.drop_first();
        let p2 = p1.drop_first();
        let p3 = p2.drop_first();
        let p4 = p3.drop_first();
        assert(p4.len() == 1 && p4[0] == pairs[4]);
        assert(query_string(p4) == q5);
        assert(p3.len() == 2 && p3[0] == pairs[3]);
        assert(query_string(p3) == s4);
        assert(p2.len() == 3 && p2[0] == pairs[2]);
        assert(query_string(p2) == s3);
        assert(p1.len() == 4 && p1[0] == pairs[1]);
        assert(query_string(p1) == s2);
    }
    lemma_consent_host(env);
    lemma_cut(host, '?', s1);
}

proof fn lemma_consent_host(env: Seq<char>)
    ensures
        !(consent_host(env) + "/oauth2/authorize"@).contains('?'),
{
    reveal_strlit("https://auth.ebay.com");
    reveal_strlit("https://auth.sandbox.ebay.com");
    reveal_strlit("/oauth2/authorize");
    let host = consent_host(env) + "/oauth2/authorize"@;
    assert forall|i: int| 0 <= i < host.len() implies host[i] != '?' by {
        if i < consent_host(env).len() {
            assert(host[i] == consent_host(env)[i]);
        } else {
            assert(host[i] == "/oauth2/authorize"@[i - consent_host(env).len()]);
        }
    }
}

/// Whether a key can stand in a query string on the first line of a request.
pub open spec fn is_plain_key(key: Seq<char>) -> bool {
    !key.contains('&') && !key.contains('=') && has_no_space(key)
}

/// The request with which a browser follows a redirect to `path` with the given pairs; the rest
/// of its headers is `rest`.
pub open spec fn redirect_request(
    path: Seq<char>,
    pairs: Seq<(Seq<char>, Seq<char>)>,
    rest: Seq<char>,
) -> Seq<char> {
    "GET "@ + (path.push('?') + query_string(pairs)) + " HTTP/1.1\r\n"@ + rest
}

/// What a browser brings back is read as it was sent: whatever characters the values hold, and
/// whatever headers follow, the redirect carries the state, the code and the error that the pairs
/// give.
pub proof fn law_redirect_is_read(
    path: Seq<char>,
    pairs: Seq<(Seq<char>, Seq<char>)>,
    rest: Seq<char>,
)
    requires
        !path.contains('?'),
        has_no_space(path),
        pairs.len() > 0,
        forall|i: int| #![trigger pairs[i]] 0 <= i < pairs.len() ==> is_plain_key(pairs[i].0),
        !(pairs[0].0.len() > 0 && pairs[0].0[0] == '?'),
    ensures
        redirect_of(encode_utf8(redirect_request(path, pairs, rest))) == (RedirectView {
            state: text_or_empty(first_value(pairs, "state"@)),
            code: first_value(pairs, "code"@),
            error: match first_value(pairs, "error_description"@) {
                Some(e) => Some(e),
                None => first_value(pairs, "error"@),
            },
        }),
{
    let text = redirect_request(path, pairs, rest);
    let query = query_string(pairs);
    encode_utf8_valid_utf8(text);
    encode_utf8_decode_utf8(text);
    lemma_request_query(path, pairs, rest);
    law_query_round_trip(pairs, "state"@);
    law_query_round_trip(pairs, "code"@);
    law_query_round_trip(pairs, "error_description"@);
    law_query_round_trip(pairs, "error"@);
}

/// A sign-in that eBay consents to goes on with eBay's code: the redirect that brings a code and
/// the state that was sent is accepted, whatever characters they hold.
pub proof fn law_consent_is_accepted(
    path: Seq<char>,
    code: Seq<char>,
    state: Seq<char>,
    rest: Seq<char>,
)
    requires
        !path.contains('?'),
        has_no_space(path),
    ensures
        ({
            let pairs = seq![("code"@, code), ("state"@, state)];
            let redirect = redirect_of(encode_utf8(redirect_request(path, pairs, rest)));
            is_accepted(redirect, state) && redirect.code == Some(code)
        }),
{
    let pairs = seq![("code"@, code), ("state"@, state)];
    reveal_strlit("code");
    reveal_strlit("state");
    assert("code"@.len() == 4);
    assert("state"@.len() == 5);
    assert forall|i: int| #![trigger pairs[i]] 0 <= i < pairs.len() implies is_plain_key(
        pairs[i].0,
    ) by {
    }
    law_redirect_is_read(path, pairs, rest);
    reveal_with_fuel(first_value, 3);
    assert(pairs.drop_first()[0] == pairs[1]);
}

proof fn lemma_query_has_no_space(pairs: Seq<(Seq<char>, Seq<char>)>)
    requires
        forall|i: int| #![trigger pairs[i]] 0 <= i < pairs.len() ==> is_plain_key(pairs[i].0),
    ensures
        has_no_space(query_string(pairs)),
    decreases pairs.len(),
{
    if pairs.len() > 0 {
        let k = pairs[0].0;
        let v = percent_encoded(pairs[0].1);
        law_percent_alphabet(pairs[0].1);
        let pair = k.push('=') + v;
        assert(is_plain_key(k));
        assert(has_no_space(pair)) by {
            assert forall|i: int| 0 <= i < pair.len() implies !is_white_space(#[trigger] pair[i]) by {
                if i < k.len() {
                    assert(pair[i] == k[i]);
                } else if i > k.len() {
                    assert(pair[i] == v[i - k.len() - 1]);
                    assert(is_percent_char(v[i - k.len() - 1]));
                }
            }
        }
        if pairs.len() > 1 {
            let rest = pairs.drop_first();
            assert forall|i: int| #![trigger rest[i]] 0 <= i < rest.len() implies is_plain_key(
                rest[i].0,
            ) by {
                assert(rest[i] == pairs[i + 1]);
            }
            lemma_query_has_no_space(rest);
            let whole = query_string(pairs);
            assert forall|i: int| 0 <= i < whole.len() implies !is_white_space(
                #[trigger] whole[i],
            ) by {
                if i < pair.len() {
                    assert(whole[i] == pair[i]);
                } else if i > pair.len() {
                    assert(whole[i] == query_string(rest)[i - pair.len() - 1]);
                }
            }
        }
    }
}

proof fn lemma_request_query(
    path: Seq<char>,
    pairs: Seq<(Seq<char>, Seq<char>)>,
    rest: Seq<char>,
)
    requires
        !path.contains('?'),
        has_no_space(path),
        forall|i: int| #![trigger pairs[i]] 0 <= i < pairs.len() ==> is_plain_key(pairs[i].0),
    ensures
        request_query(redirect_request(path, pairs, rest)) == query_string(pairs),
{
    let text = redirect_request(path, pairs, rest);
    let query = query_string(pairs);
    let target = path.push('?') + query;
    let line = "GET "@ + target + " HTTP/1.1"@;
    lemma_query_has_no_space(pairs);
    assert(has_no_space(target)) by {
        assert forall|i: int| 0 <= i < target.len() implies !is_white_space(#[trigger] target[i]) by {
            if i < path.len() {
                assert(target[i] == path[i]);
            } else if i > path.len() {
                assert(target[i] == query[i - path.len() - 1]);
            }
        }
    }
    lemma_first_line(target, rest);
    lemma_second_word(target);
    lemma_cut(path, '?', query);
    assert(first_line(text) == line);
}

proof fn lemma_first_line(target: Seq<char>, rest: Seq<char>)
    requires
        has_no_space(target),
    ensures
        first_line("GET "@ + target + " HTTP/1.1\r\n"@ + rest) == "GET "@ + target + " HTTP/1.1"@,
{
    let text = "GET "@ + target + " HTTP/1.1\r\n"@ + rest;
    let line = "GET "@ + target + " HTTP/1.1"@;
    reveal_strlit("GET ");
    reveal_strlit(" HTTP/1.1");
    reveal_strlit(" HTTP/1.1\r\n");
    let head = line.push('\r');
    assert(text =~= head.push('\n') + rest);
    assert(!head.contains('\n')) by {
        assert forall|i: int| 0 <= i < head.len() implies head[i] != '\n' by {
            if i < 4 {
            } else if i < 4 + target.len() {
                assert(head[i] == target[i - 4]);
            } else if i < line.len() {
                assert(head[i] == " HTTP/1.1"@[i - 4 - target.len()]);
            }
        }
    }
    lemma_cut(head, '\n', rest);
    assert(head.drop_last() =~= line);
}

proof fn lemma_second_word(target: Seq<char>)
    requires
        has_no_space(target),
        target.len() > 0,
    ensures
        second_word("GET "@ + target + " HTTP/1.1"@) == target,
{
    let line = "GET "@ + target + " HTTP/1.1"@;
    let verb = seq!['G', 'E', 'T'];
    reveal_strlit("GET ");
    reveal_strlit(" HTTP/1.1");
    reveal_strlit("HTTP/1.1");
    assert(line =~= verb.push(' ') + (target + " HTTP/1.1"@));
    lemma_leading_word(verb, ' ', target + " HTTP/1.1"@);
    assert(line[0] == 'G');
    assert(trim_start(line) == line);
    let more = line.skip(3);
    assert(more.drop_first() =~= target.push(' ') + "HTTP/1.1"@);
    assert(more[0] == ' ');
    assert(more.drop_first()[0] == target[0]);
    assert(!is_white_space(target[0]));
    reveal_with_fuel(trim_start, 2);
    assert(trim_start(more) == target.push(' ') + "HTTP/1.1"@);
    lemma_leading_word(target, ' ', "HTTP/1.1"@);
}

} // verus!
