//! Laws of the sign-in with eBay.

use vstd::prelude::*;
use vstd::utf8::*;

use crate::ebay::code_request;
use crate::hosts::auth_base;
use crate::http::{HttpRequest, Outcome};
use crate::login::{
    answer_redirect, begin_login, begin_login_with, browser_unavailable, exchange_auth_code,
    exchange_parsed, listener_error, listener_unavailable, login_refused, login_result,
    login_timed_out, random_state, read_redirect, read_redirect_text, state_from, Answer, Login,
    LoginAction, LoginEvent, LoginKeys, LoginView, OAuthResult, Redirect, StageView,
    LOGIN_TIMEOUT_SECS, REDIRECT_LIMIT,
};
use crate::numbers::to_decimal;
use crate::outside::JsonScalar;
use crate::percent::{percent_encode, query_param, text_from_utf8};
use crate::text::{is_blank, split_once, take_first_line, take_second_word};
use crate::tokens::{read_reply, scalar_view, TokenReply};

verus! {

// ---------------------------------------------------------------------------------------------
// The state
// ---------------------------------------------------------------------------------------------

/// Each draw becomes one character: the small letters first, then the capitals, then the digits.
pub proof fn law_state(draws: &[u8], i: int, r: String)
    requires
        forall|k: int| 0 <= k < draws@.len() ==> #[trigger] draws@[k] < 62,
        call_ensures(state_from, (draws,), r),
        0 <= i < draws@.len(),
    ensures
        r@.len() == draws@.len(),
        draws@[i] < 26 ==> r@[i] as u32 == 97 + draws@[i],
        26 <= draws@[i] < 52 ==> r@[i] as u32 == 65 + draws@[i] - 26,
        52 <= draws@[i] ==> r@[i] as u32 == 48 + draws@[i] - 52,
{
}

/// A fresh state has 24 letters and digits.
pub proof fn law_fresh_state(i: int, r: String)
    requires
        call_ensures(random_state, (), r),
        0 <= i < r@.len(),
    ensures
        r@.len() == 24,
        'a' <= r@[i] <= 'z' || 'A' <= r@[i] <= 'Z' || '0' <= r@[i] <= '9',
{
}

// ---------------------------------------------------------------------------------------------
// What the caller is told
// ---------------------------------------------------------------------------------------------

/// Whether a result tells an error and the address, and nothing else.
pub open spec fn fails(r: OAuthResult, error: Seq<char>, auth_url: Seq<char>) -> bool {
    &&& !r.ok
    &&& r.refresh_token@.len() == 0
    &&& r.access_token@.len() == 0
    &&& r.expires_in == 0
    &&& r.refresh_token_expires_in == 0
    &&& r.error@ == error
    &&& r.auth_url@ == auth_url
}

/// Each of the things that can go wrong is told with its own error and the whole address.
pub proof fn law_failures(
    port: u16,
    error: &str,
    refusal: String,
    auth_url: &str,
    digits: String,
    no_port: OAuthResult,
    no_browser: OAuthResult,
    broken: OAuthResult,
    late: OAuthResult,
    refused: OAuthResult,
)
    requires
        call_ensures(to_decimal, (port as u64,), digits),
        call_ensures(listener_unavailable, (port, error, auth_url), no_port),
        call_ensures(browser_unavailable, (error, auth_url), no_browser),
        call_ensures(listener_error, (error, auth_url), broken),
        call_ensures(login_timed_out, (auth_url,), late),
        call_ensures(login_refused, (refusal, auth_url), refused),
    ensures
        fails(
            no_port,
            "Couldn't open a local listener on port "@ + digits@ + " ("@ + error@
                + "). Close anything else using that port and try again."@,
            auth_url@,
        ),
        fails(
            no_browser,
            "Couldn't open your browser automatically ("@ + error@
                + "). Open this link yourself: "@ + auth_url@,
            auth_url@,
        ),
        LOGIN_TIMEOUT_SECS == 3 * 60,
        fails(broken, "Local listener error: "@ + error@, auth_url@),
        fails(
            late,
            "Timed out waiting for you to finish signing in (3 minutes). Try again — the browser tab can be closed."@,
            auth_url@,
        ),
        fails(refused, refusal@, auth_url@),
{
}

/// The text of a member that is a string; empty text for anything else.
pub open spec fn token_in(member: Option<JsonScalar>) -> Seq<char> {
    match member {
        Some(JsonScalar::Text(t)) => t@,
        _ => Seq::empty(),
    }
}

/// The number of a member that is one; 0 for anything else.
pub open spec fn seconds_in(member: Option<JsonScalar>) -> i64 {
    match member {
        Some(JsonScalar::Number { signed: Some(n), .. }) => n,
        _ => 0,
    }
}

/// Both tokens of a reply are told whole, of any length, with the lives that the reply gives them.
/// The sign-in is a success exactly where there is a refresh token; without one the error holds all
/// of the reply, and without a reply the status and the text that came in its place.
pub proof fn law_tokens_are_told(
    exchange: Result<TokenReply, (u16, String)>,
    auth_url: &str,
    digits: String,
    r: OAuthResult,
)
    requires
        call_ensures(login_result, (exchange, auth_url), r),
        exchange matches Err((status, _)) ==> call_ensures(to_decimal, (status as u64,), digits),
    ensures
        r.auth_url@ == auth_url@,
        match exchange {
            Ok(reply) => {
                &&& r.refresh_token@ == token_in(reply.refresh_token)
                &&& r.access_token@ == token_in(reply.access_token)
                &&& r.expires_in == seconds_in(reply.expires_in)
                &&& r.refresh_token_expires_in == seconds_in(reply.refresh_token_expires_in)
                &&& r.ok <==> token_in(reply.refresh_token).len() > 0
                &&& r.ok ==> r.error@.len() == 0
                &&& !r.ok ==> r.error@ == "eBay didn't return a refresh token: "@ + reply.printed@
            },
            Err((_, body)) => fails(
                r,
                "eBay error exchanging the code (HTTP "@ + digits@ + "): "@ + body@,
                auth_url@,
            ),
        },
{
}

/// What a reply holds is passed on as it was read; a text that cannot be read is told whole, behind
/// the parser's message.
pub proof fn law_exchange_of_text(
    status: u16,
    text: &str,
    parsed: Result<TokenReply, String>,
    r: Result<TokenReply, (u16, String)>,
)
    requires
        call_ensures(exchange_parsed, (status, text, parsed), r),
    ensures
        match parsed {
            Ok(reply) => r matches Ok(passed) && {
                &&& token_in(passed.refresh_token) == token_in(reply.refresh_token)
                &&& token_in(passed.access_token) == token_in(reply.access_token)
                &&& seconds_in(passed.expires_in) == seconds_in(reply.expires_in)
                &&& seconds_in(passed.refresh_token_expires_in) == seconds_in(
                    reply.refresh_token_expires_in,
                )
                &&& passed.printed@ == reply.printed@
            },
            Err(e) => r matches Err((s, b)) && s == status && b@ == e@ + ": "@ + text@,
        },
{
    if let Ok(reply) = parsed {
        if let Ok(passed) = r {
            assert(passed@ == reply@);
            lemma_same_member(passed.refresh_token, reply.refresh_token);
            lemma_same_member(passed.access_token, reply.access_token);
            lemma_same_member(passed.expires_in, reply.expires_in);
            lemma_same_member(passed.refresh_token_expires_in, reply.refresh_token_expires_in);
        }
    }
}

proof fn lemma_same_member(a: Option<JsonScalar>, b: Option<JsonScalar>)
    requires
        scalar_view(a) == scalar_view(b),
    ensures
        token_in(a) == token_in(b),
        seconds_in(a) == seconds_in(b),
{
}

/// A success is read; any other reply is told with its own status and text, and an error with
/// status 0.
pub proof fn law_exchange(
    outcome: Outcome,
    status: u16,
    text: &str,
    parsed: Result<TokenReply, String>,
    passed: Result<TokenReply, (u16, String)>,
    r: Result<TokenReply, (u16, String)>,
)
    requires
        outcome matches Outcome::Reply { status: s, body } ==> status == s && text@ == body@,
        call_ensures(read_reply, (text,), parsed),
        call_ensures(exchange_parsed, (status, text, parsed), passed),
        call_ensures(exchange_auth_code, (outcome,), r),
    ensures
        match outcome {
            Outcome::Reply { status, body } => if status / 100 == 2 {
                match passed {
                    Ok(reply) => r matches Ok(x) && x@ == reply@,
                    Err((s, b)) => r matches Err((t, c)) && t == s && c@ == b@,
                }
            } else {
                r matches Err((s, b)) && s == status && b@ == body@
            },
            Outcome::Failed(e) => r matches Err((s, b)) && s == 0 && b@ == e@,
        },
{
}

// ---------------------------------------------------------------------------------------------
// The redirect
// ---------------------------------------------------------------------------------------------

/// Whether two optional texts are the same.
pub open spec fn same(a: Option<String>, b: Option<String>) -> bool {
    match a {
        Some(s) => b matches Some(t) && s@ == t@,
        None => b is None,
    }
}

/// A redirect carries what the query in the first line of its request says under `state` and
/// `code`, and the error under its description, or else under its name. A state that is missing is
/// empty.
pub proof fn law_redirect(
    text: &str,
    line: String,
    first: &str,
    target: String,
    word: &str,
    parts: (String, String),
    query: &str,
    state: Option<String>,
    code: Option<String>,
    description: Option<String>,
    error: Option<String>,
    r: Redirect,
)
    requires
        call_ensures(take_first_line, (text,), line),
        first@ == line@,
        call_ensures(take_second_word, (first,), target),
        word@ == target@,
        call_ensures(split_once, (word, '?'), parts),
        query@ == parts.1@,
        call_ensures(query_param, (query, "state"), state),
        call_ensures(query_param, (query, "code"), code),
        call_ensures(query_param, (query, "error_description"), description),
        call_ensures(query_param, (query, "error"), error),
        call_ensures(read_redirect_text, (text,), r),
    ensures
        state matches Some(s) ==> r.state@ == s@,
        state is None ==> r.state@.len() == 0,
        same(r.code, code),
        description is Some ==> same(r.error, description),
        description is None ==> same(r.error, error),
{
}

/// The bytes of a request, eight kilobytes of them, are read as the text that they encode.
pub proof fn law_redirect_of_bytes(request: &[u8], text: &str, told: Redirect, r: Redirect)
    requires
        call_ensures(read_redirect_text, (text,), told),
        call_ensures(read_redirect, (request,), r),
    ensures
        REDIRECT_LIMIT == 8 * 1024,
        request@ == encode_utf8(text@) || text@ == text_from_utf8(request@) ==> {
            &&& r.state@ == told.state@
            &&& same(r.code, told.code)
            &&& same(r.error, told.error)
        },
{
    if request@ == encode_utf8(text@) {
        encode_utf8_valid_utf8(text@);
        encode_utf8_decode_utf8(text@);
    }
    if request@ == encode_utf8(text@) || text@ == text_from_utf8(request@) {
        assert(r@ == told@);
    }
}

/// A page with a title, which it shows twice, and a message.
pub open spec fn shown(title: Seq<char>, message: Seq<char>) -> Seq<char> {
    "<!doctype html><html><head><meta charset=\"utf-8\"><title>WIM &mdash; "@ + title
        + "</title></head><body style=\"font-family:-apple-system,Segoe UI,Arial,sans-serif;background:#f3f5f9;display:flex;align-items:center;justify-content:center;height:100vh;margin:0;\"><div style=\"background:#fff;border-radius:14px;box-shadow:0 4px 24px rgba(31,45,71,.12);padding:28px 34px;max-width:420px;text-align:center;\"><div style=\"font-size:18px;font-weight:700;color:#28313f;margin-bottom:8px;\">"@
        + title + "</div><div style=\"font-size:13.5px;color:#5b6472;line-height:1.5;\">"@ + message
        + "</div></div></body></html>"@
}

/// A redirect is accepted exactly where it brings a code and the state that was sent; its code is
/// then handed on whole. Otherwise the error that it brings is told, or why it was refused. The
/// browser is shown a page that says which of these it is, with the page's length in bytes.
pub proof fn law_answer(
    redirect: Redirect,
    state: &str,
    length: u64,
    digits: String,
    r: Answer,
)
    requires
        call_ensures(answer_redirect, (redirect, state), r),
        call_ensures(to_decimal, (length,), digits),
    ensures
        r.code is Ok <==> redirect.code is Some && redirect.state@ == state@,
        r.code matches Ok(code) ==> (redirect.code matches Some(c) && code@ == c@),
        r.code matches Err(e) ==> match redirect.error {
            Some(told) => e@ == told@,
            None => if redirect.code is Some {
                e@ == "State mismatch — the redirect didn't match this sign-in attempt."@
            } else {
                e@ == "eBay didn't return an authorization code."@
            },
        },
        ({
            let html = if redirect.code is None {
                shown(
                    "Sign-in didn't complete"@,
                    "eBay didn't return an authorization code. You can close this tab and try again in WIM."@,
                )
            } else if redirect.state@ != state@ {
                shown(
                    "Connection rejected"@,
                    "WIM didn't recognize this sign-in attempt (state mismatch). Please close this tab and try Connect with eBay again."@,
                )
            } else {
                shown(
                    "Connected"@,
                    "You're connected — you can close this tab and go back to WIM."@,
                )
            };
            length == encode_utf8(html).len() ==> r.response@
                == "HTTP/1.1 200 OK\r\nContent-Type: text/html; charset=utf-8\r\nContent-Length: "@
                + digits@ + "\r\nConnection: close\r\n\r\n"@ + html
        }),
{
}

// ---------------------------------------------------------------------------------------------
// The course of a sign-in
// ---------------------------------------------------------------------------------------------

/// The scopes that are asked for where none are named.
pub open spec fn all_scopes() -> Seq<char> {
    "https://api.ebay.com/oauth/api_scope https://api.ebay.com/oauth/api_scope/sell.inventory https://api.ebay.com/oauth/api_scope/commerce.message https://api.ebay.com/oauth/api_scope/sell.fulfillment https://api.ebay.com/oauth/api_scope/sell.account.readonly https://api.ebay.com/oauth/api_scope/sell.finances https://api.ebay.com/oauth/api_scope/sell.analytics.readonly"@
}

/// Whether a sign-in is at its start, with these keys, this port, this address and this state.
pub open spec fn starts(
    login: LoginView,
    keys: LoginKeys,
    port: u16,
    auth_url: Seq<char>,
    state: Seq<char>,
) -> bool {
    &&& login.env == keys.env@
    &&& login.app_id == keys.app_id@
    &&& login.cert_id == keys.cert_id@
    &&& login.ru_name == keys.ru_name@
    &&& login.port == port
    &&& login.auth_url == auth_url
    &&& login.state == state
    &&& login.stage == StageView::Binding
}

/// A sign-in begins exactly where none of its three keys is blank, with a listener on the port. Its
/// address is that of the consent screen with the application, the redirect name, the scopes and
/// the state, each of them whole and encoded; with a blank scope all of them are asked for.
pub proof fn law_begin(
    keys: LoginKeys,
    scope: &str,
    port: u16,
    state: String,
    app_id: &str,
    cert_id: &str,
    ru_name: &str,
    env: &str,
    blank: (bool, bool, bool, bool),
    host: &'static str,
    asked: &str,
    st: &str,
    encoded: (String, String, String, String),
    r: Result<(Login, LoginAction), OAuthResult>,
    fresh: Result<(Login, LoginAction), OAuthResult>,
)
    requires
        app_id@ == keys.app_id@ && cert_id@ == keys.cert_id@ && ru_name@ == keys.ru_name@ && env@
            == keys.env@,
        call_ensures(is_blank, (app_id,), blank.0),
        call_ensures(is_blank, (cert_id,), blank.1),
        call_ensures(is_blank, (ru_name,), blank.2),
        call_ensures(is_blank, (scope,), blank.3),
        call_ensures(auth_base, (env,), host),
        blank.3 ==> asked@ == all_scopes(),
        !blank.3 ==> asked@ == scope@,
        call_ensures(percent_encode, (app_id,), encoded.0),
        call_ensures(percent_encode, (ru_name,), encoded.1),
        call_ensures(percent_encode, (asked,), encoded.2),
        call_ensures(percent_encode, (st,), encoded.3),
        call_ensures(begin_login_with, (keys, scope, port, state), r),
        call_ensures(begin_login, (keys, scope, port), fresh),
    ensures
        ({
            let given = !blank.0 && !blank.1 && !blank.2;
            let missing = "App ID, Cert ID, and RuName are all required before connecting."@;
            let url = host@ + "/oauth2/authorize?client_id="@ + encoded.0@ + "&redirect_uri="@
                + encoded.1@ + "&response_type=code&scope="@ + encoded.2@ + "&state="@ + encoded.3@;
            &&& !given ==> (r matches Err(e) && fails(e, missing, Seq::empty()))
            &&& !given ==> (fresh matches Err(e) && fails(e, missing, Seq::empty()))
            &&& given && st@ == state@ ==> (r matches Ok((login, action)) && starts(
                login@,
                keys,
                port,
                url,
                state@,
            ) && action == LoginAction::Listen(port))
            &&& given ==> (fresh matches Ok((login, action)) && login@.state.len() == 24
                && action == LoginAction::Listen(port))
            &&& given && fresh->Ok_0.0@.state == st@ ==> starts(
                fresh->Ok_0.0@,
                keys,
                port,
                url,
                st@,
            )
        }),
{
}

/// Whether a sign-in is the same as before, but for its stage.
pub open spec fn goes_on(before: LoginView, after: LoginView, stage: StageView) -> bool {
    &&& after.env == before.env
    &&& after.app_id == before.app_id
    &&& after.cert_id == before.cert_id
    &&& after.ru_name == before.ru_name
    &&& after.port == before.port
    &&& after.auth_url == before.auth_url
    &&& after.state == before.state
    &&& after.stage == stage
}

/// Whether a sign-in ends with an error.
pub open spec fn ends_with_error(
    before: LoginView,
    r: Option<(Login, LoginAction)>,
    error: Seq<char>,
) -> bool {
    r matches Some((login, action)) && {
        &&& goes_on(before, login@, StageView::Finished)
        &&& action matches LoginAction::Finish(result) && fails(result, error, before.auth_url)
    }
}

/// A sign-in goes from the listener to the browser, to whom it shows its own address, and from
/// there to the redirect. Where one of them fails, it ends with that error.
pub proof fn law_opening(
    login: Login,
    event: LoginEvent,
    digits: String,
    r: Option<(Login, LoginAction)>,
)
    requires
        login@.wf(),
        call_ensures(to_decimal, (login@.port as u64,), digits),
        call_ensures(Login::next, (login, event), r),
    ensures
        login@.stage is Binding ==> match event {
            LoginEvent::Done => r matches Some((next, action)) && {
                &&& goes_on(login@, next@, StageView::Opening)
                &&& action matches LoginAction::Browse(url) && url@ == login@.auth_url
            },
            LoginEvent::Failed(e) => ends_with_error(
                login@,
                r,
                "Couldn't open a local listener on port "@ + digits@ + " ("@ + e@
                    + "). Close anything else using that port and try again."@,
            ),
            _ => r is None,
        },
        login@.stage is Opening ==> match event {
            LoginEvent::Done => r matches Some((next, action)) && {
                &&& goes_on(login@, next@, StageView::Waiting)
                &&& action is Await
            },
            LoginEvent::Failed(e) => ends_with_error(
                login@,
                r,
                "Couldn't open your browser automatically ("@ + e@
                    + "). Open this link yourself: "@ + login@.auth_url,
            ),
            _ => r is None,
        },
        login@.stage is Finished ==> r is None,
{
}

/// A redirect is read and answered, and the answer decides how the sign-in goes on; without one it
/// ends with the listener's error, or because the time is up.
pub proof fn law_waiting(
    login: Login,
    event: LoginEvent,
    request: &[u8],
    redirect: Redirect,
    state: &str,
    answer: Answer,
    r: Option<(Login, LoginAction)>,
)
    requires
        login@.wf(),
        login@.stage is Waiting,
        event matches LoginEvent::Redirected(bytes) ==> request@ == bytes@,
        call_ensures(read_redirect, (request,), redirect),
        state@ == login@.state,
        call_ensures(answer_redirect, (redirect, state), answer),
        call_ensures(Login::next, (login, event), r),
    ensures
        match event {
            LoginEvent::Redirected(_) => r matches Some((next, action)) && {
                &&& match answer.code {
                    Ok(code) => goes_on(login@, next@, StageView::Answering(Ok(code@))),
                    Err(e) => goes_on(login@, next@, StageView::Answering(Err(e@))),
                }
                &&& action matches LoginAction::Reply(response) && response@ == answer.response@
            },
            LoginEvent::Failed(e) => ends_with_error(login@, r, "Local listener error: "@ + e@),
            LoginEvent::TimedOut => ends_with_error(
                login@,
                r,
                "Timed out waiting for you to finish signing in (3 minutes). Try again — the browser tab can be closed."@,
            ),
            _ => r is None,
        },
{
}

/// Once the browser has been answered, whether it got the answer or not, the code is exchanged with
/// the keys of the sign-in; without a code the sign-in ends with the error.
pub proof fn law_answering(
    login: Login,
    event: LoginEvent,
    env: &str,
    app_id: &str,
    cert_id: &str,
    ru_name: &str,
    code: &str,
    request: HttpRequest,
    r: Option<(Login, LoginAction)>,
)
    requires
        login@.wf(),
        login@.stage is Answering,
        env@ == login@.env && app_id@ == login@.app_id && cert_id@ == login@.cert_id && ru_name@
            == login@.ru_name,
        login@.stage->Answering_0 matches Ok(c) ==> code@ == c,
        call_ensures(code_request, (env, app_id, cert_id, ru_name, code), request),
        call_ensures(Login::next, (login, event), r),
    ensures
        event is Done || event is Failed ==> match login@.stage->Answering_0 {
            Ok(_) => r matches Some((next, action)) && {
                &&& goes_on(login@, next@, StageView::Exchanging)
                &&& action matches LoginAction::Send(q) && q@ == request@
            },
            Err(e) => ends_with_error(login@, r, e),
        },
        !(event is Done || event is Failed) ==> r is None,
{
}

/// The exchange ends the sign-in, and what it yielded is told.
pub proof fn law_exchanging(
    login: Login,
    event: LoginEvent,
    outcome: Outcome,
    exchange: Result<TokenReply, (u16, String)>,
    auth_url: &str,
    told: OAuthResult,
    r: Option<(Login, LoginAction)>,
)
    requires
        login@.wf(),
        login@.stage is Exchanging,
        event matches LoginEvent::Exchanged(o) ==> o == outcome,
        call_ensures(exchange_auth_code, (outcome,), exchange),
        auth_url@ == login@.auth_url,
        call_ensures(login_result, (exchange, auth_url), told),
        call_ensures(Login::next, (login, event), r),
    ensures
        event is Exchanged ==> (r matches Some((next, action)) && {
            &&& goes_on(login@, next@, StageView::Finished)
            &&& action matches LoginAction::Finish(result) && result@ == told@
        }),
        !(event is Exchanged) ==> r is None,
{
}

} // verus!
