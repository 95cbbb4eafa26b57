use wim::http::{Body, Outcome};
use wim::login::{
    answer_redirect, begin_login, begin_login_with, browser_unavailable, exchange_auth_code,
    exchange_parsed, listener_error, listener_unavailable, login_refused, login_result,
    login_timed_out, random_state, read_redirect, read_redirect_text, state_from, Login,
    LoginAction, LoginEvent, LoginKeys, OAuthResult, Redirect, LOGIN_SCOPES, LOGIN_TIMEOUT_SECS,
    REDIRECT_LIMIT, STATE_LEN,
};
use wim::outside::JsonScalar;
use wim::percent::{percent_encode, query_param};
use wim::tokens::TokenReply;

fn login_reply(status: u16, body: &str) -> Outcome {
    Outcome::Reply { status, body: body.to_string() }
}

fn failed(r: OAuthResult) -> (String, String) {
    assert!(!r.ok);
    assert_eq!(
        (r.refresh_token, r.access_token, r.expires_in, r.refresh_token_expires_in),
        ("".to_string(), "".to_string(), 0, 0)
    );
    (r.error, r.auth_url)
}

fn redirect(state: &str, code: Option<&str>, error: Option<&str>) -> Redirect {
    Redirect {
        state: state.to_string(),
        code: code.map(|s| s.to_string()),
        error: error.map(|s| s.to_string()),
    }
}

fn keys(env: &str, app_id: &str, cert_id: &str, ru_name: &str) -> LoginKeys {
    LoginKeys {
        env: env.to_string(),
        app_id: app_id.to_string(),
        cert_id: cert_id.to_string(),
        ru_name: ru_name.to_string(),
    }
}

/// A sign-in of the state `St` whose browser has been opened.
fn waiting() -> Login {
    let keys = keys("production", "app", "cert", "Ru");
    let (login, action) = begin_login_with(keys, "s", 8721, "St".to_string()).ok().unwrap();
    assert!(matches!(action, LoginAction::Listen(8721)));
    let (login, action) = login.next(LoginEvent::Done).unwrap();
    assert!(matches!(action, LoginAction::Browse(_)));
    let (login, action) = login.next(LoginEvent::Done).unwrap();
    assert!(matches!(action, LoginAction::Await));
    login
}

fn redirected(login: Login, query: &str) -> (Login, String) {
    let request = format!("GET /cb?{} HTTP/1.1\r\n\r\n", query);
    match login.next(LoginEvent::Redirected(request.into_bytes())) {
        Some((login, LoginAction::Reply(response))) => (login, response),
        _ => panic!("the browser is not answered"),
    }
}

fn end(step: Option<(Login, LoginAction)>) -> OAuthResult {
    match step {
        Some((login, LoginAction::Finish(result))) => {
            assert!(login.next(LoginEvent::Done).is_none());
            result
        }
        _ => panic!("not at its end"),
    }
}

#[test]
fn states() {
    assert_eq!(state_from(&[0, 25, 26, 51, 52, 61]), "azAZ09");
    assert_eq!(state_from(&[]), "");
    let state = random_state();
    assert_eq!(state.len(), STATE_LEN);
    assert_eq!(STATE_LEN, 24);
    assert!(state.chars().all(|c| c.is_ascii_alphanumeric()));
}

#[test]
fn states_are_not_repeated() {
    assert_ne!(random_state(), random_state());
    assert_ne!(state_from(&[1, 2]), state_from(&[2, 1]));
}

#[test]
fn limits() {
    assert_eq!((LOGIN_TIMEOUT_SECS, REDIRECT_LIMIT), (180, 8192));
}

#[test]
fn scopes_that_are_asked_for() {
    let scopes: Vec<&str> = LOGIN_SCOPES.split(' ').collect();
    assert_eq!(
        scopes,
        vec![
            "https://api.ebay.com/oauth/api_scope",
            "https://api.ebay.com/oauth/api_scope/sell.inventory",
            "https://api.ebay.com/oauth/api_scope/commerce.message",
            "https://api.ebay.com/oauth/api_scope/sell.fulfillment",
            "https://api.ebay.com/oauth/api_scope/sell.account.readonly",
            "https://api.ebay.com/oauth/api_scope/sell.finances",
            "https://api.ebay.com/oauth/api_scope/sell.analytics.readonly",
        ]
    );
    assert!(!LOGIN_SCOPES.contains("buy.marketplace.insights"));
}

#[test]
fn keys_are_required() {
    let expected = (
        "App ID, Cert ID, and RuName are all required before connecting.".to_string(),
        "".to_string(),
    );
    for (app, cert, ru) in [("", "c", "r"), ("a", " \t", "r"), ("a", "c", "\u{a0}")] {
        match begin_login(keys("production", app, cert, ru), "", 1) {
            Ok(_) => panic!("begun"),
            Err(r) => assert_eq!(failed(r), expected),
        }
    }
}

fn consent_screen(begun: Result<(Login, LoginAction), OAuthResult>) -> String {
    match begun.ok().unwrap().0.next(LoginEvent::Done) {
        Some((_, LoginAction::Browse(url))) => url,
        _ => panic!("no browser"),
    }
}

#[test]
fn the_consent_screen() {
    let keys = keys("production", "app id", "c", "Ru&Name");
    assert_eq!(
        consent_screen(begin_login_with(keys, "s one", 1, "St".to_string())),
        "https://auth.ebay.com/oauth2/authorize?client_id=app%20id&redirect_uri=Ru%26Name&response_type=code&scope=s%20one&state=St"
    );
}

#[test]
fn the_consent_screen_carries_everything() {
    let url = consent_screen(begin_login(keys("sandbox", "a+b", "c", "r=1&x"), " ", 1));
    assert!(url.starts_with("https://auth.sandbox.ebay.com/oauth2/authorize?"));
    let query = url.split_once('?').unwrap().1;
    assert_eq!(query_param(query, "client_id"), Some("a+b".to_string()));
    assert_eq!(query_param(query, "redirect_uri"), Some("r=1&x".to_string()));
    assert_eq!(query_param(query, "response_type"), Some("code".to_string()));
    assert_eq!(query_param(query, "scope"), Some(LOGIN_SCOPES.to_string()));
    let state = query_param(query, "state").unwrap();
    assert_eq!(state.len(), 24);
    assert!(state.chars().all(|c| c.is_ascii_alphanumeric()));
}

#[test]
fn a_sign_in_that_succeeds() {
    let (login, response) = redirected(waiting(), "code=C%20D&state=St");
    assert!(response.contains("<title>WIM &mdash; Connected</title>"));
    let (login, action) = login.next(LoginEvent::Done).unwrap();
    let request = match action {
        LoginAction::Send(request) => request,
        _ => panic!("no exchange"),
    };
    assert_eq!(request.url, "https://api.ebay.com/identity/v1/oauth2/token");
    assert_eq!(request.headers[0].1, "Basic YXBwOmNlcnQ=");
    match request.body {
        Body::Form(fields) => {
            assert_eq!(fields[1], ("code".to_string(), "C D".to_string()));
            assert_eq!(fields[2], ("redirect_uri".to_string(), "Ru".to_string()));
        }
        _ => panic!("no form"),
    }
    let reply = login_reply(200, "{\"refresh_token\":\"R\"}");
    let result = end(login.next(LoginEvent::Exchanged(reply)));
    assert!(result.ok);
    assert_eq!(result.refresh_token, "R");
    assert!(result.auth_url.starts_with("https://auth.ebay.com/"));
}

#[test]
fn a_browser_that_is_gone_does_not_stop_the_exchange() {
    let (login, _) = redirected(waiting(), "code=C&state=St");
    assert!(matches!(
        login.next(LoginEvent::Failed("gone".to_string())),
        Some((_, LoginAction::Send(_)))
    ));
}

#[test]
fn nothing_is_exchanged_for_a_foreign_state() {
    let (login, response) = redirected(waiting(), "code=C&state=Other");
    assert!(response.contains("Connection rejected"));
    let result = end(login.next(LoginEvent::Done));
    assert_eq!(
        failed(result).0,
        "State mismatch — the redirect didn't match this sign-in attempt."
    );
}

#[test]
fn nothing_is_exchanged_without_a_code() {
    let (login, _) = redirected(waiting(), "error=access_denied&state=St");
    assert_eq!(failed(end(login.next(LoginEvent::Done))).0, "access_denied");
}

#[test]
fn sign_ins_that_end_early() {
    let begin = || {
        let keys = keys("production", "app", "cert", "Ru");
        begin_login_with(keys, "s", 8721, "St".to_string()).ok().unwrap().0
    };
    let down = || LoginEvent::Failed("down".to_string());
    assert!(failed(end(begin().next(down()))).0.starts_with(
        "Couldn't open a local listener on port 8721 (down)."
    ));
    let (opening, _) = begin().next(LoginEvent::Done).unwrap();
    assert!(failed(end(opening.next(down()))).0.starts_with(
        "Couldn't open your browser automatically (down). Open this link yourself: https://auth."
    ));
    assert_eq!(failed(end(waiting().next(down()))).0, "Local listener error: down");
    assert!(failed(end(waiting().next(LoginEvent::TimedOut))).0.starts_with("Timed out"));
}

#[test]
fn events_out_of_turn() {
    assert!(waiting().next(LoginEvent::Done).is_none());
    assert!(waiting().next(LoginEvent::Exchanged(login_reply(200, "{}"))).is_none());
    let (login, _) = redirected(waiting(), "code=C&state=St");
    assert!(login.next(LoginEvent::TimedOut).is_none());
}

#[test]
fn troubles_on_the_way() {
    assert_eq!(
        failed(listener_unavailable(8721, "in use", "u")),
        (
            "Couldn't open a local listener on port 8721 (in use). Close anything else using that port and try again.".to_string(),
            "u".to_string()
        )
    );
    assert_eq!(
        failed(browser_unavailable("none", "u")).0,
        "Couldn't open your browser automatically (none). Open this link yourself: u"
    );
    assert_eq!(failed(listener_error("reset", "u")).0, "Local listener error: reset");
    assert_eq!(
        failed(login_timed_out("u")).0,
        "Timed out waiting for you to finish signing in (3 minutes). Try again — the browser tab can be closed."
    );
    assert_eq!(
        failed(login_refused("denied".to_string(), "u")),
        ("denied".to_string(), "u".to_string())
    );
}

#[test]
fn redirects_are_read() {
    let r = read_redirect(b"GET /wim-ebay-callback?code=v%5E1%23i&state=St HTTP/1.1\r\nHost: x\r\n");
    assert_eq!(r.state, "St");
    assert_eq!(r.code, Some("v^1#i".to_string()));
    assert_eq!(r.error, None);
    let r = read_redirect_text("GET /?error=access_denied&error_description=You+said+no HTTP/1.1");
    assert_eq!(r.error, Some("You said no".to_string()));
    assert_eq!(r.code, None);
    assert_eq!(r.state, "");
    let r = read_redirect_text("GET /?error=access_denied HTTP/1.1");
    assert_eq!(r.error, Some("access_denied".to_string()));
}

#[test]
fn odd_redirects_are_read() {
    for text in ["", "GET", "GET /favicon.ico HTTP/1.1\r\n", "\r\nGET /?code=1 HTTP/1.1"] {
        let r = read_redirect_text(text);
        assert_eq!((r.state.as_str(), r.code, r.error), ("", None, None));
    }
    assert_eq!(read_redirect(b"GET /?code=\xff HTTP/1.1").code, Some("\u{fffd}".to_string()));
    assert_eq!(read_redirect_text("GET /?a?code=1&code=2 X").code, Some("2".to_string()));
}

#[test]
fn a_redirect_is_read_as_it_was_sent() {
    let code = "a b&=%é";
    let state = random_state();
    let request = format!(
        "GET /cb?code={}&state={} HTTP/1.1\r\nHost: localhost\r\n\r\n",
        percent_encode(code),
        percent_encode(&state)
    );
    let answer = answer_redirect(read_redirect(request.as_bytes()), &state);
    assert_eq!(answer.code, Ok(code.to_string()));
}

#[test]
fn an_accepted_redirect() {
    let answer = answer_redirect(redirect("St", Some("C"), Some("ignored")), "St");
    assert_eq!(answer.code, Ok("C".to_string()));
    let (head, html) = answer.response.split_once("\r\n\r\n").unwrap();
    assert_eq!(
        head,
        format!(
            "HTTP/1.1 200 OK\r\nContent-Type: text/html; charset=utf-8\r\nContent-Length: {}\r\nConnection: close",
            html.len()
        )
    );
    assert_eq!(
        html,
        "<!doctype html><html><head><meta charset=\"utf-8\"><title>WIM &mdash; Connected</title></head><body style=\"font-family:-apple-system,Segoe UI,Arial,sans-serif;background:#f3f5f9;display:flex;align-items:center;justify-content:center;height:100vh;margin:0;\"><div style=\"background:#fff;border-radius:14px;box-shadow:0 4px 24px rgba(31,45,71,.12);padding:28px 34px;max-width:420px;text-align:center;\"><div style=\"font-size:18px;font-weight:700;color:#28313f;margin-bottom:8px;\">Connected</div><div style=\"font-size:13.5px;color:#5b6472;line-height:1.5;\">You're connected — you can close this tab and go back to WIM.</div></div></body></html>"
    );
}

#[test]
fn a_foreign_state_is_refused() {
    let answer = answer_redirect(redirect("other", Some("C"), None), "St");
    assert_eq!(
        answer.code,
        Err("State mismatch — the redirect didn't match this sign-in attempt.".to_string())
    );
    assert!(answer.response.contains("<title>WIM &mdash; Connection rejected</title>"));
    assert!(answer.response.contains("WIM didn't recognize this sign-in attempt (state mismatch)."));
    let answer = answer_redirect(redirect("other", Some("C"), Some("e")), "St");
    assert_eq!(answer.code, Err("e".to_string()));
}

#[test]
fn a_redirect_without_a_code() {
    let answer = answer_redirect(redirect("St", None, None), "St");
    assert_eq!(answer.code, Err("eBay didn't return an authorization code.".to_string()));
    assert!(answer.response.contains("Sign-in didn't complete"));
    assert!(answer.response.contains("You can close this tab and try again in WIM."));
    let answer = answer_redirect(redirect("", None, Some("You said no")), "St");
    assert_eq!(answer.code, Err("You said no".to_string()));
}

#[test]
fn the_exchange() {
    let body = "{\"refresh_token\":\"R\",\"access_token\":\"A\",\"expires_in\":7200,\"refresh_token_expires_in\":47304000}";
    let r = login_result(exchange_auth_code(login_reply(200, body)), "u");
    assert!(r.ok);
    assert_eq!((r.refresh_token.as_str(), r.access_token.as_str()), ("R", "A"));
    assert_eq!((r.expires_in, r.refresh_token_expires_in), (7200, 47304000));
    assert_eq!((r.error.as_str(), r.auth_url.as_str()), ("", "u"));
}

#[test]
fn no_success_without_a_refresh_token() {
    for body in ["{\"access_token\":\"A\"}", "{\"access_token\":\"A\",\"refresh_token\":\"\"}"] {
        let r = login_result(exchange_auth_code(login_reply(200, body)), "u");
        assert!(!r.ok);
        assert_eq!((r.refresh_token.as_str(), r.access_token.as_str()), ("", "A"));
        assert_eq!(r.error, format!("eBay didn't return a refresh token: {}", body));
    }
}

#[test]
fn exchanges_that_fail() {
    assert_eq!(
        failed(login_result(exchange_auth_code(login_reply(400, "bad")), "u")).0,
        "eBay error exchanging the code (HTTP 400): bad"
    );
    assert_eq!(
        failed(login_result(exchange_auth_code(login_reply(200, "<x>")), "u")).0,
        "eBay error exchanging the code (HTTP 200): expected value at line 1 column 1: <x>"
    );
    assert_eq!(
        failed(login_result(exchange_auth_code(Outcome::Failed("down".to_string())), "u")).0,
        "eBay error exchanging the code (HTTP 0): down"
    );
}

#[test]
fn exchanges_that_were_read() {
    let reply = TokenReply {
        access_token: Some(JsonScalar::Other),
        refresh_token: Some(JsonScalar::Text("R".to_string())),
        expires_in: Some(JsonScalar::Text("1".to_string())),
        refresh_token_expires_in: Some(JsonScalar::Number { unsigned: None, signed: Some(-1) }),
        printed: "p".to_string(),
    };
    let r = login_result(exchange_parsed(200, "t", Ok(reply)), "u");
    assert!(r.ok);
    assert_eq!((r.access_token.as_str(), r.expires_in, r.refresh_token_expires_in), ("", 0, -1));
    match exchange_parsed(200, "t", Err("bad".to_string())) {
        Ok(_) => panic!("exchanged"),
        Err(e) => assert_eq!(e, (200, "bad: t".to_string())),
    }
}
