use wim::http::{
    refused, report_lenient, report_noted, report_plain, succeeded, ApiResult, Body, Form,
    HttpRequest, Json, Members, Method, Outcome, CONNECT_TIMEOUT_SECS, REQUEST_TIMEOUT_SECS,
};

fn reply(status: u16, body: &str) -> Outcome {
    Outcome::Reply { status, body: body.to_string() }
}

fn told(r: ApiResult) -> (bool, u16, String) {
    (r.ok, r.status, r.body)
}

#[test]
fn statuses_that_mean_success() {
    for (status, ok) in [(199, false), (200, true), (299, true), (300, false), (0, false)] {
        assert_eq!(succeeded(status), ok);
    }
}

#[test]
fn plain_reports() {
    assert_eq!(told(report_plain(reply(204, "x"))), (true, 204, "x".to_string()));
    assert_eq!(told(report_plain(reply(100, "x"))), (false, 100, "x".to_string()));
    assert_eq!(told(report_plain(reply(404, "x"))), (false, 404, "x".to_string()));
    assert_eq!(
        told(report_plain(Outcome::Failed("down".to_string()))),
        (false, 0, "down".to_string())
    );
}

#[test]
fn lenient_reports() {
    assert_eq!(told(report_lenient(reply(100, "x"))), (true, 100, "x".to_string()));
    assert_eq!(told(report_lenient(reply(299, "x"))), (true, 299, "x".to_string()));
    assert_eq!(told(report_lenient(reply(300, "x"))), (false, 300, "x".to_string()));
    assert_eq!(
        told(report_lenient(Outcome::Failed("down".to_string()))),
        (false, 0, "down".to_string())
    );
}

#[test]
fn noted_reports() {
    let note = || "[GET x]\n".to_string();
    assert_eq!(told(report_noted(note(), reply(200, "x"))), (true, 200, "x".to_string()));
    assert_eq!(
        told(report_noted(note(), reply(401, "x"))),
        (false, 401, "[GET x]\nx".to_string())
    );
    assert_eq!(
        told(report_noted(note(), Outcome::Failed("down".to_string()))),
        (false, 0, "[GET x]\ndown".to_string())
    );
    assert_eq!(told(refused(7, "no".to_string())), (false, 7, "no".to_string()));
}

#[test]
fn requests_are_put_together() {
    let r = HttpRequest::to(Method::Put, "u").header("a", "1").header("b", "2").text("t");
    assert_eq!(r.method, Method::Put);
    assert_eq!(r.url, "u");
    assert!(r.login.is_none());
    assert_eq!(r.headers, vec![("a".into(), "1".into()), ("b".into(), "2".into())]);
    assert!(matches!(r.body, Body::Text(t) if t == "t"));

    let r = HttpRequest::to(Method::Get, "u").login("me", Some("pw"));
    let login = r.login.unwrap();
    assert_eq!(login.user, "me");
    assert_eq!(login.password, Some("pw".to_string()));
    assert!(matches!(r.body, Body::Empty));
    assert!(HttpRequest::to(Method::Get, "u").login("me", None).login.unwrap().password.is_none());

    let form = Form::new().with("k", "v").with("k", "w").into_body();
    assert!(
        matches!(form, Body::Form(f) if f == vec![("k".to_string(), "v".to_string()), ("k".to_string(), "w".to_string())])
    );
}

#[test]
fn documents_are_put_together() {
    let json = Json::object(Members::new().with_text("a", "1").with("b", Json::Flag(true)));
    match json {
        Json::Object(members) => {
            assert_eq!(members.len(), 2);
            assert_eq!(members[0].0, "a");
            assert!(matches!(&members[0].1, Json::Text(t) if t == "1"));
            assert_eq!(members[1].0, "b");
            assert!(matches!(members[1].1, Json::Flag(true)));
        }
        _ => panic!("no object"),
    }
    assert!(matches!(Json::single(Json::Number(7)), Json::List(l) if l.len() == 1));
}

#[test]
fn timeouts() {
    assert_eq!((CONNECT_TIMEOUT_SECS, REQUEST_TIMEOUT_SECS), (15, 90));
}
