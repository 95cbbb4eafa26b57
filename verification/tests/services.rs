use wim::http::{ApiResult, Body, HttpRequest, Json, Method, Outcome, Step};
use wim::services::{
    actor_id, apify_fetch_sold, apify_report, iq_fetch_scans, iq_mark_imported, iq_report,
    names_project, supabase_report, supabase_rpc,
};

fn service_headers(request: &HttpRequest) -> Vec<(&str, &str)> {
    request.headers.iter().map(|h| (h.0.as_str(), h.1.as_str())).collect()
}

fn accepted(url: &str) -> bool {
    matches!(supabase_rpc(url, "k", "f", "{}"), Step::Send(_))
}

#[test]
fn functions_of_a_project() {
    match supabase_rpc("https://abc.supabase.co//", "key", "get_items", "{\"a\":1}") {
        Step::Send(r) => {
            assert_eq!(r.method, Method::Post);
            assert_eq!(r.url, "https://abc.supabase.co/rest/v1/rpc/get_items");
            assert_eq!(
                service_headers(&r),
                vec![("apikey", "key"), ("Content-Type", "application/json")]
            );
            assert!(matches!(&r.body, Body::Text(t) if t == "{\"a\":1}"));
        }
        Step::Done(_) => panic!("refused"),
    }
}

#[test]
fn addresses_that_are_no_projects() {
    for url in [
        "http://abc.supabase.co",
        "https://example.com",
        "https://example.com/.supabase.co",
        "https://abc.supabase.co.example.com",
        "https://abc.supabase.co:443",
        "https://evil.example?x=.supabase.co",
        "https://evil.example#.supabase.co",
        "https://evil.example\\.supabase.co",
        "https://abc.supabase.co@evil.example",
        "https://abc.supabase.co?x=1",
        "https://abc.supabase.co#x",
        "https://https://abc.supabase.co",
        "https:///abc.supabase.co",
        "HTTPS://abc.supabase.co",
        "supabase.co",
        "",
    ] {
        match supabase_rpc(url, "k", "f", "{}") {
            Step::Send(r) => panic!("sent to {}", r.url),
            Step::Done(r) => {
                assert!(!r.ok);
                assert_eq!(r.status, 0);
                assert_eq!(r.body, "Refused: URL is not a valid Supabase project host");
            }
        }
    }
}

#[test]
fn addresses_that_are_projects() {
    assert!(accepted("https://abc.supabase.co"));
    assert!(accepted("https://abc.supabase.co/x/y/"));
    assert!(accepted("https://abc.supabase.co/x?y#z"));
    assert!(accepted("https://abc.supabase.co?x=.supabase.co"));
    assert!(names_project("https://abc.supabase.co"));
    assert!(!names_project("https://abc.supabase.co?foo"));
    assert!(!names_project("https://"));
}

#[test]
fn what_is_told_of_a_function() {
    let told = |outcome| {
        let r = supabase_report("https://a.supabase.co/", "f", "{1}", outcome);
        (r.ok, r.status, r.body)
    };
    assert_eq!(
        told(Outcome::Reply { status: 200, body: "[]".to_string() }),
        (true, 200, "[]".to_string())
    );
    assert_eq!(
        told(Outcome::Reply { status: 404, body: "no".to_string() }),
        (false, 404, "[POST https://a.supabase.co/rest/v1/rpc/f]\nSent: {1}\nno".to_string())
    );
    assert_eq!(
        told(Outcome::Failed("down".to_string())),
        (false, 0, "[POST https://a.supabase.co/rest/v1/rpc/f]\nSent: {1}\ndown".to_string())
    );
}

#[test]
fn scans() {
    let r = iq_fetch_scans("https://iq.example/", "T");
    assert_eq!(r.method, Method::Get);
    assert_eq!(r.url, "https://iq.example/api/pending-scans");
    assert_eq!(service_headers(&r), vec![("Authorization", "Bearer T")]);
    assert!(matches!(r.body, Body::Empty));
    let r = iq_mark_imported("https://iq.example", "T", "s-1");
    assert_eq!(r.method, Method::Post);
    assert_eq!(r.url, "https://iq.example/api/scans/s-1/imported");
    assert_eq!(
        service_headers(&r),
        vec![("Authorization", "Bearer T"), ("Content-Type", "application/json")]
    );
    assert!(matches!(&r.body, Body::Text(t) if t == "{}"));
}

#[test]
fn actors_as_they_are_typed() {
    for typed in [
        "user/name",
        "user~name",
        " user/name\n",
        "/user/name/",
        "//user~name/ ",
        "https://api.apify.com/v2/acts/user~name/run-sync-get-dataset-items?token=x",
        "https://api.apify.com/v2/acts/user/name/runs",
        "https://api.apify.com/v2/acts/user~name?token=x",
        "https://api.apify.com/v2/acts/user/name?token=x/y",
        "https://api.apify.com/v2/acts/user/name/builds/latest",
        "https://console.apify.com/acts/user~name",
        "https://console.apify.com/actors/user~name",
        "https://console.apify.com/actors/user/name/",
        "https://console.apify.com/actors/user~name/input#tab",
        "https://console.apify.com/organization/x/actors/user~name/runs/1",
        "x/acts/user~name/run/acts/other",
        "https://apify.com/user/name",
        "https://apify.com/user/name/input-schema?x#y",
        "http://apify.com/user~name/",
    ] {
        assert_eq!(actor_id(typed), "user~name", "{}", typed);
    }
}

#[test]
fn actors_never_hold_a_slash() {
    for typed in ["", "/", "a//b", "https://x.example/y", "/acts//a/b/", "a/b/c"] {
        assert!(!actor_id(typed).contains('/'));
    }
    assert_eq!(actor_id("a//b"), "a~~b");
    assert_eq!(actor_id("https://api.apify.com/v2/acts/user//name"), "user~~name");
    assert_eq!(actor_id("https://api.apify.com/v2/acts/user//name/runs"), "user~~name");
    assert_eq!(actor_id("https://api.apify.com/v2/acts/user//runs"), "user");
    assert_eq!(actor_id("user/actors/"), "user~actors");
    assert_eq!(actor_id("user/actors/x"), "user~actors~x");
    assert_eq!(actor_id("/"), "");
}

#[test]
fn a_name_may_start_like_a_run() {
    assert_eq!(actor_id("https://api.apify.com/v2/acts/user/runner/runs"), "user~runner");
    assert_eq!(actor_id("https://api.apify.com/v2/acts/user~runner/runs"), "user~runner");
    assert_eq!(actor_id("user/runner"), "user~runner");
    assert_eq!(actor_id("user/runs"), "user~runs");
    assert_eq!(actor_id("https://api.apify.com/v2/acts/user/input"), "user~input");
    assert_eq!(actor_id("https://apify.com"), "");
}

#[test]
fn actors_by_their_identifier() {
    for pasted in [
        "https://api.apify.com/v2/acts/aBc123/run-sync?token=x",
        "https://api.apify.com/v2/acts/aBc123/runs",
        "https://console.apify.com/actors/aBc123",
        "https://console.apify.com/actors/aBc123/",
        "https://console.apify.com/actors/aBc123?x",
        "https://api.apify.com/v2/acts/aBc123/run",
        "https://console.apify.com/actors/aBc123/input",
        "https://console.apify.com/actors/aBc123/builds/0.1?x",
    ] {
        assert_eq!(actor_id(pasted), "aBc123", "{}", pasted);
    }
}

#[test]
fn replies_of_services_are_told_as_they_came() {
    let reports: [fn(Outcome) -> ApiResult; 2] = [iq_report, apify_report];
    for report in reports {
        let r = report(Outcome::Reply { status: 201, body: "x".to_string() });
        assert_eq!((r.ok, r.status, r.body.as_str()), (true, 201, "x"));
        assert!(!report(Outcome::Reply { status: 100, body: "x".to_string() }).ok);
        let r = report(Outcome::Failed("down".to_string()));
        assert_eq!((r.ok, r.status, r.body.as_str()), (false, 0, "down"));
    }
}

#[test]
fn sold_listings() {
    let r = apify_fetch_sold("tok", "u/n", "old camera", 40);
    assert_eq!(r.method, Method::Post);
    assert_eq!(
        r.url,
        "https://api.apify.com/v2/acts/u~n/run-sync-get-dataset-items?token=tok"
    );
    assert_eq!(service_headers(&r), vec![("Content-Type", "application/json")]);
    let members = match r.body {
        Body::Json(Json::Object(m)) => m,
        _ => panic!("no document"),
    };
    let names: Vec<&str> = members.iter().map(|m| m.0.as_str()).collect();
    assert_eq!(
        names,
        vec!["searchQueries", "keywords", "maxItems", "maxListingsPerSearch", "maxResults"]
    );
    for member in &members[..2] {
        match &member.1 {
            Json::List(l) => {
                assert_eq!(l.len(), 1);
                assert!(matches!(&l[0], Json::Text(t) if t == "old camera"));
            }
            _ => panic!("no list"),
        }
    }
    for member in &members[2..] {
        assert!(matches!(member.1, Json::Number(40)));
    }
}
