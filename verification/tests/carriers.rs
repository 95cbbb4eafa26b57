use wim::carriers::{
    after_sign_in, carrier_unreachable, keep_and_ask, key_of_token, name_of, sign_in_report,
    sign_in_request, sign_in_with, start_tracking, track_report, track_request, Carrier, Tracking,
};
use wim::http::{ApiResult, Body, HttpRequest, Json, Method, Outcome, Step};
use wim::outside::JsonScalar;
use wim::tokens::{cached_token, TokenCache, TokenReply};

const ALL: [Carrier; 3] = [Carrier::Usps, Carrier::Ups, Carrier::Fedex];

fn carrier_reply(status: u16, body: &str) -> Outcome {
    Outcome::Reply { status, body: body.to_string() }
}

fn carrier_told(r: ApiResult) -> (bool, u16, String) {
    (r.ok, r.status, r.body)
}

fn carrier_headers(request: &HttpRequest) -> Vec<(&str, &str)> {
    request.headers.iter().map(|h| (h.0.as_str(), h.1.as_str())).collect()
}

fn carrier_print(json: &Json) -> String {
    match json {
        Json::Text(s) => format!("{:?}", s),
        Json::Flag(b) => b.to_string(),
        Json::Number(n) => n.to_string(),
        Json::Ounces(s) => format!("oz({})", s),
        Json::List(l) => {
            format!("[{}]", l.iter().map(carrier_print).collect::<Vec<_>>().join(","))
        }
        Json::Object(m) => format!(
            "{{{}}}",
            m.iter()
                .map(|p| format!("{:?}:{}", p.0, carrier_print(&p.1)))
                .collect::<Vec<_>>()
                .join(",")
        ),
    }
}

fn carrier_body(request: &HttpRequest) -> String {
    match &request.body {
        Body::Empty => "".to_string(),
        Body::Text(t) => t.clone(),
        Body::Json(j) => carrier_print(j),
        _ => panic!("another body"),
    }
}

#[test]
fn names_of_carriers() {
    assert_eq!(ALL.map(name_of), ["USPS", "UPS", "FedEx"]);
    assert_eq!(key_of_token(Carrier::Usps, "me"), "usps:me");
    assert_eq!(key_of_token(Carrier::Ups, "me"), "ups:me");
    assert_eq!(key_of_token(Carrier::Fedex, "me"), "fedex:me");
}

#[test]
fn no_two_clients_share_a_token() {
    for a in ALL {
        for b in ALL {
            assert_eq!(key_of_token(a, "x") == key_of_token(b, "x"), a == b);
            assert_ne!(key_of_token(a, "x"), key_of_token(b, "y"));
        }
    }
}

#[test]
fn signing_in_with_usps() {
    let r = sign_in_request(Carrier::Usps, "id", "secret");
    assert_eq!(r.method, Method::Post);
    assert_eq!(r.url, "https://apis.usps.com/oauth2/v3/token");
    assert_eq!(carrier_headers(&r), vec![("Content-Type", "application/json")]);
    assert_eq!(
        carrier_body(&r),
        "{\"grant_type\":\"client_credentials\",\"client_id\":\"id\",\"client_secret\":\"secret\"}"
    );
}

#[test]
fn signing_in_with_ups() {
    let r = sign_in_request(Carrier::Ups, "id", "secret");
    assert_eq!(r.url, "https://onlinetools.ups.com/security/v1/oauth/token");
    assert_eq!(
        carrier_headers(&r),
        vec![("Content-Type", "application/x-www-form-urlencoded")]
    );
    assert_eq!(carrier_body(&r), "grant_type=client_credentials");
    let login = r.login.unwrap();
    assert_eq!((login.user.as_str(), login.password.as_deref()), ("id", Some("secret")));
}

#[test]
fn signing_in_with_fedex() {
    let r = sign_in_request(Carrier::Fedex, "id", "secret");
    assert_eq!(r.url, "https://apis.fedex.com/oauth/token");
    assert_eq!(
        carrier_body(&r),
        "grant_type=client_credentials&client_id=id&client_secret=secret"
    );
    assert!(r.login.is_none());
}

#[test]
fn asking_usps() {
    let r = track_request(Carrier::Usps, "T", "9400", 5);
    assert_eq!(r.method, Method::Get);
    assert_eq!(r.url, "https://apis.usps.com/tracking/v3/tracking/9400?expand=DETAIL");
    assert_eq!(carrier_headers(&r), vec![("Authorization", "Bearer T")]);
}

#[test]
fn asking_ups() {
    let r = track_request(Carrier::Ups, "T", "1Z", 1700000000);
    assert_eq!(r.method, Method::Get);
    assert_eq!(r.url, "https://onlinetools.ups.com/api/track/v1/details/1Z");
    assert_eq!(
        carrier_headers(&r),
        vec![
            ("Authorization", "Bearer T"),
            ("transId", "wim1700000000"),
            ("transactionSrc", "WIM"),
        ]
    );
}

#[test]
fn asking_fedex() {
    let r = track_request(Carrier::Fedex, "T", "77", 5);
    assert_eq!(r.method, Method::Post);
    assert_eq!(r.url, "https://apis.fedex.com/track/v1/trackingnumbers");
    assert_eq!(
        carrier_headers(&r),
        vec![
            ("Authorization", "Bearer T"),
            ("Content-Type", "application/json"),
            ("X-locale", "en_US"),
        ]
    );
    assert_eq!(
        carrier_body(&r),
        "{\"includeDetailedScans\":true,\"trackingInfo\":[{\"trackingNumberInfo\":{\"trackingNumber\":\"77\"}}]}"
    );
}

#[test]
fn sign_ins_that_work() {
    let body = "{\"access_token\":\"T\",\"expires_in\":\"14399\"}";
    assert_eq!(
        sign_in_report(Carrier::Ups, carrier_reply(200, body)).ok(),
        Some(("T".to_string(), 14399))
    );
    assert_eq!(
        sign_in_report(Carrier::Ups, carrier_reply(500, body)).ok(),
        Some(("T".to_string(), 14399))
    );
}

#[test]
fn sign_ins_that_fail() {
    assert_eq!(
        sign_in_report(Carrier::Usps, carrier_reply(401, "no")).map_err(carrier_told),
        Err((false, 401, "USPS sign-in failed (HTTP 401): no".to_string()))
    );
    assert_eq!(
        sign_in_report(Carrier::Fedex, Outcome::Failed("down".to_string())).map_err(carrier_told),
        Err((false, 0, "Couldn't reach FedEx: down".to_string()))
    );
    let reply = TokenReply {
        access_token: Some(JsonScalar::Other),
        refresh_token: None,
        expires_in: None,
        refresh_token_expires_in: None,
        printed: "p".to_string(),
    };
    assert_eq!(
        sign_in_with(Carrier::Ups, 200, "b", Ok(reply)).map_err(carrier_told),
        Err((false, 200, "UPS sign-in failed (HTTP 200): b".to_string()))
    );
}

#[test]
fn what_is_told_of_parcels() {
    assert_eq!(
        carrier_told(track_report(Carrier::Ups, carrier_reply(200, "b"))),
        (true, 200, "b".to_string())
    );
    assert_eq!(
        carrier_told(track_report(Carrier::Ups, carrier_reply(404, "b"))),
        (false, 404, "b".to_string())
    );
    assert_eq!(
        carrier_told(track_report(Carrier::Ups, Outcome::Failed("down".to_string()))),
        (false, 0, "Couldn't reach UPS: down".to_string())
    );
    assert_eq!(
        carrier_told(carrier_unreachable(Carrier::Usps, "x")),
        (false, 0, "Couldn't reach USPS: x".to_string())
    );
}

#[test]
fn one_sign_in_serves_many_parcels() {
    let mut cache = TokenCache::new();
    for carrier in ALL {
        match start_tracking(&cache, carrier, "id", "secret", "1", 1000) {
            Tracking::SignIn(r) => assert_eq!(r.url, sign_in_request(carrier, "id", "secret").url),
            Tracking::Ask(_) => panic!("asked without a token"),
        }
        let reply = carrier_reply(200, "{\"access_token\":\"T\",\"expires_in\":3600}");
        match after_sign_in(&mut cache, carrier, "id", "1", reply, 1000) {
            Step::Send(r) => assert_eq!(r.url, track_request(carrier, "T", "1", 1000).url),
            Step::Done(_) => panic!("not asked"),
        }
        for (number, now) in [("1", 1000), ("2", 2000), ("3", 4539)] {
            match start_tracking(&cache, carrier, "id", "secret", number, now) {
                Tracking::Ask(r) => assert_eq!(r.url, track_request(carrier, "T", number, now).url),
                Tracking::SignIn(_) => panic!("signed in again"),
            }
        }
        assert!(matches!(
            start_tracking(&cache, carrier, "id", "secret", "1", 4540),
            Tracking::SignIn(_)
        ));
        assert!(matches!(
            start_tracking(&cache, carrier, "another", "secret", "1", 1000),
            Tracking::SignIn(_)
        ));
    }
}

#[test]
fn a_sign_in_that_fails_keeps_nothing() {
    let mut cache = TokenCache::new();
    match after_sign_in(&mut cache, Carrier::Ups, "id", "1", carrier_reply(401, "no"), 1000) {
        Step::Done(r) => assert_eq!(r.body, "UPS sign-in failed (HTTP 401): no"),
        Step::Send(_) => panic!("not told"),
    }
    assert_eq!(cached_token(&cache, "ups:id", 1000), None);
}

#[test]
fn a_token_that_outlives_the_clock() {
    let mut cache = TokenCache::new();
    let signed_in = || Ok(("T".to_string(), u64::MAX));
    match keep_and_ask(&mut cache, Carrier::Ups, "id", "1", signed_in(), 1) {
        Step::Send(r) => assert_eq!(r.headers[0].1, "Bearer T"),
        Step::Done(_) => panic!("not asked"),
    }
    assert_eq!(cached_token(&cache, "ups:id", 1), None);
    keep_and_ask(&mut cache, Carrier::Ups, "id", "1", signed_in(), 0);
    assert_eq!(cached_token(&cache, "ups:id", 0), Some("T".to_string()));
}
