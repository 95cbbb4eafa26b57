use wim::ebay::{
    app_call_token_request, bearer, can_send_credentials, code_request, do_get, do_post, do_put, ebay_get_app,
    ebay_get_user, ebay_post_user, ebay_put_inventory_item, ebay_put_user, ebay_search_by_image,
    ebay_test, ebay_token_probe, ebay_trading_call, ebay_upload_picture, extract_tag,
    image_search_report, inventory_report, inventory_token_request, picture_report, text_or_usual,
    trading_report, trading_token_request, user_call_token_request, user_token_request,
    ProbeOutcome, BASE_SCOPE, INVENTORY_SCOPE, LOG_HEADER, OTHER_REQUEST_ID_HEADER,
    REQUEST_ID_HEADER,
};
use wim::encoding::data_url;
use wim::http::{ApiResult, Body, HttpRequest, Method, Outcome, Step, Upload};

const FORM: &str = "application/x-www-form-urlencoded";

fn ok_token() -> Result<String, (u16, String)> {
    Ok("T".to_string())
}

fn no_token() -> Result<String, (u16, String)> {
    Err((401, "no".to_string()))
}

fn sent(step: Step) -> HttpRequest {
    match step {
        Step::Send(request) => request,
        Step::Done(result) => panic!("not sent: {}", result.body),
    }
}

fn done(step: Step) -> (bool, u16, String) {
    match step {
        Step::Send(request) => panic!("sent to {}", request.url),
        Step::Done(result) => (result.ok, result.status, result.body),
    }
}

fn ebay_told(r: ApiResult) -> (bool, u16, String) {
    (r.ok, r.status, r.body)
}

fn headers(request: &HttpRequest) -> Vec<(&str, &str)> {
    request.headers.iter().map(|h| (h.0.as_str(), h.1.as_str())).collect()
}

fn fields(request: &HttpRequest) -> Vec<(&str, &str)> {
    match &request.body {
        Body::Form(f) => f.iter().map(|p| (p.0.as_str(), p.1.as_str())).collect(),
        _ => panic!("no form"),
    }
}

fn body_text(request: &HttpRequest) -> &str {
    match &request.body {
        Body::Text(t) => t,
        _ => panic!("no text"),
    }
}

fn ebay_reply(status: u16, body: &str) -> Outcome {
    Outcome::Reply { status, body: body.to_string() }
}

#[test]
fn scopes() {
    assert_eq!(BASE_SCOPE, "https://api.ebay.com/oauth/api_scope");
    assert_eq!(INVENTORY_SCOPE, "https://api.ebay.com/oauth/api_scope/sell.inventory");
    assert_eq!(text_or_usual("", "u"), "u");
    assert_eq!(text_or_usual(" ", "u"), " ");
    assert!(can_send_credentials("app", "cert"));
}

#[test]
fn refresh_tokens_are_exchanged() {
    let r = user_token_request("production", "app", "cert", "R", "s1 s2");
    assert_eq!(r.method, Method::Post);
    assert_eq!(r.url, "https://api.ebay.com/identity/v1/oauth2/token");
    assert_eq!(headers(&r), vec![("Authorization", "Basic YXBwOmNlcnQ="), ("Content-Type", FORM)]);
    assert_eq!(
        fields(&r),
        vec![("grant_type", "refresh_token"), ("refresh_token", "R"), ("scope", "s1 s2")]
    );
}

#[test]
fn token_requests_of_calls() {
    let r = user_call_token_request("sandbox", "a", "b", "R", "");
    assert_eq!(r.url, "https://api.sandbox.ebay.com/identity/v1/oauth2/token");
    assert_eq!(fields(&r)[2], ("scope", INVENTORY_SCOPE));
    assert_eq!(fields(&user_call_token_request("x", "a", "b", "R", "s"))[2], ("scope", "s"));
    let r = app_call_token_request("production", "a", "b", "");
    assert_eq!(fields(&r), vec![("grant_type", "client_credentials"), ("scope", BASE_SCOPE)]);
    assert_eq!(fields(&app_call_token_request("x", "a", "b", "s"))[1], ("scope", "s"));
}

#[test]
fn token_requests_of_commands() {
    let r = trading_token_request("production", "a", "b", "R");
    assert_eq!(
        fields(&r),
        vec![("grant_type", "refresh_token"), ("refresh_token", "R"), ("scope", BASE_SCOPE)]
    );
    assert_eq!(
        fields(&inventory_token_request("x", "a", "b", "R"))[2],
        ("scope", INVENTORY_SCOPE)
    );
}

#[test]
fn replies_are_told_as_they_came() {
    let reports: [fn(Outcome) -> ApiResult; 2] = [inventory_report, image_search_report];
    for report in reports {
        assert_eq!(ebay_told(report(ebay_reply(204, ""))), (true, 204, "".to_string()));
        assert_eq!(ebay_told(report(ebay_reply(400, "bad"))), (false, 400, "bad".to_string()));
        assert_eq!(
            ebay_told(report(Outcome::Failed("down".to_string()))),
            (false, 0, "down".to_string())
        );
    }
}

#[test]
fn codes_are_exchanged() {
    let r = code_request("production", "app", "cert", "Ru-Name", "v^1");
    assert_eq!(headers(&r)[0], ("Authorization", "Basic YXBwOmNlcnQ="));
    assert_eq!(
        fields(&r),
        vec![("grant_type", "authorization_code"), ("code", "v^1"), ("redirect_uri", "Ru-Name")]
    );
}

#[test]
fn the_test_of_the_keys() {
    assert_eq!(ebay_told(ebay_test(ok_token())), (true, 200, "token refreshed".to_string()));
    assert_eq!(ebay_told(ebay_test(no_token())), (false, 401, "no".to_string()));
}

#[test]
fn reads() {
    let r = sent(ebay_get_app(ok_token(), "production", "EBAY_US", "/commerce/taxonomy/v1/x"));
    assert_eq!(r.method, Method::Get);
    assert_eq!(r.url, "https://api.ebay.com/commerce/taxonomy/v1/x");
    assert_eq!(
        headers(&r),
        vec![
            ("Authorization", "Bearer T"),
            ("Content-Type", "application/json"),
            ("X-EBAY-C-MARKETPLACE-ID", "EBAY_US"),
        ]
    );
    assert!(matches!(r.body, Body::Empty));
    let r = sent(ebay_get_user(ok_token(), "sandbox", "", "/sell/finances/v1/payout"));
    assert_eq!(r.url, "https://apiz.sandbox.ebay.com/sell/finances/v1/payout");
    assert_eq!(headers(&r).len(), 2);
    assert_eq!(bearer("T"), "Bearer T");
}

#[test]
fn writes() {
    let r = sent(ebay_post_user(ok_token(), "production", "EBAY_US", "/p", "{}"));
    assert_eq!(r.method, Method::Post);
    assert_eq!(r.url, "https://api.ebay.com/p");
    assert_eq!(
        headers(&r),
        vec![
            ("Authorization", "Bearer T"),
            ("Content-Type", "application/json"),
            ("Content-Language", "en-US"),
            ("X-EBAY-C-MARKETPLACE-ID", "EBAY_US"),
        ]
    );
    assert_eq!(body_text(&r), "{}");
    let r = sent(ebay_put_user(ok_token(), "sandbox", "", "/p", "x"));
    assert_eq!(r.method, Method::Put);
    assert_eq!(r.url, "https://api.sandbox.ebay.com/p");
    assert_eq!(headers(&r).len(), 3);
}

#[test]
fn no_token_no_call() {
    let user = (false, 401, "user token error: no".to_string());
    let app = (false, 401, "app token error: no".to_string());
    let plain = (false, 401, "token error: no".to_string());
    assert_eq!(done(ebay_get_app(no_token(), "x", "", "/p")), app);
    assert_eq!(done(ebay_search_by_image(no_token(), "x", "", "", "", "")), app);
    assert_eq!(done(ebay_get_user(no_token(), "x", "", "/p")), user);
    assert_eq!(done(ebay_post_user(no_token(), "x", "", "/p", "")), user);
    assert_eq!(done(ebay_put_user(no_token(), "x", "", "/p", "")), user);
    assert_eq!(done(ebay_put_inventory_item(no_token(), "x", "", "s", "")), plain);
    assert_eq!(done(ebay_trading_call(no_token(), "x", "c", "0", "")), plain);
    assert_eq!(done(ebay_upload_picture(no_token(), "x", "!", "n")), plain);
}

#[test]
fn failures_say_what_was_sent() {
    assert_eq!(
        ebay_told(do_get("production", "/p", ebay_reply(404, "gone"))),
        (false, 404, "[GET https://api.ebay.com/p]\ngone".to_string())
    );
    assert_eq!(
        ebay_told(do_post("production", "/p", "{1}", ebay_reply(400, "bad"))),
        (false, 400, "[POST https://api.ebay.com/p]\nSent: {1}\nbad".to_string())
    );
    assert_eq!(
        ebay_told(do_put("x", "/p", "{1}", Outcome::Failed("down".to_string()))),
        (false, 0, "[PUT https://api.sandbox.ebay.com/p]\nSent: {1}\ndown".to_string())
    );
    assert_eq!(ebay_told(do_get("x", "/p", ebay_reply(200, "ok"))), (true, 200, "ok".to_string()));
    assert_eq!(
        ebay_told(do_post("x", "/p", "s", ebay_reply(201, "ok"))),
        (true, 201, "ok".to_string())
    );
    assert_eq!(
        ebay_told(do_put("x", "/p", "s", ebay_reply(204, ""))),
        (true, 204, "".to_string())
    );
}

#[test]
fn inventory_items() {
    let r = sent(ebay_put_inventory_item(ok_token(), "production", "", "SKU 1", "{}"));
    assert_eq!(r.method, Method::Put);
    assert_eq!(r.url, "https://api.ebay.com/sell/inventory/v1/inventory_item/SKU 1");
    assert_eq!(
        headers(&r),
        vec![
            ("Authorization", "Bearer T"),
            ("Content-Type", "application/json"),
            ("Content-Language", "en-US"),
            ("X-EBAY-C-MARKETPLACE-ID", ""),
        ]
    );
    assert_eq!(body_text(&r), "{}");
}

#[test]
fn searches_by_image() {
    let r = sent(ebay_search_by_image(ok_token(), "production", "EBAY_US", "A\"A", "", ""));
    assert_eq!(
        r.url,
        "https://api.ebay.com/buy/browse/v1/item_summary/search_by_image?limit=15&offset=0"
    );
    assert_eq!(body_text(&r), "{\"image\":\"AA\"}");
    assert_eq!(headers(&r).len(), 3);
    let r = sent(ebay_search_by_image(ok_token(), "x", "", "AA", "50", "100"));
    assert!(r.url.ends_with("?limit=50&offset=100"));
    assert_eq!(headers(&r).len(), 2);
}

#[test]
fn trading_calls() {
    let r = sent(ebay_trading_call(ok_token(), "production", "GetFeedback", "0", "<x/>"));
    assert_eq!(r.method, Method::Post);
    assert_eq!(r.url, "https://api.ebay.com/ws/api.dll");
    assert_eq!(
        headers(&r),
        vec![
            ("X-EBAY-API-SITEID", "0"),
            ("X-EBAY-API-COMPATIBILITY-LEVEL", "1193"),
            ("X-EBAY-API-CALL-NAME", "GetFeedback"),
            ("X-EBAY-API-IAF-TOKEN", "T"),
            ("Content-Type", "text/xml"),
        ]
    );
    assert_eq!(body_text(&r), "<x/>");
}

#[test]
fn failures_inside_a_trading_document() {
    let failed = "<a><Ack>Failure</Ack></a>";
    assert_eq!(
        ebay_told(trading_report(ebay_reply(200, failed))),
        (false, 200, failed.to_string())
    );
    assert!(trading_report(ebay_reply(200, "<Ack>Success</Ack>")).ok);
    assert!(!trading_report(ebay_reply(500, "<Ack>Success</Ack>")).ok);
    assert_eq!(
        ebay_told(trading_report(Outcome::Failed("down".to_string()))),
        (false, 0, "down".to_string())
    );
}

#[test]
fn tags() {
    assert_eq!(extract_tag("<a><b> x </b></a>", "b"), Some("x".to_string()));
    assert_eq!(extract_tag("<b>1</b><b>2</b>", "b"), Some("1".to_string()));
    assert_eq!(extract_tag("</b><b>1</b>", "b"), Some("1".to_string()));
    assert_eq!(extract_tag("<b></b>", "b"), Some("".to_string()));
    assert_eq!(extract_tag("<b>1", "b"), None);
    assert_eq!(extract_tag("1</b>", "b"), None);
    assert_eq!(extract_tag("<b c=\"d\">1</b>", "b"), None);
}

fn upload_of(request: HttpRequest) -> Upload {
    match request.body {
        Body::Upload(upload) => upload,
        _ => panic!("no upload"),
    }
}

#[test]
fn pictures_are_uploaded() {
    let bytes = vec![0xffu8, 0xd8, 0xff, 0x00];
    let url = data_url("image/jpeg", &bytes);
    let r = sent(ebay_upload_picture(ok_token(), "sandbox", &url, "A <b> & c"));
    assert_eq!(r.url, "https://api.sandbox.ebay.com/ws/api.dll");
    assert_eq!(
        headers(&r),
        vec![
            ("X-EBAY-API-CALL-NAME", "UploadSiteHostedPictures"),
            ("X-EBAY-API-COMPATIBILITY-LEVEL", "1193"),
            ("X-EBAY-API-SITEID", "0"),
            ("X-EBAY-API-IAF-TOKEN", "T"),
        ]
    );
    let upload = upload_of(r);
    assert_eq!(upload.bytes, bytes);
    assert_eq!(upload.text_name, "XML Payload");
    assert_eq!(
        upload.text,
        "<?xml version=\"1.0\" encoding=\"utf-8\"?>\n<UploadSiteHostedPicturesRequest xmlns=\"urn:ebay:apis:eBLBaseComponents\"><PictureName>A  b  & c</PictureName><PictureSet>Supersize</PictureSet></UploadSiteHostedPicturesRequest>"
    );
    assert_eq!(upload.file_field, "image");
    assert_eq!(upload.file_name, "photo.jpg");
    assert_eq!(upload.mime, "application/octet-stream");
}

#[test]
fn bare_pictures_are_uploaded() {
    let r = sent(ebay_upload_picture(ok_token(), "x", "R0lG\nODlh", "n"));
    assert_eq!(upload_of(r).bytes, b"GIF89a".to_vec());
}

#[test]
fn pictures_that_do_not_decode() {
    assert_eq!(
        done(ebay_upload_picture(ok_token(), "x", "a:bc", "n")),
        (false, 0, "image decode error: Invalid symbol 58, offset 1.".to_string())
    );
}

#[test]
fn hosted_pictures() {
    let full = "<r><FullURL> https://i/1 </FullURL></r>";
    assert_eq!(
        ebay_told(picture_report(ebay_reply(200, full))),
        (true, 200, "https://i/1".to_string())
    );
    let other = "<ExternalPictureURL>https://i/2</ExternalPictureURL>";
    assert_eq!(
        ebay_told(picture_report(ebay_reply(200, other))),
        (true, 200, "https://i/2".to_string())
    );
    let empty = "<FullURL> </FullURL><ExternalPictureURL>x</ExternalPictureURL>";
    assert_eq!(
        ebay_told(picture_report(ebay_reply(200, empty))),
        (false, 200, empty.to_string())
    );
    assert_eq!(
        ebay_told(picture_report(ebay_reply(200, "<r/>"))),
        (false, 200, "<r/>".to_string())
    );
    assert_eq!(
        ebay_told(picture_report(Outcome::Failed("down".to_string()))),
        (false, 0, "down".to_string())
    );
}

#[test]
fn headers_of_probes() {
    assert_eq!(LOG_HEADER, "rlogid");
    assert_eq!(REQUEST_ID_HEADER, "x-ebay-c-request-id");
    assert_eq!(OTHER_REQUEST_ID_HEADER, "x-ebay-request-id");
}

#[test]
fn probes() {
    let outcome = ProbeOutcome::Reply {
        status: 400,
        rlogid: Some("L".to_string()),
        request_id: None,
        other_request_id: Some("Q".to_string()),
        body: "bad".to_string(),
    };
    let p = ebay_token_probe("production", "app", "cert", "R", "", outcome);
    assert_eq!((p.status, p.body.as_str()), (400, "bad"));
    assert_eq!((p.rlogid.as_str(), p.request_id.as_str()), ("L", "Q"));
    assert_eq!(p.auth_header, "Basic YXBwOmNlcnQ=");
    assert_eq!(p.request_url, "https://api.ebay.com/identity/v1/oauth2/token");
    assert_eq!(
        p.request_body,
        "grant_type=refresh_token&refresh_token=R&scope=https://api.ebay.com/oauth/api_scope/sell.inventory"
    );
    let outcome = ProbeOutcome::Reply {
        status: 200,
        rlogid: None,
        request_id: Some("P".to_string()),
        other_request_id: Some("Q".to_string()),
        body: "".to_string(),
    };
    let p = ebay_token_probe("x", "app", "cert", "R", "s", outcome);
    assert_eq!((p.rlogid.as_str(), p.request_id.as_str()), ("", "P"));
    assert!(p.request_body.ends_with("&scope=s"));
    let p = ebay_token_probe("x", "a", "b", "R", "s", ProbeOutcome::Failed("down".to_string()));
    assert_eq!((p.status, p.body.as_str(), p.request_id.as_str()), (0, "down", ""));
}
