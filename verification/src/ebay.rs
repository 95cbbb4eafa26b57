//! Calls to eBay: token requests, the calls that tokens allow, and what callers are told of them.

use vstd::prelude::*;
use vstd::string::*;
use vstd::utf8::*;

use crate::encoding::{
    base64_bytes, basic_auth, basic_credentials, can_encode, data_url_of, decode_base64,
    law_data_url_round_trip, upload_payload, upload_text,
};
use crate::hosts::{
    api_host, base_url, host_for, host_of, in_sandbox, is_production, law_sandbox_hosts,
    token_endpoint, token_url, trading_endpoint, trading_url,
};
use crate::http::{
    failure, is_success, noted_result, option_view, plain_result, refused, report_noted,
    report_plain, succeeded, ApiResult, ApiResultView, Body, BodyView, Form, HttpRequest, Method,
    Outcome, OutcomeView, RequestView, Step, StepView, Upload, UploadView,
};
use crate::outside::base64_fits;
use crate::text::{
    chars_of, contains, find, find_chars, find_from, lemma_find_first, lemma_find_is_first,
    lemma_replaced_by_one, occurs_at, replace_char, replaced, text_between, trim, trimmed,
};
use crate::tokens::{token_result_view, TokenResult};

verus! {

// ---------------------------------------------------------------------------------------------
// Tokens
// ---------------------------------------------------------------------------------------------

/// The scope that every keyset holds.
pub const BASE_SCOPE: &'static str = "https://api.ebay.com/oauth/api_scope";

/// The scope of the Inventory API.
pub const INVENTORY_SCOPE: &'static str = "https://api.ebay.com/oauth/api_scope/sell.inventory";

/// The text that is given, or the usual one where it is empty.
pub open spec fn or_usual(given: Seq<char>, usual: Seq<char>) -> Seq<char> {
    if given.len() == 0 {
        usual
    } else {
        given
    }
}

/// Whether the credentials fit into a header.
pub open spec fn credentials_fit(app_id: Seq<char>, cert_id: Seq<char>) -> bool {
    base64_fits(encode_utf8(app_id + ":"@ + cert_id).len())
}

/// A request to the token endpoint with the fields of `form`.
pub open spec fn token_request_of(
    env: Seq<char>,
    app_id: Seq<char>,
    cert_id: Seq<char>,
    form: Seq<(Seq<char>, Seq<char>)>,
) -> RequestView {
    RequestView::to(Method::Post, token_endpoint(env)).header(
        "Authorization"@,
        basic_credentials(app_id, cert_id),
    ).header("Content-Type"@, "application/x-www-form-urlencoded"@).body(BodyView::Form(form))
}

/// The request that exchanges a refresh token for a user's access token.
pub open spec fn user_token_request_of(
    env: Seq<char>,
    app_id: Seq<char>,
    cert_id: Seq<char>,
    refresh_token: Seq<char>,
    scope: Seq<char>,
) -> RequestView {
    token_request_of(
        env,
        app_id,
        cert_id,
        seq![
            ("grant_type"@, "refresh_token"@),
            ("refresh_token"@, refresh_token),
            ("scope"@, scope),
        ],
    )
}

/// The request for an application's access token.
pub open spec fn app_token_request_of(
    env: Seq<char>,
    app_id: Seq<char>,
    cert_id: Seq<char>,
    scope: Seq<char>,
) -> RequestView {
    token_request_of(
        env,
        app_id,
        cert_id,
        seq![("grant_type"@, "client_credentials"@), ("scope"@, scope)],
    )
}

/// The request that exchanges an authorization code for a refresh token.
pub open spec fn code_request_of(
    env: Seq<char>,
    app_id: Seq<char>,
    cert_id: Seq<char>,
    ru_name: Seq<char>,
    code: Seq<char>,
) -> RequestView {
    token_request_of(
        env,
        app_id,
        cert_id,
        seq![
            ("grant_type"@, "authorization_code"@),
            ("code"@, code),
            ("redirect_uri"@, ru_name),
        ],
    )
}

/// The text that is given, or the usual one where it is empty.
pub fn text_or_usual(given: &str, usual: &str) -> (r: String)
    ensures
        r@ == or_usual(given@, usual@),
{
    if given.is_empty() {
        usual.to_string()
    } else {
        given.to_string()
    }
}

/// Whether the credentials fit into a header.
pub fn can_send_credentials(app_id: &str, cert_id: &str) -> (r: bool)
    ensures
        r == credentials_fit(app_id@, cert_id@),
{
    let pair: String = app_id.to_string().concat(":").concat(cert_id);
    can_encode(pair.as_str().as_bytes().len())
}

/// A request to the token endpoint.
fn token_request(env: &str, app_id: &str, cert_id: &str, form: Form) -> (r: HttpRequest)
    requires
        credentials_fit(app_id@, cert_id@),
    ensures
        r@ == token_request_of(env@, app_id@, cert_id@, form@),
{
    HttpRequest::to(Method::Post, token_url(env).as_str()).header(
        "Authorization",
        basic_auth(app_id, cert_id).as_str(),
    ).header("Content-Type", "application/x-www-form-urlencoded").body(form.into_body())
}

/// The request that exchanges a refresh token for a user's access token.
pub fn user_token_request(
    env: &str,
    app_id: &str,
    cert_id: &str,
    refresh_token: &str,
    scope: &str,
) -> (r: HttpRequest)
    requires
        credentials_fit(app_id@, cert_id@),
    ensures
        r@ == user_token_request_of(env@, app_id@, cert_id@, refresh_token@, scope@),
{
    let form = Form::new().with("grant_type", "refresh_token").with(
        "refresh_token",
        refresh_token,
    ).with("scope", scope);
    assert(form@ =~= seq![
        ("grant_type"@, "refresh_token"@),
        ("refresh_token"@, refresh_token@),
        ("scope"@, scope@),
    ]);
    token_request(env, app_id, cert_id, form)
}

/// The request for an application's access token.
pub fn app_token_request(env: &str, app_id: &str, cert_id: &str, scope: &str) -> (r: HttpRequest)
    requires
        credentials_fit(app_id@, cert_id@),
    ensures
        r@ == app_token_request_of(env@, app_id@, cert_id@, scope@),
{
    let form = Form::new().with("grant_type", "client_credentials").with("scope", scope);
    assert(form@ =~= seq![("grant_type"@, "client_credentials"@), ("scope"@, scope@)]);
    token_request(env, app_id, cert_id, form)
}

/// The request that exchanges an authorization code for a refresh token.
pub fn code_request(
    env: &str,
    app_id: &str,
    cert_id: &str,
    ru_name: &str,
    code: &str,
) -> (r: HttpRequest)
    requires
        credentials_fit(app_id@, cert_id@),
    ensures
        r@ == code_request_of(env@, app_id@, cert_id@, ru_name@, code@),
{
    let form = Form::new().with("grant_type", "authorization_code").with("code", code).with(
        "redirect_uri",
        ru_name,
    );
    assert(form@ =~= seq![
        ("grant_type"@, "authorization_code"@),
        ("code"@, code@),
        ("redirect_uri"@, ru_name@),
    ]);
    token_request(env, app_id, cert_id, form)
}

/// The token request of the calls that act for a user: for the inventory scope unless the caller
/// names another.
pub fn user_call_token_request(
    env: &str,
    app_id: &str,
    cert_id: &str,
    refresh_token: &str,
    scope: &str,
) -> (r: HttpRequest)
    requires
        credentials_fit(app_id@, cert_id@),
    ensures
        r@ == user_token_request_of(
            env@,
            app_id@,
            cert_id@,
            refresh_token@,
            or_usual(scope@, INVENTORY_SCOPE@),
        ),
{
    let scope: String = text_or_usual(scope, INVENTORY_SCOPE);
    user_token_request(env, app_id, cert_id, refresh_token, scope.as_str())
}

/// The token request of the Trading API, which asks for the base scope and no other.
pub fn trading_token_request(
    env: &str,
    app_id: &str,
    cert_id: &str,
    refresh_token: &str,
) -> (r: HttpRequest)
    requires
        credentials_fit(app_id@, cert_id@),
    ensures
        r@ == user_token_request_of(env@, app_id@, cert_id@, refresh_token@, BASE_SCOPE@),
{
    user_token_request(env, app_id, cert_id, refresh_token, BASE_SCOPE)
}

/// The token request of inventory items, of pictures and of the test of the keys: for the inventory
/// scope.
pub fn inventory_token_request(
    env: &str,
    app_id: &str,
    cert_id: &str,
    refresh_token: &str,
) -> (r: HttpRequest)
    requires
        credentials_fit(app_id@, cert_id@),
    ensures
        r@ == user_token_request_of(env@, app_id@, cert_id@, refresh_token@, INVENTORY_SCOPE@),
{
    user_token_request(env, app_id, cert_id, refresh_token, INVENTORY_SCOPE)
}

/// The token request of the calls that act for the application: for the base scope unless the
/// caller names another.
pub fn app_call_token_request(
    env: &str,
    app_id: &str,
    cert_id: &str,
    scope: &str,
) -> (r: HttpRequest)
    requires
        credentials_fit(app_id@, cert_id@),
    ensures
        r@ == app_token_request_of(env@, app_id@, cert_id@, or_usual(scope@, BASE_SCOPE@)),
{
    let scope: String = text_or_usual(scope, BASE_SCOPE);
    app_token_request(env, app_id, cert_id, scope.as_str())
}

/// What the caller is told where a token could not be had.
pub open spec fn token_failure(label: Seq<char>, status: u16, body: Seq<char>) -> ApiResultView {
    failure(status, label + body)
}

/// What the caller is told where a token could not be had.
fn report_token_failure(label: &str, status: u16, body: String) -> (r: ApiResult)
    ensures
        r@ == token_failure(label@, status, body@),
{
    refused(status, label.to_string().concat(body.as_str()))
}

/// What the test of the keys tells: whether a token could be refreshed.
pub open spec fn test_result_of(token: TokenResult) -> ApiResultView {
    match token {
        Ok(_) => ApiResultView { ok: true, status: 200, body: "token refreshed"@ },
        Err((status, body)) => failure(status, body),
    }
}

/// What the test of the keys tells.
pub fn ebay_test(token: Result<String, (u16, String)>) -> (r: ApiResult)
    ensures
        r@ == test_result_of(token_result_view(token)),
{
    match token {
        Ok(_) => ApiResult { ok: true, status: 200, body: "token refreshed".to_string() },
        Err((status, body)) => refused(status, body),
    }
}

// ---------------------------------------------------------------------------------------------
// REST calls
// ---------------------------------------------------------------------------------------------

/// The address of a call.
pub open spec fn call_url(env: Seq<char>, path: Seq<char>) -> Seq<char> {
    host_of(env, path) + path
}

/// The request, for a marketplace where one is named.
pub open spec fn for_marketplace(request: RequestView, marketplace: Seq<char>) -> RequestView {
    if marketplace.len() == 0 {
        request
    } else {
        request.header("X-EBAY-C-MARKETPLACE-ID"@, marketplace)
    }
}

/// The request that reads `path`.
pub open spec fn get_request_of(
    env: Seq<char>,
    token: Seq<char>,
    marketplace: Seq<char>,
    path: Seq<char>,
) -> RequestView {
    for_marketplace(
        RequestView::to(Method::Get, call_url(env, path)).header(
            "Authorization"@,
            "Bearer "@ + token,
        ).header("Content-Type"@, "application/json"@),
        marketplace,
    )
}

/// The request that sends `payload` to `path`.
pub open spec fn write_request_of(
    method: Method,
    env: Seq<char>,
    token: Seq<char>,
    marketplace: Seq<char>,
    path: Seq<char>,
    payload: Seq<char>,
) -> RequestView {
    for_marketplace(
        RequestView::to(method, call_url(env, path)).header(
            "Authorization"@,
            "Bearer "@ + token,
        ).header("Content-Type"@, "application/json"@).header("Content-Language"@, "en-US"@).body(
            BodyView::Text(payload),
        ),
        marketplace,
    )
}

/// What a failed read is reported behind: the address.
pub open spec fn get_note(env: Seq<char>, path: Seq<char>) -> Seq<char> {
    "[GET "@ + call_url(env, path) + "]\n"@
}

/// What a failed write is reported behind: the address and the payload.
pub open spec fn write_note(verb: Seq<char>, url: Seq<char>, payload: Seq<char>) -> Seq<char> {
    "["@ + verb + " "@ + url + "]\nSent: "@ + payload + "\n"@
}

/// The step after the token request of a read.
pub open spec fn get_step_of(
    label: Seq<char>,
    token: TokenResult,
    env: Seq<char>,
    marketplace: Seq<char>,
    path: Seq<char>,
) -> StepView {
    match token {
        Ok(token) => StepView::Send(get_request_of(env, token, marketplace, path)),
        Err((status, body)) => StepView::Done(token_failure(label, status, body)),
    }
}

/// The step after the token request of a write.
pub open spec fn write_step_of(
    method: Method,
    token: TokenResult,
    env: Seq<char>,
    marketplace: Seq<char>,
    path: Seq<char>,
    payload: Seq<char>,
) -> StepView {
    match token {
        Ok(token) => StepView::Send(
            write_request_of(method, env, token, marketplace, path, payload),
        ),
        Err((status, body)) => StepView::Done(token_failure("user token error: "@, status, body)),
    }
}

/// The address of a call.
fn url_of_call(env: &str, path: &str) -> (r: String)
    ensures
        r@ == call_url(env@, path@),
{
    host_for(env, path).concat(path)
}

/// The request, for a marketplace where one is named.
fn to_marketplace(request: HttpRequest, marketplace: &str) -> (r: HttpRequest)
    ensures
        r@ == for_marketplace(request@, marketplace@),
{
    if marketplace.is_empty() {
        request
    } else {
        request.header("X-EBAY-C-MARKETPLACE-ID", marketplace)
    }
}

/// `"Bearer "` and the token.
pub fn bearer(token: &str) -> (r: String)
    ensures
        r@ == "Bearer "@ + token@,
{
    "Bearer ".to_string().concat(token)
}

/// The request that reads `path`.
pub fn get_request(env: &str, token: &str, marketplace: &str, path: &str) -> (r: HttpRequest)
    ensures
        r@ == get_request_of(env@, token@, marketplace@, path@),
{
    let request = HttpRequest::to(Method::Get, url_of_call(env, path).as_str()).header(
        "Authorization",
        bearer(token).as_str(),
    ).header("Content-Type", "application/json");
    to_marketplace(request, marketplace)
}

/// The request that sends `payload` to `path`.
pub fn write_request(
    method: Method,
    env: &str,
    token: &str,
    marketplace: &str,
    path: &str,
    payload: &str,
) -> (r: HttpRequest)
    ensures
        r@ == write_request_of(method, env@, token@, marketplace@, path@, payload@),
{
    let request = HttpRequest::to(method, url_of_call(env, path).as_str()).header(
        "Authorization",
        bearer(token).as_str(),
    ).header("Content-Type", "application/json").header("Content-Language", "en-US").text(payload);
    to_marketplace(request, marketplace)
}

/// What the caller is told of a read: where it fails, with the address it went to.
pub fn do_get(env: &str, path: &str, outcome: Outcome) -> (r: ApiResult)
    ensures
        r@ == noted_result(get_note(env@, path@), outcome@),
{
    let note: String = "[GET ".to_string().concat(url_of_call(env, path).as_str()).concat("]\n");
    report_noted(note, outcome)
}

/// The note of a failed write.
pub fn note_of_write(verb: &str, url: &str, payload: &str) -> (r: String)
    ensures
        r@ == write_note(verb@, url@, payload@),
{
    "[".to_string().concat(verb).concat(" ").concat(url).concat("]\nSent: ").concat(payload).concat(
        "\n",
    )
}

/// What the caller is told of a POST: where it fails, with the address and the payload.
pub fn do_post(env: &str, path: &str, payload: &str, outcome: Outcome) -> (r: ApiResult)
    ensures
        r@ == noted_result(write_note("POST"@, call_url(env@, path@), payload@), outcome@),
{
    report_noted(note_of_write("POST", url_of_call(env, path).as_str(), payload), outcome)
}

/// What the caller is told of a PUT: where it fails, with the address and the payload.
pub fn do_put(env: &str, path: &str, payload: &str, outcome: Outcome) -> (r: ApiResult)
    ensures
        r@ == noted_result(write_note("PUT"@, call_url(env@, path@), payload@), outcome@),
{
    report_noted(note_of_write("PUT", url_of_call(env, path).as_str(), payload), outcome)
}

/// The step after the token request of a read for the application.
pub fn ebay_get_app(
    token: Result<String, (u16, String)>,
    env: &str,
    marketplace: &str,
    path: &str,
) -> (r: Step)
    ensures
        r@ == get_step_of(
            "app token error: "@,
            token_result_view(token),
            env@,
            marketplace@,
            path@,
        ),
{
    match token {
        Ok(token) => Step::Send(get_request(env, token.as_str(), marketplace, path)),
        Err((status, body)) => Step::Done(report_token_failure("app token error: ", status, body)),
    }
}

/// The step after the token request of a read for a user.
pub fn ebay_get_user(
    token: Result<String, (u16, String)>,
    env: &str,
    marketplace: &str,
    path: &str,
) -> (r: Step)
    ensures
        r@ == get_step_of(
            "user token error: "@,
            token_result_view(token),
            env@,
            marketplace@,
            path@,
        ),
{
    match token {
        Ok(token) => Step::Send(get_request(env, token.as_str(), marketplace, path)),
        Err((status, body)) => Step::Done(report_token_failure("user token error: ", status, body)),
    }
}

/// The step after the token request of a POST for a user.
pub fn ebay_post_user(
    token: Result<String, (u16, String)>,
    env: &str,
    marketplace: &str,
    path: &str,
    payload: &str,
) -> (r: Step)
    ensures
        r@ == write_step_of(
            Method::Post,
            token_result_view(token),
            env@,
            marketplace@,
            path@,
            payload@,
        ),
{
    match token {
        Ok(token) => Step::Send(
            write_request(Method::Post, env, token.as_str(), marketplace, path, payload),
        ),
        Err((status, body)) => Step::Done(report_token_failure("user token error: ", status, body)),
    }
}

/// The step after the token request of a PUT for a user.
pub fn ebay_put_user(
    token: Result<String, (u16, String)>,
    env: &str,
    marketplace: &str,
    path: &str,
    payload: &str,
) -> (r: Step)
    ensures
        r@ == write_step_of(
            Method::Put,
            token_result_view(token),
            env@,
            marketplace@,
            path@,
            payload@,
        ),
{
    match token {
        Ok(token) => Step::Send(
            write_request(Method::Put, env, token.as_str(), marketplace, path, payload),
        ),
        Err((status, body)) => Step::Done(report_token_failure("user token error: ", status, body)),
    }
}

/// The request that creates or updates an inventory item.
pub open spec fn inventory_request_of(
    env: Seq<char>,
    token: Seq<char>,
    marketplace: Seq<char>,
    sku: Seq<char>,
    payload: Seq<char>,
) -> RequestView {
    RequestView::to(
        Method::Put,
        api_host(env) + "/sell/inventory/v1/inventory_item/"@ + sku,
    ).header("Authorization"@, "Bearer "@ + token).header(
        "Content-Type"@,
        "application/json"@,
    ).header("Content-Language"@, "en-US"@).header("X-EBAY-C-MARKETPLACE-ID"@, marketplace).body(
        BodyView::Text(payload),
    )
}

/// The step after the token request of an inventory item.
pub open spec fn inventory_step_of(
    token: TokenResult,
    env: Seq<char>,
    marketplace: Seq<char>,
    sku: Seq<char>,
    payload: Seq<char>,
) -> StepView {
    match token {
        Ok(token) => StepView::Send(inventory_request_of(env, token, marketplace, sku, payload)),
        Err((status, body)) => StepView::Done(token_failure("token error: "@, status, body)),
    }
}

/// What the caller is told of an inventory item: the reply as it came.
pub fn inventory_report(outcome: Outcome) -> (r: ApiResult)
    ensures
        r@ == plain_result(outcome@),
{
    report_plain(outcome)
}

/// The step after the token request of an inventory item.
pub fn ebay_put_inventory_item(
    token: Result<String, (u16, String)>,
    env: &str,
    marketplace: &str,
    sku: &str,
    payload: &str,
) -> (r: Step)
    ensures
        r@ == inventory_step_of(token_result_view(token), env@, marketplace@, sku@, payload@),
{
    match token {
        Ok(token) => {
            let url: String = base_url(env).to_string().concat(
                "/sell/inventory/v1/inventory_item/",
            ).concat(sku);
            Step::Send(
                HttpRequest::to(Method::Put, url.as_str()).header(
                    "Authorization",
                    bearer(token.as_str()).as_str(),
                ).header("Content-Type", "application/json").header(
                    "Content-Language",
                    "en-US",
                ).header("X-EBAY-C-MARKETPLACE-ID", marketplace).text(payload),
            )
        },
        Err((status, body)) => Step::Done(report_token_failure("token error: ", status, body)),
    }
}

/// The request that searches by an image, which is base64 text; quotation marks in it are left
/// out. Without a limit it asks for 15 results, without an offset for the first ones.
pub open spec fn image_search_request_of(
    env: Seq<char>,
    token: Seq<char>,
    marketplace: Seq<char>,
    image: Seq<char>,
    limit: Seq<char>,
    offset: Seq<char>,
) -> RequestView {
    for_marketplace(
        RequestView::to(
            Method::Post,
            api_host(env) + "/buy/browse/v1/item_summary/search_by_image?limit="@ + or_usual(
                limit,
                "15"@,
            ) + "&offset="@ + or_usual(offset, "0"@),
        ).header("Authorization"@, "Bearer "@ + token).header(
            "Content-Type"@,
            "application/json"@,
        ).body(
            BodyView::Text("{\"image\":\""@ + replaced(image, '"', Seq::empty()) + "\"}"@),
        ),
        marketplace,
    )
}

/// The step after the token request of a search by image.
pub open spec fn image_search_step_of(
    token: TokenResult,
    env: Seq<char>,
    marketplace: Seq<char>,
    image: Seq<char>,
    limit: Seq<char>,
    offset: Seq<char>,
) -> StepView {
    match token {
        Ok(token) => StepView::Send(
            image_search_request_of(env, token, marketplace, image, limit, offset),
        ),
        Err((status, body)) => StepView::Done(token_failure("app token error: "@, status, body)),
    }
}

/// What the caller is told of a search by image: the reply as it came.
pub fn image_search_report(outcome: Outcome) -> (r: ApiResult)
    ensures
        r@ == plain_result(outcome@),
{
    report_plain(outcome)
}

/// The step after the token request of a search by image.
pub fn ebay_search_by_image(
    token: Result<String, (u16, String)>,
    env: &str,
    marketplace: &str,
    image: &str,
    limit: &str,
    offset: &str,
) -> (r: Step)
    ensures
        r@ == image_search_step_of(
            token_result_view(token),
            env@,
            marketplace@,
            image@,
            limit@,
            offset@,
        ),
{
    match token {
        Ok(token) => {
            let limit: String = text_or_usual(limit, "15");
            let offset: String = text_or_usual(offset, "0");
            let url: String = base_url(env).to_string().concat(
                "/buy/browse/v1/item_summary/search_by_image?limit=",
            ).concat(limit.as_str()).concat("&offset=").concat(offset.as_str());
            let image: String = replace_char(image, '"', "");
            proof {
                reveal_strlit("");
                assert(""@ =~= Seq::<char>::empty());
            }
            let body: String = "{\"image\":\"".to_string().concat(image.as_str()).concat("\"}");
            let request = HttpRequest::to(Method::Post, url.as_str()).header(
                "Authorization",
                bearer(token.as_str()).as_str(),
            ).header("Content-Type", "application/json").text(body.as_str());
            Step::Send(to_marketplace(request, marketplace))
        },
        Err((status, body)) => Step::Done(report_token_failure("app token error: ", status, body)),
    }
}

// ---------------------------------------------------------------------------------------------
// The Trading API
// ---------------------------------------------------------------------------------------------

/// The request of a Trading API call.
pub open spec fn trading_request_of(
    env: Seq<char>,
    token: Seq<char>,
    call_name: Seq<char>,
    site_id: Seq<char>,
    xml: Seq<char>,
) -> RequestView {
    RequestView::to(Method::Post, trading_endpoint(env)).header(
        "X-EBAY-API-SITEID"@,
        site_id,
    ).header("X-EBAY-API-COMPATIBILITY-LEVEL"@, "1193"@).header(
        "X-EBAY-API-CALL-NAME"@,
        call_name,
    ).header("X-EBAY-API-IAF-TOKEN"@, token).header("Content-Type"@, "text/xml"@).body(
        BodyView::Text(xml),
    )
}

/// What the caller is told of a Trading API call. The API often answers 200 and reports the
/// failure inside the document: that is no success.
pub open spec fn trading_result_of(outcome: OutcomeView) -> ApiResultView {
    match outcome {
        OutcomeView::Reply { status, body } => ApiResultView {
            ok: is_success(status) && find(body, "<Ack>Failure</Ack>"@) is None,
            status,
            body,
        },
        OutcomeView::Failed(e) => failure(0, e),
    }
}

/// The step after the token request of a Trading API call.
pub open spec fn trading_step_of(
    token: TokenResult,
    env: Seq<char>,
    call_name: Seq<char>,
    site_id: Seq<char>,
    xml: Seq<char>,
) -> StepView {
    match token {
        Ok(token) => StepView::Send(trading_request_of(env, token, call_name, site_id, xml)),
        Err((status, body)) => StepView::Done(token_failure("token error: "@, status, body)),
    }
}

/// The step after the token request of a Trading API call.
pub fn ebay_trading_call(
    token: Result<String, (u16, String)>,
    env: &str,
    call_name: &str,
    site_id: &str,
    xml: &str,
) -> (r: Step)
    ensures
        r@ == trading_step_of(token_result_view(token), env@, call_name@, site_id@, xml@),
{
    match token {
        Ok(token) => Step::Send(
            HttpRequest::to(Method::Post, trading_url(env)).header(
                "X-EBAY-API-SITEID",
                site_id,
            ).header("X-EBAY-API-COMPATIBILITY-LEVEL", "1193").header(
                "X-EBAY-API-CALL-NAME",
                call_name,
            ).header("X-EBAY-API-IAF-TOKEN", token.as_str()).header(
                "Content-Type",
                "text/xml",
            ).text(xml),
        ),
        Err((status, body)) => Step::Done(report_token_failure("token error: ", status, body)),
    }
}

/// What the caller is told of a Trading API call.
pub fn trading_report(outcome: Outcome) -> (r: ApiResult)
    ensures
        r@ == trading_result_of(outcome@),
{
    match outcome {
        Outcome::Reply { status, body } => {
            let ok: bool = succeeded(status) && !contains(body.as_str(), "<Ack>Failure</Ack>");
            ApiResult { ok, status, body }
        },
        Outcome::Failed(e) => refused(0, e),
    }
}

/// The name of a picture without angle brackets.
pub open spec fn safe_name(name: Seq<char>) -> Seq<char> {
    replaced(replaced(name, '<', " "@), '>', " "@)
}

/// The document that asks for a picture to be hosted.
pub open spec fn picture_xml(name: Seq<char>) -> Seq<char> {
    "<?xml version=\"1.0\" encoding=\"utf-8\"?>\n<UploadSiteHostedPicturesRequest xmlns=\"urn:ebay:apis:eBLBaseComponents\"><PictureName>"@
        + safe_name(name)
        + "</PictureName><PictureSet>Supersize</PictureSet></UploadSiteHostedPicturesRequest>"@
}

/// The request that uploads a picture.
pub open spec fn picture_request_of(
    env: Seq<char>,
    token: Seq<char>,
    name: Seq<char>,
    bytes: Seq<u8>,
) -> RequestView {
    RequestView::to(Method::Post, trading_endpoint(env)).header(
        "X-EBAY-API-CALL-NAME"@,
        "UploadSiteHostedPictures"@,
    ).header("X-EBAY-API-COMPATIBILITY-LEVEL"@, "1193"@).header(
        "X-EBAY-API-SITEID"@,
        "0"@,
    ).header("X-EBAY-API-IAF-TOKEN"@, token).body(
        BodyView::Upload(
            UploadView {
                text_name: "XML Payload"@,
                text: picture_xml(name),
                file_field: "image"@,
                file_name: "photo.jpg"@,
                mime: "application/octet-stream"@,
                bytes,
            },
        ),
    )
}

/// The step after the token request of a picture: the upload, unless the image does not decode.
pub open spec fn picture_step_of(
    token: TokenResult,
    env: Seq<char>,
    image: Seq<char>,
    name: Seq<char>,
) -> StepView {
    match token {
        Ok(token) => match base64_bytes(upload_text(image)) {
            Ok(bytes) => StepView::Send(picture_request_of(env, token, name, bytes)),
            Err(e) => StepView::Done(failure(0, "image decode error: "@ + e)),
        },
        Err((status, body)) => StepView::Done(token_failure("token error: "@, status, body)),
    }
}

/// What stands between the first `<tag>` in a document and the first `</tag>` after it, without
/// the white space around it.
pub open spec fn tag_text(xml: Seq<char>, tag: Seq<char>) -> Option<Seq<char>> {
    let open = "<"@ + tag + ">"@;
    let close = "</"@ + tag + ">"@;
    match find(xml, open) {
        Some(i) => match find_from(xml, close, i + open.len()) {
            Some(j) => Some(trim(xml.subrange(i + open.len(), j))),
            None => None,
        },
        None => None,
    }
}

/// The address of the hosted picture in a reply.
pub open spec fn picture_url(xml: Seq<char>) -> Option<Seq<char>> {
    match tag_text(xml, "FullURL"@) {
        Some(url) => Some(url),
        None => tag_text(xml, "ExternalPictureURL"@),
    }
}

/// What the caller is told of an upload: the address of the hosted picture.
pub open spec fn picture_result_of(outcome: OutcomeView) -> ApiResultView {
    match outcome {
        OutcomeView::Reply { status, body } => match picture_url(body) {
            Some(url) => if url.len() > 0 {
                ApiResultView { ok: true, status, body: url }
            } else {
                failure(status, body)
            },
            None => failure(status, body),
        },
        OutcomeView::Failed(e) => failure(0, e),
    }
}

/// What stands between the first `<tag>` and the first `</tag>` after it.
pub fn extract_tag(xml: &str, tag: &str) -> (r: Option<String>)
    ensures
        option_view(r) == tag_text(xml@, tag@),
{
    let cs: Vec<char> = chars_of(xml);
    let open: String = "<".to_string().concat(tag).concat(">");
    let close: String = "</".to_string().concat(tag).concat(">");
    let os: Vec<char> = chars_of(open.as_str());
    let es: Vec<char> = chars_of(close.as_str());
    let n: usize = cs.len();
    match find_chars(cs.as_slice(), os.as_slice(), 0) {
        Some(i) => {
            assert(i + os@.len() <= n);
            let start: usize = i + os.len();
            match find_chars(cs.as_slice(), es.as_slice(), start) {
                Some(j) => {
                    let inner: String = text_between(cs.as_slice(), start, j);
                    Some(trimmed(inner.as_str()))
                },
                None => None,
            }
        },
        None => None,
    }
}

/// The step after the token request of a picture.
pub fn ebay_upload_picture(
    token: Result<String, (u16, String)>,
    env: &str,
    image: &str,
    name: &str,
) -> (r: Step)
    ensures
        r@ == picture_step_of(token_result_view(token), env@, image@, name@),
{
    match token {
        Ok(token) => match decode_base64(upload_payload(image).as_str()) {
            Ok(bytes) => {
                let name: String = replace_char(
                    replace_char(name, '<', " ").as_str(),
                    '>',
                    " ",
                );
                let xml: String =
                    "<?xml version=\"1.0\" encoding=\"utf-8\"?>\n<UploadSiteHostedPicturesRequest xmlns=\"urn:ebay:apis:eBLBaseComponents\"><PictureName>".to_string().concat(
                    name.as_str(),
                ).concat(
                    "</PictureName><PictureSet>Supersize</PictureSet></UploadSiteHostedPicturesRequest>",
                );
                let upload = Upload {
                    text_name: "XML Payload".to_string(),
                    text: xml,
                    file_field: "image".to_string(),
                    file_name: "photo.jpg".to_string(),
                    mime: "application/octet-stream".to_string(),
                    bytes,
                };
                Step::Send(
                    HttpRequest::to(Method::Post, trading_url(env)).header(
                        "X-EBAY-API-CALL-NAME",
                        "UploadSiteHostedPictures",
                    ).header("X-EBAY-API-COMPATIBILITY-LEVEL", "1193").header(
                        "X-EBAY-API-SITEID",
                        "0",
                    ).header("X-EBAY-API-IAF-TOKEN", token.as_str()).body(Body::Upload(upload)),
                )
            },
            Err(e) => Step::Done(
                refused(0, "image decode error: ".to_string().concat(e.as_str())),
            ),
        },
        Err((status, body)) => Step::Done(report_token_failure("token error: ", status, body)),
    }
}

/// What the caller is told of an upload.
pub fn picture_report(outcome: Outcome) -> (r: ApiResult)
    ensures
        r@ == picture_result_of(outcome@),
{
    match outcome {
        Outcome::Reply { status, body } => {
            let url: Option<String> = match extract_tag(body.as_str(), "FullURL") {
                Some(url) => Some(url),
                None => extract_tag(body.as_str(), "ExternalPictureURL"),
            };
            match url {
                Some(url) => if url.as_str().is_empty() {
                    refused(status, body)
                } else {
                    ApiResult { ok: true, status, body: url }
                },
                None => refused(status, body),
            }
        },
        Outcome::Failed(e) => refused(0, e),
    }
}

// ---------------------------------------------------------------------------------------------
// The token probe
// ---------------------------------------------------------------------------------------------

/// The header by which eBay finds a request in its log.
pub const LOG_HEADER: &'static str = "rlogid";

/// The header that names a request.
pub const REQUEST_ID_HEADER: &'static str = "x-ebay-c-request-id";

/// The header that names a request where the other one is missing or empty.
pub const OTHER_REQUEST_ID_HEADER: &'static str = "x-ebay-request-id";

/// What became of a probe, with the headers by which eBay finds a request again.
pub enum ProbeOutcome {
    Reply {
        status: u16,
        rlogid: Option<String>,
        request_id: Option<String>,
        other_request_id: Option<String>,
        body: String,
    },
    Failed(String),
}

/// What eBay's support asks for about a token request.
pub struct TokenProbe {
    pub status: u16,
    pub body: String,
    pub rlogid: String,
    pub request_id: String,
    pub auth_header: String,
    pub request_url: String,
    pub request_body: String,
}

/// A probe in contracts.
pub struct TokenProbeView {
    pub status: u16,
    pub body: Seq<char>,
    pub rlogid: Seq<char>,
    pub request_id: Seq<char>,
    pub auth_header: Seq<char>,
    pub request_url: Seq<char>,
    pub request_body: Seq<char>,
}

impl View for TokenProbe {
    type V = TokenProbeView;

    open spec fn view(&self) -> TokenProbeView {
        TokenProbeView {
            status: self.status,
            body: self.body@,
            rlogid: self.rlogid@,
            request_id: self.request_id@,
            auth_header: self.auth_header@,
            request_url: self.request_url@,
            request_body: self.request_body@,
        }
    }
}

/// The value of a header; empty where it is missing.
pub open spec fn header_or_empty(value: Option<String>) -> Seq<char> {
    match value {
        Some(s) => s@,
        None => Seq::empty(),
    }
}

/// The body of the token request, written out.
pub open spec fn probe_body(refresh_token: Seq<char>, scope: Seq<char>) -> Seq<char> {
    "grant_type=refresh_token&refresh_token="@ + refresh_token + "&scope="@ + or_usual(
        scope,
        INVENTORY_SCOPE@,
    )
}

/// What a probe tells.
pub open spec fn probe_of(
    env: Seq<char>,
    app_id: Seq<char>,
    cert_id: Seq<char>,
    refresh_token: Seq<char>,
    scope: Seq<char>,
    outcome: ProbeOutcome,
) -> TokenProbeView {
    match outcome {
        ProbeOutcome::Reply { status, rlogid, request_id, other_request_id, body } =>
            TokenProbeView {
            status,
            body: body@,
            rlogid: header_or_empty(rlogid),
            request_id: or_usual(header_or_empty(request_id), header_or_empty(other_request_id)),
            auth_header: basic_credentials(app_id, cert_id),
            request_url: token_endpoint(env),
            request_body: probe_body(refresh_token, scope),
        },
        ProbeOutcome::Failed(e) => TokenProbeView {
            status: 0,
            body: e@,
            rlogid: Seq::empty(),
            request_id: Seq::empty(),
            auth_header: basic_credentials(app_id, cert_id),
            request_url: token_endpoint(env),
            request_body: probe_body(refresh_token, scope),
        },
    }
}

/// The value of a header; empty where it is missing.
fn header_text(value: Option<String>) -> (r: String)
    ensures
        r@ == header_or_empty(value),
{
    match value {
        Some(s) => s,
        None => String::new(),
    }
}

/// What a probe tells. Its request is the token request of the calls that act for a user.
pub fn ebay_token_probe(
    env: &str,
    app_id: &str,
    cert_id: &str,
    refresh_token: &str,
    scope: &str,
    outcome: ProbeOutcome,
) -> (r: TokenProbe)
    requires
        credentials_fit(app_id@, cert_id@),
    ensures
        r@ == probe_of(env@, app_id@, cert_id@, refresh_token@, scope@, outcome),
{
    let scope: String = text_or_usual(scope, INVENTORY_SCOPE);
    let auth_header: String = basic_auth(app_id, cert_id);
    let request_url: String = token_url(env);
    let request_body: String = "grant_type=refresh_token&refresh_token=".to_string().concat(
        refresh_token,
    ).concat("&scope=").concat(scope.as_str());
    match outcome {
        ProbeOutcome::Reply { status, rlogid, request_id, other_request_id, body } => {
            let first: String = header_text(request_id);
            let second: String = header_text(other_request_id);
            TokenProbe {
                status,
                body,
                rlogid: header_text(rlogid),
                request_id: text_or_usual(first.as_str(), second.as_str()),
                auth_header,
                request_url,
                request_body,
            }
        },
        ProbeOutcome::Failed(e) => TokenProbe {
            status: 0,
            body: e,
            rlogid: String::new(),
            request_id: String::new(),
            auth_header,
            request_url,
            request_body,
        },
    }
}

// ---------------------------------------------------------------------------------------------
// Laws
// ---------------------------------------------------------------------------------------------

/// A picture that was read from a folder as a data URL is uploaded with the bytes of its file.
pub proof fn law_uploads_the_same_bytes(
    env: Seq<char>,
    token: Seq<char>,
    mime: Seq<char>,
    bytes: Seq<u8>,
    name: Seq<char>,
)
    requires
        !mime.contains(','),
    ensures
        picture_step_of(Ok(token), env, data_url_of(mime, bytes), name) == StepView::Send(
            picture_request_of(env, token, name, bytes),
        ),
{
    law_data_url_round_trip(mime, bytes);
}

/// Without a token nothing is sent, whatever the call; the caller is told the status and the text
/// with which the token was refused, behind a word on what it was for.
pub proof fn law_no_call_without_token(
    status: u16,
    body: Seq<char>,
    env: Seq<char>,
    marketplace: Seq<char>,
    target: Seq<char>,
    payload: Seq<char>,
    limit: Seq<char>,
    offset: Seq<char>,
    label: Seq<char>,
    method: Method,
)
    ensures
        get_step_of(label, Err((status, body)), env, marketplace, target) == StepView::Done(
            failure(status, label + body),
        ),
        write_step_of(method, Err((status, body)), env, marketplace, target, payload)
            == StepView::Done(failure(status, "user token error: "@ + body)),
        inventory_step_of(Err((status, body)), env, marketplace, target, payload)
            == StepView::Done(failure(status, "token error: "@ + body)),
        image_search_step_of(Err((status, body)), env, marketplace, payload, limit, offset)
            == StepView::Done(failure(status, "app token error: "@ + body)),
        trading_step_of(Err((status, body)), env, target, marketplace, payload) == StepView::Done(
            failure(status, "token error: "@ + body),
        ),
        picture_step_of(Err((status, body)), env, payload, target) == StepView::Done(
            failure(status, "token error: "@ + body),
        ),
{
}

/// Every request goes where its environment says: for production to none of the sandbox's hosts,
/// and for any other environment to no other host than those.
pub proof fn law_environments_stay_apart(
    env: Seq<char>,
    app_id: Seq<char>,
    cert_id: Seq<char>,
    form: Seq<(Seq<char>, Seq<char>)>,
    method: Method,
    token: Seq<char>,
    marketplace: Seq<char>,
    target: Seq<char>,
    payload: Seq<char>,
    limit: Seq<char>,
    offset: Seq<char>,
    bytes: Seq<u8>,
)
    ensures
        in_sandbox(token_request_of(env, app_id, cert_id, form).url) <==> !is_production(env),
        in_sandbox(get_request_of(env, token, marketplace, target).url) <==> !is_production(env),
        in_sandbox(write_request_of(method, env, token, marketplace, target, payload).url)
            <==> !is_production(env),
        in_sandbox(inventory_request_of(env, token, marketplace, target, payload).url)
            <==> !is_production(env),
        in_sandbox(image_search_request_of(env, token, marketplace, payload, limit, offset).url)
            <==> !is_production(env),
        in_sandbox(trading_request_of(env, token, target, marketplace, payload).url)
            <==> !is_production(env),
        in_sandbox(picture_request_of(env, token, target, bytes).url) <==> !is_production(env),
{
    law_sandbox_hosts(env, target, target);
    let item = "/sell/inventory/v1/inventory_item/"@ + target;
    law_sandbox_hosts(env, target, item);
    assert(inventory_request_of(env, token, marketplace, target, payload).url =~= api_host(env)
        + item);
    let search = "/buy/browse/v1/item_summary/search_by_image?limit="@ + or_usual(limit, "15"@)
        + "&offset="@ + or_usual(offset, "0"@);
    law_sandbox_hosts(env, target, search);
    assert(image_search_request_of(env, token, marketplace, payload, limit, offset).url
        =~= api_host(env) + search);
}

/// A Trading API document that reports a failure is never told as a success.
pub proof fn law_trading_failure_is_told(status: u16, body: Seq<char>, at: int)
    requires
        occurs_at(body, "<Ack>Failure</Ack>"@, at),
    ensures
        !trading_result_of(OutcomeView::Reply { status, body }).ok,
{
    lemma_find_first(body, "<Ack>Failure</Ack>"@, 0, at);
}

/// A picture's name reaches the document without angle brackets, at its length.
pub proof fn law_safe_name(name: Seq<char>)
    ensures
        !safe_name(name).contains('<'),
        !safe_name(name).contains('>'),
        safe_name(name).len() == name.len(),
{
    reveal_strlit(" ");
    lemma_replaced_by_one(name, '<', ' ');
    assert(seq![' '] =~= " "@);
    lemma_replaced_by_one(replaced(name, '<', " "@), '>', ' ');
    let inner = replaced(name, '<', " "@);
    assert forall|i: int| 0 <= i < safe_name(name).len() implies safe_name(name)[i] != '<'
        && safe_name(name)[i] != '>' by {
        assert(inner[i] != '<');
    }
}

/// The text between a tag and its end is read back: the first such pair counts, and white space
/// around the text does not.
pub proof fn law_tag_is_read(head: Seq<char>, tag: Seq<char>, inner: Seq<char>, tail: Seq<char>)
    requires
        !inner.contains('<'),
        ({
            let open = "<"@ + tag + ">"@;
            let xml = head + open + inner + ("</"@ + tag + ">"@) + tail;
            forall|i: int| 0 <= i < head.len() ==> !#[trigger] occurs_at(xml, open, i)
        }),
    ensures
        tag_text(head + ("<"@ + tag + ">"@) + inner + ("</"@ + tag + ">"@) + tail, tag) == Some(
            trim(inner),
        ),
{
    let open = "<"@ + tag + ">"@;
    let close = "</"@ + tag + ">"@;
    let xml = head + open + inner + close + tail;
    let start = head.len() + open.len();
    let end = start + inner.len();
    reveal_strlit("</");
    assert(xml.subrange(head.len() as int, start as int) =~= open);
    assert(xml.subrange(end as int, (end + close.len()) as int) =~= close);
    assert(occurs_at(xml, open, head.len() as int));
    assert(occurs_at(xml, close, end as int));
    assert forall|i: int| start <= i < end implies !#[trigger] occurs_at(xml, close, i) by {
        if occurs_at(xml, close, i) {
            assert(xml.subrange(i, i + close.len())[0] == close[0]);
            assert(xml[i] == inner[i - start]);
        }
    }
    lemma_find_is_first(xml, open, 0, head.len() as int);
    lemma_find_is_first(xml, close, start as int, end as int);
    assert(xml.subrange(start as int, end as int) =~= inner);
}

} // verus!
