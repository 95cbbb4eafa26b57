//! Laws of the calls to eBay.

use vstd::prelude::*;
use vstd::utf8::*;

use crate::ebay::{
    app_call_token_request, app_token_request, bearer, can_send_credentials, code_request, do_get,
    do_post, do_put, ebay_get_app, ebay_get_user, ebay_post_user, ebay_put_inventory_item,
    ebay_put_user, ebay_search_by_image, ebay_test, ebay_token_probe, ebay_trading_call,
    ebay_upload_picture, extract_tag, get_request, image_search_report, inventory_report,
    inventory_token_request, note_of_write, picture_report, text_or_usual, trading_report,
    trading_token_request, user_call_token_request, user_token_request, write_note, write_request,
    ProbeOutcome, TokenProbe, LOG_HEADER, OTHER_REQUEST_ID_HEADER, REQUEST_ID_HEADER,
};
use crate::encoding::{basic_auth, decode_base64, upload_payload};
use crate::hosts::{base_url, host_for, token_url, trading_url};
use crate::http::{ApiResult, BodyView, HttpRequest, Method, Outcome, RequestView, Step};
use crate::laws::text::lemma_found;
use crate::outside::base64_fits;
use crate::text::{find, find_from, lemma_replaced_by_one, replaced, trimmed};

verus! {

/// Whether a request is a form that is posted to the token endpoint, with nothing but the
/// credentials and the kind of the form in its headers.
pub open spec fn posts_form(
    request: RequestView,
    url: Seq<char>,
    credentials: Seq<char>,
    fields: Seq<(Seq<char>, Seq<char>)>,
) -> bool {
    &&& request.method == Method::Post
    &&& request.url == url
    &&& request.login is None
    &&& request.headers == seq![
        ("Authorization"@, credentials),
        ("Content-Type"@, "application/x-www-form-urlencoded"@),
    ]
    &&& request.body == BodyView::Form(fields)
}

/// A token is asked for by a POST of a form to the token endpoint of the environment, with the
/// credentials of the application: a user's token against the refresh token, an application's
/// against nothing more, and a code with the redirect name that it was given for. The refresh
/// token, the code, the name and the scope go into the form whole.
pub proof fn law_token_requests(
    env: &str,
    app_id: &str,
    cert_id: &str,
    refresh_token: &str,
    scope: &str,
    ru_name: &str,
    code: &str,
    url: String,
    credentials: String,
    user: HttpRequest,
    app: HttpRequest,
    exchange: HttpRequest,
)
    requires
        call_ensures(token_url, (env,), url),
        call_ensures(basic_auth, (app_id, cert_id), credentials),
        call_ensures(user_token_request, (env, app_id, cert_id, refresh_token, scope), user),
        call_ensures(app_token_request, (env, app_id, cert_id, scope), app),
        call_ensures(code_request, (env, app_id, cert_id, ru_name, code), exchange),
    ensures
        posts_form(
            user@,
            url@,
            credentials@,
            seq![
                ("grant_type"@, "refresh_token"@),
                ("refresh_token"@, refresh_token@),
                ("scope"@, scope@),
            ],
        ),
        posts_form(
            app@,
            url@,
            credentials@,
            seq![("grant_type"@, "client_credentials"@), ("scope"@, scope@)],
        ),
        posts_form(
            exchange@,
            url@,
            credentials@,
            seq![
                ("grant_type"@, "authorization_code"@),
                ("code"@, code@),
                ("redirect_uri"@, ru_name@),
            ],
        ),
{
    assert(user@.headers =~= seq![
        ("Authorization"@, credentials@),
        ("Content-Type"@, "application/x-www-form-urlencoded"@),
    ]);
}

/// The scope that a caller names is asked for as it is named; where it names none, a user's call
/// asks for the inventory scope and an application's for the base scope. The Trading API asks for
/// the base scope, and inventory items, pictures and the test of the keys for the inventory scope.
pub proof fn law_scopes(
    env: &str,
    app_id: &str,
    cert_id: &str,
    refresh_token: &str,
    scope: &str,
    url: String,
    credentials: String,
    user: HttpRequest,
    app: HttpRequest,
    trading: HttpRequest,
    inventory: HttpRequest,
)
    requires
        call_ensures(token_url, (env,), url),
        call_ensures(basic_auth, (app_id, cert_id), credentials),
        call_ensures(user_call_token_request, (env, app_id, cert_id, refresh_token, scope), user),
        call_ensures(app_call_token_request, (env, app_id, cert_id, scope), app),
        call_ensures(trading_token_request, (env, app_id, cert_id, refresh_token), trading),
        call_ensures(inventory_token_request, (env, app_id, cert_id, refresh_token), inventory),
    ensures
        ({
            let asked = if scope@.len() == 0 {
                "https://api.ebay.com/oauth/api_scope/sell.inventory"@
            } else {
                scope@
            };
            posts_form(
                user@,
                url@,
                credentials@,
                seq![
                    ("grant_type"@, "refresh_token"@),
                    ("refresh_token"@, refresh_token@),
                    ("scope"@, asked),
                ],
            )
        }),
        ({
            let asked = if scope@.len() == 0 {
                "https://api.ebay.com/oauth/api_scope"@
            } else {
                scope@
            };
            posts_form(
                app@,
                url@,
                credentials@,
                seq![("grant_type"@, "client_credentials"@), ("scope"@, asked)],
            )
        }),
        posts_form(
            trading@,
            url@,
            credentials@,
            seq![
                ("grant_type"@, "refresh_token"@),
                ("refresh_token"@, refresh_token@),
                ("scope"@, "https://api.ebay.com/oauth/api_scope"@),
            ],
        ),
        posts_form(
            inventory@,
            url@,
            credentials@,
            seq![
                ("grant_type"@, "refresh_token"@),
                ("refresh_token"@, refresh_token@),
                ("scope"@, "https://api.ebay.com/oauth/api_scope/sell.inventory"@),
            ],
        ),
{
    assert(user@.headers =~= seq![
        ("Authorization"@, credentials@),
        ("Content-Type"@, "application/x-www-form-urlencoded"@),
    ]);
}

/// Text that is given is taken as it is, and the usual one where none is; a bearer's header names
/// the whole token; and the test of the keys tells a success exactly where a token came, and else
/// the status and the text that came in its place.
pub proof fn law_small_texts(
    given: &str,
    usual: &str,
    taken: String,
    header: String,
    token: Result<String, (u16, String)>,
    told: ApiResult,
)
    requires
        call_ensures(text_or_usual, (given, usual), taken),
        call_ensures(bearer, (given,), header),
        call_ensures(ebay_test, (token,), told),
    ensures
        given@.len() > 0 ==> taken@ == given@,
        given@.len() == 0 ==> taken@ == usual@,
        header@ == "Bearer "@ + given@,
        match token {
            Ok(_) => told.ok && told.status == 200 && told.body@ == "token refreshed"@,
            Err((status, body)) => !told.ok && told.status == status && told.body@ == body@,
        },
{
}

/// Credentials can be sent where both texts with a colon between them can be encoded.
pub proof fn law_credentials_fit(app_id: &str, cert_id: &str, r: bool)
    requires
        call_ensures(can_send_credentials, (app_id, cert_id), r),
    ensures
        r <==> base64_fits(encode_utf8(app_id@ + ":"@ + cert_id@).len()),
{
}

/// The headers of a call, with the marketplace last where one is named.
pub open spec fn named(
    headers: Seq<(Seq<char>, Seq<char>)>,
    marketplace: Seq<char>,
) -> Seq<(Seq<char>, Seq<char>)> {
    if marketplace.len() == 0 {
        headers
    } else {
        headers.push(("X-EBAY-C-MARKETPLACE-ID"@, marketplace))
    }
}

/// A read is a GET of the path on the host that serves it, with the whole token and no body.
pub proof fn law_read(
    env: &str,
    token: &str,
    marketplace: &str,
    path: &str,
    host: String,
    r: HttpRequest,
)
    requires
        call_ensures(host_for, (env, path), host),
        call_ensures(get_request, (env, token, marketplace, path), r),
    ensures
        r.method == Method::Get,
        r.url@ == host@ + path@,
        r.login is None,
        r@.headers == named(
            seq![
                ("Authorization"@, "Bearer "@ + token@),
                ("Content-Type"@, "application/json"@),
            ],
            marketplace@,
        ),
        r@.body is Empty,
{
}

/// A write has the method that is asked for, goes to the path on the host that serves it with the
/// whole token, and carries the payload unchanged, whatever the method.
pub proof fn law_write(
    method: Method,
    env: &str,
    token: &str,
    marketplace: &str,
    path: &str,
    payload: &str,
    host: String,
    r: HttpRequest,
)
    requires
        call_ensures(host_for, (env, path), host),
        call_ensures(write_request, (method, env, token, marketplace, path, payload), r),
    ensures
        r.method == method,
        r.url@ == host@ + path@,
        r.login is None,
        r@.headers == named(
            seq![
                ("Authorization"@, "Bearer "@ + token@),
                ("Content-Type"@, "application/json"@),
                ("Content-Language"@, "en-US"@),
            ],
            marketplace@,
        ),
        r@.body == BodyView::Text(payload@),
{
}

/// With a token, the commands that read and write send just the read or the write of that token: a
/// GET, a POST or a PUT. Without one they send nothing and tell the status and the text of the
/// refusal.
pub proof fn law_commands(
    token: Result<String, (u16, String)>,
    t: &str,
    env: &str,
    marketplace: &str,
    path: &str,
    payload: &str,
    get: HttpRequest,
    post: HttpRequest,
    put: HttpRequest,
    app: Step,
    user: Step,
    posted: Step,
    putted: Step,
)
    requires
        token matches Ok(s) ==> t@ == s@,
        call_ensures(get_request, (env, t, marketplace, path), get),
        call_ensures(write_request, (Method::Post, env, t, marketplace, path, payload), post),
        call_ensures(write_request, (Method::Put, env, t, marketplace, path, payload), put),
        call_ensures(ebay_get_app, (token, env, marketplace, path), app),
        call_ensures(ebay_get_user, (token, env, marketplace, path), user),
        call_ensures(ebay_post_user, (token, env, marketplace, path, payload), posted),
        call_ensures(ebay_put_user, (token, env, marketplace, path, payload), putted),
    ensures
        match token {
            Ok(_) => {
                &&& app matches Step::Send(r) && r@ == get@
                &&& user matches Step::Send(r) && r@ == get@
                &&& posted matches Step::Send(r) && r@ == post@
                &&& putted matches Step::Send(r) && r@ == put@
            },
            Err((status, body)) => {
                &&& refuses(app, status, "app token error: "@ + body@)
                &&& refuses(user, status, "user token error: "@ + body@)
                &&& refuses(posted, status, "user token error: "@ + body@)
                &&& refuses(putted, status, "user token error: "@ + body@)
            },
        },
{
}

/// Whether a step sends nothing and tells a refusal.
pub open spec fn refuses(step: Step, status: u16, body: Seq<char>) -> bool {
    step matches Step::Done(r) && !r.ok && r.status == status && r.body@ == body
}

/// What is told of a read or a write: a success as it came, and anything else behind the address
/// that it went to and the payload that it carried.
pub proof fn law_call_reports(
    env: &str,
    path: &str,
    payload: &str,
    outcome: Outcome,
    host: String,
    get: ApiResult,
    post: ApiResult,
    put: ApiResult,
)
    requires
        call_ensures(host_for, (env, path), host),
        call_ensures(do_get, (env, path, outcome), get),
        call_ensures(do_post, (env, path, payload, outcome), post),
        call_ensures(do_put, (env, path, payload, outcome), put),
    ensures
        ({
            let url = host@ + path@;
            let sent = "]\nSent: "@ + payload@ + "\n"@;
            &&& tells(get, "[GET "@ + url + "]\n"@, outcome)
            &&& tells(post, "[POST "@ + url + sent, outcome)
            &&& tells(put, "[PUT "@ + url + sent, outcome)
        }),
{
    let url = host@ + path@;
    let sent = "]\nSent: "@ + payload@ + "\n"@;
    lemma_note("POST"@, url, payload@);
    lemma_note("PUT"@, url, payload@);
    reveal_strlit("[");
    reveal_strlit(" ");
    reveal_strlit("POST");
    reveal_strlit("PUT");
    reveal_strlit("[POST ");
    reveal_strlit("[PUT ");
    assert("["@ + "POST"@ + " "@ =~= "[POST "@);
    assert("["@ + "PUT"@ + " "@ =~= "[PUT "@);
}

/// Whether a result tells an outcome, with a note before whatever is no success.
pub open spec fn tells(r: ApiResult, note: Seq<char>, outcome: Outcome) -> bool {
    match outcome {
        Outcome::Reply { status, body } => {
            &&& r.status == status
            &&& r.ok == (status / 100 == 2)
            &&& r.body@ == if status / 100 == 2 {
                body@
            } else {
                note + body@
            }
        },
        Outcome::Failed(e) => !r.ok && r.status == 0 && r.body@ == note + e@,
    }
}

/// Whether a result tells an outcome as it came.
pub open spec fn tells_plainly(r: ApiResult, outcome: Outcome) -> bool {
    match outcome {
        Outcome::Reply { status, body } => r.status == status && r.ok == (status / 100 == 2)
            && r.body@ == body@,
        Outcome::Failed(e) => !r.ok && r.status == 0 && r.body@ == e@,
    }
}

proof fn lemma_note(verb: Seq<char>, url: Seq<char>, payload: Seq<char>)
    ensures
        write_note(verb, url, payload) == "["@ + verb + " "@ + url + (
        "]\nSent: "@ + payload + "\n"@),
{
    assert(write_note(verb, url, payload) =~= "["@ + verb + " "@ + url + (
    "]\nSent: "@ + payload + "\n"@));
}

/// A note of a write names the verb, the address and the payload, each whole.
pub proof fn law_note(verb: &str, url: &str, payload: &str, r: String)
    requires
        call_ensures(note_of_write, (verb, url, payload), r),
    ensures
        r@ == "["@ + verb@ + " "@ + url@ + "]\nSent: "@ + payload@ + "\n"@,
{
}

/// Inventory items and searches by image are told as they came.
pub proof fn law_plain_reports(outcome: Outcome, item: ApiResult, search: ApiResult)
    requires
        call_ensures(inventory_report, (outcome,), item),
        call_ensures(image_search_report, (outcome,), search),
    ensures
        tells_plainly(item, outcome),
        tells_plainly(search, outcome),
{
}

/// An inventory item is put, under its stock number, with the payload unchanged.
pub proof fn law_inventory_item(
    token: Result<String, (u16, String)>,
    env: &str,
    marketplace: &str,
    sku: &str,
    payload: &str,
    host: &'static str,
    r: Step,
)
    requires
        call_ensures(base_url, (env,), host),
        call_ensures(ebay_put_inventory_item, (token, env, marketplace, sku, payload), r),
    ensures
        match token {
            Ok(t) => r matches Step::Send(q) && {
                &&& q.method == Method::Put
                &&& q.url@ == host@ + "/sell/inventory/v1/inventory_item/"@ + sku@
                &&& q.login is None
                &&& q@.headers == seq![
                    ("Authorization"@, "Bearer "@ + t@),
                    ("Content-Type"@, "application/json"@),
                    ("Content-Language"@, "en-US"@),
                    ("X-EBAY-C-MARKETPLACE-ID"@, marketplace@),
                ]
                &&& q@.body == BodyView::Text(payload@)
            },
            Err((status, body)) => refuses(r, status, "token error: "@ + body@),
        },
{
    if let Step::Send(q) = r {
        assert(token is Ok ==> q@.headers =~= seq![
            ("Authorization"@, "Bearer "@ + token->Ok_0@),
            ("Content-Type"@, "application/json"@),
            ("Content-Language"@, "en-US"@),
            ("X-EBAY-C-MARKETPLACE-ID"@, marketplace@),
        ]);
    }
}

/// A search by image posts the image, all of it but its quotation marks, and asks for as many
/// results from where on as the caller says: for 15, and from the first one on, where it does not
/// say.
pub proof fn law_image_search(
    token: Result<String, (u16, String)>,
    env: &str,
    marketplace: &str,
    image: &str,
    limit: &str,
    offset: &str,
    host: &'static str,
    r: Step,
)
    requires
        call_ensures(base_url, (env,), host),
        call_ensures(ebay_search_by_image, (token, env, marketplace, image, limit, offset), r),
    ensures
        match token {
            Ok(t) => r matches Step::Send(q) && {
                let count = if limit@.len() == 0 {
                    "15"@
                } else {
                    limit@
                };
                let from = if offset@.len() == 0 {
                    "0"@
                } else {
                    offset@
                };
                &&& q.method == Method::Post
                &&& q.url@ == host@ + "/buy/browse/v1/item_summary/search_by_image?limit="@ + count
                    + "&offset="@ + from
                &&& q.login is None
                &&& q@.headers == named(
                    seq![
                        ("Authorization"@, "Bearer "@ + t@),
                        ("Content-Type"@, "application/json"@),
                    ],
                    marketplace@,
                )
                &&& q@.body == BodyView::Text(
                    "{\"image\":\""@ + image@.filter(|c: char| c != '"') + "\"}"@,
                )
            },
            Err((status, body)) => refuses(r, status, "app token error: "@ + body@),
        },
{
    lemma_left_out(image@, '"');
}

/// Replacing a character by nothing leaves the others.
proof fn lemma_left_out(s: Seq<char>, c: char)
    ensures
        replaced(s, c, Seq::empty()) == s.filter(|x: char| x != c),
    decreases s.len(),
{
    reveal(Seq::filter);
    if s.len() > 0 {
        lemma_left_out(s.drop_last(), c);
        assert(replaced(s.drop_last(), c, Seq::empty()) + Seq::<char>::empty() =~= replaced(
            s.drop_last(),
            c,
            Seq::empty(),
        ));
    }
}

/// A Trading API call posts the document unchanged to the environment's endpoint, with the call's
/// name, the site and the whole token in the headers.
pub proof fn law_trading_call(
    token: Result<String, (u16, String)>,
    env: &str,
    call_name: &str,
    site_id: &str,
    xml: &str,
    url: &'static str,
    r: Step,
)
    requires
        call_ensures(trading_url, (env,), url),
        call_ensures(ebay_trading_call, (token, env, call_name, site_id, xml), r),
    ensures
        match token {
            Ok(t) => r matches Step::Send(q) && {
                &&& q.method == Method::Post
                &&& q.url@ == url@
                &&& q.login is None
                &&& q@.headers == seq![
                    ("X-EBAY-API-SITEID"@, site_id@),
                    ("X-EBAY-API-COMPATIBILITY-LEVEL"@, "1193"@),
                    ("X-EBAY-API-CALL-NAME"@, call_name@),
                    ("X-EBAY-API-IAF-TOKEN"@, t@),
                    ("Content-Type"@, "text/xml"@),
                ]
                &&& q@.body == BodyView::Text(xml@)
            },
            Err((status, body)) => refuses(r, status, "token error: "@ + body@),
        },
{
    if let Step::Send(q) = r {
        assert(token is Ok ==> q@.headers =~= seq![
            ("X-EBAY-API-SITEID"@, site_id@),
            ("X-EBAY-API-COMPATIBILITY-LEVEL"@, "1193"@),
            ("X-EBAY-API-CALL-NAME"@, call_name@),
            ("X-EBAY-API-IAF-TOKEN"@, token->Ok_0@),
            ("Content-Type"@, "text/xml"@),
        ]);
    }
}

/// A Trading API reply is a success where its status is one and its document nowhere says that the
/// call failed; status and document are told as they came.
pub proof fn law_trading_report(outcome: Outcome, r: ApiResult)
    requires
        call_ensures(trading_report, (outcome,), r),
    ensures
        match outcome {
            Outcome::Reply { status, body } => {
                let mark = "<Ack>Failure</Ack>"@;
                let fails = exists|k: int|
                    0 <= k <= body@.len() - mark.len() && #[trigger] body@.subrange(
                        k,
                        k + mark.len(),
                    ) == mark;
                r.status == status && r.body@ == body@ && r.ok == (status / 100 == 2 && !fails)
            },
            Outcome::Failed(e) => !r.ok && r.status == 0 && r.body@ == e@,
        },
{
    if let Outcome::Reply { status, body } = outcome {
        lemma_found(body@, "<Ack>Failure</Ack>"@, 0);
    }
}

/// The name of a picture with a space for each angle bracket.
pub open spec fn without_brackets(name: Seq<char>) -> Seq<char> {
    name.map_values(
        |c: char|
            if c == '<' || c == '>' {
                ' '
            } else {
                c
            },
    )
}

/// A picture is uploaded by a POST to the Trading API's endpoint, as the form that the API wants:
/// the bytes of the image, all of them, and a document with the picture's name. An image that does
/// not decode is not sent, and the decoder's message is told.
pub proof fn law_picture(
    token: Result<String, (u16, String)>,
    env: &str,
    image: &str,
    name: &str,
    url: &'static str,
    payload: String,
    text: &str,
    decoded: Result<Vec<u8>, String>,
    r: Step,
)
    requires
        call_ensures(trading_url, (env,), url),
        call_ensures(upload_payload, (image,), payload),
        text@ == payload@,
        call_ensures(decode_base64, (text,), decoded),
        call_ensures(ebay_upload_picture, (token, env, image, name), r),
    ensures
        match token {
            Ok(t) => match decoded {
                Ok(bytes) => r matches Step::Send(q) && {
                    &&& q.method == Method::Post
                    &&& q.url@ == url@
                    &&& q.login is None
                    &&& q@.headers == seq![
                        ("X-EBAY-API-CALL-NAME"@, "UploadSiteHostedPictures"@),
                        ("X-EBAY-API-COMPATIBILITY-LEVEL"@, "1193"@),
                        ("X-EBAY-API-SITEID"@, "0"@),
                        ("X-EBAY-API-IAF-TOKEN"@, t@),
                    ]
                    &&& q@.body matches BodyView::Upload(u) && {
                        &&& u.bytes == bytes@
                        &&& u.text_name == "XML Payload"@
                        &&& u.file_field == "image"@
                        &&& u.file_name == "photo.jpg"@
                        &&& u.mime == "application/octet-stream"@
                        &&& u.text
                            == "<?xml version=\"1.0\" encoding=\"utf-8\"?>\n<UploadSiteHostedPicturesRequest xmlns=\"urn:ebay:apis:eBLBaseComponents\"><PictureName>"@
                            + without_brackets(name@)
                            + "</PictureName><PictureSet>Supersize</PictureSet></UploadSiteHostedPicturesRequest>"@
                    }
                },
                Err(e) => refuses(r, 0, "image decode error: "@ + e@),
            },
            Err((status, body)) => refuses(r, status, "token error: "@ + body@),
        },
{
    reveal_strlit(" ");
    assert(" "@ =~= seq![' ']);
    lemma_replaced_by_one(name@, '<', ' ');
    let inner = replaced(name@, '<', " "@);
    lemma_replaced_by_one(inner, '>', ' ');
    assert(replaced(inner, '>', " "@) =~= without_brackets(name@));
    if let Step::Send(q) = r {
        assert(token is Ok ==> q@.headers =~= seq![
            ("X-EBAY-API-CALL-NAME"@, "UploadSiteHostedPictures"@),
            ("X-EBAY-API-COMPATIBILITY-LEVEL"@, "1193"@),
            ("X-EBAY-API-SITEID"@, "0"@),
            ("X-EBAY-API-IAF-TOKEN"@, token->Ok_0@),
        ]);
    }
}

/// Whether a text stands in another one first at a place, from another place on.
pub open spec fn first_at(s: Seq<char>, pat: Seq<char>, from: int, at: int) -> bool {
    &&& from <= at <= s.len() - pat.len()
    &&& s.subrange(at, at + pat.len()) == pat
    &&& forall|k: int| from <= k < at ==> #[trigger] s.subrange(k, k + pat.len()) != pat
}

/// A tag's text is all that stands between the first opening of the tag and the first closing
/// behind it, trimmed; without either there is none.
pub proof fn law_tag(
    xml: &str,
    tag: &str,
    i: int,
    j: int,
    inner: &str,
    text: String,
    r: Option<String>,
)
    requires
        call_ensures(extract_tag, (xml, tag), r),
        call_ensures(trimmed, (inner,), text),
    ensures
        ({
            let open = "<"@ + tag@ + ">"@;
            let close = "</"@ + tag@ + ">"@;
            let n = open.len();
            &&& first_at(xml@, open, 0, i) && first_at(xml@, close, i + n, j) && inner@
                == xml@.subrange(i + n, j) ==> (r matches Some(t) && t@ == text@)
            &&& first_at(xml@, open, 0, i) && (forall|k: int|
                i + n <= k ==> !#[trigger] first_at(xml@, close, i + n, k)) ==> r is None
            &&& (forall|k: int| 0 <= k ==> !#[trigger] first_at(xml@, open, 0, k)) ==> r is None
        }),
{
    let open = "<"@ + tag@ + ">"@;
    let close = "</"@ + tag@ + ">"@;
    let n = open.len();
    lemma_found(xml@, open, 0);
    if let Some(k) = find(xml@, open) {
        assert(first_at(xml@, open, 0, k));
    }
    if first_at(xml@, open, 0, i) {
        lemma_first(xml@, open, 0, i);
        lemma_found(xml@, close, i + n);
        if let Some(k) = find_from(xml@, close, i + n) {
            assert(first_at(xml@, close, i + n, k));
        }
        if first_at(xml@, close, i + n, j) {
            lemma_first(xml@, close, i + n, j);
        }
    }
}

/// The first place is the one that is found.
proof fn lemma_first(s: Seq<char>, pat: Seq<char>, from: int, at: int)
    requires
        0 <= from,
        first_at(s, pat, from, at),
    ensures
        find_from(s, pat, from) == Some(at),
{
    lemma_found(s, pat, from);
    match find_from(s, pat, from) {
        Some(i) => {
            if i < at {
                assert(s.subrange(i, i + pat.len()) != pat);
            } else if i > at {
                assert(s.subrange(at, at + pat.len()) != pat);
            }
        },
        None => {
            assert(s.subrange(at, at + pat.len()) != pat);
        },
    }
}

/// The caller of an upload is told the address of the hosted picture, whole, where the reply has
/// one that is not empty; and else the reply.
pub proof fn law_picture_report(
    outcome: Outcome,
    document: &str,
    full: Option<String>,
    other: Option<String>,
    r: ApiResult,
)
    requires
        call_ensures(picture_report, (outcome,), r),
        outcome matches Outcome::Reply { body, .. } ==> document@ == body@,
        call_ensures(extract_tag, (document, "FullURL"), full),
        call_ensures(extract_tag, (document, "ExternalPictureURL"), other),
    ensures
        match outcome {
            Outcome::Reply { status, body } => {
                let url = match full {
                    Some(u) => Some(u),
                    None => other,
                };
                match url {
                    Some(u) => if u@.len() > 0 {
                        r.ok && r.status == status && r.body@ == u@
                    } else {
                        !r.ok && r.status == status && r.body@ == body@
                    },
                    None => !r.ok && r.status == status && r.body@ == body@,
                }
            },
            Outcome::Failed(e) => !r.ok && r.status == 0 && r.body@ == e@,
        },
{
}

/// The text of a header; empty where it is missing.
pub open spec fn header_value(value: Option<String>) -> Seq<char> {
    match value {
        Some(s) => s@,
        None => Seq::empty(),
    }
}

/// A probe tells all of what eBay's support asks for: the status, the text and the two names of the
/// reply, under the headers that eBay sends them in, and the credentials, the address and the body
/// of the request, each whole.
pub proof fn law_probe(
    env: &str,
    app_id: &str,
    cert_id: &str,
    refresh_token: &str,
    scope: &str,
    outcome: ProbeOutcome,
    url: String,
    credentials: String,
    r: TokenProbe,
)
    requires
        call_ensures(token_url, (env,), url),
        call_ensures(basic_auth, (app_id, cert_id), credentials),
        call_ensures(
            ebay_token_probe,
            (env, app_id, cert_id, refresh_token, scope, outcome),
            r,
        ),
    ensures
        LOG_HEADER@ == "rlogid"@,
        REQUEST_ID_HEADER@ == "x-ebay-c-request-id"@,
        OTHER_REQUEST_ID_HEADER@ == "x-ebay-request-id"@,
        r.auth_header@ == credentials@,
        r.request_url@ == url@,
        ({
            let asked = if scope@.len() == 0 {
                "https://api.ebay.com/oauth/api_scope/sell.inventory"@
            } else {
                scope@
            };
            r.request_body@ == "grant_type=refresh_token&refresh_token="@ + refresh_token@
                + "&scope="@ + asked
        }),
        match outcome {
            ProbeOutcome::Reply { status, rlogid, request_id, other_request_id, body } => {
                &&& r.status == status
                &&& r.body@ == body@
                &&& r.rlogid@ == header_value(rlogid)
                &&& r.request_id@ == if header_value(request_id).len() > 0 {
                    header_value(request_id)
                } else {
                    header_value(other_request_id)
                }
            },
            ProbeOutcome::Failed(e) => r.status == 0 && r.body@ == e@ && r.rlogid@.len() == 0
                && r.request_id@.len() == 0,
        },
{
}

} // verus!
