//! Tracking parcels with USPS, UPS and FedEx: sign in, keep the token, ask about a number.

use vstd::prelude::*;
use vstd::string::*;

use crate::http::{
    failure, is_success, refused, succeeded, ApiResult, ApiResultView, BodyView, HttpRequest, Json,
    JsonView, Members, Method, Outcome, OutcomeView, RequestView, Step, StepView,
};
use crate::numbers::{decimal, to_decimal};
use crate::tokens::{
    cached_token, expiry, lasting_token, lasting_token_of, live_token, parsed_view, read_reply,
    reply_in, store_token, Parsed, TokenCache, TokenReply, MARGIN,
};

verus! {

/// The carriers that are asked directly.
#[derive(Clone, Copy, Debug, PartialEq, Eq, Structural)]
pub enum Carrier {
    Usps,
    Ups,
    Fedex,
}

/// A carrier as the user knows it.
pub open spec fn carrier_name(carrier: Carrier) -> Seq<char> {
    match carrier {
        Carrier::Usps => "USPS"@,
        Carrier::Ups => "UPS"@,
        Carrier::Fedex => "FedEx"@,
    }
}

/// The name under which a client's token is kept.
pub open spec fn token_key(carrier: Carrier, client_id: Seq<char>) -> Seq<char> {
    match carrier {
        Carrier::Usps => "usps:"@ + client_id,
        Carrier::Ups => "ups:"@ + client_id,
        Carrier::Fedex => "fedex:"@ + client_id,
    }
}

/// The request that signs a client in.
pub open spec fn sign_in_request_of(
    carrier: Carrier,
    client_id: Seq<char>,
    client_secret: Seq<char>,
) -> RequestView {
    match carrier {
        Carrier::Usps => RequestView::to(
            Method::Post,
            "https://apis.usps.com/oauth2/v3/token"@,
        ).header("Content-Type"@, "application/json"@).body(
            BodyView::Json(
                JsonView::Object(
                    seq![
                        ("grant_type"@, JsonView::Text("client_credentials"@)),
                        ("client_id"@, JsonView::Text(client_id)),
                        ("client_secret"@, JsonView::Text(client_secret)),
                    ],
                ),
            ),
        ),
        Carrier::Ups => RequestView::to(
            Method::Post,
            "https://onlinetools.ups.com/security/v1/oauth/token"@,
        ).login(client_id, Some(client_secret)).header(
            "Content-Type"@,
            "application/x-www-form-urlencoded"@,
        ).body(BodyView::Text("grant_type=client_credentials"@)),
        Carrier::Fedex => RequestView::to(
            Method::Post,
            "https://apis.fedex.com/oauth/token"@,
        ).header("Content-Type"@, "application/x-www-form-urlencoded"@).body(
            BodyView::Text(
                "grant_type=client_credentials&client_id="@ + client_id + "&client_secret="@
                    + client_secret,
            ),
        ),
    }
}

/// The request that asks about a parcel, sent at second `now`.
pub open spec fn track_request_of(
    carrier: Carrier,
    token: Seq<char>,
    number: Seq<char>,
    now: u64,
) -> RequestView {
    match carrier {
        Carrier::Usps => RequestView::to(
            Method::Get,
            "https://apis.usps.com/tracking/v3/tracking/"@ + number + "?expand=DETAIL"@,
        ).header("Authorization"@, "Bearer "@ + token),
        Carrier::Ups => RequestView::to(
            Method::Get,
            "https://onlinetools.ups.com/api/track/v1/details/"@ + number,
        ).header("Authorization"@, "Bearer "@ + token).header(
            "transId"@,
            "wim"@ + decimal(now as nat),
        ).header("transactionSrc"@, "WIM"@),
        Carrier::Fedex => RequestView::to(
            Method::Post,
            "https://apis.fedex.com/track/v1/trackingnumbers"@,
        ).header("Authorization"@, "Bearer "@ + token).header(
            "Content-Type"@,
            "application/json"@,
        ).header("X-locale"@, "en_US"@).body(
            BodyView::Json(
                JsonView::Object(
                    seq![
                        ("includeDetailedScans"@, JsonView::Flag(true)),
                        (
                            "trackingInfo"@,
                            JsonView::List(
                                seq![
                                    JsonView::Object(
                                        seq![
                                            (
                                                "trackingNumberInfo"@,
                                                JsonView::Object(
                                                    seq![
                                                        (
                                                            "trackingNumber"@,
                                                            JsonView::Text(number),
                                                        ),
                                                    ],
                                                ),
                                            ),
                                        ],
                                    ),
                                ],
                            ),
                        ),
                    ],
                ),
            ),
        ),
    }
}

/// What the caller is told where a carrier cannot be reached.
pub open spec fn unreachable_of(carrier: Carrier, error: Seq<char>) -> ApiResultView {
    failure(0, "Couldn't reach "@ + carrier_name(carrier) + ": "@ + error)
}

/// What the caller is told where a sign-in yields no token.
pub open spec fn sign_in_failure(carrier: Carrier, status: u16, body: Seq<char>) -> ApiResultView {
    failure(
        status,
        carrier_name(carrier) + " sign-in failed (HTTP "@ + decimal(status as nat) + "): "@ + body,
    )
}

/// What a reply to the sign-in yields once it has been read: the token and its life in seconds,
/// whatever the status; without a token, what the caller is told.
pub open spec fn signed_in_with(
    carrier: Carrier,
    status: u16,
    body: Seq<char>,
    parsed: Parsed,
) -> Result<(Seq<char>, u64), ApiResultView> {
    match lasting_token_of(parsed) {
        Some(t) => Ok(t),
        None => Err(sign_in_failure(carrier, status, body)),
    }
}

/// What a sign-in yields.
pub open spec fn signed_in_of(carrier: Carrier, outcome: OutcomeView) -> Result<
    (Seq<char>, u64),
    ApiResultView,
> {
    match outcome {
        OutcomeView::Reply { status, body } => signed_in_with(
            carrier,
            status,
            body,
            reply_in(body),
        ),
        OutcomeView::Failed(e) => Err(unreachable_of(carrier, e)),
    }
}

/// What the caller is told of a parcel.
pub open spec fn track_result_of(carrier: Carrier, outcome: OutcomeView) -> ApiResultView {
    match outcome {
        OutcomeView::Reply { status, body } => ApiResultView {
            ok: is_success(status),
            status,
            body,
        },
        OutcomeView::Failed(e) => unreachable_of(carrier, e),
    }
}

/// The view of what a sign-in yields.
pub open spec fn signed_in_view(r: Result<(String, u64), ApiResult>) -> Result<
    (Seq<char>, u64),
    ApiResultView,
> {
    match r {
        Ok((token, ttl)) => Ok((token@, ttl)),
        Err(e) => Err(e@),
    }
}

/// A carrier as the user knows it.
pub fn name_of(carrier: Carrier) -> (r: &'static str)
    ensures
        r@ == carrier_name(carrier),
{
    match carrier {
        Carrier::Usps => "USPS",
        Carrier::Ups => "UPS",
        Carrier::Fedex => "FedEx",
    }
}

/// The name under which a client's token is kept.
pub fn key_of_token(carrier: Carrier, client_id: &str) -> (r: String)
    ensures
        r@ == token_key(carrier, client_id@),
{
    match carrier {
        Carrier::Usps => "usps:".to_string().concat(client_id),
        Carrier::Ups => "ups:".to_string().concat(client_id),
        Carrier::Fedex => "fedex:".to_string().concat(client_id),
    }
}

/// The request that signs a client in.
pub fn sign_in_request(carrier: Carrier, client_id: &str, client_secret: &str) -> (r: HttpRequest)
    ensures
        r@ == sign_in_request_of(carrier, client_id@, client_secret@),
{
    match carrier {
        Carrier::Usps => {
            let members = Members::new().with_text("grant_type", "client_credentials").with_text(
                "client_id",
                client_id,
            ).with_text("client_secret", client_secret);
            assert(members@ =~= seq![
                ("grant_type"@, JsonView::Text("client_credentials"@)),
                ("client_id"@, JsonView::Text(client_id@)),
                ("client_secret"@, JsonView::Text(client_secret@)),
            ]);
            HttpRequest::to(Method::Post, "https://apis.usps.com/oauth2/v3/token").header(
                "Content-Type",
                "application/json",
            ).json(Json::object(members))
        },
        Carrier::Ups => HttpRequest::to(
            Method::Post,
            "https://onlinetools.ups.com/security/v1/oauth/token",
        ).login(client_id, Some(client_secret)).header(
            "Content-Type",
            "application/x-www-form-urlencoded",
        ).text("grant_type=client_credentials"),
        Carrier::Fedex => {
            let form: String = "grant_type=client_credentials&client_id=".to_string().concat(
                client_id,
            ).concat("&client_secret=").concat(client_secret);
            HttpRequest::to(Method::Post, "https://apis.fedex.com/oauth/token").header(
                "Content-Type",
                "application/x-www-form-urlencoded",
            ).text(form.as_str())
        },
    }
}

/// The document that asks FedEx about a parcel.
fn fedex_query(number: &str) -> (r: Json)
    ensures
        BodyView::Json(r@) == track_request_of(Carrier::Fedex, Seq::empty(), number@, 0).body,
{
    let inner = Members::new().with_text("trackingNumber", number);
    assert(inner@ =~= seq![("trackingNumber"@, JsonView::Text(number@))]);
    let item = Members::new().with("trackingNumberInfo", Json::object(inner));
    assert(item@ =~= seq![("trackingNumberInfo"@, JsonView::Object(inner@))]);
    let items = Json::single(Json::object(item));
    let members = Members::new().with("includeDetailedScans", Json::Flag(true)).with(
        "trackingInfo",
        items,
    );
    assert(members@ =~= seq![
        ("includeDetailedScans"@, JsonView::Flag(true)),
        ("trackingInfo"@, items@),
    ]);
    Json::object(members)
}

/// The request that asks about a parcel.
pub fn track_request(carrier: Carrier, token: &str, number: &str, now: u64) -> (r: HttpRequest)
    ensures
        r@ == track_request_of(carrier, token@, number@, now),
{
    let bearer: String = "Bearer ".to_string().concat(token);
    match carrier {
        Carrier::Usps => {
            let url: String = "https://apis.usps.com/tracking/v3/tracking/".to_string().concat(
                number,
            ).concat("?expand=DETAIL");
            HttpRequest::to(Method::Get, url.as_str()).header("Authorization", bearer.as_str())
        },
        Carrier::Ups => {
            let url: String = "https://onlinetools.ups.com/api/track/v1/details/".to_string().concat(
                number,
            );
            let id: String = "wim".to_string().concat(to_decimal(now).as_str());
            HttpRequest::to(Method::Get, url.as_str()).header(
                "Authorization",
                bearer.as_str(),
            ).header("transId", id.as_str()).header("transactionSrc", "WIM")
        },
        Carrier::Fedex => HttpRequest::to(
            Method::Post,
            "https://apis.fedex.com/track/v1/trackingnumbers",
        ).header("Authorization", bearer.as_str()).header(
            "Content-Type",
            "application/json",
        ).header("X-locale", "en_US").json(fedex_query(number)),
    }
}

/// What the caller is told where a carrier cannot be reached.
pub fn carrier_unreachable(carrier: Carrier, error: &str) -> (r: ApiResult)
    ensures
        r@ == unreachable_of(carrier, error@),
{
    refused(
        0,
        "Couldn't reach ".to_string().concat(name_of(carrier)).concat(": ").concat(error),
    )
}

/// What a reply to the sign-in yields once it has been read.
pub fn sign_in_with(
    carrier: Carrier,
    status: u16,
    body: &str,
    parsed: Result<TokenReply, String>,
) -> (r: Result<(String, u64), ApiResult>)
    ensures
        signed_in_view(r) == signed_in_with(carrier, status, body@, parsed_view(parsed)),
{
    match lasting_token(parsed) {
        Some(t) => Ok(t),
        None => {
            let text: String = name_of(carrier).to_string().concat(
                " sign-in failed (HTTP ",
            ).concat(to_decimal(status as u64).as_str()).concat("): ").concat(body);
            Err(refused(status, text))
        },
    }
}

/// What a sign-in yields: the token and its life in seconds, which the caller keeps, or what to
/// tell.
pub fn sign_in_report(carrier: Carrier, outcome: Outcome) -> (r: Result<(String, u64), ApiResult>)
    ensures
        signed_in_view(r) == signed_in_of(carrier, outcome@),
{
    match outcome {
        Outcome::Reply { status, body } => sign_in_with(
            carrier,
            status,
            body.as_str(),
            read_reply(body.as_str()),
        ),
        Outcome::Failed(e) => Err(carrier_unreachable(carrier, e.as_str())),
    }
}

/// What the caller is told of a parcel.
pub fn track_report(carrier: Carrier, outcome: Outcome) -> (r: ApiResult)
    ensures
        r@ == track_result_of(carrier, outcome@),
{
    match outcome {
        Outcome::Reply { status, body } => ApiResult { ok: succeeded(status), status, body },
        Outcome::Failed(e) => carrier_unreachable(carrier, e.as_str()),
    }
}

/// The first thing to do about a parcel.
pub enum Tracking {
    /// No token is at hand: sign in, keep the token and ask then.
    SignIn(HttpRequest),
    /// Ask about the parcel.
    Ask(HttpRequest),
}

/// The first thing to do about a parcel, in contracts.
pub enum TrackingView {
    SignIn(RequestView),
    Ask(RequestView),
}

impl View for Tracking {
    type V = TrackingView;

    open spec fn view(&self) -> TrackingView {
        match *self {
            Tracking::SignIn(request) => TrackingView::SignIn(request@),
            Tracking::Ask(request) => TrackingView::Ask(request@),
        }
    }
}

/// The first thing to do about a parcel at second `now`: ask with the token that is at hand, or
/// sign in.
pub open spec fn tracking_of(
    cache: Map<Seq<char>, (Seq<char>, u64)>,
    carrier: Carrier,
    client_id: Seq<char>,
    client_secret: Seq<char>,
    number: Seq<char>,
    now: u64,
) -> TrackingView {
    match live_token(cache, token_key(carrier, client_id), now) {
        Some(token) => TrackingView::Ask(track_request_of(carrier, token, number, now)),
        None => TrackingView::SignIn(sign_in_request_of(carrier, client_id, client_secret)),
    }
}

/// The first thing to do about a parcel.
pub fn start_tracking(
    cache: &TokenCache,
    carrier: Carrier,
    client_id: &str,
    client_secret: &str,
    number: &str,
    now: u64,
) -> (r: Tracking)
    requires
        now + MARGIN <= u64::MAX,
    ensures
        r@ == tracking_of(cache@, carrier, client_id@, client_secret@, number@, now),
{
    match cached_token(cache, key_of_token(carrier, client_id).as_str(), now) {
        Some(token) => Tracking::Ask(track_request(carrier, token.as_str(), number, now)),
        None => Tracking::SignIn(sign_in_request(carrier, client_id, client_secret)),
    }
}

/// What follows a sign-in at second `now`: the token is kept and the parcel asked about with it, or
/// the caller is told. A token that would outlive the clock is used but not kept.
pub open spec fn after_sign_in_of(
    cache: Map<Seq<char>, (Seq<char>, u64)>,
    carrier: Carrier,
    client_id: Seq<char>,
    number: Seq<char>,
    signed_in: Result<(Seq<char>, u64), ApiResultView>,
    now: u64,
) -> (Map<Seq<char>, (Seq<char>, u64)>, StepView) {
    match signed_in {
        Ok((token, ttl)) => (
            if expiry(now, ttl) <= u64::MAX {
                cache.insert(token_key(carrier, client_id), (token, expiry(now, ttl) as u64))
            } else {
                cache
            },
            StepView::Send(track_request_of(carrier, token, number, now)),
        ),
        Err(told) => (cache, StepView::Done(told)),
    }
}

/// Keeps the token of a sign-in and asks about the parcel with it, or tells the caller.
pub fn keep_and_ask(
    cache: &mut TokenCache,
    carrier: Carrier,
    client_id: &str,
    number: &str,
    signed_in: Result<(String, u64), ApiResult>,
    now: u64,
) -> (r: Step)
    ensures
        (final(cache)@, r@) == after_sign_in_of(
            old(cache)@,
            carrier,
            client_id@,
            number@,
            signed_in_view(signed_in),
            now,
        ),
{
    match signed_in {
        Ok((token, ttl)) => {
            let life: u64 = if ttl < MARGIN {
                MARGIN
            } else {
                ttl
            };
            if life <= u64::MAX - now {
                store_token(
                    cache,
                    key_of_token(carrier, client_id).as_str(),
                    token.as_str(),
                    ttl,
                    now,
                );
            }
            Step::Send(track_request(carrier, token.as_str(), number, now))
        },
        Err(told) => Step::Done(told),
    }
}

/// What follows a sign-in at second `now`.
pub fn after_sign_in(
    cache: &mut TokenCache,
    carrier: Carrier,
    client_id: &str,
    number: &str,
    outcome: Outcome,
    now: u64,
) -> (r: Step)
    ensures
        (final(cache)@, r@) == after_sign_in_of(
            old(cache)@,
            carrier,
            client_id@,
            number@,
            signed_in_of(carrier, outcome@),
            now,
        ),
{
    let signed_in: Result<(String, u64), ApiResult> = sign_in_report(carrier, outcome);
    keep_and_ask(cache, carrier, client_id, number, signed_in, now)
}

// ---------------------------------------------------------------------------------------------
// Laws
// ---------------------------------------------------------------------------------------------

/// No two clients share a token: the names under which tokens are kept differ where the carriers or
/// the clients do.
pub proof fn law_token_keys_differ(a: Carrier, x: Seq<char>, b: Carrier, y: Seq<char>)
    requires
        token_key(a, x) == token_key(b, y),
    ensures
        a == b,
        x == y,
{
    reveal_strlit("usps:");
    reveal_strlit("ups:");
    reveal_strlit("fedex:");
    let s = token_key(a, x);
    assert(a == Carrier::Usps ==> s[0] == 'u' && s[1] == 's');
    assert(a == Carrier::Ups ==> s[0] == 'u' && s[1] == 'p');
    assert(a == Carrier::Fedex ==> s[0] == 'f');
    assert(b == Carrier::Usps ==> s[0] == 'u' && s[1] == 's');
    assert(b == Carrier::Ups ==> s[0] == 'u' && s[1] == 'p');
    assert(b == Carrier::Fedex ==> s[0] == 'f');
    let n: int = match a {
        Carrier::Usps => 5,
        Carrier::Ups => 4,
        Carrier::Fedex => 6,
    };
    assert(s.skip(n) =~= x);
    assert(s.skip(n) =~= y);
}

/// After a sign-in the client's parcels are asked about with its token, without signing in again,
/// until the margin before the token expires; then it signs in again. What other clients and other
/// carriers do next stays what it was.
pub proof fn law_sign_in_lasts(
    cache: Map<Seq<char>, (Seq<char>, u64)>,
    carrier: Carrier,
    client_id: Seq<char>,
    client_secret: Seq<char>,
    token: Seq<char>,
    ttl: u64,
    stored: u64,
    first: Seq<char>,
    number: Seq<char>,
    now: u64,
    other_carrier: Carrier,
    other_id: Seq<char>,
)
    requires
        expiry(stored, ttl) <= u64::MAX,
    ensures
        ({
            let kept = after_sign_in_of(
                cache,
                carrier,
                client_id,
                first,
                Ok((token, ttl)),
                stored,
            ).0;
            &&& tracking_of(kept, carrier, client_id, client_secret, number, now) == (if now
                + MARGIN < expiry(stored, ttl) {
                TrackingView::Ask(track_request_of(carrier, token, number, now))
            } else {
                TrackingView::SignIn(sign_in_request_of(carrier, client_id, client_secret))
            })
            &&& other_carrier != carrier || other_id != client_id ==> tracking_of(
                kept,
                other_carrier,
                other_id,
                client_secret,
                number,
                now,
            ) == tracking_of(cache, other_carrier, other_id, client_secret, number, now)
        }),
{
    if token_key(other_carrier, other_id) == token_key(carrier, client_id) {
        law_token_keys_differ(other_carrier, other_id, carrier, client_id);
    }
}

/// A sign-in that fails keeps no token and sends nothing more.
pub proof fn law_failed_sign_in(
    cache: Map<Seq<char>, (Seq<char>, u64)>,
    carrier: Carrier,
    client_id: Seq<char>,
    number: Seq<char>,
    told: ApiResultView,
    now: u64,
)
    ensures
        after_sign_in_of(cache, carrier, client_id, number, Err(told), now) == (
            cache,
            StepView::Done(told),
        ),
{
}

} // verus!
