//! Laws of signing in with the carriers and of asking about parcels.

use vstd::prelude::*;

use crate::carriers::{
    after_sign_in, carrier_unreachable, keep_and_ask, key_of_token, name_of, sign_in_report,
    sign_in_request, sign_in_with, start_tracking, track_report, track_request, Carrier, Tracking,
};
use crate::http::{ApiResult, BodyView, HttpRequest, JsonView, Method, Outcome, Step};
use crate::numbers::to_decimal;
use crate::tokens::{cached_token, lasting_token, read_reply, TokenCache, TokenReply, MARGIN};

verus! {

/// Every carrier signs a client in by a POST to its own endpoint, over its own host, and gets both
/// the client and the secret, whole, where it looks for them: USPS in a document, UPS in the login
/// and FedEx in the form.
pub proof fn law_sign_in_request(
    carrier: Carrier,
    client_id: &str,
    client_secret: &str,
    r: HttpRequest,
)
    requires
        call_ensures(sign_in_request, (carrier, client_id, client_secret), r),
    ensures
        r.method == Method::Post,
        carrier == Carrier::Usps ==> {
            &&& r.url@ == "https://apis.usps.com/oauth2/v3/token"@
            &&& r@.login is None
            &&& r@.headers == seq![("Content-Type"@, "application/json"@)]
            &&& r@.body == BodyView::Json(
                JsonView::Object(
                    seq![
                        ("grant_type"@, JsonView::Text("client_credentials"@)),
                        ("client_id"@, JsonView::Text(client_id@)),
                        ("client_secret"@, JsonView::Text(client_secret@)),
                    ],
                ),
            )
        },
        carrier == Carrier::Ups ==> {
            &&& r.url@ == "https://onlinetools.ups.com/security/v1/oauth/token"@
            &&& r@.login == Some((client_id@, Some(client_secret@)))
            &&& r@.headers == seq![("Content-Type"@, "application/x-www-form-urlencoded"@)]
            &&& r@.body == BodyView::Text("grant_type=client_credentials"@)
        },
        carrier == Carrier::Fedex ==> {
            &&& r.url@ == "https://apis.fedex.com/oauth/token"@
            &&& r@.login is None
            &&& r@.headers == seq![("Content-Type"@, "application/x-www-form-urlencoded"@)]
            &&& r@.body == BodyView::Text(
                "grant_type=client_credentials&client_id="@ + client_id@ + "&client_secret="@
                    + client_secret@,
            )
        },
{
    let json = seq![("Content-Type"@, "application/json"@)];
    let form = seq![("Content-Type"@, "application/x-www-form-urlencoded"@)];
    assert(carrier == Carrier::Usps ==> r@.headers =~= json);
    assert(carrier != Carrier::Usps ==> r@.headers =~= form);
}

/// A parcel is asked about at its carrier, with the whole token and the whole number: by a GET of
/// an address with the number in it at USPS and UPS, which also wants a name for the request that
/// holds the second, and by a POST of a document at FedEx.
pub proof fn law_track_request(
    carrier: Carrier,
    token: &str,
    number: &str,
    now: u64,
    second: String,
    r: HttpRequest,
)
    requires
        call_ensures(to_decimal, (now,), second),
        call_ensures(track_request, (carrier, token, number, now), r),
    ensures
        r@.login is None,
        carrier == Carrier::Usps ==> {
            &&& r.method == Method::Get
            &&& r.url@ == "https://apis.usps.com/tracking/v3/tracking/"@ + number@
                + "?expand=DETAIL"@
            &&& r@.headers == seq![("Authorization"@, "Bearer "@ + token@)]
            &&& r@.body is Empty
        },
        carrier == Carrier::Ups ==> {
            &&& r.method == Method::Get
            &&& r.url@ == "https://onlinetools.ups.com/api/track/v1/details/"@ + number@
            &&& r@.headers == seq![
                ("Authorization"@, "Bearer "@ + token@),
                ("transId"@, "wim"@ + second@),
                ("transactionSrc"@, "WIM"@),
            ]
            &&& r@.body is Empty
        },
        carrier == Carrier::Fedex ==> {
            let asked = JsonView::Object(seq![("trackingNumber"@, JsonView::Text(number@))]);
            let item = JsonView::Object(seq![("trackingNumberInfo"@, asked)]);
            &&& r.method == Method::Post
            &&& r.url@ == "https://apis.fedex.com/track/v1/trackingnumbers"@
            &&& r@.headers == seq![
                ("Authorization"@, "Bearer "@ + token@),
                ("Content-Type"@, "application/json"@),
                ("X-locale"@, "en_US"@),
            ]
            &&& r@.body == BodyView::Json(
                JsonView::Object(
                    seq![
                        ("includeDetailedScans"@, JsonView::Flag(true)),
                        ("trackingInfo"@, JsonView::List(seq![item])),
                    ],
                ),
            )
        },
{
    let bearer = ("Authorization"@, "Bearer "@ + token@);
    assert(carrier == Carrier::Usps ==> r@.headers =~= seq![bearer]);
    assert(carrier == Carrier::Ups ==> r@.headers =~= seq![
        bearer,
        ("transId"@, "wim"@ + second@),
        ("transactionSrc"@, "WIM"@),
    ]);
    assert(carrier == Carrier::Fedex ==> r@.headers =~= seq![
        bearer,
        ("Content-Type"@, "application/json"@),
        ("X-locale"@, "en_US"@),
    ]);
}

/// A carrier's name, and the name under which a client's token is kept: the carrier's short name, a
/// colon and the whole client.
pub proof fn law_names(carrier: Carrier, client_id: &str, name: &'static str, key: String)
    requires
        call_ensures(name_of, (carrier,), name),
        call_ensures(key_of_token, (carrier, client_id), key),
    ensures
        carrier == Carrier::Usps ==> name@ == "USPS"@ && key@ == "usps:"@ + client_id@,
        carrier == Carrier::Ups ==> name@ == "UPS"@ && key@ == "ups:"@ + client_id@,
        carrier == Carrier::Fedex ==> name@ == "FedEx"@ && key@ == "fedex:"@ + client_id@,
{
}

/// What the caller is told where a carrier cannot be reached, and of a parcel: the reply as it
/// came.
pub proof fn law_track_report(
    carrier: Carrier,
    error: &str,
    outcome: Outcome,
    name: &'static str,
    missed: ApiResult,
    r: ApiResult,
)
    requires
        call_ensures(name_of, (carrier,), name),
        call_ensures(carrier_unreachable, (carrier, error), missed),
        call_ensures(track_report, (carrier, outcome), r),
    ensures
        !missed.ok,
        missed.status == 0,
        missed.body@ == "Couldn't reach "@ + name@ + ": "@ + error@,
        match outcome {
            Outcome::Reply { status, body } => r.ok == (status / 100 == 2) && r.status == status
                && r.body@ == body@,
            Outcome::Failed(e) => !r.ok && r.status == 0 && r.body@ == "Couldn't reach "@ + name@
                + ": "@ + e@,
        },
{
}

/// A sign-in yields the token and the life that the reply holds, whatever the status; without a
/// token the caller is told the status and all of the reply.
pub proof fn law_sign_in(
    carrier: Carrier,
    status: u16,
    body: &str,
    parsed: Result<TokenReply, String>,
    name: &'static str,
    number: String,
    token: Option<(String, u64)>,
    r: Result<(String, u64), ApiResult>,
)
    requires
        call_ensures(name_of, (carrier,), name),
        call_ensures(to_decimal, (status as u64,), number),
        call_ensures(lasting_token, (parsed,), token),
        call_ensures(sign_in_with, (carrier, status, body, parsed), r),
    ensures
        match token {
            Some((t, life)) => r matches Ok((u, l)) && u@ == t@ && l == life,
            None => r matches Err(e) && {
                &&& !e.ok
                &&& e.status == status
                &&& e.body@ == name@ + " sign-in failed (HTTP "@ + number@ + "): "@ + body@
            },
        },
{
}

/// The reply to a sign-in is read, and what was read decides; a carrier that cannot be reached is
/// told of.
pub proof fn law_sign_in_report(
    carrier: Carrier,
    outcome: Outcome,
    document: &str,
    parsed: Result<TokenReply, String>,
    name: &'static str,
    status: u16,
    read: Result<(String, u64), ApiResult>,
    r: Result<(String, u64), ApiResult>,
)
    requires
        outcome matches Outcome::Reply { status: s, body } ==> s == status && document@ == body@,
        call_ensures(name_of, (carrier,), name),
        call_ensures(read_reply, (document,), parsed),
        call_ensures(sign_in_with, (carrier, status, document, parsed), read),
        call_ensures(sign_in_report, (carrier, outcome), r),
    ensures
        match outcome {
            Outcome::Reply { .. } => match read {
                Ok((t, life)) => r matches Ok((u, l)) && u@ == t@ && l == life,
                Err(e) => r matches Err(f) && f@ == e@,
            },
            Outcome::Failed(e) => r matches Err(f) && {
                &&& !f.ok
                &&& f.status == 0
                &&& f.body@ == "Couldn't reach "@ + name@ + ": "@ + e@
            },
        },
{
}

/// A parcel is asked about with the token that is at hand for this carrier and this client; where
/// none is, this client signs in first.
pub proof fn law_start(
    cache: &TokenCache,
    carrier: Carrier,
    client_id: &str,
    client_secret: &str,
    number: &str,
    now: u64,
    key: String,
    kept_under: &str,
    token: Option<String>,
    with: &str,
    sign_in: HttpRequest,
    ask: HttpRequest,
    r: Tracking,
)
    requires
        now + MARGIN <= u64::MAX,
        call_ensures(key_of_token, (carrier, client_id), key),
        kept_under@ == key@,
        call_ensures(cached_token, (cache, kept_under, now), token),
        token matches Some(t) ==> with@ == t@,
        call_ensures(sign_in_request, (carrier, client_id, client_secret), sign_in),
        call_ensures(track_request, (carrier, with, number, now), ask),
        call_ensures(start_tracking, (cache, carrier, client_id, client_secret, number, now), r),
    ensures
        token is Some ==> (r matches Tracking::Ask(q) && q@ == ask@),
        token is None ==> (r matches Tracking::SignIn(q) && q@ == sign_in@),
{
}

/// After a sign-in the parcel is asked about with the whole new token, which is kept for this
/// carrier and this client until its life is over, and for the margin at least; all other tokens
/// stay. A token whose end the clock cannot hold is used but not kept. After a sign-in that failed
/// nothing is sent or kept, and the failure is told as it is.
pub proof fn law_keep_and_ask(
    cache: &mut TokenCache,
    carrier: Carrier,
    client_id: &str,
    number: &str,
    signed_in: Result<(String, u64), ApiResult>,
    now: u64,
    key: String,
    with: &str,
    ask: HttpRequest,
    r: Step,
)
    requires
        call_ensures(key_of_token, (carrier, client_id), key),
        signed_in matches Ok((t, _)) ==> with@ == t@,
        call_ensures(track_request, (carrier, with, number, now), ask),
        call_ensures(keep_and_ask, (cache, carrier, client_id, number, signed_in, now), r),
    ensures
        match signed_in {
            Ok((t, life)) => {
                let lasts: int = if life < 60 {
                    60
                } else {
                    life as int
                };
                &&& r matches Step::Send(q) && q@ == ask@
                &&& now + lasts <= u64::MAX ==> final(cache)@ == old(cache)@.insert(
                    key@,
                    (t@, (now + lasts) as u64),
                )
                &&& now + lasts > u64::MAX ==> final(cache)@ == old(cache)@
            },
            Err(told) => {
                &&& r matches Step::Done(x) && x@ == told@
                &&& final(cache)@ == old(cache)@
            },
        },
{
}

/// After a sign-in, what its reply yields is kept and used as it is.
pub proof fn law_after_sign_in(
    cache: &mut TokenCache,
    carrier: Carrier,
    client_id: &str,
    number: &str,
    outcome: Outcome,
    now: u64,
    key: String,
    signed_in: Result<(String, u64), ApiResult>,
    with: &str,
    ask: HttpRequest,
    r: Step,
)
    requires
        call_ensures(key_of_token, (carrier, client_id), key),
        call_ensures(sign_in_report, (carrier, outcome), signed_in),
        signed_in matches Ok((t, _)) ==> with@ == t@,
        call_ensures(track_request, (carrier, with, number, now), ask),
        call_ensures(after_sign_in, (cache, carrier, client_id, number, outcome, now), r),
    ensures
        match signed_in {
            Ok((t, life)) => {
                let lasts: int = if life < 60 {
                    60
                } else {
                    life as int
                };
                &&& r matches Step::Send(q) && q@ == ask@
                &&& now + lasts <= u64::MAX ==> final(cache)@ == old(cache)@.insert(
                    key@,
                    (t@, (now + lasts) as u64),
                )
                &&& now + lasts > u64::MAX ==> final(cache)@ == old(cache)@
            },
            Err(told) => {
                &&& r matches Step::Done(x) && x@ == told@
                &&& final(cache)@ == old(cache)@
            },
        },
{
}

} // verus!
