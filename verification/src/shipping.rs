//! Shipping rates and labels from Shippo and EasyPost, and EasyPost's trackers.

use vstd::prelude::*;
use vstd::string::*;

use crate::http::{
    lenient_result, report_lenient, ApiResult, BodyView, HttpRequest, Json, JsonView, Members,
    Method, Outcome, RequestView,
};

verus! {

/// Where a parcel comes from or goes to, as far as a rate depends on it.
pub struct Place {
    pub city: String,
    pub state: String,
    pub zip: String,
    pub country: String,
}

/// A place with a name and a street, as a label needs it.
pub struct Contact {
    pub name: String,
    pub street: String,
    pub place: Place,
}

/// A parcel: its weight in pounds and its size in inches, as decimal texts.
pub struct Parcel {
    pub weight_lb: String,
    pub length_in: String,
    pub width_in: String,
    pub height_in: String,
}

/// A place as a JSON object.
pub open spec fn place_json(place: Place) -> JsonView {
    JsonView::Object(
        seq![
            ("city"@, JsonView::Text(place.city@)),
            ("state"@, JsonView::Text(place.state@)),
            ("zip"@, JsonView::Text(place.zip@)),
            ("country"@, JsonView::Text(place.country@)),
        ],
    )
}

/// A place with a name and a street as a JSON object.
pub open spec fn contact_json(contact: Contact) -> JsonView {
    JsonView::Object(
        seq![
            ("name"@, JsonView::Text(contact.name@)),
            ("street1"@, JsonView::Text(contact.street@)),
            ("city"@, JsonView::Text(contact.place.city@)),
            ("state"@, JsonView::Text(contact.place.state@)),
            ("zip"@, JsonView::Text(contact.place.zip@)),
            ("country"@, JsonView::Text(contact.place.country@)),
        ],
    )
}

/// A parcel as Shippo takes it: in inches and pounds.
pub open spec fn shippo_parcel(parcel: Parcel) -> JsonView {
    JsonView::Object(
        seq![
            ("length"@, JsonView::Text(parcel.length_in@)),
            ("width"@, JsonView::Text(parcel.width_in@)),
            ("height"@, JsonView::Text(parcel.height_in@)),
            ("distance_unit"@, JsonView::Text("in"@)),
            ("weight"@, JsonView::Text(parcel.weight_lb@)),
            ("mass_unit"@, JsonView::Text("lb"@)),
        ],
    )
}

/// A parcel as EasyPost takes it: in inches and ounces.
pub open spec fn easypost_parcel(parcel: Parcel) -> JsonView {
    JsonView::Object(
        seq![
            ("length"@, JsonView::Text(parcel.length_in@)),
            ("width"@, JsonView::Text(parcel.width_in@)),
            ("height"@, JsonView::Text(parcel.height_in@)),
            ("weight"@, JsonView::Ounces(parcel.weight_lb@)),
        ],
    )
}

/// A shipment as EasyPost takes it.
pub open spec fn easypost_shipment(from: JsonView, to: JsonView, parcel: Parcel) -> JsonView {
    JsonView::Object(
        seq![
            (
                "shipment"@,
                JsonView::Object(
                    seq![
                        ("from_address"@, from),
                        ("to_address"@, to),
                        ("parcel"@, easypost_parcel(parcel)),
                    ],
                ),
            ),
        ],
    )
}

/// A request to Shippo.
pub open spec fn shippo_request(url: Seq<char>, token: Seq<char>, body: JsonView) -> RequestView {
    RequestView::to(Method::Post, url).header("Authorization"@, "ShippoToken "@ + token).header(
        "Content-Type"@,
        "application/json"@,
    ).body(BodyView::Json(body))
}

/// A request to EasyPost, whose key is a user name without a password.
pub open spec fn easypost_request(
    url: Seq<char>,
    api_key: Seq<char>,
    body: JsonView,
) -> RequestView {
    RequestView::to(Method::Post, url).login(api_key, None).header(
        "Content-Type"@,
        "application/json"@,
    ).body(BodyView::Json(body))
}

/// A place as a JSON object.
fn place_body(place: &Place) -> (r: Json)
    ensures
        r@ == place_json(*place),
{
    let members = Members::new().with_text("city", place.city.as_str()).with_text(
        "state",
        place.state.as_str(),
    ).with_text("zip", place.zip.as_str()).with_text("country", place.country.as_str());
    assert(JsonView::Object(members@) =~= place_json(*place)) by {
        assert(members@ =~= seq![
            ("city"@, JsonView::Text(place.city@)),
            ("state"@, JsonView::Text(place.state@)),
            ("zip"@, JsonView::Text(place.zip@)),
            ("country"@, JsonView::Text(place.country@)),
        ]);
    }
    Json::object(members)
}

/// A place with a name and a street as a JSON object.
fn contact_body(contact: &Contact) -> (r: Json)
    ensures
        r@ == contact_json(*contact),
{
    let members = Members::new().with_text("name", contact.name.as_str()).with_text(
        "street1",
        contact.street.as_str(),
    ).with_text("city", contact.place.city.as_str()).with_text(
        "state",
        contact.place.state.as_str(),
    ).with_text("zip", contact.place.zip.as_str()).with_text(
        "country",
        contact.place.country.as_str(),
    );
    assert(members@ =~= seq![
        ("name"@, JsonView::Text(contact.name@)),
        ("street1"@, JsonView::Text(contact.street@)),
        ("city"@, JsonView::Text(contact.place.city@)),
        ("state"@, JsonView::Text(contact.place.state@)),
        ("zip"@, JsonView::Text(contact.place.zip@)),
        ("country"@, JsonView::Text(contact.place.country@)),
    ]);
    Json::object(members)
}

/// A parcel as EasyPost takes it.
fn easypost_parcel_body(parcel: &Parcel) -> (r: Json)
    ensures
        r@ == easypost_parcel(*parcel),
{
    let members = Members::new().with_text("length", parcel.length_in.as_str()).with_text(
        "width",
        parcel.width_in.as_str(),
    ).with_text("height", parcel.height_in.as_str()).with(
        "weight",
        Json::Ounces(parcel.weight_lb.clone()),
    );
    assert(members@ =~= seq![
        ("length"@, JsonView::Text(parcel.length_in@)),
        ("width"@, JsonView::Text(parcel.width_in@)),
        ("height"@, JsonView::Text(parcel.height_in@)),
        ("weight"@, JsonView::Ounces(parcel.weight_lb@)),
    ]);
    Json::object(members)
}

/// A shipment as EasyPost takes it.
fn easypost_shipment_body(from: Json, to: Json, parcel: &Parcel) -> (r: Json)
    ensures
        r@ == easypost_shipment(from@, to@, *parcel),
{
    let inner = Members::new().with("from_address", from).with("to_address", to).with(
        "parcel",
        easypost_parcel_body(parcel),
    );
    assert(inner@ =~= seq![
        ("from_address"@, from@),
        ("to_address"@, to@),
        ("parcel"@, easypost_parcel(*parcel)),
    ]);
    let members = Members::new().with("shipment", Json::object(inner));
    assert(members@ =~= seq![("shipment"@, JsonView::Object(inner@))]);
    Json::object(members)
}

/// A request to Shippo.
fn to_shippo(url: &str, token: &str, body: Json) -> (r: HttpRequest)
    ensures
        r@ == shippo_request(url@, token@, body@),
{
    HttpRequest::to(Method::Post, url).header(
        "Authorization",
        "ShippoToken ".to_string().concat(token).as_str(),
    ).header("Content-Type", "application/json").json(body)
}

/// A request to EasyPost.
fn to_easypost(url: &str, api_key: &str, body: Json) -> (r: HttpRequest)
    ensures
        r@ == easypost_request(url@, api_key@, body@),
{
    HttpRequest::to(Method::Post, url).login(api_key, None).header(
        "Content-Type",
        "application/json",
    ).json(body)
}

/// What the caller is told of any of these calls: the reply as it came, a success where its status
/// is below 300.
pub fn shipping_report(outcome: Outcome) -> (r: ApiResult)
    ensures
        r@ == lenient_result(outcome@),
{
    report_lenient(outcome)
}

/// The request for Shippo's rates, which can be bought.
pub fn shippo_get_rates(token: &str, from: &Place, to: &Place, parcel: &Parcel) -> (r: HttpRequest)
    ensures
        r@ == shippo_request(
            "https://api.goshippo.com/shipments/"@,
            token@,
            JsonView::Object(
                seq![
                    ("address_from"@, place_json(*from)),
                    ("address_to"@, place_json(*to)),
                    ("parcels"@, JsonView::List(seq![shippo_parcel(*parcel)])),
                    ("async"@, JsonView::Flag(false)),
                ],
            ),
        ),
{
    let inner = Members::new().with_text("length", parcel.length_in.as_str()).with_text(
        "width",
        parcel.width_in.as_str(),
    ).with_text("height", parcel.height_in.as_str()).with_text("distance_unit", "in").with_text(
        "weight",
        parcel.weight_lb.as_str(),
    ).with_text("mass_unit", "lb");
    assert(inner@ =~= seq![
        ("length"@, JsonView::Text(parcel.length_in@)),
        ("width"@, JsonView::Text(parcel.width_in@)),
        ("height"@, JsonView::Text(parcel.height_in@)),
        ("distance_unit"@, JsonView::Text("in"@)),
        ("weight"@, JsonView::Text(parcel.weight_lb@)),
        ("mass_unit"@, JsonView::Text("lb"@)),
    ]);
    let parcels = Json::single(Json::object(inner));
    let members = Members::new().with("address_from", place_body(from)).with(
        "address_to",
        place_body(to),
    ).with("parcels", parcels).with("async", Json::Flag(false));
    assert(members@ =~= seq![
        ("address_from"@, place_json(*from)),
        ("address_to"@, place_json(*to)),
        ("parcels"@, JsonView::List(seq![shippo_parcel(*parcel)])),
        ("async"@, JsonView::Flag(false)),
    ]);
    to_shippo("https://api.goshippo.com/shipments/", token, Json::object(members))
}

/// The request for EasyPost's rates, for comparison only.
pub fn easypost_get_rates(
    api_key: &str,
    from: &Place,
    to: &Place,
    parcel: &Parcel,
) -> (r: HttpRequest)
    ensures
        r@ == easypost_request(
            "https://api.easypost.com/beta/rates"@,
            api_key@,
            easypost_shipment(place_json(*from), place_json(*to), *parcel),
        ),
{
    let body = easypost_shipment_body(place_body(from), place_body(to), parcel);
    to_easypost("https://api.easypost.com/beta/rates", api_key, body)
}

/// The request for a tracker of a parcel whose label was bought elsewhere.
pub fn easypost_track(api_key: &str, tracking_code: &str, carrier: &str) -> (r: HttpRequest)
    ensures
        r@ == easypost_request(
            "https://api.easypost.com/v2/trackers"@,
            api_key@,
            JsonView::Object(
                seq![
                    (
                        "tracker"@,
                        JsonView::Object(
                            seq![
                                ("tracking_code"@, JsonView::Text(tracking_code@)),
                                ("carrier"@, JsonView::Text(carrier@)),
                            ],
                        ),
                    ),
                ],
            ),
        ),
{
    let inner = Members::new().with_text("tracking_code", tracking_code).with_text(
        "carrier",
        carrier,
    );
    assert(inner@ =~= seq![
        ("tracking_code"@, JsonView::Text(tracking_code@)),
        ("carrier"@, JsonView::Text(carrier@)),
    ]);
    let members = Members::new().with("tracker", Json::object(inner));
    assert(members@ =~= seq![("tracker"@, JsonView::Object(inner@))]);
    to_easypost("https://api.easypost.com/v2/trackers", api_key, Json::object(members))
}

/// The request for a shipment whose rates can be bought.
pub fn easypost_create_shipment(
    api_key: &str,
    from: &Contact,
    to: &Contact,
    parcel: &Parcel,
) -> (r: HttpRequest)
    ensures
        r@ == easypost_request(
            "https://api.easypost.com/v2/shipments"@,
            api_key@,
            easypost_shipment(contact_json(*from), contact_json(*to), *parcel),
        ),
{
    let body = easypost_shipment_body(contact_body(from), contact_body(to), parcel);
    to_easypost("https://api.easypost.com/v2/shipments", api_key, body)
}

/// The request that buys a label for a shipment.
pub fn easypost_buy_label(api_key: &str, shipment_id: &str, rate_id: &str) -> (r: HttpRequest)
    ensures
        r@ == easypost_request(
            "https://api.easypost.com/v2/shipments/"@ + shipment_id@ + "/buy"@,
            api_key@,
            JsonView::Object(
                seq![("rate"@, JsonView::Object(seq![("id"@, JsonView::Text(rate_id@))]))],
            ),
        ),
{
    let url: String = "https://api.easypost.com/v2/shipments/".to_string().concat(
        shipment_id,
    ).concat("/buy");
    let inner = Members::new().with_text("id", rate_id);
    assert(inner@ =~= seq![("id"@, JsonView::Text(rate_id@))]);
    let members = Members::new().with("rate", Json::object(inner));
    assert(members@ =~= seq![("rate"@, JsonView::Object(inner@))]);
    to_easypost(url.as_str(), api_key, Json::object(members))
}

/// The request that buys a label at one of Shippo's rates.
pub fn shippo_buy_label(token: &str, rate_id: &str) -> (r: HttpRequest)
    ensures
        r@ == shippo_request(
            "https://api.goshippo.com/transactions"@,
            token@,
            JsonView::Object(
                seq![
                    ("rate"@, JsonView::Text(rate_id@)),
                    ("async"@, JsonView::Flag(false)),
                    ("label_file_type"@, JsonView::Text("PDF_4x6"@)),
                ],
            ),
        ),
{
    let members = Members::new().with_text("rate", rate_id).with("async", Json::Flag(false))
        .with_text("label_file_type", "PDF_4x6");
    assert(members@ =~= seq![
        ("rate"@, JsonView::Text(rate_id@)),
        ("async"@, JsonView::Flag(false)),
        ("label_file_type"@, JsonView::Text("PDF_4x6"@)),
    ]);
    to_shippo("https://api.goshippo.com/transactions", token, Json::object(members))
}

} // verus!
