//! Laws of rates, labels and trackers.

use vstd::prelude::*;

use crate::http::{ApiResult, BodyView, HttpRequest, JsonView, Method, Outcome};
use crate::shipping::{
    easypost_buy_label, easypost_create_shipment, easypost_get_rates, easypost_track,
    shipping_report, shippo_buy_label, shippo_get_rates, Contact, Parcel, Place,
};

verus! {

/// Whether a request posts a document to Shippo, with the whole token.
pub open spec fn asks_shippo(
    r: HttpRequest,
    url: Seq<char>,
    token: Seq<char>,
    members: Seq<(Seq<char>, JsonView)>,
) -> bool {
    &&& r.method == Method::Post
    &&& r.url@ == url
    &&& r@.login is None
    &&& r@.headers == seq![
        ("Authorization"@, "ShippoToken "@ + token),
        ("Content-Type"@, "application/json"@),
    ]
    &&& r@.body == BodyView::Json(JsonView::Object(members))
}

/// Whether a request posts a document to EasyPost, with the whole key as a user without a password.
pub open spec fn asks_easypost(
    r: HttpRequest,
    url: Seq<char>,
    api_key: Seq<char>,
    member: (Seq<char>, JsonView),
) -> bool {
    &&& r.method == Method::Post
    &&& r.url@ == url
    &&& r@.login == Some((api_key, None::<Seq<char>>))
    &&& r@.headers == seq![("Content-Type"@, "application/json"@)]
    &&& r@.body == BodyView::Json(JsonView::Object(seq![member]))
}

/// A place as the services take it: its city, state, postal code and country, each whole.
pub open spec fn address(place: Place) -> Seq<(Seq<char>, JsonView)> {
    seq![
        ("city"@, JsonView::Text(place.city@)),
        ("state"@, JsonView::Text(place.state@)),
        ("zip"@, JsonView::Text(place.zip@)),
        ("country"@, JsonView::Text(place.country@)),
    ]
}

/// A name and a street before a place.
pub open spec fn full_address(contact: Contact) -> Seq<(Seq<char>, JsonView)> {
    seq![
        ("name"@, JsonView::Text(contact.name@)),
        ("street1"@, JsonView::Text(contact.street@)),
    ] + address(contact.place)
}

/// The length, the width and the height of a parcel, each whole.
pub open spec fn size(parcel: Parcel) -> Seq<(Seq<char>, JsonView)> {
    seq![
        ("length"@, JsonView::Text(parcel.length_in@)),
        ("width"@, JsonView::Text(parcel.width_in@)),
        ("height"@, JsonView::Text(parcel.height_in@)),
    ]
}

/// Shippo is asked for rates between both places, for the one parcel in inches and pounds, and
/// answers once they are there.
pub proof fn law_shippo_rates(
    token: &str,
    from: &Place,
    to: &Place,
    parcel: &Parcel,
    r: HttpRequest,
)
    requires
        call_ensures(shippo_get_rates, (token, from, to, parcel), r),
    ensures
        asks_shippo(
            r,
            "https://api.goshippo.com/shipments/"@,
            token@,
            seq![
                ("address_from"@, JsonView::Object(address(*from))),
                ("address_to"@, JsonView::Object(address(*to))),
                (
                    "parcels"@,
                    JsonView::List(
                        seq![
                            JsonView::Object(
                                size(*parcel) + seq![
                                    ("distance_unit"@, JsonView::Text("in"@)),
                                    ("weight"@, JsonView::Text(parcel.weight_lb@)),
                                    ("mass_unit"@, JsonView::Text("lb"@)),
                                ],
                            ),
                        ],
                    ),
                ),
                ("async"@, JsonView::Flag(false)),
            ],
        ),
{
    assert(r@.headers =~= seq![
        ("Authorization"@, "ShippoToken "@ + token@),
        ("Content-Type"@, "application/json"@),
    ]);
    assert(size(*parcel) + seq![
        ("distance_unit"@, JsonView::Text("in"@)),
        ("weight"@, JsonView::Text(parcel.weight_lb@)),
        ("mass_unit"@, JsonView::Text("lb"@)),
    ] =~= seq![
        ("length"@, JsonView::Text(parcel.length_in@)),
        ("width"@, JsonView::Text(parcel.width_in@)),
        ("height"@, JsonView::Text(parcel.height_in@)),
        ("distance_unit"@, JsonView::Text("in"@)),
        ("weight"@, JsonView::Text(parcel.weight_lb@)),
        ("mass_unit"@, JsonView::Text("lb"@)),
    ]);
}

/// A label at one of Shippo's rates is bought as a PDF of four by six inches.
pub proof fn law_shippo_label(token: &str, rate_id: &str, r: HttpRequest)
    requires
        call_ensures(shippo_buy_label, (token, rate_id), r),
    ensures
        asks_shippo(
            r,
            "https://api.goshippo.com/transactions"@,
            token@,
            seq![
                ("rate"@, JsonView::Text(rate_id@)),
                ("async"@, JsonView::Flag(false)),
                ("label_file_type"@, JsonView::Text("PDF_4x6"@)),
            ],
        ),
{
    assert(r@.headers =~= seq![
        ("Authorization"@, "ShippoToken "@ + token@),
        ("Content-Type"@, "application/json"@),
    ]);
}

/// What EasyPost is told of a shipment: both addresses, and the parcel in inches and ounces.
pub open spec fn shipment(
    from: Seq<(Seq<char>, JsonView)>,
    to: Seq<(Seq<char>, JsonView)>,
    parcel: Parcel,
) -> (Seq<char>, JsonView) {
    (
        "shipment"@,
        JsonView::Object(
            seq![
                ("from_address"@, JsonView::Object(from)),
                ("to_address"@, JsonView::Object(to)),
                (
                    "parcel"@,
                    JsonView::Object(
                        size(parcel).push(("weight"@, JsonView::Ounces(parcel.weight_lb@))),
                    ),
                ),
            ],
        ),
    )
}

proof fn lemma_shipment(parcel: Parcel, contact: Contact)
    ensures
        size(parcel).push(("weight"@, JsonView::Ounces(parcel.weight_lb@))) == seq![
            ("length"@, JsonView::Text(parcel.length_in@)),
            ("width"@, JsonView::Text(parcel.width_in@)),
            ("height"@, JsonView::Text(parcel.height_in@)),
            ("weight"@, JsonView::Ounces(parcel.weight_lb@)),
        ],
        full_address(contact) == seq![
            ("name"@, JsonView::Text(contact.name@)),
            ("street1"@, JsonView::Text(contact.street@)),
            ("city"@, JsonView::Text(contact.place.city@)),
            ("state"@, JsonView::Text(contact.place.state@)),
            ("zip"@, JsonView::Text(contact.place.zip@)),
            ("country"@, JsonView::Text(contact.place.country@)),
        ],
{
    assert(size(parcel).push(("weight"@, JsonView::Ounces(parcel.weight_lb@))) =~= seq![
        ("length"@, JsonView::Text(parcel.length_in@)),
        ("width"@, JsonView::Text(parcel.width_in@)),
        ("height"@, JsonView::Text(parcel.height_in@)),
        ("weight"@, JsonView::Ounces(parcel.weight_lb@)),
    ]);
    assert(full_address(contact) =~= seq![
        ("name"@, JsonView::Text(contact.name@)),
        ("street1"@, JsonView::Text(contact.street@)),
        ("city"@, JsonView::Text(contact.place.city@)),
        ("state"@, JsonView::Text(contact.place.state@)),
        ("zip"@, JsonView::Text(contact.place.zip@)),
        ("country"@, JsonView::Text(contact.place.country@)),
    ]);
}

/// EasyPost is asked for rates between both places, and for a shipment between both contacts, for
/// the one parcel.
pub proof fn law_easypost_shipments(
    api_key: &str,
    from: &Contact,
    to: &Contact,
    start: &Place,
    end: &Place,
    parcel: &Parcel,
    rates: HttpRequest,
    r: HttpRequest,
)
    requires
        call_ensures(easypost_get_rates, (api_key, start, end, parcel), rates),
        call_ensures(easypost_create_shipment, (api_key, from, to, parcel), r),
    ensures
        asks_easypost(
            rates,
            "https://api.easypost.com/beta/rates"@,
            api_key@,
            shipment(address(*start), address(*end), *parcel),
        ),
        asks_easypost(
            r,
            "https://api.easypost.com/v2/shipments"@,
            api_key@,
            shipment(full_address(*from), full_address(*to), *parcel),
        ),
{
    lemma_shipment(*parcel, *from);
    lemma_shipment(*parcel, *to);
    assert(rates@.headers =~= seq![("Content-Type"@, "application/json"@)]);
    assert(r@.headers =~= seq![("Content-Type"@, "application/json"@)]);
}

/// EasyPost is asked to track the parcel with the code that its carrier gave, and to sell a label
/// for the shipment at the rate.
pub proof fn law_easypost_calls(
    api_key: &str,
    tracking_code: &str,
    carrier: &str,
    shipment_id: &str,
    rate_id: &str,
    tracker: HttpRequest,
    label: HttpRequest,
)
    requires
        call_ensures(easypost_track, (api_key, tracking_code, carrier), tracker),
        call_ensures(easypost_buy_label, (api_key, shipment_id, rate_id), label),
    ensures
        asks_easypost(
            tracker,
            "https://api.easypost.com/v2/trackers"@,
            api_key@,
            (
                "tracker"@,
                JsonView::Object(
                    seq![
                        ("tracking_code"@, JsonView::Text(tracking_code@)),
                        ("carrier"@, JsonView::Text(carrier@)),
                    ],
                ),
            ),
        ),
        asks_easypost(
            label,
            "https://api.easypost.com/v2/shipments/"@ + shipment_id@ + "/buy"@,
            api_key@,
            ("rate"@, JsonView::Object(seq![("id"@, JsonView::Text(rate_id@))])),
        ),
{
    assert(tracker@.headers =~= seq![("Content-Type"@, "application/json"@)]);
    assert(label@.headers =~= seq![("Content-Type"@, "application/json"@)]);
}

/// The caller is told the reply as it came, with a success where the status is below 300.
pub proof fn law_shipping_report(outcome: Outcome, r: ApiResult)
    requires
        call_ensures(shipping_report, (outcome,), r),
    ensures
        match outcome {
            Outcome::Reply { status, body } => r.ok == (status < 300) && r.status == status
                && r.body@ == body@,
            Outcome::Failed(e) => !r.ok && r.status == 0 && r.body@ == e@,
        },
{
}

} // verus!
