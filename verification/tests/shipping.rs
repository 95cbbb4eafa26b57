use wim::http::{Body, HttpRequest, Json, Method, Outcome};
use wim::shipping::{
    easypost_buy_label, easypost_create_shipment, easypost_get_rates, easypost_track,
    shippo_buy_label, shippo_get_rates, shipping_report, Contact, Parcel, Place,
};

fn place(city: &str) -> Place {
    Place {
        city: city.to_string(),
        state: "TX".to_string(),
        zip: "73301".to_string(),
        country: "US".to_string(),
    }
}

fn contact(name: &str) -> Contact {
    Contact { name: name.to_string(), street: "1 Main".to_string(), place: place("Austin") }
}

fn parcel() -> Parcel {
    Parcel {
        weight_lb: "2.5".to_string(),
        length_in: "10".to_string(),
        width_in: "8".to_string(),
        height_in: "4".to_string(),
    }
}

fn shipping_print(json: &Json) -> String {
    match json {
        Json::Text(s) => format!("{:?}", s),
        Json::Flag(b) => b.to_string(),
        Json::Number(n) => n.to_string(),
        Json::Ounces(s) => format!("oz({})", s),
        Json::List(l) => {
            format!("[{}]", l.iter().map(shipping_print).collect::<Vec<_>>().join(","))
        }
        Json::Object(m) => format!(
            "{{{}}}",
            m.iter()
                .map(|p| format!("{}:{}", p.0, shipping_print(&p.1)))
                .collect::<Vec<_>>()
                .join(",")
        ),
    }
}

fn shipping_body(request: &HttpRequest) -> String {
    match &request.body {
        Body::Json(j) => shipping_print(j),
        _ => panic!("no document"),
    }
}

fn easypost(request: &HttpRequest) {
    assert_eq!(request.method, Method::Post);
    let login = request.login.as_ref().unwrap();
    assert_eq!((login.user.as_str(), login.password.as_deref()), ("key", None));
    assert_eq!(
        request.headers,
        vec![("Content-Type".to_string(), "application/json".to_string())]
    );
}

fn shippo(request: &HttpRequest) {
    assert_eq!(request.method, Method::Post);
    assert!(request.login.is_none());
    assert_eq!(
        request.headers,
        vec![
            ("Authorization".to_string(), "ShippoToken key".to_string()),
            ("Content-Type".to_string(), "application/json".to_string()),
        ]
    );
}

#[test]
fn rates_of_shippo() {
    let r = shippo_get_rates("key", &place("A"), &place("B"), &parcel());
    shippo(&r);
    assert_eq!(r.url, "https://api.goshippo.com/shipments/");
    assert_eq!(
        shipping_body(&r),
        "{address_from:{city:\"A\",state:\"TX\",zip:\"73301\",country:\"US\"},address_to:{city:\"B\",state:\"TX\",zip:\"73301\",country:\"US\"},parcels:[{length:\"10\",width:\"8\",height:\"4\",distance_unit:\"in\",weight:\"2.5\",mass_unit:\"lb\"}],async:false}"
    );
}

#[test]
fn rates_of_easypost() {
    let r = easypost_get_rates("key", &place("A"), &place("B"), &parcel());
    easypost(&r);
    assert_eq!(r.url, "https://api.easypost.com/beta/rates");
    assert_eq!(
        shipping_body(&r),
        "{shipment:{from_address:{city:\"A\",state:\"TX\",zip:\"73301\",country:\"US\"},to_address:{city:\"B\",state:\"TX\",zip:\"73301\",country:\"US\"},parcel:{length:\"10\",width:\"8\",height:\"4\",weight:oz(2.5)}}}"
    );
}

#[test]
fn trackers_of_easypost() {
    let r = easypost_track("key", "9400", "USPS");
    easypost(&r);
    assert_eq!(r.url, "https://api.easypost.com/v2/trackers");
    assert_eq!(shipping_body(&r), "{tracker:{tracking_code:\"9400\",carrier:\"USPS\"}}");
}

#[test]
fn shipments_of_easypost() {
    let r = easypost_create_shipment("key", &contact("Ann"), &contact("Bob"), &parcel());
    easypost(&r);
    assert_eq!(r.url, "https://api.easypost.com/v2/shipments");
    assert_eq!(
        shipping_body(&r),
        "{shipment:{from_address:{name:\"Ann\",street1:\"1 Main\",city:\"Austin\",state:\"TX\",zip:\"73301\",country:\"US\"},to_address:{name:\"Bob\",street1:\"1 Main\",city:\"Austin\",state:\"TX\",zip:\"73301\",country:\"US\"},parcel:{length:\"10\",width:\"8\",height:\"4\",weight:oz(2.5)}}}"
    );
}

#[test]
fn labels() {
    let r = easypost_buy_label("key", "shp_1", "rate_1");
    easypost(&r);
    assert_eq!(r.url, "https://api.easypost.com/v2/shipments/shp_1/buy");
    assert_eq!(shipping_body(&r), "{rate:{id:\"rate_1\"}}");
    let r = shippo_buy_label("key", "rate_2");
    shippo(&r);
    assert_eq!(r.url, "https://api.goshippo.com/transactions");
    assert_eq!(
        shipping_body(&r),
        "{rate:\"rate_2\",async:false,label_file_type:\"PDF_4x6\"}"
    );
}

#[test]
fn what_is_told_of_shipping() {
    let told = |status| shipping_report(Outcome::Reply { status, body: "x".to_string() });
    assert!(told(100).ok && told(201).ok && !told(300).ok);
    assert_eq!(told(402).body, "x");
    assert_eq!(shipping_report(Outcome::Failed("down".to_string())).body, "down");
}
