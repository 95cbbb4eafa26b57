//! Laws of requests, documents and reports.

use vstd::prelude::*;

use crate::http::{
    list_view, members_view, pairs_view, refused, report_lenient, report_noted, report_plain,
    succeeded, ApiResult, Body, BodyView, Form, HttpRequest, Json, JsonView, Members, Method,
    Outcome, CONNECT_TIMEOUT_SECS, REQUEST_TIMEOUT_SECS,
};

verus! {

/// A status means success from 200 up to 299.
pub proof fn law_success(status: u16, r: bool)
    requires
        call_ensures(succeeded, (status,), r),
    ensures
        r <==> status / 100 == 2,
{
}

/// A plain report tells the status and the text of any reply as they came, and status 0 and the
/// error where none came. It is a success where the status is from 200 up to 299.
pub proof fn law_plain_report(outcome: Outcome, r: ApiResult)
    requires
        call_ensures(report_plain, (outcome,), r),
    ensures
        match outcome {
            Outcome::Reply { status, body } => r.status == status && r.body@ == body@ && r.ok == (
            status / 100 == 2),
            Outcome::Failed(e) => !r.ok && r.status == 0 && r.body@ == e@,
        },
{
}

/// A lenient report tells the same, and is a success where the status is below 300.
pub proof fn law_lenient_report(outcome: Outcome, r: ApiResult)
    requires
        call_ensures(report_lenient, (outcome,), r),
    ensures
        match outcome {
            Outcome::Reply { status, body } => r.status == status && r.body@ == body@ && r.ok == (
            status < 300),
            Outcome::Failed(e) => !r.ok && r.status == 0 && r.body@ == e@,
        },
{
}

/// A noted report tells the same as a plain one, with the note before the text of whatever is no
/// success.
pub proof fn law_noted_report(note: String, outcome: Outcome, r: ApiResult)
    requires
        call_ensures(report_noted, (note, outcome), r),
    ensures
        match outcome {
            Outcome::Reply { status, body } => r.status == status && r.ok == (status / 100 == 2)
                && r.body@ == (if status / 100 == 2 {
                body@
            } else {
                note@ + body@
            }),
            Outcome::Failed(e) => !r.ok && r.status == 0 && r.body@ == note@ + e@,
        },
{
}

/// A refusal tells what it is given, and is no success.
pub proof fn law_refusal(status: u16, body: String, r: ApiResult)
    requires
        call_ensures(refused, (status, body), r),
    ensures
        !r.ok && r.status == status && r.body@ == body@,
{
}

/// A request is what it was put together from: each part adds its own and keeps the others. It has
/// 15 seconds to connect, and 90 in all.
pub proof fn law_requests(
    request: HttpRequest,
    name: &str,
    value: &str,
    password: Option<&str>,
    body: Body,
    json: Json,
    method: Method,
    to: HttpRequest,
    headed: HttpRequest,
    filled: HttpRequest,
    texted: HttpRequest,
    jsoned: HttpRequest,
    logged: HttpRequest,
)
    requires
        call_ensures(HttpRequest::to, (method, name), to),
        call_ensures(HttpRequest::header, (request, name, value), headed),
        call_ensures(HttpRequest::body, (request, body), filled),
        call_ensures(HttpRequest::text, (request, value), texted),
        call_ensures(HttpRequest::json, (request, json), jsoned),
        call_ensures(HttpRequest::login, (request, name, password), logged),
    ensures
        CONNECT_TIMEOUT_SECS == 15,
        REQUEST_TIMEOUT_SECS == 90,
        to.method == method && to.url@ == name@ && to.login is None && to.headers@.len() == 0,
        to@.body is Empty,
        headed.method == request.method && headed.url@ == request.url@,
        headed@.login == request@.login && headed@.body == request@.body,
        pairs_view(headed.headers@) == pairs_view(request.headers@).push((name@, value@)),
        filled.method == request.method && filled.url@ == request.url@,
        filled@.login == request@.login && filled@.headers == request@.headers,
        filled@.body == body@,
        texted@.body == BodyView::Text(value@) && texted.url@ == request.url@ && texted.method
            == request.method && texted@.headers == request@.headers && texted@.login
            == request@.login,
        jsoned@.body == BodyView::Json(json@) && jsoned.url@ == request.url@ && jsoned.method
            == request.method && jsoned@.headers == request@.headers && jsoned@.login
            == request@.login,
        logged.method == request.method && logged.url@ == request.url@,
        logged@.headers == request@.headers && logged@.body == request@.body,
        logged.login matches Some(l) && l.user@ == name@ && match password {
            Some(p) => l.password matches Some(q) && q@ == p@,
            None => l.password is None,
        },
{
    assert(to@.headers == pairs_view(to.headers@));
    assert(to@.headers.len() == to.headers@.len());
}

/// A document shows each of its parts, at its place.
pub proof fn law_documents(items: Seq<Json>, members: Seq<(String, Json)>, i: int)
    ensures
        list_view(items).len() == items.len(),
        0 <= i < items.len() ==> list_view(items)[i] == items[i]@,
        members_view(members).len() == members.len(),
        0 <= i < members.len() ==> members_view(members)[i] == (members[i].0@, members[i].1@),
    decreases items.len() + members.len(),
{
    if items.len() > 0 {
        law_documents(items.drop_last(), Seq::empty(), i);
    }
    if members.len() > 0 {
        law_documents(Seq::empty(), members.drop_last(), i);
    }
}

/// A document of one kind is shown as that kind, with what it holds.
pub proof fn law_document_kinds(json: Json)
    ensures
        match json {
            Json::Text(s) => json@ == JsonView::Text(s@),
            Json::Flag(b) => json@ == JsonView::Flag(b),
            Json::Number(n) => json@ == JsonView::Number(n),
            Json::Ounces(s) => json@ == JsonView::Ounces(s@),
            Json::List(items) => json@ == JsonView::List(list_view(items@)),
            Json::Object(members) => json@ == JsonView::Object(members_view(members@)),
        },
{
}

/// The pairs of a form or of headers are shown each at its place, and so is every kind of body.
pub proof fn law_bodies(body: Body, pairs: Seq<(String, String)>, i: int)
    ensures
        pairs_view(pairs).len() == pairs.len(),
        0 <= i < pairs.len() ==> pairs_view(pairs)[i] == (pairs[i].0@, pairs[i].1@),
        match body {
            Body::Empty => body@ is Empty,
            Body::Text(s) => body@ == BodyView::Text(s@),
            Body::Form(fields) => body@ == BodyView::Form(pairs_view(fields@)),
            Body::Json(json) => body@ == BodyView::Json(json@),
            Body::Upload(u) => body@ matches BodyView::Upload(v) && v.text_name == u.text_name@
                && v.text == u.text@ && v.file_field == u.file_field@ && v.file_name
                == u.file_name@ && v.mime == u.mime@ && v.bytes == u.bytes@,
        },
{
}

/// Members and fields keep their order: the one that is put in comes last, and the others stay.
pub proof fn law_members(
    members: Members,
    form: Form,
    key: &str,
    value: &str,
    json: Json,
    with: Members,
    with_text: Members,
    fields: Form,
    object: Json,
    single: Json,
    text: Json,
    body: Body,
)
    requires
        call_ensures(Members::with, (members, key, json), with),
        call_ensures(Members::with_text, (members, key, value), with_text),
        call_ensures(Form::with, (form, key, value), fields),
        call_ensures(Json::object, (members,), object),
        call_ensures(Json::single, (json,), single),
        call_ensures(Json::text, (value,), text),
        call_ensures(Form::into_body, (form,), body),
    ensures
        with@.drop_last() == members@ && with@.last() == (key@, json@) && with@.len() > 0,
        with_text@.drop_last() == members@ && with_text@.last() == (
            key@,
            JsonView::Text(value@),
        ) && with_text@.len() > 0,
        fields@.drop_last() == form@ && fields@.last() == (key@, value@) && fields@.len() > 0,
        object@ == JsonView::Object(members_view(members.members@)),
        single@ matches JsonView::List(l) && l.len() == 1 && l[0] == json@,
        text@ == JsonView::Text(value@),
        body@ == BodyView::Form(pairs_view(form.fields@)),
{
    assert(with@.drop_last() =~= members@);
    assert(with_text@.drop_last() =~= members@);
    assert(fields@.drop_last() =~= form@);
}

} // verus!
