//! HTTP requests as plain values, what comes back of them, and what callers are told.

use vstd::prelude::*;
use vstd::string::*;

verus! {

// ---------------------------------------------------------------------------------------------
// JSON documents to send
// ---------------------------------------------------------------------------------------------

/// A JSON document that a request carries.
pub enum Json {
    Text(String),
    Flag(bool),
    Number(u32),
    /// The number of ounces in a weight that is given in pounds, as decimal text; sixteen where
    /// the text is no number.
    Ounces(String),
    List(Vec<Json>),
    Object(Vec<(String, Json)>),
}

/// A JSON document in contracts.
pub enum JsonView {
    Text(Seq<char>),
    Flag(bool),
    Number(u32),
    Ounces(Seq<char>),
    List(Seq<JsonView>),
    Object(Seq<(Seq<char>, JsonView)>),
}

/// The document that `json` is.
pub open spec fn json_view(json: Json) -> JsonView
    decreases json,
{
    match json {
        Json::Text(s) => JsonView::Text(s@),
        Json::Flag(b) => JsonView::Flag(b),
        Json::Number(n) => JsonView::Number(n),
        Json::Ounces(s) => JsonView::Ounces(s@),
        Json::List(items) => JsonView::List(list_view(items@)),
        Json::Object(members) => JsonView::Object(members_view(members@)),
    }
}

/// The documents that `items` are.
pub open spec fn list_view(items: Seq<Json>) -> Seq<JsonView>
    decreases items,
{
    if items.len() == 0 {
        Seq::empty()
    } else {
        list_view(items.drop_last()).push(json_view(items.last()))
    }
}

/// The members that `members` are, in their order.
pub open spec fn members_view(members: Seq<(String, Json)>) -> Seq<(Seq<char>, JsonView)>
    decreases members,
{
    if members.len() == 0 {
        Seq::empty()
    } else {
        members_view(members.drop_last()).push((members.last().0@, json_view(members.last().1)))
    }
}

impl View for Json {
    type V = JsonView;

    open spec fn view(&self) -> JsonView {
        json_view(*self)
    }
}

impl Json {
    /// A string.
    pub fn text(s: &str) -> (r: Json)
        ensures
            r@ == JsonView::Text(s@),
    {
        Json::Text(s.to_string())
    }

    /// A list of one item.
    pub fn single(item: Json) -> (r: Json)
        ensures
            r@ == JsonView::List(seq![item@]),
    {
        let mut items: Vec<Json> = Vec::new();
        items.push(item);
        proof {
            reveal_with_fuel(list_view, 2);
            assert(items@.drop_last() =~= Seq::<Json>::empty());
            assert(list_view(items@) =~= seq![item@]);
        }
        Json::List(items)
    }

    /// An object.
    pub fn object(members: Members) -> (r: Json)
        ensures
            r@ == JsonView::Object(members@),
    {
        Json::Object(members.members)
    }
}

/// The members of an object, as they are put together.
pub struct Members {
    pub members: Vec<(String, Json)>,
}

impl View for Members {
    type V = Seq<(Seq<char>, JsonView)>;

    open spec fn view(&self) -> Seq<(Seq<char>, JsonView)> {
        members_view(self.members@)
    }
}

impl Members {
    /// No members.
    pub fn new() -> (r: Members)
        ensures
            r@ == Seq::<(Seq<char>, JsonView)>::empty(),
    {
        Members { members: Vec::new() }
    }

    /// One member more.
    pub fn with(self, key: &str, value: Json) -> (r: Members)
        ensures
            r@ == self@.push((key@, value@)),
    {
        let mut members: Vec<(String, Json)> = self.members;
        let ghost before = members@;
        members.push((key.to_string(), value));
        assert(members@.drop_last() =~= before);
        Members { members }
    }

    /// One member more, a string.
    pub fn with_text(self, key: &str, value: &str) -> (r: Members)
        ensures
            r@ == self@.push((key@, JsonView::Text(value@))),
    {
        self.with(key, Json::text(value))
    }
}

// ---------------------------------------------------------------------------------------------
// Requests
// ---------------------------------------------------------------------------------------------

/// The method of a request.
#[derive(Clone, Copy, Debug, PartialEq, Eq, Structural)]
pub enum Method {
    Get,
    Post,
    Put,
}

/// A file that a multipart request carries beside a text.
pub struct Upload {
    pub text_name: String,
    pub text: String,
    pub file_field: String,
    pub file_name: String,
    pub mime: String,
    pub bytes: Vec<u8>,
}

/// A file that a multipart request carries, in contracts.
pub struct UploadView {
    pub text_name: Seq<char>,
    pub text: Seq<char>,
    pub file_field: Seq<char>,
    pub file_name: Seq<char>,
    pub mime: Seq<char>,
    pub bytes: Seq<u8>,
}

impl View for Upload {
    type V = UploadView;

    open spec fn view(&self) -> UploadView {
        UploadView {
            text_name: self.text_name@,
            text: self.text@,
            file_field: self.file_field@,
            file_name: self.file_name@,
            mime: self.mime@,
            bytes: self.bytes@,
        }
    }
}

/// The body of a request.
pub enum Body {
    Empty,
    Text(String),
    Form(Vec<(String, String)>),
    Json(Json),
    Upload(Upload),
}

/// The body of a request in contracts.
pub enum BodyView {
    Empty,
    Text(Seq<char>),
    Form(Seq<(Seq<char>, Seq<char>)>),
    Json(JsonView),
    Upload(UploadView),
}

/// Pairs of strings as pairs of texts.
pub open spec fn pairs_view(pairs: Seq<(String, String)>) -> Seq<(Seq<char>, Seq<char>)> {
    pairs.map_values(|p: (String, String)| (p.0@, p.1@))
}

impl View for Body {
    type V = BodyView;

    open spec fn view(&self) -> BodyView {
        match *self {
            Body::Empty => BodyView::Empty,
            Body::Text(s) => BodyView::Text(s@),
            Body::Form(fields) => BodyView::Form(pairs_view(fields@)),
            Body::Json(json) => BodyView::Json(json@),
            Body::Upload(upload) => BodyView::Upload(upload@),
        }
    }
}

/// The name and the password of HTTP's basic authentication, which the client encodes.
pub struct Login {
    pub user: String,
    pub password: Option<String>,
}

/// A request that is to be sent.
pub struct HttpRequest {
    pub method: Method,
    pub url: String,
    pub login: Option<Login>,
    pub headers: Vec<(String, String)>,
    pub body: Body,
}

/// The text that an optional string is.
pub open spec fn option_view(s: Option<String>) -> Option<Seq<char>> {
    match s {
        Some(s) => Some(s@),
        None => None,
    }
}

/// A request in contracts.
pub struct RequestView {
    pub method: Method,
    pub url: Seq<char>,
    pub login: Option<(Seq<char>, Option<Seq<char>>)>,
    pub headers: Seq<(Seq<char>, Seq<char>)>,
    pub body: BodyView,
}

impl View for HttpRequest {
    type V = RequestView;

    open spec fn view(&self) -> RequestView {
        RequestView {
            method: self.method,
            url: self.url@,
            login: match self.login {
                Some(l) => Some((l.user@, option_view(l.password))),
                None => None,
            },
            headers: pairs_view(self.headers@),
            body: self.body@,
        }
    }
}

impl RequestView {
    /// A request with nothing but its address.
    pub open spec fn to(method: Method, url: Seq<char>) -> RequestView {
        RequestView { method, url, login: None, headers: Seq::empty(), body: BodyView::Empty }
    }

    /// The request with one header more.
    pub open spec fn header(self, name: Seq<char>, value: Seq<char>) -> RequestView {
        RequestView { headers: self.headers.push((name, value)), ..self }
    }

    /// The request with another body.
    pub open spec fn body(self, body: BodyView) -> RequestView {
        RequestView { body, ..self }
    }

    /// The request with basic authentication.
    pub open spec fn login(self, user: Seq<char>, password: Option<Seq<char>>) -> RequestView {
        RequestView { login: Some((user, password)), ..self }
    }
}

impl HttpRequest {
    /// A request with nothing but its address.
    pub fn to(method: Method, url: &str) -> (r: HttpRequest)
        ensures
            r@ == RequestView::to(method, url@),
    {
        let r = HttpRequest {
            method,
            url: url.to_string(),
            login: None,
            headers: Vec::new(),
            body: Body::Empty,
        };
        assert(r@.headers =~= Seq::empty());
        r
    }

    /// The request with one header more.
    pub fn header(self, name: &str, value: &str) -> (r: HttpRequest)
        ensures
            r@ == self@.header(name@, value@),
    {
        let HttpRequest { method, url, login, headers, body } = self;
        let mut headers: Vec<(String, String)> = headers;
        headers.push((name.to_string(), value.to_string()));
        let r = HttpRequest { method, url, login, headers, body };
        assert(r@.headers =~= self@.headers.push((name@, value@)));
        r
    }

    /// The request with another body.
    pub fn body(self, body: Body) -> (r: HttpRequest)
        ensures
            r@ == self@.body(body@),
    {
        let HttpRequest { method, url, login, headers, body: _ } = self;
        HttpRequest { method, url, login, headers, body }
    }

    /// The request with a JSON document.
    pub fn json(self, json: Json) -> (r: HttpRequest)
        ensures
            r@ == self@.body(BodyView::Json(json@)),
    {
        self.body(Body::Json(json))
    }

    /// The request with text for a body.
    pub fn text(self, text: &str) -> (r: HttpRequest)
        ensures
            r@ == self@.body(BodyView::Text(text@)),
    {
        self.body(Body::Text(text.to_string()))
    }

    /// The request with basic authentication.
    pub fn login(self, user: &str, password: Option<&str>) -> (r: HttpRequest)
        ensures
            r@ == self@.login(
                user@,
                match password {
                    Some(p) => Some(p@),
                    None => None,
                },
            ),
    {
        let HttpRequest { method, url, login: _, headers, body } = self;
        let password: Option<String> = match password {
            Some(p) => Some(p.to_string()),
            None => None,
        };
        HttpRequest {
            method,
            url,
            login: Some(Login { user: user.to_string(), password }),
            headers,
            body,
        }
    }
}

/// The fields of a form, as they are put together.
pub struct Form {
    pub fields: Vec<(String, String)>,
}

impl View for Form {
    type V = Seq<(Seq<char>, Seq<char>)>;

    open spec fn view(&self) -> Seq<(Seq<char>, Seq<char>)> {
        pairs_view(self.fields@)
    }
}

impl Form {
    /// No fields.
    pub fn new() -> (r: Form)
        ensures
            r@ == Seq::<(Seq<char>, Seq<char>)>::empty(),
    {
        let r = Form { fields: Vec::new() };
        assert(r@ =~= Seq::<(Seq<char>, Seq<char>)>::empty());
        r
    }

    /// One field more.
    pub fn with(self, name: &str, value: &str) -> (r: Form)
        ensures
            r@ == self@.push((name@, value@)),
    {
        let mut fields: Vec<(String, String)> = self.fields;
        fields.push((name.to_string(), value.to_string()));
        let r = Form { fields };
        assert(r@ =~= self@.push((name@, value@)));
        r
    }

    /// The form as a body.
    pub fn into_body(self) -> (r: Body)
        ensures
            r@ == BodyView::Form(self@),
    {
        Body::Form(self.fields)
    }
}

/// How long connecting may take, in seconds.
pub const CONNECT_TIMEOUT_SECS: u64 = 15;

/// How long a request may take as a whole, in seconds.
pub const REQUEST_TIMEOUT_SECS: u64 = 90;

// ---------------------------------------------------------------------------------------------
// Outcomes
// ---------------------------------------------------------------------------------------------

/// What became of a request: a reply, or the message of the error that kept it from arriving.
pub enum Outcome {
    Reply { status: u16, body: String },
    Failed(String),
}

/// What became of a request, in contracts.
pub enum OutcomeView {
    Reply { status: u16, body: Seq<char> },
    Failed(Seq<char>),
}

impl View for Outcome {
    type V = OutcomeView;

    open spec fn view(&self) -> OutcomeView {
        match *self {
            Outcome::Reply { status, body } => OutcomeView::Reply { status, body: body@ },
            Outcome::Failed(e) => OutcomeView::Failed(e@),
        }
    }
}

/// What a command tells its caller. The status is 0 where no reply came.
pub struct ApiResult {
    pub ok: bool,
    pub status: u16,
    pub body: String,
}

/// What a command tells its caller, in contracts.
pub struct ApiResultView {
    pub ok: bool,
    pub status: u16,
    pub body: Seq<char>,
}

impl View for ApiResult {
    type V = ApiResultView;

    open spec fn view(&self) -> ApiResultView {
        ApiResultView { ok: self.ok, status: self.status, body: self.body@ }
    }
}

/// A refusal before any reply.
pub open spec fn failure(status: u16, body: Seq<char>) -> ApiResultView {
    ApiResultView { ok: false, status, body }
}

/// Whether a status means success.
pub open spec fn is_success(status: u16) -> bool {
    200 <= status < 300
}

/// A reply as it came, successful where its status says so.
pub open spec fn plain_result(outcome: OutcomeView) -> ApiResultView {
    match outcome {
        OutcomeView::Reply { status, body } => ApiResultView {
            ok: is_success(status),
            status,
            body,
        },
        OutcomeView::Failed(e) => failure(0, e),
    }
}

/// A reply as it came, successful where its status is below 300.
pub open spec fn lenient_result(outcome: OutcomeView) -> ApiResultView {
    match outcome {
        OutcomeView::Reply { status, body } => ApiResultView { ok: status < 300, status, body },
        OutcomeView::Failed(e) => failure(0, e),
    }
}

/// A successful reply as it came, and any other behind `note`, which says what was sent.
pub open spec fn noted_result(note: Seq<char>, outcome: OutcomeView) -> ApiResultView {
    match outcome {
        OutcomeView::Reply { status, body } => ApiResultView {
            ok: is_success(status),
            status,
            body: if is_success(status) {
                body
            } else {
                note + body
            },
        },
        OutcomeView::Failed(e) => failure(0, note + e),
    }
}

/// Whether a status means success.
pub fn succeeded(status: u16) -> (r: bool)
    ensures
        r == is_success(status),
{
    200 <= status && status < 300
}

/// A refusal before any reply.
pub fn refused(status: u16, body: String) -> (r: ApiResult)
    ensures
        r@ == failure(status, body@),
{
    ApiResult { ok: false, status, body }
}

/// A reply as it came, successful where its status says so.
pub fn report_plain(outcome: Outcome) -> (r: ApiResult)
    ensures
        r@ == plain_result(outcome@),
{
    match outcome {
        Outcome::Reply { status, body } => ApiResult { ok: succeeded(status), status, body },
        Outcome::Failed(e) => refused(0, e),
    }
}

/// A reply as it came, successful where its status is below 300.
pub fn report_lenient(outcome: Outcome) -> (r: ApiResult)
    ensures
        r@ == lenient_result(outcome@),
{
    match outcome {
        Outcome::Reply { status, body } => ApiResult { ok: status < 300, status, body },
        Outcome::Failed(e) => refused(0, e),
    }
}

/// A successful reply as it came, and any other behind a note of what was sent.
pub fn report_noted(note: String, outcome: Outcome) -> (r: ApiResult)
    ensures
        r@ == noted_result(note@, outcome@),
{
    match outcome {
        Outcome::Reply { status, body } => {
            let ok: bool = succeeded(status);
            let body: String = if ok {
                body
            } else {
                note.concat(body.as_str())
            };
            ApiResult { ok, status, body }
        },
        Outcome::Failed(e) => refused(0, note.concat(e.as_str())),
    }
}

/// The next thing to do for a command: send a request, or tell the caller.
pub enum Step {
    Send(HttpRequest),
    Done(ApiResult),
}

/// The next thing to do, in contracts.
pub enum StepView {
    Send(RequestView),
    Done(ApiResultView),
}

impl View for Step {
    type V = StepView;

    open spec fn view(&self) -> StepView {
        match *self {
            Step::Send(request) => StepView::Send(request@),
            Step::Done(result) => StepView::Done(result@),
        }
    }
}

// ---------------------------------------------------------------------------------------------
// Laws
// ---------------------------------------------------------------------------------------------

/// Whatever the style of report, success is told only of a reply, and what a successful reply says
/// reaches the caller unchanged. Of any other reply its status and its text reach the caller, the
/// text behind a note at most; where no reply came, status 0 and the error do.
pub proof fn law_reports(note: Seq<char>, outcome: OutcomeView, told: ApiResultView)
    requires
        told == plain_result(outcome) || told == lenient_result(outcome) || told == noted_result(
            note,
            outcome,
        ),
    ensures
        match outcome {
            OutcomeView::Reply { status, body } => {
                &&& told.status == status
                &&& is_success(status) ==> told.ok
                &&& told.ok ==> told.body == body && status < 300
                &&& body.is_suffix_of(told.body)
            },
            OutcomeView::Failed(e) => !told.ok && told.status == 0 && e.is_suffix_of(told.body),
        },
{
    let said = match outcome {
        OutcomeView::Reply { status, body } => body,
        OutcomeView::Failed(e) => e,
    };
    assert(said =~= told.body.skip(told.body.len() - said.len()));
}

} // verus!
