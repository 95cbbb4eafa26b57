//! Laws of the calls to Supabase, InventoryIQ and Apify.

use vstd::prelude::*;

use crate::http::{ApiResult, BodyView, HttpRequest, JsonView, Method, Outcome, Step};
use crate::laws::ebay::{tells, tells_plainly};
use crate::laws::text::{lemma_found, run_of};
use crate::services::{
    actor_id, actor_segment, apify_fetch_sold, apify_report, behind_scheme, host_part,
    iq_fetch_scans, iq_mark_imported, iq_report, is_no_name, lemma_before_sum, names_project,
    supabase_report, supabase_rpc,
};
use crate::text::{
    after, before, end_trimmed_of, find, lemma_cut_within, lemma_replaced_by_one, replaced,
    trim_end_char, trim_start_char, trimmed,
};

verus! {

/// Whether a text has none of the characters that end a host.
pub open spec fn is_host(s: Seq<char>) -> bool {
    forall|i: int|
        0 <= i < s.len() ==> #[trigger] s[i] != '/' && s[i] != '?' && s[i] != '#' && s[i] != '\\'
}

proof fn lemma_before_none(s: Seq<char>, tail: Seq<char>, c: char)
    requires
        forall|i: int| 0 <= i < s.len() ==> #[trigger] s[i] != c,
        tail.len() == 0 || tail[0] == c,
    ensures
        before(s + tail, c) == s,
        after(s + tail, c) == if tail.len() == 0 {
            tail
        } else {
            tail.skip(1)
        },
{
    lemma_before_sum(s, tail, c);
    assert(before(tail, c) =~= Seq::<char>::empty());
    assert(s + before(tail, c) =~= s);
    assert(after(tail, c) =~= if tail.len() == 0 {
        tail
    } else {
        tail.skip(1)
    });
}

/// An address names a project exactly where it starts with `https://` and the host behind that ends
/// in `.supabase.co`, as all that stands before the next slash does.
pub proof fn law_project(
    url: &str,
    host: Seq<char>,
    more: Seq<char>,
    path: Seq<char>,
    r: bool,
)
    requires
        call_ensures(names_project, (url,), r),
    ensures
        !"https://"@.is_prefix_of(url@) ==> !r,
        ({
            &&& url@ == "https://"@ + (host + more + path)
            &&& is_host(host)
            &&& more.len() == 0 || more[0] == '?' || more[0] == '#' || more[0] == '\\'
            &&& !more.contains('/')
            &&& path.len() == 0 || path[0] == '/'
        }) ==> (r <==> ".supabase.co"@.is_suffix_of(host) && ".supabase.co"@.is_suffix_of(
            host + more,
        )),
{
    let n = "https://"@.len() as int;
    let rest = host + more + path;
    if url@ == "https://"@ + rest && is_host(host) && (more.len() == 0 || more[0] == '?' || more[0]
        == '#' || more[0] == '\\') && !more.contains('/') && (path.len() == 0 || path[0] == '/') {
        assert(url@.skip(n) =~= rest);
        assert(url@.take(n) =~= "https://"@);
        assert forall|i: int| 0 <= i < (host + more).len() implies #[trigger] (host + more)[i]
            != '/' by {
            if i < host.len() {
                assert(host[i] != '/');
            } else {
                assert(more.contains(more[i - host.len()]));
            }
        }
        lemma_before_none(host + more, path, '/');
        lemma_before_sum(host, more, '?');
        let m1 = before(more, '?');
        lemma_cut_within(more, '?');
        lemma_before_sum(host, m1, '#');
        let m2 = before(m1, '#');
        lemma_cut_within(m1, '#');
        lemma_before_sum(host, m2, '\\');
        let m3 = before(m2, '\\');
        lemma_cut_within(m2, '\\');
        assert(m3.len() == 0) by {
            if more.len() > 0 {
                if more[0] == '?' {
                    assert(m1.len() == 0);
                } else {
                    assert(m1.len() > 0 ==> m1[0] == more[0]);
                    if more[0] == '#' {
                        assert(m2.len() == 0);
                    } else {
                        assert(m2.len() > 0 ==> m2[0] == more[0]);
                    }
                }
            }
        }
        assert(host + m3 =~= host);
        assert(host_part(rest) == host);
    }
}

/// A call of a function goes to a project and nowhere else: it is a POST of the payload unchanged
/// to the function's address there, with the whole key. For any other address nothing is sent.
pub proof fn law_supabase_call(
    url: &str,
    key: &str,
    function: &str,
    payload: &str,
    base: String,
    project: &str,
    named: bool,
    r: Step,
)
    requires
        call_ensures(end_trimmed_of, (url, '/'), base),
        project@ == base@,
        call_ensures(names_project, (project,), named),
        call_ensures(supabase_rpc, (url, key, function, payload), r),
    ensures
        named ==> (r matches Step::Send(q) && {
            &&& q.method == Method::Post
            &&& q.url@ == base@ + "/rest/v1/rpc/"@ + function@
            &&& q@.login is None
            &&& q@.headers == seq![("apikey"@, key@), ("Content-Type"@, "application/json"@)]
            &&& q@.body == BodyView::Text(payload@)
        }),
        !named ==> (r matches Step::Done(x) && {
            &&& !x.ok
            &&& x.status == 0
            &&& x.body@ == "Refused: URL is not a valid Supabase project host"@
        }),
{
    if let Step::Send(q) = r {
        assert(named ==> q@.headers =~= seq![
            ("apikey"@, key@),
            ("Content-Type"@, "application/json"@),
        ]);
    }
}

/// What is told of a call: a success as it came, and anything else behind the address and the
/// payload. What InventoryIQ and Apify reply is told as it came.
pub proof fn law_service_reports(
    url: &str,
    function: &str,
    payload: &str,
    outcome: Outcome,
    base: String,
    supabase: ApiResult,
    iq: ApiResult,
    apify: ApiResult,
)
    requires
        call_ensures(end_trimmed_of, (url, '/'), base),
        call_ensures(supabase_report, (url, function, payload, outcome), supabase),
        call_ensures(iq_report, (outcome,), iq),
        call_ensures(apify_report, (outcome,), apify),
    ensures
        tells(
            supabase,
            "[POST "@ + (base@ + "/rest/v1/rpc/"@ + function@) + "]\nSent: "@ + payload@ + "\n"@,
            outcome,
        ),
        tells_plainly(iq, outcome),
        tells_plainly(apify, outcome),
{
    reveal_strlit("[");
    reveal_strlit(" ");
    reveal_strlit("POST");
    reveal_strlit("[POST ");
    assert("["@ + "POST"@ + " "@ =~= "[POST "@);
}

/// InventoryIQ is asked for the scans by a GET and told of an import by a POST, with the whole
/// token, at the address that it was given without the slashes at its end.
pub proof fn law_inventory_iq(
    base: &str,
    token: &str,
    scan_id: &str,
    site: String,
    scans: HttpRequest,
    imported: HttpRequest,
)
    requires
        call_ensures(end_trimmed_of, (base, '/'), site),
        call_ensures(iq_fetch_scans, (base, token), scans),
        call_ensures(iq_mark_imported, (base, token, scan_id), imported),
    ensures
        scans.method == Method::Get,
        scans.url@ == site@ + "/api/pending-scans"@,
        scans@.login is None,
        scans@.headers == seq![("Authorization"@, "Bearer "@ + token@)],
        scans@.body is Empty,
        imported.method == Method::Post,
        imported.url@ == site@ + "/api/scans/"@ + scan_id@ + "/imported"@,
        imported@.login is None,
        imported@.headers == seq![
            ("Authorization"@, "Bearer "@ + token@),
            ("Content-Type"@, "application/json"@),
        ],
        imported@.body == BodyView::Text("{}"@),
{
    assert(scans@.headers =~= seq![("Authorization"@, "Bearer "@ + token@)]);
    assert(imported@.headers =~= seq![
        ("Authorization"@, "Bearer "@ + token@),
        ("Content-Type"@, "application/json"@),
    ]);
}

/// Apify is asked to run the actor by a POST, with the whole token; the keywords and the limit go
/// under each of the names that actors read them from.
pub proof fn law_sold(
    token: &str,
    actor: &str,
    keywords: &str,
    max_results: u32,
    id: String,
    r: HttpRequest,
)
    requires
        call_ensures(actor_id, (actor,), id),
        call_ensures(apify_fetch_sold, (token, actor, keywords, max_results), r),
    ensures
        r.method == Method::Post,
        r.url@ == "https://api.apify.com/v2/acts/"@ + id@ + "/run-sync-get-dataset-items?token="@
            + token@,
        r@.login is None,
        r@.headers == seq![("Content-Type"@, "application/json"@)],
        r@.body == BodyView::Json(
            JsonView::Object(
                seq![
                    ("searchQueries"@, JsonView::List(seq![JsonView::Text(keywords@)])),
                    ("keywords"@, JsonView::List(seq![JsonView::Text(keywords@)])),
                    ("maxItems"@, JsonView::Number(max_results)),
                    ("maxListingsPerSearch"@, JsonView::Number(max_results)),
                    ("maxResults"@, JsonView::Number(max_results)),
                ],
            ),
        ),
{
    assert(r@.headers =~= seq![("Content-Type"@, "application/json"@)]);
}

// ---------------------------------------------------------------------------------------------
// The actor
// ---------------------------------------------------------------------------------------------

/// The pages that the console has for an actor.
pub open spec fn console_pages() -> Seq<Seq<char>> {
    seq![
        "input"@,
        "console"@,
        "source"@,
        "code"@,
        "builds"@,
        "settings"@,
        "monitoring"@,
        "integrations"@,
        "issues"@,
        "publication"@,
        "information"@,
    ]
}

/// Whether a segment says what is done with an actor or which of its pages is shown.
pub open spec fn is_page(segment: Seq<char>, console: bool) -> bool {
    ||| segment == "run"@
    ||| segment == "runs"@
    ||| segment.len() >= 8 && segment.take(8) == "run-sync"@
    ||| console && console_pages().contains(segment)
}

proof fn lemma_page_is_no_name(segment: Seq<char>, console: bool)
    ensures
        is_page(segment, console) <==> is_no_name(segment, console),
{
    reveal_strlit("run-sync");
    let pages = console_pages();
    assert(pages[0] == "input"@ && pages[1] == "console"@ && pages[2] == "source"@);
    assert(pages[3] == "code"@ && pages[4] == "builds"@ && pages[5] == "settings"@);
    assert(pages[6] == "monitoring"@ && pages[7] == "integrations"@ && pages[8] == "issues"@);
    assert(pages[9] == "publication"@ && pages[10] == "information"@);
}

/// Whether text can be a segment of an address: it has none of the characters that end one.
pub open spec fn is_plain(s: Seq<char>) -> bool {
    forall|i: int| 0 <= i < s.len() ==> #[trigger] s[i] != '/' && s[i] != '?' && s[i] != '#'
}

/// The parts of an address from the actor on: slashes, a segment, slashes, a second segment, what
/// else is in the path, and what follows the path.
pub struct Parts {
    pub lead: Seq<char>,
    pub first: Seq<char>,
    pub gap: Seq<char>,
    pub second: Seq<char>,
    pub tail: Seq<char>,
    pub query: Seq<char>,
}

impl Parts {
    /// The parts are what their names say: a part is only missing where nothing follows it.
    pub open spec fn wf(self) -> bool {
        &&& run_of(self.lead, '/')
        &&& run_of(self.gap, '/')
        &&& is_plain(self.first)
        &&& is_plain(self.second)
        &&& forall|i: int|
            0 <= i < self.tail.len() ==> #[trigger] self.tail[i] != '?' && self.tail[i] != '#'
        &&& self.tail.len() == 0 || self.tail[0] == '/'
        &&& self.query.len() == 0 || self.query[0] == '?' || self.query[0] == '#'
        &&& self.first.len() == 0 ==> self.gap.len() == 0
        &&& self.gap.len() == 0 ==> self.second.len() == 0
        &&& self.second.len() == 0 ==> self.tail.len() == 0
    }

    /// The path.
    pub open spec fn path(self) -> Seq<char> {
        self.lead + (self.first + (self.gap + (self.second + self.tail)))
    }

    /// The actor that the API is asked for: the first segment where that has the tilde, or nothing
    /// but a page follows it; else both segments, with a tilde for each slash between them.
    pub open spec fn actor(self, console: bool) -> Seq<char> {
        if self.first.contains('~') || self.second.len() == 0 || is_page(self.second, console) {
            self.first
        } else {
            self.first + Seq::new(self.gap.len(), |i: int| '~') + self.second
        }
    }
}

proof fn lemma_run_is_dropped(run: Seq<char>, s: Seq<char>, c: char)
    requires
        run_of(run, c),
        s.len() == 0 || s[0] != c,
    ensures
        trim_start_char(run + s, c) == s,
    decreases run.len(),
{
    if run.len() == 0 {
        assert(run + s =~= s);
    } else {
        let rest = run.drop_first();
        assert(run[0] == c);
        assert forall|i: int| 0 <= i < rest.len() implies #[trigger] rest[i] == c by {
            assert(rest[i] == run[i + 1]);
        }
        lemma_run_is_dropped(rest, s, c);
        assert((run + s).drop_first() =~= rest + s);
    }
}

proof fn lemma_end_run_is_dropped(s: Seq<char>, run: Seq<char>, c: char)
    requires
        run_of(run, c),
        s.len() == 0 || s.last() != c,
    ensures
        trim_end_char(s + run, c) == s,
    decreases run.len(),
{
    if run.len() == 0 {
        assert(s + run =~= s);
    } else {
        let rest = run.drop_last();
        assert(run.last() == c);
        lemma_end_run_is_dropped(s, rest, c);
        assert((s + run).drop_last() =~= s + rest);
        assert((s + run).last() == c);
    }
}

/// A query does not belong to a path.
proof fn lemma_query(path: Seq<char>, query: Seq<char>)
    requires
        forall|i: int| 0 <= i < path.len() ==> #[trigger] path[i] != '?' && path[i] != '#',
        query.len() == 0 || query[0] == '?' || query[0] == '#',
    ensures
        before(before(path + query, '?'), '#') == path,
{
    lemma_before_sum(path, query, '?');
    let q = before(query, '?');
    lemma_cut_within(query, '?');
    lemma_before_sum(path, q, '#');
    lemma_cut_within(q, '#');
    assert(path + before(q, '#') =~= path);
}

proof fn lemma_path_chars(p: Parts)
    requires
        p.wf(),
    ensures
        forall|i: int|
            0 <= i < p.path().len() ==> #[trigger] p.path()[i] != '?' && p.path()[i] != '#',
{
    let a = p.lead.len() as int;
    let b = a + p.first.len();
    let c = b + p.gap.len();
    let d = c + p.second.len();
    assert forall|i: int| 0 <= i < p.path().len() implies #[trigger] p.path()[i] != '?'
        && p.path()[i] != '#' by {
        if i < a {
            assert(p.lead[i] == '/');
        } else if i < b {
            assert(p.path()[i] == p.first[i - a]);
        } else if i < c {
            assert(p.gap[i - b] == '/');
            assert(p.path()[i] == p.gap[i - b]);
        } else if i < d {
            assert(p.path()[i] == p.second[i - c]);
        } else {
            assert(p.path()[i] == p.tail[i - d]);
        }
    }
}

proof fn lemma_parts(p: Parts, console: bool)
    requires
        p.wf(),
    ensures
        replaced(actor_segment(p.path() + p.query, console), '/', "~"@) == p.actor(console),
{
    reveal_strlit("/");
    reveal_strlit("~");
    assert("~"@ =~= seq!['~']);
    lemma_path_chars(p);
    lemma_query(p.path(), p.query);
    let end = p.second + p.tail;
    let behind = p.gap + end;
    let path = p.first + behind;
    assert(path.len() == 0 || path[0] != '/') by {
        if p.first.len() > 0 {
            assert(path[0] == p.first[0]);
        }
    }
    lemma_run_is_dropped(p.lead, path, '/');
    assert(behind.len() == 0 || behind[0] == '/') by {
        if p.gap.len() > 0 {
            assert(behind[0] == p.gap[0]);
        }
    }
    lemma_before_none(p.first, behind, '/');
    let more = after(path, '/');
    let second = before(trim_start_char(more, '/'), '/');
    lemma_before_none(p.second, p.tail, '/');
    lemma_page_is_no_name(p.second, console);
    if p.gap.len() > 0 {
        let gap = p.gap.skip(1);
        assert(more =~= gap + end);
        assert forall|i: int| 0 <= i < gap.len() implies #[trigger] gap[i] == '/' by {
            assert(gap[i] == p.gap[i + 1]);
        }
        assert(end.len() == 0 || end[0] != '/') by {
            if p.second.len() > 0 {
                assert(end[0] == p.second[0]);
            }
        }
        lemma_run_is_dropped(gap, end, '/');
        assert(more.take(more.len() - end.len()) =~= gap);
        assert(p.gap[0] == '/');
        assert(p.gap =~= "/"@ + gap);
        assert(p.first + "/"@ + gap + p.second =~= p.first + p.gap + p.second);
    } else {
        assert(more =~= Seq::<char>::empty());
    }
    let part = actor_segment(p.path() + p.query, console);
    lemma_replaced_by_one(part, '/', '~');
    if p.first.contains('~') || p.second.len() == 0 || is_page(p.second, console) {
        assert(part == p.first);
        assert(replaced(part, '/', "~"@) =~= p.first);
    } else {
        assert(part == p.first + p.gap + p.second);
        let whole = p.actor(console);
        assert forall|i: int| 0 <= i < part.len() implies replaced(part, '/', "~"@)[i]
            == whole[i] by {
            if i < p.first.len() {
                assert(part[i] == p.first[i]);
            } else if i < p.first.len() + p.gap.len() {
                assert(part[i] == p.gap[i - p.first.len()]);
            } else {
                assert(part[i] == p.second[i - p.first.len() - p.gap.len()]);
            }
        }
        assert(replaced(part, '/', "~"@) =~= whole);
    }
}

/// Whether a text stands nowhere in another one.
pub open spec fn is_without(s: Seq<char>, pat: Seq<char>) -> bool {
    forall|k: int| 0 <= k <= s.len() - pat.len() ==> #[trigger] s.subrange(k, k + pat.len()) != pat
}

/// Whether text starts like an address.
pub open spec fn has_scheme(s: Seq<char>) -> bool {
    "https://"@.is_prefix_of(s) || "http://"@.is_prefix_of(s)
}

/// The actor in an address of the API, or of the console, starts behind the first of their marks;
/// text behind the API's mark needs no scheme, and the API's mark goes before the console's.
pub proof fn law_actor_behind_mark(
    actor: &str,
    given: String,
    start: Seq<char>,
    mark: Seq<char>,
    p: Parts,
    r: String,
)
    requires
        call_ensures(trimmed, (actor,), given),
        call_ensures(actor_id, (actor,), r),
        p.wf(),
        given@ == start + mark + (p.path() + p.query),
        forall|k: int|
            0 <= k < start.len() ==> #[trigger] given@.subrange(k, k + mark.len()) != mark,
        mark == "/acts/"@ || mark == "/actors/"@ && has_scheme(given@) && is_without(
            given@,
            "/acts/"@,
        ),
    ensures
        r@ == p.actor(mark == "/actors/"@),
{
    reveal_strlit("/acts/");
    reveal_strlit("/actors/");
    assert("/acts/"@.len() == 6 && "/actors/"@.len() == 8);
    let s = given@;
    let rest = p.path() + p.query;
    let at = start.len() as int;
    assert(s.subrange(at, at + mark.len()) =~= mark);
    lemma_found(s, mark, 0);
    assert(find(s, mark) == Some(at)) by {
        match find(s, mark) {
            Some(i) => {
                if i < at {
                    assert(s.subrange(i, i + mark.len()) != mark);
                } else if i > at {
                    assert(s.subrange(at, at + mark.len()) != mark);
                }
            },
            None => {
                assert(s.subrange(at, at + mark.len()) != mark);
            },
        }
    }
    assert(s.skip(at + mark.len()) =~= rest);
    if mark == "/actors/"@ {
        lemma_found(s, "/acts/"@, 0);
        if let Some(i) = find(s, "/acts/"@) {
            assert(s.subrange(i, i + 6) != "/acts/"@);
        }
    }
    lemma_parts(p, mark == "/actors/"@);
}

/// The actor in an address without a mark starts behind the host.
pub proof fn law_actor_on_page(
    actor: &str,
    given: String,
    scheme: Seq<char>,
    host: Seq<char>,
    p: Parts,
    r: String,
)
    requires
        call_ensures(trimmed, (actor,), given),
        call_ensures(actor_id, (actor,), r),
        p.wf(),
        scheme == "https://"@ || scheme == "http://"@,
        is_plain(host),
        p.lead.len() == 0 ==> p.path().len() == 0,
        given@ == scheme + (host + p.path() + p.query),
        is_without(given@, "/acts/"@),
        is_without(given@, "/actors/"@),
    ensures
        r@ == p.actor(false),
{
    reveal_strlit("https://");
    reveal_strlit("http://");
    assert("https://"@.len() == 8 && "http://"@.len() == 7);
    let s = given@;
    let rest = host + p.path() + p.query;
    let n = scheme.len() as int;
    assert(s.take(n) =~= scheme);
    assert(s.skip(n) =~= rest);
    if scheme == "http://"@ && "https://"@.is_prefix_of(s) {
        assert(s[4] == "https://"@[4] && s[4] == "http://"@[4]);
    }
    assert(behind_scheme(s) == Some(rest));
    lemma_found(s, "/acts/"@, 0);
    lemma_found(s, "/actors/"@, 0);
    if let Some(i) = find(s, "/acts/"@) {
        assert(s.subrange(i, i + "/acts/"@.len()) != "/acts/"@);
    }
    if let Some(i) = find(s, "/actors/"@) {
        assert(s.subrange(i, i + "/actors/"@.len()) != "/actors/"@);
    }
    lemma_path_chars(p);
    let page = host + p.path();
    assert forall|i: int| 0 <= i < page.len() implies #[trigger] page[i] != '?' && page[i]
        != '#' by {
        if i < host.len() {
            assert(page[i] == host[i]);
        } else {
            assert(page[i] == p.path()[i - host.len()]);
        }
    }
    lemma_query(page, p.query);
    if p.lead.len() > 0 {
        assert(p.lead[0] == '/');
        assert(p.path()[0] == '/');
    }
    lemma_before_none(host, p.path(), '/');
    let none = Seq::<char>::empty();
    if p.lead.len() > 0 {
        let lead = p.lead.skip(1);
        assert forall|i: int| 0 <= i < lead.len() implies #[trigger] lead[i] == '/' by {
            assert(lead[i] == p.lead[i + 1]);
        }
        let q = Parts { lead, query: none, ..p };
        assert(p.path().skip(1) =~= q.path() + none);
        lemma_parts(q, false);
    } else {
        let q = Parts { query: none, ..p };
        assert(p.path() =~= q.path() + none);
        lemma_parts(q, false);
    }
}

/// What is no address is the actor itself, without the slashes at its ends and with a tilde for
/// each of the others.
pub proof fn law_actor_typed(
    actor: &str,
    given: String,
    lead: Seq<char>,
    core: Seq<char>,
    end: Seq<char>,
    r: String,
)
    requires
        call_ensures(trimmed, (actor,), given),
        call_ensures(actor_id, (actor,), r),
        given@ == lead + (core + end),
        run_of(lead, '/'),
        run_of(end, '/'),
        core.len() == 0 ==> end.len() == 0,
        core.len() > 0 ==> core[0] != '/' && core.last() != '/',
        !has_scheme(given@),
        is_without(given@, "/acts/"@),
    ensures
        r@ == core.map_values(
            |c: char|
                if c == '/' {
                    '~'
                } else {
                    c
                },
        ),
{
    reveal_strlit("~");
    assert("~"@ =~= seq!['~']);
    let s = given@;
    lemma_found(s, "/acts/"@, 0);
    if let Some(i) = find(s, "/acts/"@) {
        assert(s.subrange(i, i + "/acts/"@.len()) != "/acts/"@);
    }
    assert(core.len() > 0 ==> (core + end)[0] == core[0]);
    lemma_run_is_dropped(lead, core + end, '/');
    lemma_end_run_is_dropped(core, end, '/');
    lemma_replaced_by_one(core, '/', '~');
    assert(replaced(core, '/', "~"@) =~= core.map_values(
        |c: char|
            if c == '/' {
                '~'
            } else {
                c
            },
    ));
}

} // verus!
