//! Calls to Supabase, InventoryIQ and Apify.

use vstd::prelude::*;
use vstd::string::*;

use crate::ebay::{note_of_write, write_note};
use crate::http::{
    failure, noted_result, option_view, plain_result, refused, report_noted, report_plain,
    ApiResult, BodyView, HttpRequest, Json, JsonView, Members, Method, Outcome, RequestView, Step,
    StepView,
};
use crate::text::{
    after, before, chars_of, cut_at, end_trimmed_of, ends_with, find, find_chars, lemma_cut,
    lemma_cut_within, lemma_find_is_first, lemma_find_none, lemma_replaced_by_one, occurs_at,
    replace_char, replaced, same_text, split_once, start_trimmed_of, starts_with, text_between,
    trim, trim_end_char, trim_start_char, trimmed,
};

verus! {

// ---------------------------------------------------------------------------------------------
// Supabase
// ---------------------------------------------------------------------------------------------

/// The host of an address behind its scheme, with the user and the port where it names them: what
/// stands before the first of the characters that end a host.
pub open spec fn host_part(rest: Seq<char>) -> Seq<char> {
    before(before(before(before(rest, '/'), '?'), '#'), '\\')
}

/// Whether an address is that of a Supabase project: it starts with `https://`, what follows up to
/// the next slash ends in `.supabase.co`, and so does the host there.
pub open spec fn is_supabase(url: Seq<char>) -> bool {
    let rest = url.skip("https://"@.len() as int);
    &&& "https://"@.is_prefix_of(url)
    &&& ".supabase.co"@.is_suffix_of(before(rest, '/'))
    &&& ".supabase.co"@.is_suffix_of(host_part(rest))
}

/// Where a function of a project is called.
pub open spec fn supabase_url(url: Seq<char>, function: Seq<char>) -> Seq<char> {
    trim_end_char(url, '/') + "/rest/v1/rpc/"@ + function
}

/// The call of a function, or the refusal of an address that is no project's.
pub open spec fn supabase_step_of(
    url: Seq<char>,
    key: Seq<char>,
    function: Seq<char>,
    payload: Seq<char>,
) -> StepView {
    if is_supabase(trim_end_char(url, '/')) {
        StepView::Send(
            RequestView::to(Method::Post, supabase_url(url, function)).header(
                "apikey"@,
                key,
            ).header("Content-Type"@, "application/json"@).body(BodyView::Text(payload)),
        )
    } else {
        StepView::Done(failure(0, "Refused: URL is not a valid Supabase project host"@))
    }
}

/// Whether an address is that of a Supabase project.
pub fn names_project(url: &str) -> (r: bool)
    ensures
        r == is_supabase(url@),
{
    if !starts_with(url, "https://") {
        return false;
    }
    let cs: Vec<char> = chars_of(url);
    let n: usize = cs.len();
    proof {
        reveal_strlit("https://");
        assert(cs@.subrange(8, n as int) =~= url@.skip(8));
    }
    let rest: String = text_between(cs.as_slice(), 8, n);
    let (authority, _path) = split_once(rest.as_str(), '/');
    let (host, _query) = split_once(authority.as_str(), '?');
    let (host, _fragment) = split_once(host.as_str(), '#');
    let (host, _more) = split_once(host.as_str(), '\\');
    ends_with(authority.as_str(), ".supabase.co") && ends_with(host.as_str(), ".supabase.co")
}

/// The call of a function, or the refusal of an address that is no project's.
pub fn supabase_rpc(url: &str, key: &str, function: &str, payload: &str) -> (r: Step)
    ensures
        r@ == supabase_step_of(url@, key@, function@, payload@),
{
    let trimmed_url: String = end_trimmed_of(url, '/');
    if !names_project(trimmed_url.as_str()) {
        return Step::Done(
            refused(0, "Refused: URL is not a valid Supabase project host".to_string()),
        );
    }
    let full: String = trimmed_url.concat("/rest/v1/rpc/").concat(function);
    Step::Send(
        HttpRequest::to(Method::Post, full.as_str()).header("apikey", key).header(
            "Content-Type",
            "application/json",
        ).text(payload),
    )
}

/// What the caller is told of a call: where it fails, with the address and the payload.
pub fn supabase_report(url: &str, function: &str, payload: &str, outcome: Outcome) -> (r: ApiResult)
    ensures
        r@ == noted_result(write_note("POST"@, supabase_url(url@, function@), payload@), outcome@),
{
    let full: String = end_trimmed_of(url, '/').concat("/rest/v1/rpc/").concat(function);
    report_noted(note_of_write("POST", full.as_str(), payload), outcome)
}

// ---------------------------------------------------------------------------------------------
// InventoryIQ
// ---------------------------------------------------------------------------------------------

/// What the caller is told of a call to InventoryIQ: the reply as it came.
pub fn iq_report(outcome: Outcome) -> (r: ApiResult)
    ensures
        r@ == plain_result(outcome@),
{
    report_plain(outcome)
}

/// The request for the scans that were accepted.
pub fn iq_fetch_scans(base: &str, token: &str) -> (r: HttpRequest)
    ensures
        r@ == RequestView::to(
            Method::Get,
            trim_end_char(base@, '/') + "/api/pending-scans"@,
        ).header("Authorization"@, "Bearer "@ + token@),
{
    let url: String = end_trimmed_of(base, '/').concat("/api/pending-scans");
    HttpRequest::to(Method::Get, url.as_str()).header(
        "Authorization",
        "Bearer ".to_string().concat(token).as_str(),
    )
}

/// The request that marks a scan imported.
pub fn iq_mark_imported(base: &str, token: &str, scan_id: &str) -> (r: HttpRequest)
    ensures
        r@ == RequestView::to(
            Method::Post,
            trim_end_char(base@, '/') + "/api/scans/"@ + scan_id@ + "/imported"@,
        ).header("Authorization"@, "Bearer "@ + token@).header(
            "Content-Type"@,
            "application/json"@,
        ).body(BodyView::Text("{}"@)),
{
    let url: String = end_trimmed_of(base, '/').concat("/api/scans/").concat(scan_id).concat(
        "/imported",
    );
    HttpRequest::to(Method::Post, url.as_str()).header(
        "Authorization",
        "Bearer ".to_string().concat(token).as_str(),
    ).header("Content-Type", "application/json").text("{}")
}

// ---------------------------------------------------------------------------------------------
// Apify
// ---------------------------------------------------------------------------------------------

/// What follows the scheme of an address.
pub open spec fn behind_scheme(s: Seq<char>) -> Option<Seq<char>> {
    if "https://"@.is_prefix_of(s) {
        Some(s.skip(8))
    } else if "http://"@.is_prefix_of(s) {
        Some(s.skip(7))
    } else {
        None
    }
}

/// Where the actor starts in an address: behind the mark `/acts/` of the API, or in an address with
/// a scheme behind the mark `/actors/` of the console, or else behind the host. The second part says
/// whether it is the console's mark. Text with neither the API's mark nor a scheme is no address.
pub open spec fn located_part(s: Seq<char>) -> Option<(Seq<char>, bool)> {
    match find(s, "/acts/"@) {
        Some(i) => Some((s.skip(i + 6), false)),
        None => match behind_scheme(s) {
            Some(rest) => match find(s, "/actors/"@) {
                Some(i) => Some((s.skip(i + 8), true)),
                None => Some((after(before(before(rest, '?'), '#'), '/'), false)),
            },
            None => None,
        },
    }
}

/// Whether a segment of an address is what the API does with an actor, and no name.
pub open spec fn is_run(segment: Seq<char>) -> bool {
    segment == "run"@ || segment == "runs"@ || "run-sync"@.is_prefix_of(segment)
}

/// Whether a segment of an address is a page that the console has for an actor, and no name.
pub open spec fn is_tab(segment: Seq<char>) -> bool {
    ||| segment == "input"@
    ||| segment == "console"@
    ||| segment == "source"@
    ||| segment == "code"@
    ||| segment == "builds"@
    ||| segment == "settings"@
    ||| segment == "monitoring"@
    ||| segment == "integrations"@
    ||| segment == "issues"@
    ||| segment == "publication"@
    ||| segment == "information"@
}

/// Whether the segment behind an actor's first one is no part of the actor.
pub open spec fn is_no_name(segment: Seq<char>, console: bool) -> bool {
    is_run(segment) || console && is_tab(segment)
}

/// The actor that the rest of an address starts with: its first segment where that has the tilde
/// or stands alone, else the first two with the slashes between them. What follows the actor is
/// dropped.
pub open spec fn actor_segment(rest: Seq<char>, console: bool) -> Seq<char> {
    let path = trim_start_char(before(before(rest, '?'), '#'), '/');
    let first = before(path, '/');
    let more = after(path, '/');
    let second = before(trim_start_char(more, '/'), '/');
    if first.contains('~') || second.len() == 0 || is_no_name(second, console) {
        first
    } else {
        let slashes = more.take(more.len() - trim_start_char(more, '/').len());
        first + "/"@ + slashes + second
    }
}

/// The actor in what was typed or pasted: the actor's segment of an address, and anything else
/// without the slashes at its ends.
pub open spec fn actor_part(s: Seq<char>) -> Seq<char> {
    match located_part(s) {
        Some((rest, console)) => actor_segment(rest, console),
        None => trim_end_char(trim_start_char(s, '/'), '/'),
    }
}

/// The actor as the API names it: with a tilde for each slash.
pub open spec fn actor_id_of(actor: Seq<char>) -> Seq<char> {
    replaced(actor_part(trim(actor)), '/', "~"@)
}

/// The request that runs an actor over keywords. The search and its limit are sent under each of
/// the names that versions of the actor read them from.
pub open spec fn sold_request_of(
    token: Seq<char>,
    actor: Seq<char>,
    keywords: Seq<char>,
    max_results: u32,
) -> RequestView {
    RequestView::to(
        Method::Post,
        "https://api.apify.com/v2/acts/"@ + actor_id_of(actor)
            + "/run-sync-get-dataset-items?token="@ + token,
    ).header("Content-Type"@, "application/json"@).body(
        BodyView::Json(
            JsonView::Object(
                seq![
                    ("searchQueries"@, JsonView::List(seq![JsonView::Text(keywords)])),
                    ("keywords"@, JsonView::List(seq![JsonView::Text(keywords)])),
                    ("maxItems"@, JsonView::Number(max_results)),
                    ("maxListingsPerSearch"@, JsonView::Number(max_results)),
                    ("maxResults"@, JsonView::Number(max_results)),
                ],
            ),
        ),
    )
}

/// The view of where an actor starts.
pub open spec fn located_view(part: Option<(String, bool)>) -> Option<(Seq<char>, bool)> {
    match part {
        Some((rest, console)) => Some((rest@, console)),
        None => None,
    }
}

/// What follows the scheme of an address.
fn drop_scheme(s: &str) -> (r: Option<String>)
    ensures
        option_view(r) == behind_scheme(s@),
{
    let cs: Vec<char> = chars_of(s);
    let n: usize = cs.len();
    proof {
        reveal_strlit("https://");
        reveal_strlit("http://");
    }
    if starts_with(s, "https://") {
        assert(cs@.subrange(8, n as int) =~= s@.skip(8));
        Some(text_between(cs.as_slice(), 8, n))
    } else if starts_with(s, "http://") {
        assert(cs@.subrange(7, n as int) =~= s@.skip(7));
        Some(text_between(cs.as_slice(), 7, n))
    } else {
        None
    }
}

/// Where the actor starts in an address.
fn locate_part(s: &str) -> (r: Option<(String, bool)>)
    ensures
        located_view(r) == located_part(s@),
{
    let cs: Vec<char> = chars_of(s);
    let n: usize = cs.len();
    let acts: Vec<char> = chars_of("/acts/");
    let actors: Vec<char> = chars_of("/actors/");
    proof {
        reveal_strlit("/acts/");
        reveal_strlit("/actors/");
    }
    if let Some(i) = find_chars(cs.as_slice(), acts.as_slice(), 0) {
        assert(cs@.subrange(i + 6, n as int) =~= cs@.skip(i + 6));
        return Some((text_between(cs.as_slice(), i + 6, n), false));
    }
    match drop_scheme(s) {
        Some(rest) => match find_chars(cs.as_slice(), actors.as_slice(), 0) {
            Some(i) => {
                assert(cs@.subrange(i + 8, n as int) =~= cs@.skip(i + 8));
                Some((text_between(cs.as_slice(), i + 8, n), true))
            },
            None => {
                let (page, _query) = split_once(rest.as_str(), '?');
                let (page, _fragment) = split_once(page.as_str(), '#');
                let (_host, path) = split_once(page.as_str(), '/');
                Some((path, false))
            },
        },
        None => None,
    }
}

/// Whether the segment behind an actor's first one is no part of the actor.
fn no_name(segment: &str, console: bool) -> (r: bool)
    ensures
        r == is_no_name(segment@, console),
{
    let run: bool = same_text(segment, "run") || same_text(segment, "runs") || starts_with(
        segment,
        "run-sync",
    );
    let tab: bool = same_text(segment, "input") || same_text(segment, "console") || same_text(
        segment,
        "source",
    ) || same_text(segment, "code") || same_text(segment, "builds") || same_text(
        segment,
        "settings",
    ) || same_text(segment, "monitoring") || same_text(segment, "integrations") || same_text(
        segment,
        "issues",
    ) || same_text(segment, "publication") || same_text(segment, "information");
    run || (console && tab)
}

/// The actor that the rest of an address starts with.
fn take_actor_segment(rest: &str, console: bool) -> (r: String)
    ensures
        r@ == actor_segment(rest@, console),
{
    let (path, _query) = split_once(rest, '?');
    let (path, _fragment) = split_once(path.as_str(), '#');
    let path: String = start_trimmed_of(path.as_str(), '/');
    let (first, more) = split_once(path.as_str(), '/');
    let tail: String = start_trimmed_of(more.as_str(), '/');
    let (second, _end) = split_once(tail.as_str(), '/');
    if holds(first.as_str(), '~') || second.as_str().is_empty() || no_name(
        second.as_str(),
        console,
    ) {
        first
    } else {
        let ms: Vec<char> = chars_of(more.as_str());
        proof {
            lemma_trim_shortens(more@, '/');
        }
        let slashes: String = text_between(
            ms.as_slice(),
            0,
            ms.len() - tail.as_str().unicode_len(),
        );
        assert(slashes@ =~= more@.take(more@.len() - tail@.len()));
        first.concat("/").concat(slashes.as_str()).concat(second.as_str())
    }
}

/// Whether text has a character.
fn holds(s: &str, c: char) -> (r: bool)
    ensures
        r == s@.contains(c),
{
    let (head, _tail) = split_once(s, c);
    proof {
        lemma_cut_within(s@, c);
        lemma_cut_finds(s@, c);
    }
    head.as_str().unicode_len() < s.unicode_len()
}

/// The actor as the API names it.
pub fn actor_id(actor: &str) -> (r: String)
    ensures
        r@ == actor_id_of(actor@),
{
    let given: String = trimmed(actor);
    let part: String = match locate_part(given.as_str()) {
        Some((rest, console)) => take_actor_segment(rest.as_str(), console),
        None => {
            let head: String = start_trimmed_of(given.as_str(), '/');
            end_trimmed_of(head.as_str(), '/')
        },
    };
    replace_char(part.as_str(), '/', "~")
}

/// The request that runs an actor over keywords.
pub fn apify_fetch_sold(
    token: &str,
    actor: &str,
    keywords: &str,
    max_results: u32,
) -> (r: HttpRequest)
    ensures
        r@ == sold_request_of(token@, actor@, keywords@, max_results),
{
    let url: String = "https://api.apify.com/v2/acts/".to_string().concat(
        actor_id(actor).as_str(),
    ).concat("/run-sync-get-dataset-items?token=").concat(token);
    let members = Members::new().with("searchQueries", Json::single(Json::text(keywords))).with(
        "keywords",
        Json::single(Json::text(keywords)),
    ).with("maxItems", Json::Number(max_results)).with(
        "maxListingsPerSearch",
        Json::Number(max_results),
    ).with("maxResults", Json::Number(max_results));
    assert(members@ =~= seq![
        ("searchQueries"@, JsonView::List(seq![JsonView::Text(keywords@)])),
        ("keywords"@, JsonView::List(seq![JsonView::Text(keywords@)])),
        ("maxItems"@, JsonView::Number(max_results)),
        ("maxListingsPerSearch"@, JsonView::Number(max_results)),
        ("maxResults"@, JsonView::Number(max_results)),
    ]);
    HttpRequest::to(Method::Post, url.as_str()).header("Content-Type", "application/json").json(
        Json::object(members),
    )
}

/// What the caller is told of an actor's run: the reply as it came.
pub fn apify_report(outcome: Outcome) -> (r: ApiResult)
    ensures
        r@ == plain_result(outcome@),
{
    report_plain(outcome)
}

// ---------------------------------------------------------------------------------------------
// Laws
// ---------------------------------------------------------------------------------------------

/// A path behind an address leaves the address's host as it is.
proof fn lemma_host_keeps(url: Seq<char>, path: Seq<char>)
    requires
        is_supabase(url),
        path.len() > 0,
        path[0] == '/',
    ensures
        is_supabase(url + path),
{
    let n = "https://"@.len() as int;
    lemma_before_append(url.skip(n), path);
    assert((url + path).skip(n) =~= url.skip(n) + path);
    assert((url + path).take(n) =~= url.take(n));
}

/// Text that starts with a slash, put behind other text, leaves what stands before the first slash
/// as it is.
proof fn lemma_before_append(s: Seq<char>, path: Seq<char>)
    requires
        path.len() > 0,
        path[0] == '/',
    ensures
        cut_at(s + path, '/') == cut_at(s, '/'),
        before(s + path, '/') == before(s, '/'),
    decreases s.len(),
{
    if s.len() > 0 && s[0] != '/' {
        lemma_before_append(s.drop_first(), path);
        assert((s + path).drop_first() =~= s.drop_first() + path);
    }
    lemma_cut_within(s, '/');
    assert((s + path).take(cut_at(s, '/') as int) =~= s.take(cut_at(s, '/') as int));
}

/// A request to Supabase leaves only for an address that starts with `https://` and whose host ends
/// in `.supabase.co`, as what stands before the next slash does; every other address is refused,
/// with nothing sent.
pub proof fn law_supabase_host(
    url: Seq<char>,
    key: Seq<char>,
    function: Seq<char>,
    payload: Seq<char>,
)
    ensures
        match supabase_step_of(url, key, function, payload) {
            StepView::Send(request) => is_supabase(request.url),
            StepView::Done(result) => !is_supabase(trim_end_char(url, '/')) && result == failure(
                0,
                "Refused: URL is not a valid Supabase project host"@,
            ),
        },
{
    if is_supabase(trim_end_char(url, '/')) {
        reveal_strlit("/rest/v1/rpc/");
        let base = trim_end_char(url, '/');
        lemma_host_keeps(base, "/rest/v1/rpc/"@ + function);
        assert(base + ("/rest/v1/rpc/"@ + function) =~= supabase_url(url, function));
    }
}

/// An actor's name in a request holds no slash, whatever was typed.
pub proof fn law_actor_without_slash(actor: Seq<char>)
    ensures
        !actor_id_of(actor).contains('/'),
{
    reveal_strlit("~");
    assert("~"@ =~= seq!['~']);
    lemma_replaced_by_one(actor_part(trim(actor)), '/', '~');
}

/// The name of an actor under its owner, as the API writes it.
pub open spec fn tilde_name(user: Seq<char>, name: Seq<char>) -> Seq<char> {
    user + "~"@ + name
}

/// Whether text can be an owner or a name: it has characters, and no slash among them.
pub open spec fn is_name(s: Seq<char>) -> bool {
    s.len() > 0 && !s.contains('/')
}

/// Whether a name can stand in an address: it has no character that ends the path of one.
pub open spec fn is_segment(s: Seq<char>) -> bool {
    is_name(s) && !s.contains('?') && !s.contains('#')
}

/// An owner, a slash or a tilde, and a name make the name with the tilde.
proof fn lemma_tilde(user: Seq<char>, name: Seq<char>)
    requires
        is_name(user),
        is_name(name),
    ensures
        replaced(user + "/"@ + name, '/', "~"@) == tilde_name(user, name),
        replaced(tilde_name(user, name), '/', "~"@) == tilde_name(user, name),
{
    reveal_strlit("/");
    reveal_strlit("~");
    assert("~"@ =~= seq!['~']);
    let slashed = user + "/"@ + name;
    let tilded = tilde_name(user, name);
    lemma_replaced_by_one(slashed, '/', '~');
    lemma_replaced_by_one(tilded, '/', '~');
    assert forall|i: int| 0 <= i < user.len() implies user[i] != '/' by {
        assert(user.contains(user[i]));
    }
    assert forall|i: int| 0 <= i < name.len() implies name[i] != '/' by {
        assert(name.contains(name[i]));
    }
    assert(replaced(slashed, '/', "~"@) =~= tilded);
    assert(replaced(tilded, '/', "~"@) =~= tilded);
}

/// Text that is an owner and a name, slashes around it or not, has no scheme.
proof fn lemma_no_scheme(s: Seq<char>, slash: int)
    requires
        ({
            let core = trim_end_char(trim_start_char(s, '/'), '/');
            &&& forall|i: int| 0 <= i < core.len() && i != slash ==> core[i] != '/'
            &&& core.contains('~') || 0 <= slash < core.len() - 1 && core[slash] == '/'
        }),
    ensures
        behind_scheme(s) is None,
{
    reveal_strlit("https://");
    reveal_strlit("http://");
    if behind_scheme(s) is Some {
        let scheme = if "https://"@.is_prefix_of(s) {
            "https://"@
        } else {
            "http://"@
        };
        let n = scheme.len() as int;
        assert(s.take(n) =~= scheme);
        assert(s[0] == s.take(n)[0]);
        let core = trim_end_char(s, '/');
        lemma_trim_end_takes(s, '/');
        assert(core == s.take(core.len() as int));
        assert(forall|i: int| 0 <= i < core.len() ==> core[i] == s[i]);
        assert(s[n - 1] == s.take(n)[n - 1] && s[n - 2] == s.take(n)[n - 2]);
        if core.len() >= n {
            assert(core[n - 1] == '/' && core[n - 2] == '/');
        } else {
            assert forall|i: int| 0 <= i < core.len() implies core[i] == scheme[i] by {
                assert(s[i] == s.take(n)[i]);
            }
            if core.contains('~') {
                let i = choose|i: int| 0 <= i < core.len() && core[i] == '~';
                assert(scheme[i] == '~');
            } else {
                assert(scheme[slash] == '/' && slash < n - 2);
            }
        }
        assert(false);
    }
}

/// Trimming the end leaves a start of the text.
proof fn lemma_trim_end_takes(s: Seq<char>, c: char)
    ensures
        trim_end_char(s, c).len() <= s.len(),
        trim_end_char(s, c) == s.take(trim_end_char(s, c).len() as int),
    decreases s.len(),
{
    if s.len() > 0 && s.last() == c {
        lemma_trim_end_takes(s.drop_last(), c);
        let n = trim_end_char(s, c).len() as int;
        assert(s.drop_last().take(n) =~= s.take(n));
    } else {
        assert(s.take(s.len() as int) =~= s);
    }
}

/// An actor typed with a slash between its owner and its name, or already with a tilde, white space
/// and slashes around it or not, becomes the name with the tilde. What has the API's mark in it is
/// an address.
pub proof fn law_typed_actor(typed: Seq<char>, user: Seq<char>, name: Seq<char>)
    requires
        is_name(user),
        is_name(name),
        ({
            let core = trim_end_char(trim_start_char(trim(typed), '/'), '/');
            core == user + "/"@ + name || core == tilde_name(user, name)
        }),
        forall|i: int| 0 <= i ==> !#[trigger] occurs_at(trim(typed), "/acts/"@, i),
    ensures
        actor_id_of(typed) == tilde_name(user, name),
{
    reveal_strlit("/");
    reveal_strlit("~");
    assert forall|i: int| 0 <= i < user.len() implies user[i] != '/' by {
        assert(user.contains(user[i]));
    }
    assert forall|i: int| 0 <= i < name.len() implies name[i] != '/' by {
        assert(name.contains(name[i]));
    }
    let s = trim(typed);
    lemma_find_none(s, "/acts/"@, 0);
    assert(tilde_name(user, name)[user.len() as int] == '~');
    lemma_no_scheme(s, user.len() as int);
    lemma_tilde(user, name);
}

/// Whether the mark stands in an address first at the end of `start`, and what follows it is the
/// rest. Before the console's mark there is a scheme.
pub open spec fn is_address(
    s: Seq<char>,
    start: Seq<char>,
    mark: Seq<char>,
    rest: Seq<char>,
) -> bool {
    &&& s == start + mark + rest
    &&& forall|i: int| 0 <= i < start.len() ==> !#[trigger] occurs_at(start + mark, mark, i)
    &&& mark == "/acts/"@ || mark == "/actors/"@ && behind_scheme(s) is Some && forall|i: int|
        0 <= i ==> !#[trigger] occurs_at(s, "/acts/"@, i)
}

/// Whether text can follow an actor in an address: nothing, or what starts with a slash, a question
/// mark or a number sign.
pub open spec fn is_tail(s: Seq<char>) -> bool {
    s.len() == 0 || s[0] == '/' || s[0] == '?' || s[0] == '#'
}

/// An address of the API or of the console, pasted whole, becomes the name with the tilde: what
/// stands before the actor and what follows it is dropped. A name that itself reads like a run or a
/// page of an actor has to be written with the tilde.
pub proof fn law_pasted_actor(
    pasted: Seq<char>,
    start: Seq<char>,
    mark: Seq<char>,
    user: Seq<char>,
    name: Seq<char>,
    end: Seq<char>,
)
    requires
        is_segment(user),
        is_segment(name),
        is_tail(end),
        ({
            ||| is_address(trim(pasted), start, mark, user + "/"@ + name + end) && !user.contains(
                '~',
            ) && !is_no_name(name, mark == "/actors/"@)
            ||| is_address(trim(pasted), start, mark, tilde_name(user, name) + end)
        }),
    ensures
        actor_id_of(pasted) == tilde_name(user, name),
{
    reveal_strlit("/");
    reveal_strlit("~");
    lemma_tilde(user, name);
    if is_address(trim(pasted), start, mark, tilde_name(user, name) + end) {
        let actor = tilde_name(user, name);
        lemma_mark(trim(pasted), start, mark, actor + end);
        lemma_segment_chars(user);
        lemma_segment_chars(name);
        assert(actor[user.len() as int] == '~');
        lemma_first_segment(actor, end, mark == "/actors/"@);
    } else {
        lemma_mark(trim(pasted), start, mark, user + "/"@ + name + end);
        lemma_two_segments(user, name, end, mark == "/actors/"@);
    }
}

/// An actor that an address names by an identifier alone is kept as it is, whatever the API is
/// asked to do with it and whichever of its pages the console shows.
pub proof fn law_pasted_identifier(
    pasted: Seq<char>,
    start: Seq<char>,
    mark: Seq<char>,
    id: Seq<char>,
    run: Seq<char>,
    end: Seq<char>,
)
    requires
        is_segment(id),
        is_tail(end),
        ({
            ||| is_address(trim(pasted), start, mark, id + "/"@ + run + end) && is_segment(run)
                && is_no_name(run, mark == "/actors/"@)
            ||| is_address(trim(pasted), start, mark, id + end) && !(end.len() > 0 && end[0] == '/')
        }),
    ensures
        actor_id_of(pasted) == id,
{
    reveal_strlit("/");
    reveal_strlit("~");
    assert("~"@ =~= seq!['~']);
    lemma_segment_chars(id);
    if is_address(trim(pasted), start, mark, id + end) && !(end.len() > 0 && end[0] == '/') {
        lemma_mark(trim(pasted), start, mark, id + end);
        lemma_lone_segment(id, end, mark == "/actors/"@);
    } else {
        lemma_mark(trim(pasted), start, mark, id + "/"@ + run + end);
        lemma_two_segments(id, run, end, mark == "/actors/"@);
    }
    lemma_replaced_by_one(id, '/', '~');
    assert(replaced(id, '/', "~"@) =~= id);
}

/// The address of an actor's public page, which has no mark, becomes the name with the tilde: the
/// scheme and the host are dropped, and what follows the actor is.
pub proof fn law_pasted_page(
    pasted: Seq<char>,
    scheme: Seq<char>,
    host: Seq<char>,
    user: Seq<char>,
    name: Seq<char>,
    end: Seq<char>,
)
    requires
        scheme == "https://"@ || scheme == "http://"@,
        is_segment(host),
        is_segment(user),
        is_segment(name),
        is_tail(end),
        ({
            ||| trim(pasted) == scheme + (host + "/"@ + (user + "/"@ + name) + end)
                && !user.contains('~') && !is_run(name)
            ||| trim(pasted) == scheme + (host + "/"@ + tilde_name(user, name) + end)
        }),
        forall|i: int| 0 <= i ==> !#[trigger] occurs_at(trim(pasted), "/acts/"@, i),
        forall|i: int| 0 <= i ==> !#[trigger] occurs_at(trim(pasted), "/actors/"@, i),
    ensures
        actor_id_of(pasted) == tilde_name(user, name),
{
    reveal_strlit("/");
    reveal_strlit("~");
    lemma_tilde(user, name);
    lemma_segment_chars(user);
    lemma_segment_chars(name);
    let s = trim(pasted);
    lemma_find_none(s, "/acts/"@, 0);
    lemma_find_none(s, "/actors/"@, 0);
    let kept = before(before(end, '?'), '#');
    lemma_kept_tail(end);
    if s == scheme + (host + "/"@ + tilde_name(user, name) + end) {
        let actor = tilde_name(user, name);
        lemma_page(s, scheme, host, actor, end);
        assert(actor[user.len() as int] == '~');
        lemma_first_segment(actor, kept, false);
    } else {
        lemma_page(s, scheme, host, user + "/"@ + name, end);
        lemma_two_segments(user, name, kept, false);
    }
}

/// What is left of text that can follow an actor can follow it too.
proof fn lemma_kept_tail(end: Seq<char>)
    requires
        is_tail(end),
    ensures
        is_tail(before(before(end, '?'), '#')),
{
    lemma_cut_within(end, '?');
    lemma_cut_within(before(end, '?'), '#');
}

/// What follows the host of an address without a mark is found, up to the end of its path.
proof fn lemma_page(
    s: Seq<char>,
    scheme: Seq<char>,
    host: Seq<char>,
    actor: Seq<char>,
    end: Seq<char>,
)
    requires
        scheme == "https://"@ || scheme == "http://"@,
        s == scheme + (host + "/"@ + actor + end),
        is_segment(host),
        forall|i: int| 0 <= i < actor.len() ==> #[trigger] actor[i] != '?' && actor[i] != '#',
        find(s, "/acts/"@) is None,
        find(s, "/actors/"@) is None,
    ensures
        located_part(s) == Some((actor + before(before(end, '?'), '#'), false)),
{
    reveal_strlit("https://");
    reveal_strlit("http://");
    reveal_strlit("/");
    let rest = host + "/"@ + actor + end;
    let n = scheme.len() as int;
    assert(s.take(n) =~= scheme);
    assert(s.skip(n) =~= rest);
    if scheme == "http://"@ && "https://"@.is_prefix_of(s) {
        assert(s[4] == "https://"@[4] && s[4] == "http://"@[4]);
    }
    assert("https://"@.len() == 8 && "http://"@.len() == 7);
    assert(behind_scheme(s) == Some(rest));
    lemma_segment_chars(host);
    let head = host + "/"@ + actor;
    assert forall|i: int| 0 <= i < head.len() implies head[i] != '?' && head[i] != '#' by {
        if i < host.len() {
            assert(head[i] == host[i]);
        } else if i > host.len() {
            assert(head[i] == actor[i - host.len() - 1]);
        }
    }
    lemma_before_sum(head, end, '?');
    lemma_before_sum(head, before(end, '?'), '#');
    let kept = before(before(end, '?'), '#');
    assert(head + kept =~= host.push('/') + (actor + kept));
    lemma_cut(host, '/', actor + kept);
}

/// No character of a segment ends a segment.
proof fn lemma_segment_chars(s: Seq<char>)
    requires
        is_segment(s),
    ensures
        forall|i: int| 0 <= i < s.len() ==> #[trigger] s[i] != '/' && s[i] != '?' && s[i] != '#',
{
    assert forall|i: int| 0 <= i < s.len() implies #[trigger] s[i] != '/' && s[i] != '?' && s[i]
        != '#' by {
        assert(s.contains(s[i]));
    }
}

/// What follows the mark of an address is found.
proof fn lemma_mark(s: Seq<char>, start: Seq<char>, mark: Seq<char>, rest: Seq<char>)
    requires
        is_address(s, start, mark, rest),
    ensures
        located_part(s) == Some((rest, mark == "/actors/"@)),
{
    reveal_strlit("/acts/");
    reveal_strlit("/actors/");
    let at = start.len() as int;
    let n = mark.len() as int;
    assert(s.subrange(at, at + n) =~= mark);
    assert forall|i: int| 0 <= i < at implies !#[trigger] occurs_at(s, mark, i) by {
        let first = start + mark;
        assert(s.subrange(i, i + n) =~= first.subrange(i, i + n));
        assert(!occurs_at(first, mark, i));
    }
    lemma_find_is_first(s, mark, 0, at);
    assert(s.skip(at + n) =~= rest);
    assert("/acts/"@.len() != "/actors/"@.len());
    if mark != "/acts/"@ {
        lemma_find_none(s, "/acts/"@, 0);
    }
}

/// What stands before the first `c` of two texts: of the first one where it has `c`, else all of it
/// and what stands before the first `c` of the second one.
pub proof fn lemma_before_sum(s: Seq<char>, tail: Seq<char>, c: char)
    requires
        !s.contains(c),
    ensures
        before(s + tail, c) == s + before(tail, c),
        after(s + tail, c) == after(tail, c),
    decreases s.len(),
{
    if s.len() == 0 {
        assert(s + tail =~= tail);
        assert(s + before(tail, c) =~= before(tail, c));
    } else {
        let rest = s.drop_first();
        assert(s.contains(s[0]));
        assert forall|i: int| 0 <= i < rest.len() implies rest[i] != c by {
            assert(s.contains(s[i + 1]));
        }
        lemma_before_sum(rest, tail, c);
        let whole = s + tail;
        assert(whole.drop_first() =~= rest + tail);
        lemma_cut_within(rest + tail, c);
        lemma_cut_within(tail, c);
        let n = cut_at(rest + tail, c) as int;
        assert(whole.take(n + 1) =~= seq![s[0]] + (rest + tail).take(n));
        assert(seq![s[0]] + (rest + before(tail, c)) =~= s + before(tail, c));
        if n < (rest + tail).len() {
            assert(whole.skip(n + 2) =~= (rest + tail).skip(n + 1));
        }
        assert((rest + before(tail, c)).len() == n);
        assert(rest.len() + cut_at(tail, c) == n);
    }
}

/// The path at the start of an address's rest, where it starts with text that does not end it.
proof fn lemma_path(s: Seq<char>, end: Seq<char>)
    requires
        s.len() > 0,
        s[0] != '/',
        !s.contains('?'),
        !s.contains('#'),
        is_tail(end),
    ensures
        ({
            let path = trim_start_char(before(before(s + end, '?'), '#'), '/');
            let kept = before(before(end, '?'), '#');
            &&& path == s + kept
            &&& kept.len() == 0 || kept[0] == '/'
            &&& end.len() == 0 || end[0] != '/' ==> kept.len() == 0
        }),
{
    let q = before(end, '?');
    lemma_before_sum(s, end, '?');
    lemma_before_sum(s, q, '#');
    let kept = before(q, '#');
    lemma_cut_within(end, '?');
    lemma_cut_within(q, '#');
    assert((s + kept)[0] == s[0]);
}

/// An actor with the tilde is the first segment.
proof fn lemma_first_segment(actor: Seq<char>, end: Seq<char>, console: bool)
    requires
        actor.len() > 0,
        forall|i: int|
            0 <= i < actor.len() ==> #[trigger] actor[i] != '/' && actor[i] != '?' && actor[i]
                != '#',
        actor.contains('~'),
        is_tail(end),
    ensures
        actor_segment(actor + end, console) == actor,
{
    lemma_path(actor, end);
    let kept = before(before(end, '?'), '#');
    lemma_before_sum(actor, kept, '/');
    assert(before(kept, '/') =~= Seq::<char>::empty());
    assert(actor + before(kept, '/') =~= actor);
}

/// A segment that no other follows is the actor.
proof fn lemma_lone_segment(id: Seq<char>, end: Seq<char>, console: bool)
    requires
        is_segment(id),
        is_tail(end),
        end.len() == 0 || end[0] != '/',
    ensures
        actor_segment(id + end, console) == id,
{
    lemma_segment_chars(id);
    lemma_path(id, end);
    let kept = before(before(end, '?'), '#');
    lemma_before_sum(id, kept, '/');
    assert(kept =~= Seq::<char>::empty());
    assert(id + before(kept, '/') =~= id);
    assert(trim_start_char(after(kept, '/'), '/').len() == 0);
}

/// Two segments are the actor, unless the first one is it alone.
proof fn lemma_two_segments(first: Seq<char>, second: Seq<char>, end: Seq<char>, console: bool)
    requires
        is_segment(first),
        is_segment(second),
        is_tail(end),
    ensures
        actor_segment(first + "/"@ + second + end, console) == (if first.contains('~')
            || is_no_name(second, console) {
            first
        } else {
            first + "/"@ + second
        }),
{
    reveal_strlit("/");
    lemma_segment_chars(first);
    lemma_segment_chars(second);
    let both = first + "/"@ + second;
    assert forall|i: int| 0 <= i < both.len() implies both[i] != '?' && both[i] != '#' by {
        if i < first.len() {
            assert(both[i] == first[i]);
        } else if i > first.len() {
            assert(both[i] == second[i - first.len() - 1]);
        }
    }
    lemma_path(both, end);
    let kept = before(before(end, '?'), '#');
    let path = both + kept;
    assert(path =~= first.push('/') + (second + kept));
    lemma_cut(first, '/', second + kept);
    lemma_before_sum(second, kept, '/');
    assert(before(kept, '/') =~= Seq::<char>::empty());
    assert(second + before(kept, '/') =~= second);
    let more = second + kept;
    assert(more[0] == second[0]);
    assert(trim_start_char(more, '/') == more);
    assert(first + "/"@ + more.take(0) + second =~= first + "/"@ + second);
}

/// Trimming the start leaves no more than there was.
proof fn lemma_trim_shortens(s: Seq<char>, c: char)
    ensures
        trim_start_char(s, c).len() <= s.len(),
    decreases s.len(),
{
    if s.len() > 0 && s[0] == c {
        lemma_trim_shortens(s.drop_first(), c);
    }
}

/// Text with a character is cut before its end.
proof fn lemma_cut_finds(s: Seq<char>, c: char)
    ensures
        s.contains(c) <==> cut_at(s, c) < s.len(),
    decreases s.len(),
{
    if s.len() > 0 {
        let rest = s.drop_first();
        lemma_cut_finds(rest, c);
        if s[0] == c {
            assert(s.contains(s[0]));
        } else if rest.contains(c) {
            let i = choose|i: int| 0 <= i < rest.len() && rest[i] == c;
            assert(s[i + 1] == c);
        } else if s.contains(c) {
            let i = choose|i: int| 0 <= i < s.len() && s[i] == c;
            assert(rest[i - 1] == c);
        }
    }
}

} // verus!
