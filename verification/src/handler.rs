//! The request handler: orchestrates path normalization, content-type
//! resolution, reference-material assembly, the cache-aside lookup and the
//! single-flight guard into the end-to-end request flow.
//!
//! The remote generation call itself is a collaborator outside this crate:
//! [`handle_request`] carries a request up to the point where only that call
//! is left and hands back a [`GenerationTicket`]; the caller performs the
//! call and completes the flow through [`handle_outcome`].

use vstd::prelude::*;

use crate::config::{user_prompt_text, ContentTypeConfig, WebSimConfig};
use crate::content_type::{
    accept_pred, accept_resolution, accept_view, determine_from_accept, determine_from_path,
    ext_pred, find_by_key, key_pred, lower_of, path_resolution, raw_extension_spec,
    segment_has_dot,
};
use crate::db::Database;
use crate::openrouter::{
    extract_content, extracted_content_spec, ChatCompletionRequest, ChatCompletionResponse,
    Message, MessageRole, ProviderPrefs, ProviderSort,
};
use crate::state::{AppState, InFlightSet};
use crate::utils::{
    first_match_index, join_segments, lemma_join_take_prefix, normalize_path,
    normalize_path_spec, parent_count, parent_path, parent_path_spec, split_path_segments,
    split_segments,
};

verus! {

/// The request methods the pipeline distinguishes: POST is write-style, GET
/// is read-style and cacheable, anything else is read-style but never cached.
#[derive(Clone, Copy, PartialEq, Eq, Structural, Debug)]
pub enum Method {
    Get,
    Post,
    Other,
}

/// A response of the pipeline, ready to be put on the wire.
pub struct HttpResponse {
    pub status: u16,
    pub content_type: Option<String>,
    pub retry_after: Option<String>,
    pub body: String,
}

/// The client error for a request no configured content type governs.
pub open spec fn is_not_found(r: HttpResponse) -> bool {
    &&& r.status == 404
    &&& r.content_type is None
    &&& r.retry_after is None
    &&& r.body@ == "Not Found"@
}

/// The server error for a write-style request without a JSON descriptor.
pub open spec fn is_config_error(r: HttpResponse) -> bool {
    &&& r.status == 500
    &&& r.content_type is None
    &&& r.retry_after is None
    &&& r.body@ == "application/json not configured"@
}

/// The retryable signal for a key whose generation is already in flight.
pub open spec fn is_busy_response(r: HttpResponse) -> bool {
    &&& r.status == 503
    &&& r.content_type is None
    &&& (r.retry_after matches Some(d) && d@ == "1"@)
    &&& r.body@ == "Content generation in progress. Please retry shortly."@
}

/// A successful HTML page response carrying `text`.
pub open spec fn is_html_page(r: HttpResponse, text: Seq<char>) -> bool {
    &&& r.status == 200
    &&& (r.content_type matches Some(h) && h@ == "text/html; charset=utf-8"@)
    &&& r.retry_after is None
    &&& r.body@ == text
}

/// A successful response carrying `content` under the resolved header.
pub open spec fn is_content_response(r: HttpResponse, header: Seq<char>, content: Seq<
    char,
>) -> bool {
    &&& r.status == 200
    &&& (r.content_type matches Some(h) && h@ == header)
    &&& r.retry_after is None
    &&& r.body@ == content
}

fn not_found_response() -> (r: HttpResponse)
    ensures
        is_not_found(r),
{
    HttpResponse { status: 404, content_type: None, retry_after: None, body: "Not Found".to_owned() }
}

fn config_error_response() -> (r: HttpResponse)
    ensures
        is_config_error(r),
{
    HttpResponse {
        status: 500,
        content_type: None,
        retry_after: None,
        body: "application/json not configured".to_owned(),
    }
}

fn busy_response() -> (r: HttpResponse)
    ensures
        is_busy_response(r),
{
    HttpResponse {
        status: 503,
        content_type: None,
        retry_after: Some("1".to_owned()),
        body: "Content generation in progress. Please retry shortly.".to_owned(),
    }
}

fn html_page_response(body: String) -> (r: HttpResponse)
    ensures
        is_html_page(r, body@),
{
    HttpResponse {
        status: 200,
        content_type: Some("text/html; charset=utf-8".to_owned()),
        retry_after: None,
        body,
    }
}

fn content_response(content_type_header: String, body: String) -> (r: HttpResponse)
    ensures
        is_content_response(r, content_type_header@, body@),
{
    HttpResponse { status: 200, content_type: Some(content_type_header), retry_after: None, body }
}

/// Everything the handler needs of an inbound request, as plain values: the
/// raw path, the raw query string (empty when absent), the full path+query
/// string, the `Accept` and `Referer` header values, the referrer's parsed
/// (path, query) location when it parses as a URL, and the raw body.
pub struct RequestInput {
    pub method: Method,
    pub path: String,
    pub query: String,
    pub path_and_query: String,
    pub accept: Option<String>,
    pub referer: String,
    pub referer_target: Option<(String, String)>,
    pub body: String,
}

/// The cached material gathered for one request: the referrer's content, the
/// base (query-less) page's content, and each ancestor path's content, in
/// root-to-leaf order.  A missing entry is a silent skip, never an error.
pub struct ReferenceSources {
    pub referer: Option<(String, String)>,
    pub base: Option<String>,
    pub parents: Vec<(String, Option<String>)>,
}

/// The gathered sources agree with the store: every found content is the
/// stored content for its key, the parent list covers exactly the strict
/// ancestors in root-to-leaf order, and a miss carries no claim (a failed
/// read degrades to a miss).
pub open spec fn sources_consistent(
    db: Map<(Seq<char>, Seq<char>), Seq<char>>,
    referer_target: Option<(String, String)>,
    path: Seq<char>,
    query: Seq<char>,
    src: ReferenceSources,
) -> bool {
    &&& match src.referer {
        Some((rp, c)) => {
            &&& referer_target matches Some(t) && rp@ == normalize_path_spec(t.0@)
                && db.contains_key((rp@, t.1@)) && c@ == db[(rp@, t.1@)]
        },
        None => true,
    }
    &&& match src.base {
        Some(c) => query.len() > 0 && db.contains_key((path, Seq::<char>::empty())) && c@ == db[
            (path, Seq::<char>::empty())
        ],
        None => true,
    }
    &&& src.parents@.len() == parent_count(path)
    &&& forall|i: int|
        0 <= i < src.parents@.len() ==> (#[trigger] src.parents@[i]).0@ == parent_path_spec(
            path,
            i + 1,
        ) && match src.parents@[i].1 {
            Some(c) => db.contains_key((parent_path_spec(path, i + 1), Seq::<char>::empty()))
                && c@ == db[(parent_path_spec(path, i + 1), Seq::<char>::empty())],
            None => true,
        }
}

/// Gathers reference material from the store: the referrer's cached content,
/// the base page for query variations, and every strict ancestor's cached
/// content.  Read failures degrade to misses.
pub fn fetch_reference_sources(
    db: &Database,
    referer_target: &Option<(String, String)>,
    path: &str,
    query: &str,
) -> (r: ReferenceSources)
    ensures
        sources_consistent(db@, *referer_target, path@, query@, r),
{
    let referer = match referer_target {
        Some(t) => {
            let rp = normalize_path(t.0.as_str());
            match db.get(rp, t.1.as_str()) {
                Ok(Some(c)) => Some((rp.to_owned(), c)),
                _ => None,
            }
        },
        None => None,
    };
    let base = if query.unicode_len() > 0 {
        proof {
            reveal_strlit("");
            assert(""@ =~= Seq::<char>::empty());
        }
        match db.get(path, "") {
            Ok(Some(c)) => Some(c),
            _ => None,
        }
    } else {
        None
    };
    let segs = split_path_segments(path);
    let mut parents: Vec<(String, Option<String>)> = Vec::new();
    let nsegs = segs.len();
    if nsegs > 1 {
        proof {
            reveal_strlit("");
            assert(""@ =~= Seq::<char>::empty());
        }
        let mut i: usize = 1;
        while i < nsegs
            invariant
                1 <= i <= nsegs,
                nsegs == segs@.len(),
                segs@.map_values(|s: String| s@) == split_segments(path@),
                ""@ =~= Seq::<char>::empty(),
                parents@.len() == i - 1,
                forall|k: int|
                    0 <= k < parents@.len() ==> (#[trigger] parents@[k]).0@ == parent_path_spec(
                        path@,
                        k + 1,
                    ) && match parents@[k].1 {
                        Some(c) => db@.contains_key(
                            (parent_path_spec(path@, k + 1), Seq::<char>::empty()),
                        ) && c@ == db@[(parent_path_spec(path@, k + 1), Seq::<char>::empty())],
                        None => true,
                    },
            decreases nsegs - i,
        {
            let pp = parent_path(&segs, i);
            let content = match db.get(pp.as_str(), "") {
                Ok(Some(c)) => Some(c),
                _ => None,
            };
            parents.push((pp, content));
            i = i + 1;
        }
    }
    ReferenceSources { referer, base, parents }
}

/// Separator discipline of the assembled text: the first block after the
/// header-less referrer block opens the "## Reference materials" section;
/// later blocks are separated by a blank line.
pub open spec fn block_sep(acc: Seq<char>, block: Seq<char>) -> Seq<char> {
    if acc.len() > 0 {
        acc + "\n\n"@ + block
    } else {
        "## Reference materials\n\n"@ + block
    }
}

/// The referrer block: labeled with the referrer's path, no section header.
pub open spec fn referer_part(src: ReferenceSources) -> Seq<char> {
    match src.referer {
        Some((rp, c)) => "### "@ + rp@ + "\n\n"@ + c@,
        None => Seq::empty(),
    }
}

/// The base-page block for query variations.
pub open spec fn base_part(src: ReferenceSources, path: Seq<char>, acc: Seq<char>) -> Seq<char> {
    match src.base {
        Some(c) => block_sep(acc, "### "@ + path + " (base page)\n\n"@ + c@),
        None => acc,
    }
}

/// The ancestor blocks, root-to-leaf.
pub open spec fn parents_part(parents: Seq<(String, Option<String>)>, acc: Seq<char>) -> Seq<char>
    decreases parents.len(),
{
    if parents.len() == 0 {
        acc
    } else {
        let acc2 = match parents[0].1 {
            Some(c) => block_sep(acc, "### "@ + parents[0].0@ + " (parent)\n\n"@ + c@),
            None => acc,
        };
        parents_part(parents.drop_first(), acc2)
    }
}

/// The request-body block of a write-style request: always appended last,
/// appended even when no other material was found.
pub open spec fn body_part(method: Method, body: Seq<char>, acc: Seq<char>) -> Seq<char> {
    if method is Post && body.len() > 0 {
        (if acc.len() > 0 {
            acc + "\n\n"@
        } else {
            acc
        }) + "## Request Body\n\n"@ + body
    } else {
        acc
    }
}

/// The full reference material assembled from the gathered sources, in this
/// exact order: referrer, base page, ancestors root-to-leaf, request body.
pub open spec fn assemble_spec(
    src: ReferenceSources,
    path: Seq<char>,
    method: Method,
    body: Seq<char>,
) -> Seq<char> {
    body_part(method, body, parents_part(src.parents@, base_part(src, path, referer_part(src))))
}

/// Opens the reference-materials section or separates from the previous
/// block.
fn push_separator(acc: &mut String)
    ensures
        final(acc)@ == (if old(acc)@.len() > 0 {
            old(acc)@ + "\n\n"@
        } else {
            "## Reference materials\n\n"@
        }),
{
    if acc.as_str().is_empty() {
        acc.append("## Reference materials\n\n");
        proof {
            assert(old(acc)@ + "## Reference materials\n\n"@ =~= "## Reference materials\n\n"@);
        }
    } else {
        acc.append("\n\n");
    }
}

/// Builds the composite reference text from the gathered sources.
pub fn assemble_reference_materials(
    src: &ReferenceSources,
    path: &str,
    method: &Method,
    body: &str,
) -> (r: String)
    ensures
        r@ == assemble_spec(*src, path@, *method, body@),
{
    let mut acc = String::new();
    match &src.referer {
        Some((rp, c)) => {
            acc.append("### ");
            acc.append(rp.as_str());
            acc.append("\n\n");
            acc.append(c.as_str());
            proof {
                assert(Seq::<char>::empty() + "### "@ =~= "### "@);
                assert(acc@ =~= referer_part(*src));
            }
        },
        None => {
            proof {
                assert(acc@ =~= referer_part(*src));
            }
        },
    }
    match &src.base {
        Some(c) => {
            let ghost acc0: Seq<char> = acc@;
            push_separator(&mut acc);
            acc.append("### ");
            acc.append(path);
            acc.append(" (base page)\n\n");
            acc.append(c.as_str());
            proof {
                assert(acc@ =~= base_part(*src, path@, acc0));
            }
        },
        None => {},
    }
    proof {
        assert(acc@ == base_part(*src, path@, referer_part(*src)));
        assert(src.parents@.skip(0) =~= src.parents@);
    }
    let n = src.parents.len();
    let mut i: usize = 0;
    while i < n
        invariant
            i <= n,
            n == src.parents@.len(),
            parents_part(src.parents@.skip(i as int), acc@) == parents_part(
                src.parents@,
                base_part(*src, path@, referer_part(*src)),
            ),
        decreases n - i,
    {
        let ghost acc0: Seq<char> = acc@;
        proof {
            assert(src.parents@.skip(i as int).drop_first() =~= src.parents@.skip(i + 1));
            assert(src.parents@.skip(i as int)[0] == src.parents@[i as int]);
        }
        match &src.parents[i].1 {
            Some(c) => {
                push_separator(&mut acc);
                acc.append("### ");
                acc.append(src.parents[i].0.as_str());
                acc.append(" (parent)\n\n");
                acc.append(c.as_str());
                proof {
                    assert(acc@ =~= block_sep(
                        acc0,
                        "### "@ + src.parents@[i as int].0@ + " (parent)\n\n"@
                            + src.parents@[i as int].1->0@,
                    ));
                }
            },
            None => {},
        }
        i = i + 1;
    }
    proof {
        assert(src.parents@.skip(n as int) =~= Seq::<(String, Option<String>)>::empty());
    }
    let is_post = match method {
        Method::Post => true,
        _ => false,
    };
    if is_post && !body.is_empty() {
        let ghost acc0: Seq<char> = acc@;
        if !acc.as_str().is_empty() {
            acc.append("\n\n");
        }
        acc.append("## Request Body\n\n");
        acc.append(body);
        proof {
            assert(acc@ =~= body_part(*method, body@, acc0));
        }
    }
    acc
}

/// Builds reference materials from store-held referrer, base page and parent
/// path contents, and the request body.  The result is the exact assembly of
/// some gathered sources consistent with the store; a failed read only turns
/// single lookups into misses.
pub fn build_reference_materials(
    db: &Database,
    referer_target: &Option<(String, String)>,
    path: &str,
    query: &str,
    method: &Method,
    body: &str,
) -> (r: String)
    ensures
        exists|src: ReferenceSources|
            #[trigger] sources_consistent(db@, *referer_target, path@, query@, src) && r@
                == assemble_spec(src, path@, *method, body@),
{
    let sources = fetch_reference_sources(db, referer_target, path, query);
    let out = assemble_reference_materials(&sources, path, method, body);
    proof {
        assert(sources_consistent(db@, *referer_target, path@, query@, sources) && out@
            == assemble_spec(sources, path@, *method, body@));
    }
    out
}

/// A write-style request's body always appears as the final block of the
/// assembled reference material, even when referrer, base-page or ancestor
/// material is present and even when nothing else was found.
pub proof fn lemma_body_is_final_block(
    src: ReferenceSources,
    path: Seq<char>,
    body: Seq<char>,
)
    requires
        body.len() > 0,
    ensures
        exists|prefix: Seq<char>|
            assemble_spec(src, path, Method::Post, body) == #[trigger] (prefix
                + ("## Request Body\n\n"@ + body)),
{
    let acc = parents_part(src.parents@, base_part(src, path, referer_part(src)));
    if acc.len() > 0 {
        let prefix = acc + "\n\n"@;
        assert(assemble_spec(src, path, Method::Post, body) =~= prefix + ("## Request Body\n\n"@
            + body));
    } else {
        let prefix = acc;
        assert(assemble_spec(src, path, Method::Post, body) =~= prefix + ("## Request Body\n\n"@
            + body));
    }
}

/// Ancestor material is ordered root-to-leaf: among the sources gathered
/// for a path, the entries are exactly its strict ancestors, topmost first,
/// and every earlier ancestor path is a strict prefix of every later one —
/// so a block for `/articles` stands before one for `/articles/2023`, and
/// the assembled text emits the found blocks in this same index order.
pub proof fn lemma_ancestors_root_to_leaf(
    db: Map<(Seq<char>, Seq<char>), Seq<char>>,
    referer_target: Option<(String, String)>,
    path: Seq<char>,
    query: Seq<char>,
    src: ReferenceSources,
    i: int,
    j: int,
)
    requires
        sources_consistent(db, referer_target, path, query, src),
        0 <= i < j < src.parents@.len(),
    ensures
        src.parents@[i].0@ == parent_path_spec(path, i + 1),
        src.parents@[j].0@ == parent_path_spec(path, j + 1),
        src.parents@[i].0@.is_prefix_of(src.parents@[j].0@),
        src.parents@[i].0@.len() < src.parents@[j].0@.len(),
{
    lemma_join_take_prefix(split_segments(path), i + 1, j + 1);
    let a = join_segments(split_segments(path).take(i + 1));
    let b = join_segments(split_segments(path).take(j + 1));
    assert((seq!['/'] + a).is_prefix_of(seq!['/'] + b)) by {
        assert((seq!['/'] + b).subrange(0, (seq!['/'] + a).len() as int) =~= seq!['/'] + a);
    }
}

/// Why content-type resolution failed: a write-style request found no JSON
/// descriptor configured (a server error), or nothing matched at all (a
/// client error).
#[derive(Clone, Copy, PartialEq, Eq, Structural, Debug)]
pub enum ResolutionFailure {
    JsonNotConfigured,
    NotFound,
}

/// Index of the descriptor governing a request: write-style requests always
/// take the JSON key; read-style requests try the Accept header first and
/// fall back to the path.
pub open spec fn resolve_spec(
    cts: Seq<(String, ContentTypeConfig)>,
    method: Method,
    accept: Option<Seq<char>>,
    path: Seq<char>,
) -> Option<int> {
    if method is Post {
        let i = first_match_index(cts, key_pred("application/json"@));
        if i >= 0 {
            Some(i)
        } else {
            None
        }
    } else {
        match accept_resolution(cts, accept) {
            Some(i) => Some(i),
            None => path_resolution(cts, path),
        }
    }
}

/// Determines the content type based on the request method, Accept header,
/// and path.
pub fn determine_content_type<'a>(
    method: &Method,
    accept_header: Option<&str>,
    path: &str,
    config: &'a WebSimConfig,
) -> (r: Result<(&'a String, &'a ContentTypeConfig), ResolutionFailure>)
    ensures
        ({
            let cts = config.content_types@;
            match resolve_spec(cts, *method, accept_view(accept_header), path@) {
                Some(i) => r matches Ok((m, ct)) && *m == cts[i].0 && *ct == cts[i].1,
                None => r matches Err(f) && (f is JsonNotConfigured <==> *method is Post),
            }
        }),
{
    let is_post = match method {
        Method::Post => true,
        _ => false,
    };
    if is_post {
        // For POST requests, always generate JSON regardless of path
        match find_by_key(config, "application/json") {
            Some(p) => Ok(p),
            None => Err(ResolutionFailure::JsonNotConfigured),
        }
    } else {
        // For GET and other requests, check Accept header first, then path
        match determine_from_accept(accept_header, config) {
            Some(p) => Ok(p),
            None => match determine_from_path(path, config) {
                Some(p) => Ok(p),
                None => Err(ResolutionFailure::NotFound),
            },
        }
    }
}

/// A write-style request resolves the same way whatever the header or path:
/// always to the first descriptor under the JSON key, when one is
/// configured.
pub proof fn lemma_post_resolution_fixed(
    cts: Seq<(String, ContentTypeConfig)>,
    a1: Option<Seq<char>>,
    p1: Seq<char>,
    a2: Option<Seq<char>>,
    p2: Seq<char>,
)
    ensures
        resolve_spec(cts, Method::Post, a1, p1) == resolve_spec(cts, Method::Post, a2, p2),
        first_match_index(cts, key_pred("application/json"@)) >= 0 ==> resolve_spec(
            cts,
            Method::Post,
            a1,
            p1,
        ) == Some(first_match_index(cts, key_pred("application/json"@))),
{
}

/// For a read-style request, an Accept header containing a configured key
/// wins over whatever the path extension would have selected.
pub proof fn lemma_accept_precedence(
    cts: Seq<(String, ContentTypeConfig)>,
    method: Method,
    a: Seq<char>,
    path: Seq<char>,
)
    requires
        !(method is Post),
        first_match_index(cts, accept_pred(a)) >= 0,
    ensures
        resolve_spec(cts, method, Some(a), path) == Some(first_match_index(cts, accept_pred(a))),
{
}

/// With no Accept match, a path whose final segment ends in a registered
/// extension resolves to the first descriptor owning that extension,
/// matched lower-cased.
pub proof fn lemma_extension_resolution(
    cts: Seq<(String, ContentTypeConfig)>,
    method: Method,
    a: Option<Seq<char>>,
    path: Seq<char>,
)
    requires
        !(method is Post),
        match a {
            Some(h) => first_match_index(cts, accept_pred(h)) < 0,
            None => true,
        },
        segment_has_dot(path),
        first_match_index(cts, ext_pred(lower_of(raw_extension_spec(path)))) >= 0,
    ensures
        resolve_spec(cts, method, a, path) == Some(
            first_match_index(cts, ext_pred(lower_of(raw_extension_spec(path)))),
        ),
{
}

/// A path with no dot in its final segment resolves to the descriptor under
/// the `text/html` key.
pub proof fn lemma_extensionless_is_html(
    cts: Seq<(String, ContentTypeConfig)>,
    method: Method,
    a: Option<Seq<char>>,
    path: Seq<char>,
)
    requires
        !(method is Post),
        match a {
            Some(h) => first_match_index(cts, accept_pred(h)) < 0,
            None => true,
        },
        !segment_has_dot(path),
        first_match_index(cts, key_pred("text/html"@)) >= 0,
    ensures
        resolve_spec(cts, method, a, path) == Some(
            first_match_index(cts, key_pred("text/html"@)),
        ),
{
}

/// Checks the store for read-style requests and returns stored content if
/// available.  A read failure degrades to a miss.
pub fn check_cache(db: &Database, method: &Method, path: &str, query: &str) -> (r: Option<String>)
    ensures
        match r {
            Some(c) => *method is Get && db@.contains_key((path@, query@)) && c@ == db@[
                (path@, query@)
            ],
            None => true,
        },
{
    match method {
        Method::Get => {},
        _ => {
            return None;
        },
    }
    match db.get(path, query) {
        Ok(Some(content)) => Some(content),
        _ => None,
    }
}

/// The serialized check-then-insert decision of the single-flight guard:
/// a key already present is turned away and nothing changes; an absent key
/// is admitted and inserted.
pub open spec fn register_decision(reg: Set<Seq<char>>, key: Seq<char>) -> (bool, Set<Seq<char>>) {
    if reg.contains(key) {
        (false, reg)
    } else {
        (true, reg.insert(key))
    }
}

/// Checks if the request is already in-flight and returns the retryable busy
/// response if so.  Only read-style requests consult the guard.
pub fn check_in_flight(in_flight: &InFlightSet, method: &Method, path_and_query: &str) -> (r:
    Result<(), HttpResponse>)
    ensures
        r is Err <==> (*method is Get && in_flight@.contains(path_and_query@)),
        r matches Err(resp) ==> is_busy_response(resp),
{
    match method {
        Method::Get => {},
        _ => {
            return Ok(());
        },
    }
    if in_flight.contains(path_and_query) {
        Err(busy_response())
    } else {
        Ok(())
    }
}

/// Registers the request as in-flight for GET requests.  Returns true if
/// successfully registered, false if not applicable (non-GET requests); a
/// key found in flight at this re-check is turned away busy and the
/// registry is unchanged.
pub fn register_in_flight(in_flight: &mut InFlightSet, method: &Method, path_and_query: &str) -> (r:
    Result<bool, HttpResponse>)
    ensures
        !(*method is Get) ==> (r matches Ok(b) && b == false && final(in_flight)@ == old(
            in_flight,
        )@),
        *method is Get ==> ({
            let d = register_decision(old(in_flight)@, path_and_query@);
            &&& final(in_flight)@ == d.1
            &&& (d.0 ==> (r matches Ok(b) && b == true))
            &&& (!d.0 ==> (r matches Err(resp) && is_busy_response(resp)))
        }),
{
    match method {
        Method::Get => {},
        _ => {
            return Ok(false);
        },
    }
    if in_flight.contains(path_and_query) {
        return Err(busy_response());
    }
    in_flight.insert(path_and_query);
    Ok(true)
}

/// Of two read requests racing on one uncached key, the serialized
/// check-then-insert admits exactly one: the first registers; the second,
/// arriving while the key is in flight, is turned away busy and changes
/// nothing — never two generations, never zero.
pub proof fn lemma_single_flight(reg: Set<Seq<char>>, key: Seq<char>)
    requires
        !reg.contains(key),
    ensures
        ({
            let first = register_decision(reg, key);
            let second = register_decision(first.1, key);
            &&& first.0
            &&& !second.0
            &&& second.1 == first.1
        }),
{
}

/// Releasing a key reopens it: once the owning request removes its entry —
/// which happens on success and failure exits alike — a new request for the
/// same key is admitted instead of being turned away busy.
pub proof fn lemma_release_reopens(reg: Set<Seq<char>>, key: Seq<char>)
    ensures
        register_decision(reg.remove(key), key).0,
{
}

pub open spec fn opt_string_view(o: Option<String>) -> Option<Seq<char>> {
    match o {
        Some(s) => Some(s@),
        None => None,
    }
}

/// The inline error page shown when the generation call fails.
pub open spec fn api_error_page_text(err: Seq<char>) -> Seq<char> {
    "<h1>Error generating page</h1><p>"@ + err + "</p>"@
}

/// The inline error page shown when the prompt template fails to render.
pub open spec fn build_error_page_text(err: Seq<char>) -> Seq<char> {
    "<h1>Error generating page</h1><p>Failed to build request: "@ + err + "</p>"@
}

/// Its fallback when the error template itself cannot be rendered.
pub open spec fn build_error_fallback_text(err: Seq<char>) -> Seq<char> {
    "<h1>Error generating page</h1><p>Failed to render template: "@ + err + "</p>"@
}

/// Relies on minijinja (Environment::new, add_template, get_template,
/// Template::render): the template name carries no extension so no escaping
/// applies, and the fallback emits the identical text, so the page is exact
/// on every path.
#[verifier::external_body]
fn render_api_error_page(error: &str) -> (r: String)
    ensures
        r@ == api_error_page_text(error@),
{
    let mut env = minijinja::Environment::new();
    let fallback = format!("<h1>Error generating page</h1><p>{}</p>", error);
    if env.add_template("api_error", "<h1>Error generating page</h1><p>{{ error }}</p>").is_err() {
        return fallback;
    }
    let mut ctx = std::collections::BTreeMap::new();
    ctx.insert("error", error);
    match env.get_template("api_error").and_then(|t| t.render(&ctx)) {
        Ok(page) => page,
        Err(_) => fallback,
    }
}

/// Relies on minijinja as `render_api_error_page` does; here the fallback
/// wording differs from the template's, so the contract allows either text.
#[verifier::external_body]
fn render_build_error_page(error: &str) -> (r: String)
    ensures
        r@ == build_error_page_text(error@) || r@ == build_error_fallback_text(error@),
{
    let mut env = minijinja::Environment::new();
    let fallback = format!("<h1>Error generating page</h1><p>Failed to render template: {}</p>", error);
    if env.add_template("build_request_error", "<h1>Error generating page</h1><p>Failed to build request: {{ error }}</p>").is_err() {
        return fallback;
    }
    let mut ctx = std::collections::BTreeMap::new();
    ctx.insert("error", error);
    match env.get_template("build_request_error").and_then(|t| t.render(&ctx)) {
        Ok(page) => page,
        Err(_) => fallback,
    }
}

/// What a request hands to the generation transport, along with everything
/// needed to finish its handling afterwards.
pub struct GenerationTicket {
    pub request: ChatCompletionRequest,
    pub mime_type: String,
    pub content_type_header: String,
    pub method: Method,
    pub path: String,
    pub query: String,
    pub path_and_query: String,
    pub registered: bool,
}

/// Either a finished response, or a ticket for the generation call.
pub enum HandleStep {
    Respond(HttpResponse),
    Generate(GenerationTicket),
}

/// What came back from the generation transport: a response, or a rendered
/// failure summary.
pub enum GenerationOutcome {
    Success(ChatCompletionResponse),
    Failure(String),
}

/// The ticket handed to the generation transport is well-formed: built from
/// the resolved descriptor, with a system message holding its instructions
/// and a user message holding the prompt rendered over reference material
/// gathered consistently with the store.
pub open spec fn ticket_wf(
    t: GenerationTicket,
    mime: String,
    ct: ContentTypeConfig,
    input: RequestInput,
    np: Seq<char>,
    db: Map<(Seq<char>, Seq<char>), Seq<char>>,
) -> bool {
    &&& t.method == input.method
    &&& t.mime_type@ == mime@
    &&& t.content_type_header@ == ct.content_type_header@
    &&& t.path@ == np
    &&& t.query@ == input.query@
    &&& t.path_and_query@ == input.path_and_query@
    &&& t.registered == (input.method is Get)
    &&& t.request.model@ == ct.model@
    &&& (t.request.provider matches Some(p) && p.sort is Latency)
    &&& t.request.messages@.len() == 2
    &&& t.request.messages@[0].role is System
    &&& t.request.messages@[0].content@ == ct.system_prompt@
    &&& t.request.messages@[1].role is User
    &&& exists|src: ReferenceSources|
        #[trigger] sources_consistent(db, input.referer_target, np, input.query@, src)
            && t.request.messages@[1].content@ == user_prompt_text(
            input.path_and_query@,
            if input.referer@.len() > 0 {
                input.referer@
            } else {
                "none"@
            },
            ({
                let refs = assemble_spec(src, np, input.method, input.body@);
                if refs.len() > 0 {
                    refs
                } else {
                    "none"@
                }
            }),
        )
}

/// Runs a request through the pipeline up to the generation call: normalize
/// the path, resolve the content type, assemble reference material, serve
/// from the cache, guard the key against concurrent generation, and build
/// the prompt.  The result is either a finished response or a ticket.
pub fn handle_request(state: &mut AppState, input: &RequestInput) -> (r: HandleStep)
    ensures
        final(state).config == old(state).config,
        final(state).db == old(state).db,
        !(input.method is Get) ==> final(state).in_flight@ == old(state).in_flight@,
        ({
            let cts = old(state).config.content_types@;
            let np = normalize_path_spec(input.path@);
            let key = input.path_and_query@;
            let db = old(state).db@;
            match resolve_spec(cts, input.method, opt_string_view(input.accept), np) {
                None => {
                    &&& final(state).in_flight@ == old(state).in_flight@
                    &&& r matches HandleStep::Respond(resp) && (if input.method is Post {
                        is_config_error(resp)
                    } else {
                        is_not_found(resp)
                    })
                },
                Some(i) => {
                    &&& match r {
                        HandleStep::Respond(resp) => {
                            ||| (input.method is Get && db.contains_key((np, input.query@))
                                && is_content_response(
                                resp,
                                cts[i].1.content_type_header@,
                                db[(np, input.query@)],
                            ) && final(state).in_flight@ == old(state).in_flight@)
                            ||| (input.method is Get && old(state).in_flight@.contains(key)
                                && is_busy_response(resp) && final(state).in_flight@ == old(
                                state,
                            ).in_flight@)
                        },
                        HandleStep::Generate(t) => {
                            &&& ticket_wf(t, cts[i].0, cts[i].1, *input, np, db)
                            &&& (input.method is Get ==> !old(state).in_flight@.contains(key))
                            &&& final(state).in_flight@ == (if input.method is Get {
                                old(state).in_flight@.insert(key)
                            } else {
                                old(state).in_flight@
                            })
                        },
                    }
                    &&& (input.method is Get && !db.contains_key((np, input.query@)) && old(
                        state,
                    ).in_flight@.contains(key) ==> (r matches HandleStep::Respond(resp)
                        && is_busy_response(resp)))
                    &&& ((input.method is Post || (input.method is Get && !db.contains_key(
                        (np, input.query@),
                    ) && !old(state).in_flight@.contains(key))) ==> r is Generate)
                },
            }
        }),
{
    let path = normalize_path(input.path.as_str());
    let accept: Option<&str> = match &input.accept {
        Some(a) => Some(a.as_str()),
        None => None,
    };
    proof {
        assert(accept_view(accept) == opt_string_view(input.accept));
    }
    let resolved = determine_content_type(&input.method, accept, path, &state.config);
    let (mime, ct) = match resolved {
        Ok(p) => p,
        Err(ResolutionFailure::JsonNotConfigured) => {
            return HandleStep::Respond(config_error_response());
        },
        Err(ResolutionFailure::NotFound) => {
            return HandleStep::Respond(not_found_response());
        },
    };
    let reference_materials = build_reference_materials(
        &state.db,
        &input.referer_target,
        path,
        input.query.as_str(),
        &input.method,
        input.body.as_str(),
    );
    if let Some(content) = check_cache(&state.db, &input.method, path, input.query.as_str()) {
        return HandleStep::Respond(content_response(ct.content_type_header.clone(), content));
    }
    if let Err(resp) = check_in_flight(
        &state.in_flight,
        &input.method,
        input.path_and_query.as_str(),
    ) {
        return HandleStep::Respond(resp);
    }
    let registered = match register_in_flight(
        &mut state.in_flight,
        &input.method,
        input.path_and_query.as_str(),
    ) {
        Ok(b) => b,
        Err(resp) => {
            return HandleStep::Respond(resp);
        },
    };
    let mut builder = ct.user_prompt_builder(input.path_and_query.clone());
    if !input.referer.as_str().is_empty() {
        builder = builder.headers(input.referer.clone());
    }
    if !reference_materials.as_str().is_empty() {
        builder = builder.reference_materials(reference_materials.clone());
    }
    let user_prompt = match builder.build() {
        Ok(p) => p,
        Err(e) => {
            // Unreachable while the prompt template renders, as its wrapper
            // promises; kept so a render failure would still release the
            // in-flight key and surface as an inline error page, not a crash.
            if registered {
                state.in_flight.remove(input.path_and_query.as_str());
            }
            let page = render_build_error_page(e.as_str());
            return HandleStep::Respond(html_page_response(page));
        },
    };
    let mut messages: Vec<Message> = Vec::new();
    messages.push(Message { role: MessageRole::System, content: ct.system_prompt.clone() });
    messages.push(Message { role: MessageRole::User, content: user_prompt });
    let ticket = GenerationTicket {
        request: ChatCompletionRequest {
            model: ct.model.clone(),
            messages,
            provider: Some(ProviderPrefs { sort: ProviderSort::Latency }),
        },
        mime_type: mime.clone(),
        content_type_header: ct.content_type_header.clone(),
        method: input.method,
        path: path.to_owned(),
        query: input.query.clone(),
        path_and_query: input.path_and_query.clone(),
        registered,
    };
    proof {
        let np = normalize_path_spec(input.path@);
        let src0 = choose|src: ReferenceSources|
            #[trigger] sources_consistent(old(state).db@, input.referer_target, np, input.query@, src)
                && reference_materials@ == assemble_spec(src, np, input.method, input.body@);
        assert(sources_consistent(old(state).db@, input.referer_target, np, input.query@, src0)
            && ticket.request.messages@[1].content@ == user_prompt_text(
            input.path_and_query@,
            if input.referer@.len() > 0 {
                input.referer@
            } else {
                "none"@
            },
            ({
                let refs = assemble_spec(src0, np, input.method, input.body@);
                if refs.len() > 0 {
                    refs
                } else {
                    "none"@
                }
            }),
        ));
    }
    HandleStep::Generate(ticket)
}

/// Finishes a request once the generation call has returned: extract the
/// primary completion, write it back to the store for read-style requests
/// (a write failure is silently dropped and the response unaffected), render
/// the inline error page on failure, and release the in-flight key on every
/// exit.
pub fn handle_outcome(state: &mut AppState, ticket: GenerationTicket, outcome: GenerationOutcome)
    -> (r: HttpResponse)
    ensures
        final(state).config == old(state).config,
        final(state).in_flight@ == (if ticket.registered {
            old(state).in_flight@.remove(ticket.path_and_query@)
        } else {
            old(state).in_flight@
        }),
        match outcome {
            GenerationOutcome::Success(resp) => {
                &&& is_content_response(
                    r,
                    ticket.content_type_header@,
                    extracted_content_spec(resp),
                )
                &&& (ticket.method is Get ==> (final(state).db@ == old(state).db@.insert(
                    (ticket.path@, ticket.query@),
                    extracted_content_spec(resp),
                ) || final(state).db@ == old(state).db@))
                &&& (!(ticket.method is Get) ==> final(state).db@ == old(state).db@)
            },
            GenerationOutcome::Failure(msg) => {
                &&& is_html_page(r, api_error_page_text(msg@))
                &&& final(state).db@ == old(state).db@
            },
        },
{
    let resp = match outcome {
        GenerationOutcome::Success(api) => {
            let content = extract_content(&api);
            // Save to database only for GET requests
            let is_get = match ticket.method {
                Method::Get => true,
                _ => false,
            };
            if is_get {
                match state.db.set(ticket.path.as_str(), ticket.query.as_str(), content.as_str()) {
                    Ok(_) => {},
                    Err(_) => {
                        // Continue serving the response even if storing fails
                    },
                }
            }
            content_response(ticket.content_type_header.clone(), content)
        },
        GenerationOutcome::Failure(msg) => {
            let page = render_api_error_page(msg.as_str());
            html_page_response(page)
        },
    };
    if ticket.registered {
        state.in_flight.remove(ticket.path_and_query.as_str());
    }
    resp
}

} // verus!
