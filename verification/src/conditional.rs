//! The conditional-response resolver.
//!
//! Given an embedded file record and the client's conditional-request
//! headers, [`resolve`] decides between serving the full representation
//! (`200 OK`) and signalling `304 Not Modified`, and builds the caching
//! headers for either outcome.
//!
//! The decision order is fixed: when `If-None-Match` is present (and
//! non-empty) it alone decides — a matching entity tag or the wildcard
//! means the client is fresh, a mismatch means stale — regardless of any
//! `If-Modified-Since` value. Tags are compared weakly: a `W/` weakness
//! prefix on the client's tag is ignored, only the opaque parts must be
//! identical. Only when `If-None-Match` is absent does
//! `If-Modified-Since` decide, at one-second granularity. With neither
//! header, the full representation is always served.

use vstd::prelude::*;
use vstd::string::StringExecFns;

use crate::file::EmbeddedFile;
use crate::http_date::{fits_http_date, format_http_date, spec_http_date};

verus! {

/// Status of a resolved response.
#[derive(Clone, Copy, Debug, PartialEq, Eq, Structural)]
pub enum ResponseStatus {
    /// Serve the full representation (HTTP `200 OK`).
    Full,
    /// The client's cached copy matches (HTTP `304 Not Modified`).
    NotModified,
}

impl ResponseStatus {
    /// The numeric HTTP status code of this outcome.
    pub fn code(&self) -> (c: u16)
        ensures
            c == (if self is Full {
                200u16
            } else {
                304u16
            }),
    {
        match self {
            ResponseStatus::Full => 200,
            ResponseStatus::NotModified => 304,
        }
    }
}

/// The value of an `If-None-Match` header: either the wildcard `*` or a
/// set of entity tags, each kept in its quoted wire form.
#[derive(Debug, Clone, PartialEq, Eq)]
pub enum IfNoneMatchValue {
    /// The wildcard `*`: any current representation matches.
    Any,
    /// A set of entity tags.
    Tags(Vec<String>),
}

/// The conditional headers of a request. A malformed header is never
/// carried here: it is dropped before construction, so absence stands
/// both for "not sent" and for "unreadable".
#[derive(Debug, Clone, PartialEq, Eq)]
pub struct ConditionalRequest {
    /// The entity tags of `If-None-Match`, when the header was present
    /// and readable.
    pub if_none_match: Option<IfNoneMatchValue>,
    /// The timestamp of `If-Modified-Since`, when the header was present
    /// and readable.
    pub if_modified_since: Option<u64>,
}

/// Abstract value of an `If-None-Match` header: absent, wildcard, or a
/// sequence of entity tags. An empty tag set counts as absent — a header
/// carrying no tags says nothing.
pub enum InmView {
    Absent,
    Any,
    Tags(Seq<Seq<char>>),
}

/// Abstract value of a request's conditional headers.
pub struct RequestView {
    pub inm: InmView,
    pub ims: Option<u64>,
}

impl View for ConditionalRequest {
    type V = RequestView;

    open spec fn view(&self) -> RequestView {
        RequestView {
            inm: match self.if_none_match {
                Option::None => InmView::Absent,
                Option::Some(IfNoneMatchValue::Any) => InmView::Any,
                Option::Some(IfNoneMatchValue::Tags(tags)) => if tags@.len() == 0 {
                    InmView::Absent
                } else {
                    InmView::Tags(tags.deep_view())
                },
            },
            ims: self.if_modified_since,
        }
    }
}

impl ConditionalRequest {
    /// A request carrying neither conditional header.
    pub fn unconditional() -> (r: ConditionalRequest)
        ensures
            r@.inm is Absent,
            r@.ims is None,
    {
        ConditionalRequest { if_none_match: None, if_modified_since: None }
    }
}

/// The canonical entity tag for a content hash: the hash in double
/// quotes.
pub open spec fn spec_etag(hash: Seq<char>) -> Seq<char> {
    "\""@ + hash + "\""@
}

/// Weak comparison of a client's tag against the canonical (strong)
/// entity tag: the opaque parts must be identical, weakness ignored —
/// so the client's tag matches when it is the entity tag itself or the
/// entity tag behind a `W/` weakness prefix.
pub open spec fn spec_weak_match(tag: Seq<char>, etag: Seq<char>) -> bool {
    tag == etag || tag == "W/"@ + etag
}

/// Whether any tag of the set matches the entity tag, by weak
/// comparison.
pub open spec fn spec_tag_matches(tags: Seq<Seq<char>>, etag: Seq<char>) -> bool {
    exists|i: int| 0 <= i < tags.len() && spec_weak_match(tags[i], etag)
}

/// Whether the client's cached copy is fresh: `If-None-Match` decides
/// alone when present; otherwise `If-Modified-Since` decides; with
/// neither header the copy never counts as fresh.
pub open spec fn spec_fresh(file: EmbeddedFile, req: RequestView) -> bool {
    match req.inm {
        InmView::Any => true,
        InmView::Tags(tags) => spec_tag_matches(tags, spec_etag(file.metadata.content_hash@)),
        InmView::Absent => match req.ims {
            Option::Some(since) => file.metadata.last_modified <= since,
            Option::None => false,
        },
    }
}

/// The headers of a resolved response.
#[derive(Debug, Clone, PartialEq, Eq)]
pub struct ResponseHeaders {
    /// `ETag`: the quoted content hash.
    pub etag: String,
    /// `Last-Modified`: the HTTP date of the record's timestamp.
    pub last_modified: String,
    /// `Cache-Control`: always `no-cache, public`.
    pub cache_control: String,
    /// `Vary`: always `Accept-Encoding`.
    pub vary: String,
    /// `Content-Type`: the record's MIME type, carried only on a full
    /// response.
    pub content_type: Option<String>,
}

/// A resolved response: status, caching headers, and body.
#[derive(Debug, Clone, PartialEq, Eq)]
pub struct ResolvedResponse {
    pub status: ResponseStatus,
    pub headers: ResponseHeaders,
    pub body: Vec<u8>,
}

/// Everything [`resolve`] promises of its result, as a function of the
/// record and the request alone: the status and body follow the
/// freshness decision, and every header value is pinned.
pub open spec fn response_matches(r: ResolvedResponse, file: EmbeddedFile, req: RequestView) -> bool {
    &&& r.status == (if spec_fresh(file, req) {
        ResponseStatus::NotModified
    } else {
        ResponseStatus::Full
    })
    &&& r.headers.etag@ == spec_etag(file.metadata.content_hash@)
    &&& r.headers.last_modified@ == spec_http_date(file.metadata.last_modified as int)
    &&& r.headers.cache_control@ == "no-cache, public"@
    &&& r.headers.vary@ == "Accept-Encoding"@
    &&& if spec_fresh(file, req) {
        r.headers.content_type is None && r.body@ == Seq::<u8>::empty()
    } else {
        (match r.headers.content_type {
            Option::Some(ct) => ct@ == file.metadata.mime_type@,
            Option::None => false,
        }) && r.body@ == file.contents@
    }
}

/// The canonical entity tag for a content hash, in its wire form.
pub fn etag_string(hash: &str) -> (r: String)
    ensures
        r@ == spec_etag(hash@),
{
    let mut out = String::from_str("\"");
    out.append(hash);
    out.append("\"");
    assert(out@ =~= spec_etag(hash@));
    out
}

/// Whether any tag of the set matches the entity tag, by weak
/// comparison: `weak_etag` is the entity tag behind a `W/` prefix.
fn tags_match(tags: &Vec<String>, etag: &String, weak_etag: &String) -> (r: bool)
    requires
        weak_etag@ == "W/"@ + etag@,
    ensures
        r == spec_tag_matches(tags.deep_view(), etag@),
{
    let mut i: usize = 0;
    while i < tags.len()
        invariant
            0 <= i <= tags@.len(),
            weak_etag@ == "W/"@ + etag@,
            forall|j: int| 0 <= j < i ==> !spec_weak_match(tags.deep_view()[j], etag@),
        decreases tags@.len() - i,
    {
        if tags[i] == *etag || tags[i] == *weak_etag {
            assert(spec_weak_match(tags.deep_view()[i as int], etag@));
            return true;
        }
        i = i + 1;
    }
    false
}

/// Decide between the full representation and `304 Not Modified` for the
/// given record and conditional headers, and build the response headers:
/// `ETag` (quoted content hash), `Last-Modified` (HTTP date of the
/// record's timestamp), `Cache-Control: no-cache, public` and
/// `Vary: Accept-Encoding` on both outcomes; `Content-Type` and the full
/// contents only on a full response.
pub fn resolve(file: &EmbeddedFile, req: &ConditionalRequest) -> (r: ResolvedResponse)
    requires
        fits_http_date(file.metadata.last_modified),
    ensures
        response_matches(r, *file, req@),
{
    let etag = etag_string(file.metadata.content_hash.as_str());
    let mut weak_etag = String::from_str("W/");
    weak_etag.append(etag.as_str());
    assert(weak_etag@ =~= "W/"@ + etag@);
    let by_time: bool = match req.if_modified_since {
        Some(since) => file.metadata.last_modified <= since,
        None => false,
    };
    let fresh: bool = match &req.if_none_match {
        Some(IfNoneMatchValue::Any) => true,
        Some(IfNoneMatchValue::Tags(tags)) => {
            if tags.len() == 0 {
                by_time
            } else {
                tags_match(tags, &etag, &weak_etag)
            }
        },
        None => by_time,
    };
    assert(fresh == spec_fresh(*file, req@));
    let last_modified = format_http_date(file.metadata.last_modified);
    let cache_control = String::from_str("no-cache, public");
    let vary = String::from_str("Accept-Encoding");
    if fresh {
        ResolvedResponse {
            status: ResponseStatus::NotModified,
            headers: ResponseHeaders {
                etag,
                last_modified,
                cache_control,
                vary,
                content_type: None,
            },
            body: Vec::new(),
        }
    } else {
        ResolvedResponse {
            status: ResponseStatus::Full,
            headers: ResponseHeaders {
                etag,
                last_modified,
                cache_control,
                vary,
                content_type: Some(file.metadata.mime_type.clone()),
            },
            body: vstd::slice::slice_to_vec(file.contents.as_slice()),
        }
    }
}

/// Optional whitespace allowed around the elements of a header list.
pub open spec fn is_ows(c: char) -> bool {
    c == ' ' || c == '\t'
}

pub open spec fn spec_trim_start(s: Seq<char>) -> Seq<char>
    decreases s.len(),
{
    if s.len() > 0 && is_ows(s[0]) {
        spec_trim_start(s.drop_first())
    } else {
        s
    }
}

pub open spec fn spec_trim_end(s: Seq<char>) -> Seq<char>
    decreases s.len(),
{
    if s.len() > 0 && is_ows(s.last()) {
        spec_trim_end(s.drop_last())
    } else {
        s
    }
}

/// `s` without leading and trailing spaces and tabs.
pub open spec fn spec_trim(s: Seq<char>) -> Seq<char> {
    spec_trim_end(spec_trim_start(s))
}

/// `segs` with the trimmed segment `cur` appended — unless the trimmed
/// segment is empty, which a header list reads over.
pub open spec fn spec_append_segment(segs: Seq<Seq<char>>, cur: Seq<char>) -> Seq<Seq<char>> {
    if spec_trim(cur).len() > 0 {
        segs.push(spec_trim(cur))
    } else {
        segs
    }
}

/// Scanning `s` left to right, splitting at commas: the completed
/// (trimmed, non-empty) segments, and the still-open last segment.
pub open spec fn spec_scan_segments(s: Seq<char>) -> (Seq<Seq<char>>, Seq<char>)
    decreases s.len(),
{
    if s.len() == 0 {
        (Seq::<Seq<char>>::empty(), Seq::<char>::empty())
    } else {
        let (segs, cur) = spec_scan_segments(s.drop_last());
        if s.last() == ',' {
            (spec_append_segment(segs, cur), Seq::<char>::empty())
        } else {
            (segs, cur.push(s.last()))
        }
    }
}

pub open spec fn spec_scan_segs(s: Seq<char>) -> Seq<Seq<char>> {
    spec_scan_segments(s).0
}

pub open spec fn spec_scan_cur(s: Seq<char>) -> Seq<char> {
    spec_scan_segments(s).1
}

/// The comma-separated elements of `s`, each trimmed of surrounding
/// whitespace, empty elements dropped.
pub open spec fn spec_inm_segments(s: Seq<char>) -> Seq<Seq<char>> {
    spec_append_segment(spec_scan_segs(s), spec_scan_cur(s))
}

/// The reading of an `If-None-Match` header value: the wildcard when the
/// whole value trims to `*`; otherwise its list of entity tags; absent
/// when no tag remains.
pub open spec fn spec_parse_inm(s: Seq<char>) -> InmView {
    if spec_trim(s) == "*"@ {
        InmView::Any
    } else if spec_inm_segments(s).len() == 0 {
        InmView::Absent
    } else {
        InmView::Tags(spec_inm_segments(s))
    }
}

proof fn lemma_trim_start_head(s: Seq<char>)
    ensures
        spec_trim_start(s).len() == 0 || !is_ows(spec_trim_start(s)[0]),
    decreases s.len(),
{
    if s.len() > 0 && is_ows(s[0]) {
        lemma_trim_start_head(s.drop_first());
    }
}

proof fn lemma_trim_end_last(s: Seq<char>)
    ensures
        spec_trim_end(s).len() == 0 || !is_ows(spec_trim_end(s).last()),
    decreases s.len(),
{
    if s.len() > 0 && is_ows(s.last()) {
        lemma_trim_end_last(s.drop_last());
    }
}

proof fn lemma_trim_end_keeps_head(s: Seq<char>)
    requires
        s.len() > 0,
    ensures
        spec_trim_end(s).len() == 0 || spec_trim_end(s)[0] == s[0],
    decreases s.len(),
{
    if is_ows(s.last()) {
        let d = s.drop_last();
        if d.len() == 0 {
            assert(spec_trim_end(d) == d);
        } else {
            lemma_trim_end_keeps_head(d);
            assert(d[0] == s[0]);
        }
    }
}

/// Trimming is idempotent: a trimmed sequence trims to itself.
pub proof fn lemma_trim_idempotent(s: Seq<char>)
    ensures
        spec_trim(spec_trim(s)) == spec_trim(s),
{
    let x = spec_trim(s);
    lemma_trim_start_head(s);
    lemma_trim_end_last(spec_trim_start(s));
    if spec_trim_start(s).len() > 0 {
        lemma_trim_end_keeps_head(spec_trim_start(s));
    }
    assert(spec_trim_start(x) == x);
    assert(spec_trim_end(x) == x);
}

proof fn lemma_scan_segments_clean(s: Seq<char>)
    ensures
        ({
            let (segs, cur) = spec_scan_segments(s);
            forall|i: int|
                0 <= i < segs.len() ==> segs[i].len() > 0 && spec_trim(segs[i]) == segs[i]
        }),
    decreases s.len(),
{
    if s.len() > 0 {
        lemma_scan_segments_clean(s.drop_last());
        let (segs, cur) = spec_scan_segments(s.drop_last());
        if s.last() == ',' && spec_trim(cur).len() > 0 {
            lemma_trim_idempotent(cur);
        }
    }
}

/// Every entity tag read from an `If-None-Match` value is non-empty and
/// carries no surrounding whitespace: tags are compared in their clean
/// wire form.
pub proof fn lemma_inm_tags_are_clean(s: Seq<char>)
    ensures
        forall|i: int|
            0 <= i < spec_inm_segments(s).len() ==> spec_inm_segments(s)[i].len() > 0
                && spec_trim(spec_inm_segments(s)[i]) == spec_inm_segments(s)[i],
{
    lemma_scan_segments_clean(s);
    let (segs, cur) = spec_scan_segments(s);
    if spec_trim(cur).len() > 0 {
        lemma_trim_idempotent(cur);
    }
}

fn is_ows_char(c: char) -> (r: bool)
    ensures
        r == is_ows(c),
{
    c == ' ' || c == '\t'
}

/// `s` without leading and trailing spaces and tabs.
fn trim_ows<'a>(s: &'a str) -> (r: &'a str)
    ensures
        r@ == spec_trim(s@),
{
    let n = s.unicode_len();
    let mut i: usize = 0;
    proof {
        assert(s@.skip(0) =~= s@);
    }
    while i < n && is_ows_char(s.get_char(i))
        invariant
            i <= n == s@.len(),
            spec_trim_start(s@) == spec_trim_start(s@.skip(i as int)),
        decreases n - i,
    {
        proof {
            assert(s@.skip(i as int).drop_first() =~= s@.skip(i as int + 1));
        }
        i = i + 1;
    }
    proof {
        assert(s@.skip(i as int) =~= s@.subrange(i as int, n as int));
    }
    let mut j: usize = n;
    while j > i && is_ows_char(s.get_char(j - 1))
        invariant
            i <= j <= n == s@.len(),
            spec_trim_start(s@) == s@.subrange(i as int, n as int),
            spec_trim_end(s@.subrange(i as int, n as int)) == spec_trim_end(
                s@.subrange(i as int, j as int),
            ),
        decreases j,
    {
        proof {
            assert(s@.subrange(i as int, j as int).drop_last() =~= s@.subrange(
                i as int,
                j as int - 1,
            ));
        }
        j = j - 1;
    }
    s.substring_char(i, j)
}

/// Read an `If-None-Match` header value: `*` (possibly surrounded by
/// whitespace) is the wildcard; otherwise the value is split at commas
/// into entity tags, each kept in its wire form with surrounding
/// whitespace removed. A value carrying no tag at all reads as absent.
pub fn parse_if_none_match(s: &str) -> (r: Option<IfNoneMatchValue>)
    ensures
        match r {
            Option::None => spec_parse_inm(s@) is Absent,
            Option::Some(IfNoneMatchValue::Any) => spec_parse_inm(s@) is Any,
            Option::Some(IfNoneMatchValue::Tags(tags)) => spec_parse_inm(s@) == InmView::Tags(
                tags.deep_view(),
            ) && tags@.len() > 0,
        },
{
    proof {
        reveal_strlit("*");
    }
    let trimmed = trim_ows(s);
    if trimmed.unicode_len() == 1 && trimmed.get_char(0) == '*' {
        proof {
            assert(trimmed@ =~= "*"@);
        }
        return Some(IfNoneMatchValue::Any);
    }
    assert(spec_trim(s@) != "*"@);
    let n = s.unicode_len();
    let mut tags: Vec<String> = Vec::new();
    let mut i: usize = 0;
    let mut start: usize = 0;
    while i < n
        invariant
            start <= i <= n == s@.len(),
            tags.deep_view() == spec_scan_segs(s@.subrange(0, i as int)),
            s@.subrange(start as int, i as int) == spec_scan_cur(s@.subrange(0, i as int)),
        decreases n - i,
    {
        let ghost pre = s@.subrange(0, i as int);
        let ghost pre1 = s@.subrange(0, i as int + 1);
        proof {
            assert(pre1.drop_last() =~= pre);
            assert(pre1.last() == s@[i as int]);
        }
        let c = s.get_char(i);
        if c == ',' {
            let piece = s.substring_char(start, i);
            let seg = trim_ows(piece);
            if !seg.is_empty() {
                let ghost old_dv = tags.deep_view();
                tags.push(seg.to_owned());
                proof {
                    assert(tags.deep_view() =~= old_dv.push(seg@));
                }
            }
            start = i + 1;
            proof {
                assert(s@.subrange(start as int, i as int + 1) =~= Seq::<char>::empty());
            }
        } else {
            proof {
                assert(s@.subrange(start as int, i as int + 1) =~= s@.subrange(
                    start as int,
                    i as int,
                ).push(s@[i as int]));
            }
        }
        i = i + 1;
    }
    proof {
        assert(s@.subrange(0, n as int) =~= s@);
    }
    let piece = s.substring_char(start, n);
    let seg = trim_ows(piece);
    if !seg.is_empty() {
        let ghost old_dv = tags.deep_view();
        tags.push(seg.to_owned());
        proof {
            assert(tags.deep_view() =~= old_dv.push(seg@));
        }
    }
    if tags.len() == 0 {
        None
    } else {
        Some(IfNoneMatchValue::Tags(tags))
    }
}

impl ConditionalRequest {
    /// Build a request from the raw conditional header values, when
    /// present. A value that cannot be read is treated as if the header
    /// had not been sent: the resolver fails open toward serving the
    /// full representation.
    pub fn from_headers(if_none_match: Option<&str>, if_modified_since: Option<&str>) -> (r:
        ConditionalRequest)
        ensures
            r@.inm == (match if_none_match {
                Option::Some(s) => spec_parse_inm(s@),
                Option::None => InmView::Absent,
            }),
            r@.ims == (match if_modified_since {
                Option::Some(s) => crate::http_date::spec_parse_http_date(s@),
                Option::None => Option::<u64>::None,
            }),
    {
        let inm = match if_none_match {
            Some(s) => parse_if_none_match(s),
            None => None,
        };
        let ims = match if_modified_since {
            Some(s) => crate::http_date::parse_http_date(s),
            None => None,
        };
        ConditionalRequest { if_none_match: inm, if_modified_since: ims }
    }
}

/// Resolve a record against the raw conditional header values, reading
/// the headers first: a malformed value counts as absent, never as an
/// error.
pub fn respond(
    if_none_match: Option<&str>,
    if_modified_since: Option<&str>,
    file: &EmbeddedFile,
) -> (r: ResolvedResponse)
    requires
        fits_http_date(file.metadata.last_modified),
    ensures
        response_matches(
            r,
            *file,
            RequestView {
                inm: match if_none_match {
                    Option::Some(s) => spec_parse_inm(s@),
                    Option::None => InmView::Absent,
                },
                ims: match if_modified_since {
                    Option::Some(s) => crate::http_date::spec_parse_http_date(s@),
                    Option::None => Option::<u64>::None,
                },
            },
        ),
{
    let req = ConditionalRequest::from_headers(if_none_match, if_modified_since);
    resolve(file, &req)
}

/// A request whose `If-None-Match` matches the record — by entity tag or
/// by wildcard — resolves to `304 Not Modified` with an empty body, and
/// its `ETag`, `Last-Modified` and `Cache-Control` equal those of the
/// unconditional response for the same record.
pub proof fn lemma_matching_tag_not_modified(
    file: EmbeddedFile,
    req: RequestView,
    r: ResolvedResponse,
    r0: ResolvedResponse,
)
    requires
        req.inm is Any || (req.inm matches InmView::Tags(tags) && spec_tag_matches(
            tags,
            spec_etag(file.metadata.content_hash@),
        )),
        response_matches(r, file, req),
        response_matches(r0, file, RequestView { inm: InmView::Absent, ims: Option::None }),
    ensures
        r.status is NotModified,
        r.body@ == Seq::<u8>::empty(),
        r.headers.content_type is None,
        r.headers.etag@ == r0.headers.etag@,
        r.headers.last_modified@ == r0.headers.last_modified@,
        r.headers.cache_control@ == r0.headers.cache_control@,
{
}

/// A request whose `If-None-Match` set misses the record's entity tag
/// resolves to the full representation: `200 OK`, the record's contents
/// as the body, and the record's MIME type as `Content-Type`.
pub proof fn lemma_mismatched_tag_full(file: EmbeddedFile, req: RequestView, r: ResolvedResponse)
    requires
        req.inm matches InmView::Tags(tags) && !spec_tag_matches(
            tags,
            spec_etag(file.metadata.content_hash@),
        ),
        response_matches(r, file, req),
    ensures
        r.status is Full,
        r.body@ == file.contents@,
        r.headers.content_type matches Option::Some(ct) && ct@ == file.metadata.mime_type@,
{
}

/// `If-None-Match` takes precedence over `If-Modified-Since`: a matching
/// entity tag yields `304 Not Modified` even when the request's timestamp
/// is older than the record's — which alone would read as stale.
pub proof fn lemma_tag_precedence_over_stale_time(
    file: EmbeddedFile,
    req: RequestView,
    r: ResolvedResponse,
)
    requires
        req.inm is Any || (req.inm matches InmView::Tags(tags) && spec_tag_matches(
            tags,
            spec_etag(file.metadata.content_hash@),
        )),
        req.ims matches Option::Some(since) && since < file.metadata.last_modified,
        response_matches(r, file, req),
    ensures
        r.status is NotModified,
        r.body@ == Seq::<u8>::empty(),
{
}

/// `If-None-Match` still governs when it misses: the response is the full
/// representation even when the request's timestamp is at or after the
/// record's — which alone would read as fresh.
pub proof fn lemma_tag_precedence_over_fresh_time(
    file: EmbeddedFile,
    req: RequestView,
    r: ResolvedResponse,
)
    requires
        req.inm matches InmView::Tags(tags) && !spec_tag_matches(
            tags,
            spec_etag(file.metadata.content_hash@),
        ),
        req.ims matches Option::Some(since) && file.metadata.last_modified <= since,
        response_matches(r, file, req),
    ensures
        r.status is Full,
        r.body@ == file.contents@,
{
}

/// Resolution is deterministic: two responses resolved from the same
/// record and the same request agree on the status, on every header
/// value, and on the body, byte for byte.
pub proof fn lemma_resolve_deterministic(
    file: EmbeddedFile,
    req: RequestView,
    r1: ResolvedResponse,
    r2: ResolvedResponse,
)
    requires
        response_matches(r1, file, req),
        response_matches(r2, file, req),
    ensures
        r1.status == r2.status,
        r1.headers.etag@ == r2.headers.etag@,
        r1.headers.last_modified@ == r2.headers.last_modified@,
        r1.headers.cache_control@ == r2.headers.cache_control@,
        r1.headers.vary@ == r2.headers.vary@,
        match (r1.headers.content_type, r2.headers.content_type) {
            (Option::Some(a), Option::Some(b)) => a@ == b@,
            (Option::None, Option::None) => true,
            _ => false,
        },
        r1.body@ == r2.body@,
{
}

} // verus!
