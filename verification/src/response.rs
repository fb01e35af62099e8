use vstd::prelude::*;

use crate::mime::{mime_for_path, spec_mime_of, MimeType};
use crate::numbers::{dec_rep, u64_to_string};
use crate::range::{
    compute_window, opt_nat_of, parse_range_header, range_of, spec_parse_range, spec_window,
};
use crate::text::{opt_str_view, opt_string_view};
use crate::url::{percent_decode, percent_decoded};

verus! {

/// What the server should answer: nothing found, a rejected range, the whole
/// file, or one byte window of it. `start` and `end` are inclusive positions
/// and `total` is the file length, as in a `Content-Range` header.
#[derive(Clone, Copy, Debug, PartialEq, Eq, Structural)]
pub enum ResponsePlan {
    NotFound,
    InvalidRange,
    Full { mime: MimeType, total: u64 },
    Partial { mime: MimeType, start: u64, end: u64, total: u64 },
}

/// The path a request is served from: the percent-decoded `path` query
/// parameter when the request carries one, and the stored current path
/// otherwise. An undecodable parameter, like a missing stored path, resolves
/// to nothing.
pub open spec fn spec_resolve(query: Option<Seq<char>>, stored: Option<Seq<char>>) -> Option<
    Seq<char>,
> {
    match query {
        Some(q) => percent_decoded(q),
        None => stored,
    }
}

/// Resolves the path a request is served from, exactly as `spec_resolve`
/// describes it.
pub fn resolve_request_path(query: Option<&str>, stored: Option<String>) -> (r: Option<String>)
    ensures
        opt_string_view(r) == spec_resolve(opt_str_view(query), opt_string_view(stored)),
{
    match query {
        Some(q) => percent_decode(q),
        None => stored,
    }
}

/// The response for a resolved path: 404 when the file is missing, the whole
/// file when no `Range` header came, the selected window for a well-formed
/// satisfiable range, and a range error for anything else.
pub open spec fn spec_plan(
    path: Seq<char>,
    exists: bool,
    len: u64,
    header: Option<Seq<char>>,
) -> ResponsePlan {
    if !exists {
        ResponsePlan::NotFound
    } else {
        match header {
            None => ResponsePlan::Full { mime: spec_mime_of(path), total: len },
            Some(h) => match spec_parse_range(h) {
                None => ResponsePlan::InvalidRange,
                Some(r) => match spec_window(r.0, r.1, len as nat) {
                    None => ResponsePlan::InvalidRange,
                    Some(w) => ResponsePlan::Partial {
                        mime: spec_mime_of(path),
                        start: w.0 as u64,
                        end: w.1 as u64,
                        total: len,
                    },
                },
            },
        }
    }
}

/// A partial plan always selects a window that lies inside the file.
pub open spec fn plan_wf(plan: ResponsePlan) -> bool {
    match plan {
        ResponsePlan::Partial { mime, start, end, total } => start <= end < total,
        _ => true,
    }
}

/// Plans the response for one request, exactly as `spec_plan` describes it:
/// `path` is the resolved target, `exists` and `len` what the filesystem
/// reported about it, and `range_header` the `Range` header, if one came.
pub fn plan_response(path: &str, exists: bool, len: u64, range_header: Option<&str>) -> (r:
    ResponsePlan)
    ensures
        r == spec_plan(path@, exists, len, opt_str_view(range_header)),
        plan_wf(r),
{
    if !exists {
        return ResponsePlan::NotFound;
    }
    match range_header {
        None => ResponsePlan::Full { mime: mime_for_path(path), total: len },
        Some(h) => match parse_range_header(h) {
            None => ResponsePlan::InvalidRange,
            Some(br) => match compute_window(br.start, br.end, len) {
                None => {
                    proof {
                        assert(opt_nat_of(br.end) == range_of(br).1);
                    }
                    ResponsePlan::InvalidRange
                },
                Some(w) => {
                    proof {
                        assert(opt_nat_of(br.end) == range_of(br).1);
                    }
                    ResponsePlan::Partial {
                        mime: mime_for_path(path),
                        start: w.0,
                        end: w.1,
                        total: len,
                    }
                },
            },
        },
    }
}

/// The number of bytes a partial response carries.
pub open spec fn spec_chunk(start: u64, end: u64) -> nat
    recommends
        start <= end,
{
    (end - start + 1) as nat
}

/// The length of the window from `start` through `end`, inclusive.
pub fn chunk_size(start: u64, end: u64) -> (r: u64)
    requires
        start <= end,
        end < u64::MAX,
    ensures
        r as nat == spec_chunk(start, end),
{
    end - start + 1
}

/// The value of a `Content-Range` header: `bytes <start>-<end>/<total>`.
pub open spec fn spec_content_range(start: u64, end: u64, total: u64) -> Seq<char> {
    "bytes "@ + dec_rep(start as nat) + "-"@ + dec_rep(end as nat) + "/"@ + dec_rep(total as nat)
}

/// Renders a `Content-Range` value, exactly as `spec_content_range` spells
/// it.
pub fn content_range_value(start: u64, end: u64, total: u64) -> (r: String)
    ensures
        r@ == spec_content_range(start, end, total),
{
    let mut s: String = "bytes ".to_owned();
    s.append(u64_to_string(start).as_str());
    s.append("-");
    s.append(u64_to_string(end).as_str());
    s.append("/");
    s.append(u64_to_string(total).as_str());
    proof {
        assert(s@ =~= spec_content_range(start, end, total));
    }
    s
}

/// The three CORS headers the embedding webview requires on every response,
/// error responses included: it enforces cross-origin checks even against a
/// loopback server.
pub open spec fn spec_cors_headers() -> Seq<(Seq<char>, Seq<char>)> {
    seq![
        ("Access-Control-Allow-Origin"@, "*"@),
        ("Access-Control-Allow-Methods"@, "GET, OPTIONS"@),
        ("Access-Control-Allow-Headers"@, "Content-Type"@),
    ]
}

/// Builds the CORS header triple, exactly as `spec_cors_headers` lists it.
pub fn cors_headers() -> (r: Vec<(String, String)>)
    ensures
        r@.len() == spec_cors_headers().len(),
        forall|i: int|
            0 <= i < r@.len() ==> (#[trigger] r@[i]).0@ == spec_cors_headers()[i].0 && r@[i].1@
                == spec_cors_headers()[i].1,
{
    let mut v: Vec<(String, String)> = Vec::new();
    v.push(("Access-Control-Allow-Origin".to_owned(), "*".to_owned()));
    v.push(("Access-Control-Allow-Methods".to_owned(), "GET, OPTIONS".to_owned()));
    v.push(("Access-Control-Allow-Headers".to_owned(), "Content-Type".to_owned()));
    v
}

/// The headers of a planned response, in order. Every response, the error
/// responses included, carries the three CORS headers; a served response
/// leads with the content type and `Accept-Ranges`, and a partial response
/// adds its exact length and window.
pub open spec fn spec_headers(plan: ResponsePlan) -> Seq<(Seq<char>, Seq<char>)> {
    match plan {
        ResponsePlan::NotFound => spec_cors_headers(),
        ResponsePlan::InvalidRange => spec_cors_headers(),
        ResponsePlan::Full { mime, total } => seq![
            ("Content-Type"@, mime.spec_str()),
            ("Accept-Ranges"@, "bytes"@),
            ("Access-Control-Allow-Origin"@, "*"@),
            ("Access-Control-Allow-Methods"@, "GET, OPTIONS"@),
            ("Access-Control-Allow-Headers"@, "Content-Type"@),
        ],
        ResponsePlan::Partial { mime, start, end, total } => seq![
            ("Content-Type"@, mime.spec_str()),
            ("Accept-Ranges"@, "bytes"@),
            ("Content-Length"@, dec_rep(spec_chunk(start, end))),
            ("Content-Range"@, spec_content_range(start, end, total)),
            ("Access-Control-Allow-Origin"@, "*"@),
            ("Access-Control-Allow-Methods"@, "GET, OPTIONS"@),
            ("Access-Control-Allow-Headers"@, "Content-Type"@),
        ],
    }
}

/// Builds the header list of a planned response, name and value, exactly as
/// `spec_headers` lists them.
pub fn response_headers(plan: ResponsePlan) -> (r: Vec<(String, String)>)
    requires
        plan_wf(plan),
    ensures
        r@.len() == spec_headers(plan).len(),
        forall|i: int|
            0 <= i < r@.len() ==> (#[trigger] r@[i]).0@ == spec_headers(plan)[i].0 && r@[i].1@
                == spec_headers(plan)[i].1,
{
    match plan {
        ResponsePlan::NotFound => cors_headers(),
        ResponsePlan::InvalidRange => cors_headers(),
        ResponsePlan::Full { mime, total: _ } => {
            let mut v: Vec<(String, String)> = Vec::new();
            v.push(("Content-Type".to_owned(), mime.as_str().to_owned()));
            v.push(("Accept-Ranges".to_owned(), "bytes".to_owned()));
            v.push(("Access-Control-Allow-Origin".to_owned(), "*".to_owned()));
            v.push(("Access-Control-Allow-Methods".to_owned(), "GET, OPTIONS".to_owned()));
            v.push(("Access-Control-Allow-Headers".to_owned(), "Content-Type".to_owned()));
            v
        },
        ResponsePlan::Partial { mime, start, end, total } => {
            proof {
                assert(start <= end < total);
            }
            let mut v: Vec<(String, String)> = Vec::new();
            v.push(("Content-Type".to_owned(), mime.as_str().to_owned()));
            v.push(("Accept-Ranges".to_owned(), "bytes".to_owned()));
            v.push(("Content-Length".to_owned(), u64_to_string(chunk_size(start, end))));
            v.push(("Content-Range".to_owned(), content_range_value(start, end, total)));
            v.push(("Access-Control-Allow-Origin".to_owned(), "*".to_owned()));
            v.push(("Access-Control-Allow-Methods".to_owned(), "GET, OPTIONS".to_owned()));
            v.push(("Access-Control-Allow-Headers".to_owned(), "Content-Type".to_owned()));
            v
        },
    }
}

} // verus!
