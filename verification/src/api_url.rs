//! The URLs of the todo API: the base URL with path segments appended,
//! and query parameters added.
use vstd::prelude::*;

use crate::api_error::ApiError;
use crate::text::strings_view;
use crate::tui::decimal_text;
use crate::tui_model::decimal;

verus! {

/// What the `url` crate makes of a URL edit: the URL's text, the parse
/// error's text, or that the URL cannot take path segments.
pub enum UrlBuilt {
    Built(String),
    Invalid(String),
    NotABase,
}

pub enum UrlBuiltView {
    Built(Seq<char>),
    Invalid(Seq<char>),
    NotABase,
}

impl View for UrlBuilt {
    type V = UrlBuiltView;

    open spec fn view(&self) -> UrlBuiltView {
        match self {
            UrlBuilt::Built(u) => UrlBuiltView::Built(u@),
            UrlBuilt::Invalid(e) => UrlBuiltView::Invalid(e@),
            UrlBuilt::NotABase => UrlBuiltView::NotABase,
        }
    }
}

pub open spec fn pairs_view(v: Seq<(String, String)>) -> Seq<(Seq<char>, Seq<char>)> {
    v.map_values(|p: (String, String)| (p.0@, p.1@))
}

/// What `url` gives for `base` with `segments` pushed onto its path.
pub uninterp spec fn url_join(base: Seq<char>, segments: Seq<Seq<char>>) -> UrlBuiltView;

/// What `url` gives for `url` with the `query` pairs appended.
pub uninterp spec fn url_query(url: Seq<char>, query: Seq<(Seq<char>, Seq<char>)>) -> UrlBuiltView;

/// Parses `base` with `url::Url::parse`, pushes each segment with
/// `path_segments_mut().push` (which percent-encodes it) and gives the
/// URL's text. The result is named `url_join`; the URL standard is not
/// restated.
#[verifier::external_body]
fn join_url(base: &str, segments: &Vec<String>) -> (r: UrlBuilt)
    ensures
        r@ == url_join(base@, strings_view(segments@)),
{
    let mut url = match url::Url::parse(base) {
        Ok(u) => u,
        Err(e) => return UrlBuilt::Invalid(e.to_string()),
    };
    match url.path_segments_mut() {
        Ok(mut path) => {
            path.extend(segments.iter());
        },
        Err(_) => return UrlBuilt::NotABase,
    }
    UrlBuilt::Built(url.to_string())
}

/// Parses `url` with `url::Url::parse`, appends each pair with
/// `query_pairs_mut().append_pair` and gives the URL's text. The result is
/// named `url_query`.
#[verifier::external_body]
fn add_query(url: &str, query: &Vec<(String, String)>) -> (r: UrlBuilt)
    ensures
        r@ == url_query(url@, pairs_view(query@)),
{
    let mut url = match url::Url::parse(url) {
        Ok(u) => u,
        Err(e) => return UrlBuilt::Invalid(e.to_string()),
    };
    url.query_pairs_mut().extend_pairs(query.iter());
    UrlBuilt::Built(url.to_string())
}

/// Whether `r` is the URL `u`, or the error that `b` stands for.
pub open spec fn matches_built(r: Result<String, ApiError>, b: UrlBuiltView) -> bool {
    match b {
        UrlBuiltView::Built(u) => r is Ok && r->Ok_0@ == u,
        UrlBuiltView::Invalid(e) => r matches Err(ApiError::Url(m)) && m@ == e,
        UrlBuiltView::NotABase => r matches Err(ApiError::Config(m)) && m@ == "base_url cannot be a base"@,
    }
}

fn outcome(b: UrlBuilt) -> (r: Result<String, ApiError>)
    ensures
        matches_built(r, b@),
{
    match b {
        UrlBuilt::Built(u) => Ok(u),
        UrlBuilt::Invalid(e) => Err(ApiError::Url(e)),
        UrlBuilt::NotABase => Err(ApiError::Config(String::from_str("base_url cannot be a base"))),
    }
}

/// The URL of an API path: the base URL with `segments` appended; an
/// unreadable base is a URL error, and one that cannot take a path a
/// configuration error.
pub fn api_url(base: &str, segments: &Vec<String>) -> (r: Result<String, ApiError>)
    ensures
        matches_built(r, url_join(base@, strings_view(segments@))),
{
    outcome(join_url(base, segments))
}

/// The URL of an API path with query parameters.
pub fn api_url_with_query(base: &str, segments: &Vec<String>, query: &Vec<(String, String)>) -> (r: Result<
    String,
    ApiError,
>)
    ensures
        match url_join(base@, strings_view(segments@)) {
            UrlBuiltView::Built(u) => matches_built(r, url_query(u, pairs_view(query@))),
            other => matches_built(r, other),
        },
{
    match api_url(base, segments) {
        Ok(u) => outcome(add_query(u.as_str(), query)),
        Err(e) => Err(e),
    }
}

/// Whether `base` reads as a URL: an unreadable one is a URL error.
pub fn check_base_url(base: &str) -> (r: Result<(), ApiError>)
    ensures
        match url_join(base@, seq![]) {
            UrlBuiltView::Invalid(e) => r matches Err(ApiError::Url(m)) && m@ == e,
            _ => r is Ok,
        },
{
    let none: Vec<String> = Vec::new();
    proof {
        assert(strings_view(none@) =~= Seq::<Seq<char>>::empty());
    }
    match join_url(base, &none) {
        UrlBuilt::Invalid(e) => Err(ApiError::Url(e)),
        _ => Ok(()),
    }
}

fn pair(k: &str, v: String) -> (p: (String, String))
    ensures
        p.0@ == k@,
        p.1@ == v@,
{
    (String::from_str(k), v)
}

/// The query of an events listing: the limit, then the context if one is
/// given.
pub fn events_query(context: Option<String>, limit: usize) -> (q: Vec<(String, String)>)
    ensures
        pairs_view(q@) == seq![("limit"@, decimal(limit as nat))] + match context {
            Some(c) => seq![("context"@, c@)],
            None => Seq::<(Seq<char>, Seq<char>)>::empty(),
        },
{
    let mut q: Vec<(String, String)> = Vec::new();
    q.push(pair("limit", decimal_text(limit)));
    match context {
        Some(c) => {
            q.push(pair("context", c));
        },
        None => {},
    }
    proof {
        assert(pairs_view(q@) =~= seq![("limit"@, decimal(limit as nat))] + match context {
            Some(c) => seq![("context"@, c@)],
            None => Seq::<(Seq<char>, Seq<char>)>::empty(),
        });
    }
    q
}

/// The query of a snapshot: the context, then the format.
pub fn snapshot_query(context: String, format: String) -> (q: Vec<(String, String)>)
    ensures
        pairs_view(q@) == seq![("context"@, context@), ("format"@, format@)],
{
    let mut q: Vec<(String, String)> = Vec::new();
    q.push(pair("context", context));
    q.push(pair("format", format));
    proof {
        assert(pairs_view(q@) =~= seq![("context"@, context@), ("format"@, format@)]);
    }
    q
}

} // verus!
