//! Errors of the todo API client, what the status bar says about them, and
//! how an HTTP status and body become one.
use vstd::prelude::*;

use crate::tui::decimal_text;
use crate::tui_model::decimal;

verus! {

/// What went wrong talking to the todo API. Transport, JSON and URL errors
/// are held as their display text.
pub enum ApiError {
    Network(String),
    Serde(String),
    Unauthorized,
    NotFound(String),
    Conflict(String),
    StaleNote,
    BadRequest(String),
    Http { status: u16, body: String },
    Url(String),
    Config(String),
}

/// A new string `a` followed by `b`.
fn cat(a: &str, b: &str) -> (s: String)
    ensures
        s@ == a@ + b@,
{
    let mut s = String::from_str(a);
    s.append(b);
    s
}

/// `s` cut to its first `max` characters, with `…` appended when cut.
pub open spec fn truncate_spec(s: Seq<char>, max: nat) -> Seq<char> {
    if s.len() <= max {
        s
    } else {
        s.take(max as int).push('…')
    }
}

/// `s` cut to its first `max` characters, with `…` appended when cut.
pub fn truncate(s: &str, max: usize) -> (r: String)
    ensures
        r@ == truncate_spec(s@, max as nat),
{
    let n = s.unicode_len();
    if n <= max {
        String::from_str(s)
    } else {
        let mut out = String::from_str(s.substring_char(0, max));
        crate::text::push_char(&mut out, '…');
        out
    }
}

/// The reason phrase the `http` crate knows for a status code, if any.
pub uninterp spec fn http_reason(code: u16) -> Option<Seq<char>>;

/// Asks `reqwest::StatusCode` (the `http` crate's) for the canonical
/// reason phrase of `code`. The answer is named `http_reason`; the table of
/// phrases is not restated.
#[verifier::external_body]
fn reason_phrase(code: u16) -> (r: Option<String>)
    requires
        100 <= code <= 999,
    ensures
        match r {
            Some(p) => http_reason(code) == Some(p@),
            None => http_reason(code) is None,
        },
{
    reqwest::StatusCode::from_u16(code).ok().and_then(|c| c.canonical_reason()).map(|p| p.to_string())
}

/// How a status code displays: the number, a space and the reason phrase.
pub open spec fn status_text_spec(code: u16) -> Seq<char> {
    decimal(code as nat) + " "@ + match http_reason(code) {
        Some(p) => p,
        None => "<unknown status code>"@,
    }
}

/// The display of an HTTP status code.
pub fn status_text(code: u16) -> (s: String)
    requires
        100 <= code <= 999,
    ensures
        s@ == status_text_spec(code),
{
    let mut s = decimal_text(code as usize);
    s.append(" ");
    match reason_phrase(code) {
        Some(p) => s.append(p.as_str()),
        None => s.append("<unknown status code>"),
    }
    s
}

/// An `Http` error carries a real status code.
pub open spec fn valid_status(e: &ApiError) -> bool {
    e matches ApiError::Http { status, .. } ==> 100 <= *status <= 999
}

impl ApiError {
    /// True if the error is a transport problem (as opposed to a 4xx/5xx
    /// response).
    pub fn is_network(&self) -> (r: bool)
        ensures
            r == (self matches ApiError::Network(_)),
    {
        match self {
            ApiError::Network(_) => true,
            _ => false,
        }
    }

    /// The one-liner the status bar shows.
    pub open spec fn status_line_spec(&self) -> Seq<char> {
        match self {
            ApiError::Network(_) => "offline — read-only"@,
            ApiError::Unauthorized => "unauthorized — check TODO_API_KEY"@,
            ApiError::StaleNote => "item changed elsewhere — reopen"@,
            ApiError::NotFound(d) => "not found: "@ + d@,
            ApiError::Conflict(d) => "conflict: "@ + d@,
            ApiError::BadRequest(d) => "bad request: "@ + d@,
            ApiError::Http { status, body } => "api "@ + status_text_spec(*status) + ": "@ + truncate_spec(body@, 80),
            ApiError::Serde(e) => "parse error: "@ + e@,
            ApiError::Url(e) => "bad url: "@ + e@,
            ApiError::Config(e) => "config: "@ + e@,
        }
    }

    /// User-facing one-liner suitable for a status bar.
    pub fn status_line(&self) -> (s: String)
        requires
            valid_status(self),
        ensures
            s@ == self.status_line_spec(),
    {
        match self {
            ApiError::Network(_) => String::from_str("offline — read-only"),
            ApiError::Unauthorized => String::from_str("unauthorized — check TODO_API_KEY"),
            ApiError::StaleNote => String::from_str("item changed elsewhere — reopen"),
            ApiError::NotFound(d) => cat("not found: ", d.as_str()),
            ApiError::Conflict(d) => cat("conflict: ", d.as_str()),
            ApiError::BadRequest(d) => cat("bad request: ", d.as_str()),
            ApiError::Http { status, body } => {
                let mut s = cat("api ", status_text(*status).as_str());
                s.append(": ");
                s.append(truncate(body.as_str(), 80).as_str());
                s
            },
            ApiError::Serde(e) => cat("parse error: ", e.as_str()),
            ApiError::Url(e) => cat("bad url: ", e.as_str()),
            ApiError::Config(e) => cat("config: ", e.as_str()),
        }
    }

    /// The full description of the error.
    pub open spec fn message_spec(&self) -> Seq<char> {
        match self {
            ApiError::Network(e) => "network error: "@ + e@,
            ApiError::Serde(e) => "could not deserialize response: "@ + e@,
            ApiError::Unauthorized => "unauthorized — check TODO_API_KEY"@,
            ApiError::NotFound(d) => "not found: "@ + d@,
            ApiError::Conflict(d) => "conflict: "@ + d@,
            ApiError::StaleNote => "item changed elsewhere — reopen and retry"@,
            ApiError::BadRequest(d) => "bad request: "@ + d@,
            ApiError::Http { status, body } => "api error "@ + status_text_spec(*status) + ": "@ + body@,
            ApiError::Url(e) => "invalid url: "@ + e@,
            ApiError::Config(e) => "config error: "@ + e@,
        }
    }

    /// The full description of the error.
    pub fn message(&self) -> (s: String)
        requires
            valid_status(self),
        ensures
            s@ == self.message_spec(),
    {
        match self {
            ApiError::Network(e) => cat("network error: ", e.as_str()),
            ApiError::Serde(e) => cat("could not deserialize response: ", e.as_str()),
            ApiError::Unauthorized => String::from_str("unauthorized — check TODO_API_KEY"),
            ApiError::NotFound(d) => cat("not found: ", d.as_str()),
            ApiError::Conflict(d) => cat("conflict: ", d.as_str()),
            ApiError::StaleNote => String::from_str("item changed elsewhere — reopen and retry"),
            ApiError::BadRequest(d) => cat("bad request: ", d.as_str()),
            ApiError::Http { status, body } => {
                let mut s = cat("api error ", status_text(*status).as_str());
                s.append(": ");
                s.append(body.as_str());
                s
            },
            ApiError::Url(e) => cat("invalid url: ", e.as_str()),
            ApiError::Config(e) => cat("config error: ", e.as_str()),
        }
    }
}

// ---------------------------------------------------------------------------
// From a response to an error
// ---------------------------------------------------------------------------

/// What an error body's `detail` field holds, as characters.
pub enum DetailView {
    /// The body does not read as the expected shape.
    NotJson,
    /// There is no `detail`, or it is `null`.
    Missing,
    /// `detail` is a string.
    Text(Seq<char>),
    /// `detail` is another JSON value, in its JSON text.
    Other(Seq<char>),
}

/// One JSON value as the error rules read it: whether it is `null`, its
/// text when it is a string, and its JSON text.
pub struct JsonItem {
    pub null: bool,
    pub string: Option<String>,
    pub text: String,
}

pub struct JsonItemView {
    pub null: bool,
    pub string: Option<Seq<char>>,
    pub text: Seq<char>,
}

impl View for JsonItem {
    type V = JsonItemView;

    open spec fn view(&self) -> JsonItemView {
        JsonItemView {
            null: self.null,
            string: match self.string {
                Some(s) => Some(s@),
                None => None,
            },
            text: self.text@,
        }
    }
}

/// A JSON document: not JSON at all, an object's entries, an array's
/// items, or another value.
pub enum JsonDoc {
    NotJson,
    Object(Vec<(String, JsonItem)>),
    Array(Vec<JsonItem>),
    Scalar,
}

pub enum JsonDocView {
    NotJson,
    Object(Seq<(Seq<char>, JsonItemView)>),
    Array(Seq<JsonItemView>),
    Scalar,
}

pub open spec fn entries_view(es: Seq<(String, JsonItem)>) -> Seq<(Seq<char>, JsonItemView)> {
    es.map_values(|e: (String, JsonItem)| (e.0@, e.1@))
}

pub open spec fn items_view(v: Seq<JsonItem>) -> Seq<JsonItemView> {
    v.map_values(|it: JsonItem| it@)
}

impl View for JsonDoc {
    type V = JsonDocView;

    open spec fn view(&self) -> JsonDocView {
        match self {
            JsonDoc::NotJson => JsonDocView::NotJson,
            JsonDoc::Object(es) => JsonDocView::Object(entries_view(es@)),
            JsonDoc::Array(v) => JsonDocView::Array(items_view(v@)),
            JsonDoc::Scalar => JsonDocView::Scalar,
        }
    }
}

/// What `serde_json` reads from a text as a JSON value.
pub uninterp spec fn json_document(body: Seq<char>) -> JsonDocView;

/// Reads `body` with `serde_json::from_str` into a `serde_json::Value`
/// and hands back its shape: an object's entries (in the map's order) or
/// an array's items, each by whether it is `null`, its string and its JSON
/// text (`to_string`). The result is named `json_document`; JSON's grammar
/// is not restated. A key repeated in an object keeps its last value.
#[verifier::external_body]
fn parse_json(body: &str) -> (d: JsonDoc)
    ensures
        d@ == json_document(body@),
{
    let item = |v: serde_json::Value| JsonItem { null: v.is_null(), string: v.as_str().map(String::from), text: v.to_string() };
    match serde_json::from_str::<serde_json::Value>(body) {
        Err(_) => JsonDoc::NotJson,
        Ok(serde_json::Value::Object(m)) => JsonDoc::Object(m.into_iter().map(|(k, v)| (k, item(v))).collect()),
        Ok(serde_json::Value::Array(a)) => JsonDoc::Array(a.into_iter().map(item).collect()),
        Ok(_) => JsonDoc::Scalar,
    }
}

/// The value stored under `key`: the first entry with that key.
pub open spec fn entry(es: Seq<(Seq<char>, JsonItemView)>, key: Seq<char>) -> Option<JsonItemView>
    decreases es.len(),
{
    if es.len() == 0 {
        None
    } else if es[0].0 == key {
        Some(es[0].1)
    } else {
        entry(es.drop_first(), key)
    }
}

/// An optional `detail` value: `null` counts as absent.
pub open spec fn item_detail(it: JsonItemView) -> DetailView {
    if it.null {
        DetailView::Missing
    } else {
        match it.string {
            Some(s) => DetailView::Text(s),
            None => DetailView::Other(it.text),
        }
    }
}

/// The `detail` a body has when read as an object with one optional
/// `detail` field: an object's `detail` entry, or the only item of a
/// one-item array; any other document does not have that shape.
pub open spec fn doc_detail(doc: JsonDocView) -> DetailView {
    match doc {
        JsonDocView::Object(es) => match entry(es, "detail"@) {
            None => DetailView::Missing,
            Some(it) => item_detail(it),
        },
        JsonDocView::Array(items) => if items.len() == 1 {
            item_detail(items[0])
        } else {
            DetailView::NotJson
        },
        _ => DetailView::NotJson,
    }
}

/// The message of an error body: its `detail` string, another `detail`
/// value as JSON text, or else the whole body.
pub open spec fn detail_spec(body: Seq<char>) -> Seq<char> {
    detail_text(json_document(body), body)
}

/// The message given the body's JSON document `doc`.
pub open spec fn detail_text(doc: JsonDocView, body: Seq<char>) -> Seq<char> {
    match doc_detail(doc) {
        DetailView::Text(s) => s,
        DetailView::Other(s) => s,
        _ => body,
    }
}

/// The message of one optional `detail` value, or `None` when absent.
fn item_message(it: &JsonItem) -> (r: Option<String>)
    ensures
        match item_detail(it@) {
            DetailView::Text(s) => r is Some && r->0@ == s,
            DetailView::Other(s) => r is Some && r->0@ == s,
            _ => r is None,
        },
{
    if it.null {
        None
    } else {
        match &it.string {
            Some(s) => Some(s.clone()),
            None => Some(it.text.clone()),
        }
    }
}

/// Index of the first entry with key `detail`.
fn detail_index(es: &Vec<(String, JsonItem)>) -> (r: Option<usize>)
    ensures
        match r {
            Some(i) => i < es@.len() && entry(entries_view(es@), "detail"@) == Some(es@[i as int].1@),
            None => entry(entries_view(es@), "detail"@) is None,
        },
{
    let ghost ev = entries_view(es@);
    assert(ev.subrange(0, ev.len() as int) =~= ev);
    let mut i: usize = 0;
    while i < es.len()
        invariant
            i <= es@.len(),
            ev == entries_view(es@),
            entry(ev, "detail"@) == entry(ev.subrange(i as int, ev.len() as int), "detail"@),
        decreases es.len() - i,
    {
        let ghost rest = ev.subrange(i as int, ev.len() as int);
        assert(rest[0] == ev[i as int]);
        assert(ev[i as int] == (es@[i as int].0@, es@[i as int].1@));
        if crate::text::eq_str(&es[i].0, "detail") {
            return Some(i);
        }
        assert(rest.drop_first() =~= ev.subrange(i + 1, ev.len() as int));
        i = i + 1;
    }
    assert(ev.subrange(i as int, ev.len() as int) =~= Seq::<(Seq<char>, JsonItemView)>::empty());
    None
}

/// The message of an error body whose JSON document is `doc`: its
/// `detail` string, another `detail` value as JSON text, or else the whole
/// body.
pub fn detail_from(doc: &JsonDoc, body: &str) -> (r: String)
    ensures
        r@ == detail_text(doc@, body@),
{
    let m = match doc {
        JsonDoc::Object(es) => match detail_index(es) {
            Some(i) => item_message(&es[i].1),
            None => None,
        },
        JsonDoc::Array(items) => if items.len() == 1 {
            proof {
                assert(items_view(items@)[0] == items@[0]@);
            }
            item_message(&items[0])
        } else {
            None
        },
        _ => None,
    };
    match m {
        Some(t) => t,
        None => String::from_str(body),
    }
}

/// The message of an error response body.
pub fn extract_detail(body: &str) -> (r: String)
    ensures
        r@ == detail_spec(body@),
{
    let doc = parse_json(body);
    detail_from(&doc, body)
}

/// The error for a response with status `status` and body `body`; `None`
/// for a success (2xx).
pub open spec fn status_error_spec(status: u16, body: Seq<char>) -> Option<ApiErrorKind> {
    if 200 <= status < 300 {
        None
    } else if status == 401 || status == 403 {
        Some(ApiErrorKind::Unauthorized)
    } else if status == 404 {
        Some(ApiErrorKind::NotFound(detail_spec(body)))
    } else if status == 409 {
        Some(ApiErrorKind::Conflict(detail_spec(body)))
    } else if status == 412 {
        Some(ApiErrorKind::StaleNote)
    } else if status == 400 || status == 422 {
        Some(ApiErrorKind::BadRequest(detail_spec(body)))
    } else {
        Some(ApiErrorKind::Http(status, body))
    }
}

/// The response errors, as characters.
pub enum ApiErrorKind {
    Unauthorized,
    NotFound(Seq<char>),
    Conflict(Seq<char>),
    StaleNote,
    BadRequest(Seq<char>),
    Http(u16, Seq<char>),
}

/// What a response error is, as characters; `None` for the other errors.
pub open spec fn response_kind(e: &ApiError) -> Option<ApiErrorKind> {
    match e {
        ApiError::Unauthorized => Some(ApiErrorKind::Unauthorized),
        ApiError::NotFound(d) => Some(ApiErrorKind::NotFound(d@)),
        ApiError::Conflict(d) => Some(ApiErrorKind::Conflict(d@)),
        ApiError::StaleNote => Some(ApiErrorKind::StaleNote),
        ApiError::BadRequest(d) => Some(ApiErrorKind::BadRequest(d@)),
        ApiError::Http { status, body } => Some(ApiErrorKind::Http(*status, body@)),
        _ => None,
    }
}

/// Checks a response's status: `Ok` on 2xx, else the error it stands for.
pub fn check_status(status: u16, body: String) -> (r: Result<(), ApiError>)
    ensures
        r is Ok <==> 200 <= status < 300,
        match r {
            Ok(_) => status_error_spec(status, body@) is None,
            Err(e) => response_kind(&e) is Some && status_error_spec(status, body@) == response_kind(&e),
        },
{
    if 200 <= status && status < 300 {
        Ok(())
    } else if status == 401 || status == 403 {
        Err(ApiError::Unauthorized)
    } else if status == 404 {
        Err(ApiError::NotFound(extract_detail(body.as_str())))
    } else if status == 409 {
        Err(ApiError::Conflict(extract_detail(body.as_str())))
    } else if status == 412 {
        Err(ApiError::StaleNote)
    } else if status == 400 || status == 422 {
        Err(ApiError::BadRequest(extract_detail(body.as_str())))
    } else {
        Err(ApiError::Http { status, body })
    }
}

} // verus!
