//! Checks on the on-disk store: what is wrong (errors) or odd (warnings)
//! in each item's `CONTENT.md`, and the counts over a whole walk.
use vstd::prelude::*;

use crate::content::{slug_spec, split_front_matter, split_spec, title_to_slug, FrontMatterError};
use crate::text::{same_text, str_chars};
use crate::tui::decimal_text;
use crate::tui_model::{decimal, text_le};

verus! {

// ---------------------------------------------------------------------------
// Reports
// ---------------------------------------------------------------------------

/// Whether an item is a todo or a note.
#[derive(Clone, Copy, PartialEq, Eq, Debug, Structural)]
pub enum ItemKind {
    Todo,
    Note,
}

impl ItemKind {
    /// The kind's name as shown to the user.
    pub open spec fn label_spec(self) -> Seq<char> {
        match self {
            ItemKind::Todo => "todo"@,
            ItemKind::Note => "note"@,
        }
    }

    /// The kind's name: `todo` or `note`.
    pub fn label(&self) -> (s: String)
        ensures
            s@ == self.label_spec(),
    {
        match self {
            ItemKind::Todo => String::from_str("todo"),
            ItemKind::Note => String::from_str("note"),
        }
    }
}

/// What was found wrong (`errors`) or worth a look (`warnings`) in one item.
pub struct ItemReport {
    pub context: String,
    pub kind: ItemKind,
    pub slug: String,
    pub errors: Vec<String>,
    pub warnings: Vec<String>,
}

impl ItemReport {
    /// Whether any error was found.
    pub fn has_errors(&self) -> (r: bool)
        ensures
            r == (self.errors@.len() > 0),
    {
        self.errors.len() > 0
    }
}

/// The outcome of validating a whole store.
pub struct ValidationSummary {
    /// Per-item reports (todos and notes across all contexts).
    pub items: Vec<ItemReport>,
    /// Structural problems at the root or context level.
    pub structural_errors: Vec<String>,
}

/// The number of item errors in `items`.
pub open spec fn item_errors_total(items: Seq<ItemReport>) -> int
    decreases items.len(),
{
    if items.len() == 0 {
        0
    } else {
        item_errors_total(items.drop_last()) + items.last().errors@.len()
    }
}

/// The number of item warnings in `items`.
pub open spec fn item_warnings_total(items: Seq<ItemReport>) -> int
    decreases items.len(),
{
    if items.len() == 0 {
        0
    } else {
        item_warnings_total(items.drop_last()) + items.last().warnings@.len()
    }
}

/// Totals never shrink as reports are added.
proof fn lemma_totals_monotone(items: Seq<ItemReport>, i: int)
    requires
        0 <= i <= items.len(),
    ensures
        item_errors_total(items.take(i)) <= item_errors_total(items),
        item_warnings_total(items.take(i)) <= item_warnings_total(items),
    decreases items.len() - i,
{
    if i < items.len() {
        lemma_totals_monotone(items, i + 1);
        assert(items.take(i + 1).drop_last() =~= items.take(i));
    } else {
        assert(items.take(i) =~= items);
    }
}

/// The item errors add up to more than nothing exactly when some item has one.
proof fn lemma_errors_total_positive(items: Seq<ItemReport>)
    ensures
        item_errors_total(items) >= 0,
        item_errors_total(items) > 0 <==> exists|i: int| 0 <= i < items.len() && (#[trigger] items[i]).errors@.len() > 0,
    decreases items.len(),
{
    if items.len() > 0 {
        let init = items.drop_last();
        lemma_errors_total_positive(init);
        if exists|i: int| 0 <= i < init.len() && (#[trigger] init[i]).errors@.len() > 0 {
            let i = choose|i: int| 0 <= i < init.len() && (#[trigger] init[i]).errors@.len() > 0;
            assert(items[i] == init[i]);
        }
        if exists|i: int| 0 <= i < items.len() && (#[trigger] items[i]).errors@.len() > 0 {
            let i = choose|i: int| 0 <= i < items.len() && (#[trigger] items[i]).errors@.len() > 0;
            if i < items.len() - 1 {
                assert(init[i] == items[i]);
            }
        }
    }
}

/// A store is reported as having errors exactly when its error count is
/// not zero.
pub proof fn lemma_has_errors_iff_counted(s: ValidationSummary)
    ensures
        (s.structural_errors@.len() > 0 || exists|i: int|
            0 <= i < s.items@.len() && (#[trigger] s.items@[i]).errors@.len() > 0) <==> s.structural_errors@.len()
            + item_errors_total(s.items@) > 0,
{
    lemma_errors_total_positive(s.items@);
}

impl ValidationSummary {
    /// Whether anything at all is wrong: a structural error or an item error.
    pub fn has_errors(&self) -> (r: bool)
        ensures
            r == (self.structural_errors@.len() > 0 || exists|i: int|
                0 <= i < self.items@.len() && (#[trigger] self.items@[i]).errors@.len() > 0),
    {
        if self.structural_errors.len() > 0 {
            return true;
        }
        let mut i: usize = 0;
        while i < self.items.len()
            invariant
                i <= self.items@.len(),
                forall|j: int| 0 <= j < i ==> (#[trigger] self.items@[j]).errors@.len() == 0,
            decreases self.items.len() - i,
        {
            if self.items[i].has_errors() {
                return true;
            }
            i = i + 1;
        }
        false
    }

    /// Structural errors plus every item's errors.
    pub fn error_count(&self) -> (n: usize)
        requires
            self.structural_errors@.len() + item_errors_total(self.items@) <= usize::MAX,
        ensures
            n == self.structural_errors@.len() + item_errors_total(self.items@),
    {
        let mut n = self.structural_errors.len();
        let mut i: usize = 0;
        while i < self.items.len()
            invariant
                i <= self.items@.len(),
                self.structural_errors@.len() + item_errors_total(self.items@) <= usize::MAX,
                n == self.structural_errors@.len() + item_errors_total(self.items@.take(i as int)),
            decreases self.items.len() - i,
        {
            proof {
                assert(self.items@.take(i + 1).drop_last() =~= self.items@.take(i as int));
                lemma_totals_monotone(self.items@, i + 1);
            }
            n = n + self.items[i].errors.len();
            i = i + 1;
        }
        assert(self.items@.take(i as int) =~= self.items@);
        n
    }

    /// Every item's warnings.
    pub fn warning_count(&self) -> (n: usize)
        requires
            item_warnings_total(self.items@) <= usize::MAX,
        ensures
            n == item_warnings_total(self.items@),
    {
        let mut n: usize = 0;
        let mut i: usize = 0;
        while i < self.items.len()
            invariant
                i <= self.items@.len(),
                item_warnings_total(self.items@) <= usize::MAX,
                n == item_warnings_total(self.items@.take(i as int)),
            decreases self.items.len() - i,
        {
            proof {
                assert(self.items@.take(i + 1).drop_last() =~= self.items@.take(i as int));
                lemma_totals_monotone(self.items@, i + 1);
            }
            n = n + self.items[i].warnings.len();
            i = i + 1;
        }
        assert(self.items@.take(i as int) =~= self.items@);
        n
    }
}

// ---------------------------------------------------------------------------
// Front-matter values, as far as the checks read them
// ---------------------------------------------------------------------------

/// A front-matter value: a string, a boolean, or anything else.
pub enum FmValue {
    Str(String),
    Bool(bool),
    Other,
}

/// What a front-matter value holds.
pub enum FmValueView {
    Str(Seq<char>),
    Bool(bool),
    Other,
}

impl View for FmValue {
    type V = FmValueView;

    open spec fn view(&self) -> FmValueView {
        match self {
            FmValue::Str(s) => FmValueView::Str(s@),
            FmValue::Bool(b) => FmValueView::Bool(*b),
            FmValue::Other => FmValueView::Other,
        }
    }
}

/// One `key = value` entry of a front-matter table.
pub struct FmEntry {
    pub key: String,
    pub value: FmValue,
}

/// The keys and values of a front-matter table.
pub open spec fn entries_view(es: Seq<FmEntry>) -> Seq<(Seq<char>, FmValueView)> {
    es.map_values(|e: FmEntry| (e.key@, e.value@))
}

/// What the `toml` crate makes of a document: the parse error's text, or
/// `None` when the document is not a table, or the table's entries.
pub uninterp spec fn toml_document(src: Seq<char>) -> Result<Option<Seq<(Seq<char>, FmValueView)>>, Seq<char>>;

/// Parses `src` with `toml::from_str` into a `toml::Value` and hands back
/// what the checks read of it: each entry of a table with its value's
/// shape (string, boolean, other), or the parse error's display text.
/// The result is named `toml_document`; the TOML grammar is not restated.
#[verifier::external_body]
fn parse_toml(src: &str) -> (r: Result<Option<Vec<FmEntry>>, String>)
    ensures
        match r {
            Ok(Some(es)) => toml_document(src@) == Ok::<Option<Seq<(Seq<char>, FmValueView)>>, Seq<char>>(Some(entries_view(es@))),
            Ok(None) => toml_document(src@) == Ok::<Option<Seq<(Seq<char>, FmValueView)>>, Seq<char>>(None),
            Err(e) => toml_document(src@) == Err::<Option<Seq<(Seq<char>, FmValueView)>>, Seq<char>>(e@),
        },
{
    match toml::from_str::<toml::Value>(src) {
        Err(e) => Err(e.to_string()),
        Ok(toml::Value::Table(t)) => Ok(Some(t.into_iter().map(|(key, v)| FmEntry {
            key,
            value: match v {
                toml::Value::String(s) => FmValue::Str(s),
                toml::Value::Boolean(b) => FmValue::Bool(b),
                _ => FmValue::Other,
            },
        }).collect())),
        Ok(_) => Ok(None),
    }
}

/// Whether chrono reads the text as a UTC date-time.
pub uninterp spec fn utc_datetime_parses(s: Seq<char>) -> bool;

/// Asks chrono whether `s.parse::<DateTime<Utc>>()` succeeds. The answer
/// is named `utc_datetime_parses`; chrono's accepted formats are not
/// restated.
#[verifier::external_body]
fn parses_as_utc(s: &str) -> (ok: bool)
    ensures
        ok == utc_datetime_parses(s@),
{
    s.parse::<chrono::DateTime<chrono::Utc>>().is_ok()
}

/// The text that `{:?}` prints for a string (quoted and escaped).
pub uninterp spec fn debug_quoted(s: Seq<char>) -> Seq<char>;

/// Formats `s` with `{:?}`. The result is named `debug_quoted`; std's
/// escaping rules are not restated.
#[verifier::external_body]
fn quote_debug(s: &str) -> (q: String)
    ensures
        q@ == debug_quoted(s@),
{
    format!("{:?}", s)
}

/// The value stored under `key`: the first entry with that key.
pub open spec fn lookup(t: Seq<(Seq<char>, FmValueView)>, key: Seq<char>) -> Option<FmValueView>
    decreases t.len(),
{
    if t.len() == 0 {
        None
    } else if t[0].0 == key {
        Some(t[0].1)
    } else {
        lookup(t.drop_first(), key)
    }
}

/// The value under `key` in `es`, if any.
fn find_entry<'a>(es: &'a Vec<FmEntry>, key: &str) -> (r: Option<&'a FmValue>)
    ensures
        match r {
            Some(v) => lookup(entries_view(es@), key@) == Some(v@),
            None => lookup(entries_view(es@), key@) is None,
        },
{
    let ghost t = entries_view(es@);
    let k = String::from_str(key);
    assert(t.subrange(0, t.len() as int) =~= t);
    let mut i: usize = 0;
    while i < es.len()
        invariant
            i <= es@.len(),
            t == entries_view(es@),
            k@ == key@,
            lookup(t, key@) == lookup(t.subrange(i as int, t.len() as int), key@),
        decreases es.len() - i,
    {
        let ghost rest = t.subrange(i as int, t.len() as int);
        assert(rest[0] == t[i as int]);
        assert(rest.drop_first() =~= t.subrange(i + 1, t.len() as int));
        if same_text(&es[i].key, &k) {
            return Some(&es[i].value);
        }
        i = i + 1;
    }
    None
}

// ---------------------------------------------------------------------------
// The checks on one CONTENT.md
// ---------------------------------------------------------------------------

/// Errors and warnings, in the order they are reported.
pub struct Findings {
    pub errors: Seq<Seq<char>>,
    pub warnings: Seq<Seq<char>>,
}

pub open spec fn no_findings() -> Findings {
    Findings { errors: seq![], warnings: seq![] }
}

pub open spec fn one_error(e: Seq<char>) -> Findings {
    Findings { errors: seq![e], warnings: seq![] }
}

pub open spec fn then(a: Findings, b: Findings) -> Findings {
    Findings { errors: a.errors + b.errors, warnings: a.warnings + b.warnings }
}

/// The check on the `title` field.
pub open spec fn title_findings(t: Seq<(Seq<char>, FmValueView)>) -> Findings {
    match lookup(t, "title"@) {
        None => one_error("missing required field: title"@),
        Some(FmValueView::Str(s)) => if s.len() == 0 {
            Findings { errors: seq![], warnings: seq!["title is empty"@] }
        } else {
            no_findings()
        },
        Some(_) => one_error("title must be a string"@),
    }
}

/// The check on a timestamp field (`required` or optional).
pub open spec fn timestamp_findings(t: Seq<(Seq<char>, FmValueView)>, field: Seq<char>, required: bool) -> Findings {
    match lookup(t, field) {
        None => if required {
            one_error("missing required field: "@ + field)
        } else {
            no_findings()
        },
        Some(FmValueView::Str(s)) => if utc_datetime_parses(s) {
            no_findings()
        } else {
            one_error("invalid "@ + field + " timestamp: "@ + debug_quoted(s))
        },
        Some(_) => one_error(field + " must be a string (RFC3339)"@),
    }
}

/// A timestamp field holding a string that chrono reads as a UTC
/// date-time is fine, whether the field is required or optional; one
/// holding a string it does not read is an error.
pub proof fn lemma_timestamp_checks(t: Seq<(Seq<char>, FmValueView)>, field: Seq<char>, required: bool, s: Seq<char>)
    requires
        lookup(t, field) == Some(FmValueView::Str(s)),
    ensures
        utc_datetime_parses(s) ==> timestamp_findings(t, field, required).errors.len() == 0
            && timestamp_findings(t, field, required).warnings.len() == 0,
        !utc_datetime_parses(s) ==> timestamp_findings(t, field, required).errors.len() == 1,
{
}

/// A front matter with a non-empty string title, a `created_at` that
/// reads as a UTC date-time, a boolean `done` for a todo, and a
/// `deleted_at` that is absent or reads as a UTC date-time has no errors.
pub proof fn lemma_well_formed_table_has_no_errors(
    t: Seq<(Seq<char>, FmValueView)>,
    kind: ItemKind,
    slug: Seq<char>,
    title: Seq<char>,
    created: Seq<char>,
)
    requires
        lookup(t, "title"@) == Some(FmValueView::Str(title)),
        title.len() > 0,
        lookup(t, "created_at"@) == Some(FmValueView::Str(created)),
        utc_datetime_parses(created),
        kind == ItemKind::Todo ==> lookup(t, "done"@) matches Some(FmValueView::Bool(_)),
        match lookup(t, "deleted_at"@) {
            None => true,
            Some(FmValueView::Str(d)) => utc_datetime_parses(d),
            Some(_) => false,
        },
    ensures
        table_findings(t, kind, slug).errors.len() == 0,
{
    lemma_timestamp_checks(t, "created_at"@, true, created);
    match lookup(t, "deleted_at"@) {
        Some(FmValueView::Str(d)) => lemma_timestamp_checks(t, "deleted_at"@, false, d),
        _ => {},
    }
    if kind == ItemKind::Todo {
        assert(lookup(t, "done"@) matches Some(FmValueView::Bool(_)));
    }
}

/// A front matter without a title, without a `created_at`, with a
/// `deleted_at` that is not a UTC date-time string, or a todo without a
/// boolean `done`, has at least one error.
pub proof fn lemma_broken_table_has_errors(t: Seq<(Seq<char>, FmValueView)>, kind: ItemKind, slug: Seq<char>)
    requires
        lookup(t, "title"@) is None
            || lookup(t, "created_at"@) is None
            || (kind == ItemKind::Todo && !(lookup(t, "done"@) matches Some(FmValueView::Bool(_))))
            || (match lookup(t, "deleted_at"@) {
                Some(FmValueView::Str(d)) => !utc_datetime_parses(d),
                Some(_) => true,
                None => false,
            }),
    ensures
        table_findings(t, kind, slug).errors.len() > 0,
{
}

/// The check on the `done` field of a todo.
pub open spec fn done_findings(t: Seq<(Seq<char>, FmValueView)>, kind: ItemKind) -> Findings {
    if kind == ItemKind::Todo {
        match lookup(t, "done"@) {
            None => one_error("missing required field for todo: done"@),
            Some(FmValueView::Bool(_)) => no_findings(),
            Some(_) => one_error("done must be a boolean"@),
        }
    } else {
        no_findings()
    }
}

/// The informational check that the directory is named after the title.
pub open spec fn slug_findings(t: Seq<(Seq<char>, FmValueView)>, slug: Seq<char>) -> Findings {
    match lookup(t, "title"@) {
        Some(FmValueView::Str(title)) => {
            let expected = slug_spec(title);
            if expected.len() > 0 && expected != slug {
                Findings {
                    errors: seq![],
                    warnings: seq![
                        "directory slug '"@ + slug + "' differs from title-derived slug '"@ + expected
                            + "' (fine if renamed intentionally)"@,
                    ],
                }
            } else {
                no_findings()
            }
        },
        _ => no_findings(),
    }
}

/// All checks on a parsed front-matter table, in order.
pub open spec fn table_findings(t: Seq<(Seq<char>, FmValueView)>, kind: ItemKind, slug: Seq<char>) -> Findings {
    let deleted = if lookup(t, "deleted_at"@) is Some {
        timestamp_findings(t, "deleted_at"@, false)
    } else {
        no_findings()
    };
    then(
        then(then(then(title_findings(t), timestamp_findings(t, "created_at"@, true)), done_findings(t, kind)), deleted),
        slug_findings(t, slug),
    )
}

/// All checks on the text of a `CONTENT.md`.
pub open spec fn content_findings(raw: Seq<char>, kind: ItemKind, slug: Seq<char>) -> Findings {
    match split_spec(raw) {
        Err(FrontMatterError::MissingOpen) => one_error("missing opening '---' front-matter delimiter"@),
        Err(FrontMatterError::MissingClose) => one_error("missing closing '---' front-matter delimiter"@),
        Ok((fm, _)) => match toml_document(fm) {
            Err(e) => one_error("invalid TOML in front matter: "@ + e),
            Ok(None) => one_error("front matter is not a TOML table"@),
            Ok(Some(t)) => table_findings(t, kind, slug),
        },
    }
}

/// The characters of each string in `v`.
pub open spec fn texts(v: Seq<String>) -> Seq<Seq<char>> {
    v.map_values(|s: String| s@)
}

/// Appends `s` to `v`.
fn push_text(v: &mut Vec<String>, s: String)
    ensures
        texts(final(v)@) == texts(old(v)@).push(s@),
{
    v.push(s);
    assert(texts(v@) =~= texts(old(v)@).push(s@));
}

/// A new string `a` followed by `b`.
fn cat(a: &str, b: &str) -> (s: String)
    ensures
        s@ == a@ + b@,
{
    let mut s = String::from_str(a);
    s.append(b);
    s
}

/// Records what `f` found in `report`, keeping everything else.
pub open spec fn recorded(before: &ItemReport, after: &ItemReport, f: Findings) -> bool {
    &&& after.context == before.context
    &&& after.kind == before.kind
    &&& after.slug == before.slug
    &&& texts(after.errors@) == texts(before.errors@) + f.errors
    &&& texts(after.warnings@) == texts(before.warnings@) + f.warnings
}

fn add_error(report: &mut ItemReport, e: String)
    ensures
        recorded(old(report), final(report), one_error(e@)),
{
    let ghost ev = e@;
    push_text(&mut report.errors, e);
    assert(texts(report.errors@) =~= texts(old(report).errors@) + seq![ev]);
    assert(texts(report.warnings@) =~= texts(old(report).warnings@) + seq![]);
}

fn add_warning(report: &mut ItemReport, w: String)
    ensures
        recorded(old(report), final(report), Findings { errors: seq![], warnings: seq![w@] }),
{
    let ghost wv = w@;
    push_text(&mut report.warnings, w);
    assert(texts(report.warnings@) =~= texts(old(report).warnings@) + seq![wv]);
    assert(texts(report.errors@) =~= texts(old(report).errors@) + seq![]);
}

proof fn lemma_recorded_then(a: &ItemReport, b: &ItemReport, c: &ItemReport, f: Findings, g: Findings)
    requires
        recorded(a, b, f),
        recorded(b, c, g),
    ensures
        recorded(a, c, then(f, g)),
{
    assert(texts(c.errors@) =~= texts(a.errors@) + then(f, g).errors);
    assert(texts(c.warnings@) =~= texts(a.warnings@) + then(f, g).warnings);
}

proof fn lemma_recorded_none(a: &ItemReport)
    ensures
        recorded(a, a, no_findings()),
{
    assert(texts(a.errors@) =~= texts(a.errors@) + seq![]);
    assert(texts(a.warnings@) =~= texts(a.warnings@) + seq![]);
}

fn check_title(es: &Vec<FmEntry>, report: &mut ItemReport)
    ensures
        recorded(old(report), final(report), title_findings(entries_view(es@))),
{
    match find_entry(es, "title") {
        None => add_error(report, String::from_str("missing required field: title")),
        Some(FmValue::Str(s)) => {
            if s.unicode_len() == 0 {
                add_warning(report, String::from_str("title is empty"));
            } else {
                proof {
                    lemma_recorded_none(report);
                }
            }
        },
        Some(_) => add_error(report, String::from_str("title must be a string")),
    }
}

fn check_timestamp(es: &Vec<FmEntry>, field: &str, required: bool, report: &mut ItemReport)
    ensures
        recorded(old(report), final(report), timestamp_findings(entries_view(es@), field@, required)),
{
    match find_entry(es, field) {
        None => {
            if required {
                add_error(report, cat("missing required field: ", field));
            } else {
                proof {
                    lemma_recorded_none(report);
                }
            }
        },
        Some(FmValue::Str(s)) => {
            if parses_as_utc(s.as_str()) {
                proof {
                    lemma_recorded_none(report);
                }
            } else {
                let mut msg = cat("invalid ", field);
                msg.append(" timestamp: ");
                let q = quote_debug(s.as_str());
                msg.append(q.as_str());
                add_error(report, msg);
            }
        },
        Some(_) => add_error(report, cat(field, " must be a string (RFC3339)")),
    }
}

fn check_done(es: &Vec<FmEntry>, kind: ItemKind, report: &mut ItemReport)
    ensures
        recorded(old(report), final(report), done_findings(entries_view(es@), kind)),
{
    if kind == ItemKind::Todo {
        match find_entry(es, "done") {
            None => add_error(report, String::from_str("missing required field for todo: done")),
            Some(FmValue::Bool(_)) => {
                proof {
                    lemma_recorded_none(report);
                }
            },
            Some(_) => add_error(report, String::from_str("done must be a boolean")),
        }
    } else {
        proof {
            lemma_recorded_none(report);
        }
    }
}

fn check_slug(es: &Vec<FmEntry>, slug: &str, report: &mut ItemReport)
    ensures
        recorded(old(report), final(report), slug_findings(entries_view(es@), slug@)),
{
    match find_entry(es, "title") {
        Some(FmValue::Str(title)) => {
            let expected = title_to_slug(title.as_str());
            let owned = String::from_str(slug);
            if expected.unicode_len() > 0 && !same_text(&expected, &owned) {
                let mut msg = cat("directory slug '", slug);
                msg.append("' differs from title-derived slug '");
                msg.append(expected.as_str());
                msg.append("' (fine if renamed intentionally)");
                add_warning(report, msg);
            } else {
                proof {
                    lemma_recorded_none(report);
                }
            }
        },
        _ => {
            proof {
                lemma_recorded_none(report);
            }
        },
    }
}

/// Checks the text of one `CONTENT.md` and records in `report` what is
/// wrong with it (errors) and what is odd (warnings).
pub fn validate_content(raw: &str, kind: ItemKind, slug: &str, report: &mut ItemReport)
    ensures
        recorded(old(report), final(report), content_findings(raw@, kind, slug@)),
{
    match split_front_matter(raw) {
        Err(FrontMatterError::MissingOpen) => {
            add_error(report, String::from_str("missing opening '---' front-matter delimiter"));
        },
        Err(FrontMatterError::MissingClose) => {
            add_error(report, String::from_str("missing closing '---' front-matter delimiter"));
        },
        Ok((fm, _)) => {
            match parse_toml(fm) {
                Err(e) => add_error(report, cat("invalid TOML in front matter: ", e.as_str())),
                Ok(None) => add_error(report, String::from_str("front matter is not a TOML table")),
                Ok(Some(es)) => {
                    let ghost t = entries_view(es@);
                    let ghost r0 = *report;
                    check_title(&es, report);
                    let ghost r1 = *report;
                    check_timestamp(&es, "created_at", true, report);
                    let ghost r2 = *report;
                    proof {
                        lemma_recorded_then(&r0, &r1, &r2, title_findings(t), timestamp_findings(t, "created_at"@, true));
                    }
                    check_done(&es, kind, report);
                    let ghost r3 = *report;
                    proof {
                        lemma_recorded_then(&r0, &r2, &r3, then(title_findings(t), timestamp_findings(t, "created_at"@, true)), done_findings(t, kind));
                    }
                    let ghost f3 = then(then(title_findings(t), timestamp_findings(t, "created_at"@, true)), done_findings(t, kind));
                    let has_deleted = find_entry(&es, "deleted_at").is_some();
                    if has_deleted {
                        check_timestamp(&es, "deleted_at", false, report);
                    } else {
                        proof {
                            lemma_recorded_none(report);
                        }
                    }
                    let ghost r4 = *report;
                    let ghost deleted = if lookup(t, "deleted_at"@) is Some {
                        timestamp_findings(t, "deleted_at"@, false)
                    } else {
                        no_findings()
                    };
                    proof {
                        lemma_recorded_then(&r0, &r3, &r4, f3, deleted);
                    }
                    check_slug(&es, slug, report);
                    proof {
                        lemma_recorded_then(&r0, &r4, report, then(f3, deleted), slug_findings(t, slug@));
                    }
                },
            }
        },
    }
}

// ---------------------------------------------------------------------------
// One item, one context, the root
// ---------------------------------------------------------------------------

/// What reading an item's `CONTENT.md` gave.
pub enum ContentRead {
    /// The item directory holds no `CONTENT.md`.
    Missing,
    /// The file exists but could not be read; the I/O error's text.
    Unreadable(String),
    /// The file's text.
    Text(String),
}

/// The report on one item directory, from what reading its `CONTENT.md`
/// gave.
pub fn item_report(context: &str, kind: ItemKind, slug: &str, content: &ContentRead) -> (r: ItemReport)
    ensures
        r.context@ == context@,
        r.kind == kind,
        r.slug@ == slug@,
        match content {
            ContentRead::Missing => texts(r.errors@) == seq!["missing CONTENT.md"@] && r.warnings@.len() == 0,
            ContentRead::Unreadable(e) => texts(r.errors@) == seq!["cannot read CONTENT.md: "@ + e@]
                && r.warnings@.len() == 0,
            ContentRead::Text(raw) => texts(r.errors@) == content_findings(raw@, kind, slug@).errors && texts(
                r.warnings@,
            ) == content_findings(raw@, kind, slug@).warnings,
        },
{
    let mut report = ItemReport {
        context: String::from_str(context),
        kind,
        slug: String::from_str(slug),
        errors: Vec::new(),
        warnings: Vec::new(),
    };
    assert(texts(report.errors@) =~= seq![]);
    assert(texts(report.warnings@) =~= seq![]);
    match content {
        ContentRead::Missing => add_error(&mut report, String::from_str("missing CONTENT.md")),
        ContentRead::Unreadable(e) => add_error(&mut report, cat("cannot read CONTENT.md: ", e.as_str())),
        ContentRead::Text(raw) => validate_content(raw.as_str(), kind, slug, &mut report),
    }
    assert(texts(report.errors@) =~= seq![] + texts(report.errors@));
    report
}

/// The structural errors of a context directory, given whether it has a
/// `todos/` and a `notes/` subdirectory. A directory with neither is not a
/// context and has none.
pub fn context_structure_errors(context: &str, has_todos: bool, has_notes: bool) -> (errs: Vec<String>)
    ensures
        texts(errs@) == if has_todos == has_notes {
            seq![]
        } else if has_notes {
            seq!["["@ + context@ + "] missing todos/ directory"@]
        } else {
            seq!["["@ + context@ + "] missing notes/ directory"@]
        },
{
    let mut errs: Vec<String> = Vec::new();
    assert(texts(errs@) =~= seq![]);
    if has_todos != has_notes {
        let mut msg = cat("[", context);
        if has_notes {
            msg.append("] missing todos/ directory");
        } else {
            msg.append("] missing notes/ directory");
        }
        push_text(&mut errs, msg);
    }
    errs
}

/// The summary of a walk whose root directory does not exist.
pub fn missing_root_summary(root: &str) -> (s: ValidationSummary)
    ensures
        s.items@.len() == 0,
        texts(s.structural_errors@) == seq!["root directory not found: "@ + root@],
{
    let mut errs: Vec<String> = Vec::new();
    assert(texts(errs@) =~= seq![]);
    push_text(&mut errs, cat("root directory not found: ", root));
    ValidationSummary { items: Vec::new(), structural_errors: errs }
}

// ---------------------------------------------------------------------------
// The report printed after a walk
// ---------------------------------------------------------------------------

/// Report `a` sorts before `b` or with it: by context, then kind name, then
/// slug, each in text order.
pub open spec fn report_le(a: ItemReport, b: ItemReport) -> bool {
    let (ca, ka, sa) = (a.context@, a.kind.label_spec(), a.slug@);
    let (cb, kb, sb) = (b.context@, b.kind.label_spec(), b.slug@);
    if ca != cb {
        text_le(ca, cb)
    } else if ka != kb {
        text_le(ka, kb)
    } else {
        text_le(sa, sb)
    }
}

/// Where a stable insertion puts `x` into `s`.
pub open spec fn report_slot(s: Seq<ItemReport>, x: ItemReport) -> int
    decreases s.len(),
{
    if s.len() == 0 {
        0
    } else if report_le(s.last(), x) {
        s.len() as int
    } else {
        report_slot(s.drop_last(), x)
    }
}

/// The reports, stably sorted by context, kind and slug.
pub open spec fn sort_reports(s: Seq<ItemReport>) -> Seq<ItemReport>
    decreases s.len(),
{
    if s.len() == 0 {
        s
    } else {
        let r = sort_reports(s.drop_last());
        r.insert(report_slot(r, s.last()), s.last())
    }
}

fn text_le_exec(a: &String, b: &String) -> (r: bool)
    ensures
        r == text_le(a@, b@),
{
    let x = str_chars(a.as_str());
    let y = str_chars(b.as_str());
    crate::tui::chars_le(&x, &y)
}

fn report_le_exec(a: &ItemReport, b: &ItemReport) -> (r: bool)
    ensures
        r == report_le(*a, *b),
{
    proof {
        reveal_strlit("todo");
        reveal_strlit("note");
    }
    if !same_text(&a.context, &b.context) {
        text_le_exec(&a.context, &b.context)
    } else if a.kind != b.kind {
        text_le_exec(&a.kind.label(), &b.kind.label())
    } else {
        text_le_exec(&a.slug, &b.slug)
    }
}

/// Sorts the reports by context, then kind, then slug, keeping the order
/// of equal ones.
pub fn sort_reports_in_place(items: &mut Vec<ItemReport>)
    ensures
        final(items)@ == sort_reports(old(items)@),
{
    let mut src: Vec<ItemReport> = Vec::new();
    std::mem::swap(&mut src, items);
    let ghost t = src@;
    let _n = src.len();
    let mut sorted: Vec<ItemReport> = Vec::new();
    let mut i: usize = 0;
    assert(t.subrange(0, t.len() as int) =~= t);
    while src.len() > 0
        invariant
            i + src@.len() == t.len(),
            t.len() <= usize::MAX,
            src@ == t.subrange(i as int, t.len() as int),
            sorted@ == sort_reports(t.take(i as int)),
        decreases src.len(),
    {
        let x = src.remove(0);
        proof {
            assert(x == t[i as int]);
            assert(t.take(i + 1).drop_last() =~= t.take(i as int));
            assert(t.take(i + 1).last() == x);
        }
        let ghost sr = sorted@;
        let mut j = sorted.len();
        assert(sr.take(j as int) =~= sr);
        while j > 0 && !report_le_exec(&sorted[j - 1], &x)
            invariant
                j <= sorted@.len(),
                sr == sorted@,
                report_slot(sr, x) == report_slot(sr.take(j as int), x),
            decreases j,
        {
            assert(sr.take(j as int).last() == sorted@[j - 1]);
            assert(sr.take(j as int).drop_last() =~= sr.take(j - 1));
            j = j - 1;
        }
        proof {
            if j > 0 {
                assert(sr.take(j as int).last() == sorted@[j - 1]);
            }
        }
        sorted.insert(j, x);
        i = i + 1;
        assert(src@ =~= t.subrange(i as int, t.len() as int));
    }
    assert(t.take(i as int) =~= t);
    *items = sorted;
}

/// `s` for one, else `s`-less.
pub open spec fn plural(n: nat) -> Seq<char> {
    if n == 1 {
        seq![]
    } else {
        "s"@
    }
}

/// The tag of a report: errors, else warnings, else fine.
pub open spec fn report_tag(r: ItemReport) -> Seq<char> {
    if r.errors@.len() > 0 {
        "error"@
    } else if r.warnings@.len() > 0 {
        "warn "@
    } else {
        "ok   "@
    }
}

/// The lines printed for one report.
pub open spec fn report_block(r: ItemReport) -> Seq<Seq<char>> {
    seq!["  "@ + report_tag(r) + "  ["@ + r.context@ + "] "@ + r.kind.label_spec() + "/"@ + r.slug@]
        + texts(r.errors@).map_values(|e: Seq<char>| "         - "@ + e)
        + texts(r.warnings@).map_values(|w: Seq<char>| "         ~ "@ + w)
}

/// The lines printed for the reports, in order.
pub open spec fn report_blocks(items: Seq<ItemReport>) -> Seq<Seq<char>>
    decreases items.len(),
{
    if items.len() == 0 {
        seq![]
    } else {
        report_blocks(items.drop_last()) + report_block(items.last())
    }
}

/// The closing count line.
pub open spec fn totals_line(total: nat, errors: nat, warnings: nat) -> Seq<char> {
    "  "@ + decimal(total) + " item"@ + plural(total) + " checked — "@ + decimal(errors) + " error"@ + plural(errors)
        + ", "@ + decimal(warnings) + " warning"@ + plural(warnings)
}

/// Everything printed after the `validating <root>` heading.
pub open spec fn report_output(structural: Seq<Seq<char>>, items: Seq<ItemReport>, errors: nat, warnings: nat) -> Seq<Seq<char>> {
    structural.map_values(|e: Seq<char>| "  error  "@ + e) + (if structural.len() > 0 {
        seq![seq![]]
    } else {
        seq![]
    }) + report_blocks(items) + seq![seq![], totals_line(items.len(), errors, warnings)]
}

fn push_all_prefixed(out: &mut Vec<String>, prefix: &str, v: &Vec<String>)
    ensures
        texts(final(out)@) == texts(old(out)@) + texts(v@).map_values(|e: Seq<char>| prefix@ + e),
{
    let ghost start = texts(out@);
    let mut i: usize = 0;
    while i < v.len()
        invariant
            i <= v@.len(),
            texts(out@) == start + texts(v@).take(i as int).map_values(|e: Seq<char>| prefix@ + e),
        decreases v.len() - i,
    {
        let line = cat(prefix, v[i].as_str());
        let ghost before = texts(out@);
        push_text(out, line);
        assert(texts(v@).take(i + 1).map_values(|e: Seq<char>| prefix@ + e) =~= texts(v@).take(i as int).map_values(
            |e: Seq<char>| prefix@ + e,
        ).push(prefix@ + v@[i as int]@));
        assert(texts(out@) =~= start + texts(v@).take(i + 1).map_values(|e: Seq<char>| prefix@ + e));
        i = i + 1;
    }
    assert(texts(v@).take(i as int) =~= texts(v@));
}

fn plural_text(n: usize) -> (s: &'static str)
    ensures
        s@ == plural(n as nat),
{
    if n == 1 {
        proof {
            reveal_strlit("");
        }
        ""
    } else {
        "s"
    }
}

/// The lines printed after the `validating <root>` heading: structural
/// errors, then each item (sorted by context, kind and slug) with its
/// errors and warnings, then the totals. Sorts the summary's items.
pub fn report_lines(summary: &mut ValidationSummary) -> (lines: Vec<String>)
    requires
        old(summary).structural_errors@.len() + item_errors_total(old(summary).items@) <= usize::MAX,
        item_warnings_total(old(summary).items@) <= usize::MAX,
    ensures
        final(summary).items@ == sort_reports(old(summary).items@),
        final(summary).structural_errors@ == old(summary).structural_errors@,
        texts(lines@) == report_output(
            texts(old(summary).structural_errors@),
            sort_reports(old(summary).items@),
            (old(summary).structural_errors@.len() + item_errors_total(old(summary).items@)) as nat,
            item_warnings_total(old(summary).items@) as nat,
        ),
{
    let errors = summary.error_count();
    let warnings = summary.warning_count();
    let mut out: Vec<String> = Vec::new();
    assert(texts(out@) =~= seq![]);
    push_all_prefixed(&mut out, "  error  ", &summary.structural_errors);
    if summary.structural_errors.len() > 0 {
        push_text(&mut out, String::new());
    }
    let ghost head = texts(out@);
    assert(head =~= texts(summary.structural_errors@).map_values(|e: Seq<char>| "  error  "@ + e) + (if summary.structural_errors@.len() > 0 {
        seq![seq![]]
    } else {
        seq![]
    }));
    sort_reports_in_place(&mut summary.items);
    proof {
        lemma_sorted_totals(old(summary).items@);
    }
    let mut i: usize = 0;
    while i < summary.items.len()
        invariant
            i <= summary.items@.len(),
            texts(out@) == head + report_blocks(summary.items@.take(i as int)),
        decreases summary.items.len() - i,
    {
        let r = &summary.items[i];
        let tag = if r.errors.len() > 0 {
            "error"
        } else if r.warnings.len() > 0 {
            "warn "
        } else {
            "ok   "
        };
        let mut line = cat("  ", tag);
        line.append("  [");
        line.append(r.context.as_str());
        line.append("] ");
        line.append(r.kind.label().as_str());
        line.append("/");
        line.append(r.slug.as_str());
        let ghost before = texts(out@);
        push_text(&mut out, line);
        push_all_prefixed(&mut out, "         - ", &r.errors);
        push_all_prefixed(&mut out, "         ~ ", &r.warnings);
        assert(summary.items@.take(i + 1).drop_last() =~= summary.items@.take(i as int));
        assert(texts(out@) =~= before + report_block(*r));
        i = i + 1;
    }
    assert(summary.items@.take(i as int) =~= summary.items@);
    push_text(&mut out, String::new());
    let total = summary.items.len();
    let mut last = cat("  ", decimal_text(total).as_str());
    last.append(" item");
    last.append(plural_text(total));
    last.append(" checked — ");
    last.append(decimal_text(errors).as_str());
    last.append(" error");
    last.append(plural_text(errors));
    last.append(", ");
    last.append(decimal_text(warnings).as_str());
    last.append(" warning");
    last.append(plural_text(warnings));
    push_text(&mut out, last);
    out
}

/// Sorting keeps the number of reports and the error and warning totals.
proof fn lemma_sorted_totals(items: Seq<ItemReport>)
    ensures
        sort_reports(items).len() == items.len(),
        item_errors_total(sort_reports(items)) == item_errors_total(items),
        item_warnings_total(sort_reports(items)) == item_warnings_total(items),
    decreases items.len(),
{
    if items.len() > 0 {
        let d = items.drop_last();
        lemma_sorted_totals(d);
        let r = sort_reports(d);
        let p = report_slot(r, items.last());
        lemma_report_slot(r, items.last());
        lemma_totals_insert(r, p, items.last());
    }
}

proof fn lemma_report_slot(s: Seq<ItemReport>, x: ItemReport)
    ensures
        0 <= report_slot(s, x) <= s.len(),
    decreases s.len(),
{
    if s.len() > 0 && !report_le(s.last(), x) {
        lemma_report_slot(s.drop_last(), x);
    }
}

proof fn lemma_totals_insert(s: Seq<ItemReport>, p: int, x: ItemReport)
    requires
        0 <= p <= s.len(),
    ensures
        item_errors_total(s.insert(p, x)) == item_errors_total(s) + x.errors@.len(),
        item_warnings_total(s.insert(p, x)) == item_warnings_total(s) + x.warnings@.len(),
    decreases s.len(),
{
    if p == s.len() {
        assert(s.insert(p, x).drop_last() =~= s);
    } else {
        lemma_totals_insert(s.drop_last(), p, x);
        assert(s.insert(p, x).drop_last() =~= s.drop_last().insert(p, x));
        assert(s.insert(p, x).last() == s.last());
    }
}

} // verus!
