//! The `CONTENT.md` format: a TOML front matter between `---` delimiter
//! lines, then a free-form markdown body; and the slug rule that names an
//! item's directory after its title.
use vstd::prelude::*;
use vstd::string::StrSliceExecFns;

use crate::text::{
    free_of, lemma_join_empty_pieces, lemma_join_separated, lemma_join_split, lemma_split_chars, lemma_split_join, separated,
    all_ascii, ascii_lower, char_is_alphanumeric, is_alphanumeric, is_ascii_alnum, join_strings, join_with,
    lowercase,
    lemma_strings_view_push, push_char, strings_view, split_chars, split_on, str_chars, to_lowercase,
};

verus! {

// ---------------------------------------------------------------------------
// Front matter framing
// ---------------------------------------------------------------------------

/// The opening delimiter line.
pub open spec fn open_delim() -> Seq<char> {
    seq!['-', '-', '-', '\n']
}

/// A newline followed by three dashes.
pub open spec fn close_delim() -> Seq<char> {
    seq!['\n', '-', '-', '-']
}

/// `\n---` starts at index `i` of `s` and is followed by a newline or by
/// the end of `s`: the closing delimiter, not a horizontal rule in the body.
pub open spec fn closes_at(s: Seq<char>, i: int) -> bool {
    &&& 0 <= i
    &&& i + 4 <= s.len()
    &&& s.subrange(i, i + 4) == close_delim()
    &&& (i + 4 == s.len() || s[i + 4] == '\n')
}

/// The first closing delimiter of `s`, if any.
#[verifier::opaque]
pub open spec fn first_close(s: Seq<char>) -> Option<int> {
    if exists|i: int| closes_at(s, i) {
        Some(choose|i: int| closes_at(s, i) && forall|j: int| 0 <= j < i ==> !closes_at(s, j))
    } else {
        None
    }
}

/// `s` without its leading newlines.
pub open spec fn trim_start_newlines(s: Seq<char>) -> Seq<char>
    decreases s.len(),
{
    if s.len() > 0 && s[0] == '\n' {
        trim_start_newlines(s.drop_first())
    } else {
        s
    }
}

/// Why a `CONTENT.md` could not be split.
#[derive(Clone, Copy, PartialEq, Eq, Debug, Structural)]
pub enum FrontMatterError {
    /// The text does not start with a `---` line.
    MissingOpen,
    /// No `---` line closes the front matter.
    MissingClose,
}

impl FrontMatterError {
    /// The user-facing description.
    pub fn message(&self) -> (m: String)
        ensures
            m@ == match self {
                FrontMatterError::MissingOpen => "CONTENT.md missing opening '---' front-matter delimiter"@,
                FrontMatterError::MissingClose => "CONTENT.md missing closing '---' front-matter delimiter"@,
            },
    {
        match self {
            FrontMatterError::MissingOpen => String::from_str(
                "CONTENT.md missing opening '---' front-matter delimiter",
            ),
            FrontMatterError::MissingClose => String::from_str(
                "CONTENT.md missing closing '---' front-matter delimiter",
            ),
        }
    }
}

/// The split of a `CONTENT.md` text: after any leading newlines it must
/// start with `---\n`; the front matter runs to the first closing
/// delimiter, and the body is what follows that delimiter without its
/// leading newlines.
pub open spec fn split_spec(raw: Seq<char>) -> Result<(Seq<char>, Seq<char>), FrontMatterError> {
    let t = trim_start_newlines(raw);
    if t.len() < 4 || t.subrange(0, 4) != open_delim() {
        Err(FrontMatterError::MissingOpen)
    } else {
        let rest = t.subrange(4, t.len() as int);
        match first_close(rest) {
            None => Err(FrontMatterError::MissingClose),
            Some(end) => Ok(
                (
                    rest.subrange(0, end),
                    trim_start_newlines(rest.subrange(end + 4, rest.len() as int)),
                ),
            ),
        }
    }
}

/// The first closing delimiter is the least index where `\n---` stands
/// followed by a newline or the end; there is none exactly when no index
/// is such (so `\n---x` and `\n----` never close the front matter).
pub proof fn lemma_first_close_is_least(s: Seq<char>)
    ensures
        match first_close(s) {
            Some(i) => closes_at(s, i) && forall|j: int| 0 <= j < i ==> !closes_at(s, j),
            None => forall|j: int| !closes_at(s, j),
        },
{
    reveal(first_close);
    if exists|i: int| closes_at(s, i) {
        let i0 = choose|i: int| closes_at(s, i);
        lemma_least_close(s, i0);
    }
}

/// Below any closing index there is a least one.
proof fn lemma_least_close(s: Seq<char>, i: int)
    requires
        closes_at(s, i),
    ensures
        exists|k: int| closes_at(s, k) && forall|j: int| 0 <= j < k ==> !closes_at(s, j),
    decreases i,
{
    if exists|j: int| 0 <= j < i && closes_at(s, j) {
        let j = choose|j: int| 0 <= j < i && closes_at(s, j);
        lemma_least_close(s, j);
    } else {
        assert(closes_at(s, i) && forall|j: int| 0 <= j < i ==> !closes_at(s, j));
    }
}

/// Index of the closing front-matter delimiter in `v`, if any.
pub fn find_closing_delimiter(v: &Vec<char>) -> (r: Option<usize>)
    ensures
        match r {
            Some(i) => first_close(v@) == Some(i as int) && closes_at(v@, i as int),
            None => first_close(v@) is None,
        },
{
    reveal(first_close);
    let n = v.len();
    if n < 4 {
        assert forall|j: int| !closes_at(v@, j) by {}
        return None;
    }
    let mut i: usize = 0;
    while i <= n - 4
        invariant
            n >= 4,
            n == v@.len(),
            forall|j: int| 0 <= j < i ==> !closes_at(v@, j),
        decreases n - i,
    {
        if v[i] == '\n' && v[i + 1] == '-' && v[i + 2] == '-' && v[i + 3] == '-' && (i + 4 == n
            || v[i + 4] == '\n') {
            assert(v@.subrange(i as int, i + 4) =~= close_delim());
            assert(closes_at(v@, i as int));
            proof {
                reveal(first_close);
                let ii = i as int;
                assert(closes_at(v@, ii) && forall|j: int| 0 <= j < ii ==> !closes_at(v@, j));
                let k = choose|k: int| closes_at(v@, k) && forall|j: int| 0 <= j < k ==> !closes_at(v@, j);
                assert(closes_at(v@, k) && forall|j: int| 0 <= j < k ==> !closes_at(v@, j));
                if k < ii {
                    assert(!closes_at(v@, k));
                } else if k > ii {
                    assert(!closes_at(v@, ii));
                }
                assert(k == ii);
            }
            return Some(i);
        }
        proof {
            if closes_at(v@, i as int) {
                assert(v@.subrange(i as int, i + 4)[0] == v@[i as int]);
                assert(v@.subrange(i as int, i + 4)[1] == v@[i + 1]);
                assert(v@.subrange(i as int, i + 4)[2] == v@[i + 2]);
                assert(v@.subrange(i as int, i + 4)[3] == v@[i + 3]);
            }
        }
        i = i + 1;
    }
    assert forall|j: int| !closes_at(v@, j) by {
        if 0 <= j && j + 4 <= n {
            assert(j < i);
        }
    }
    None
}

/// Index of the first character of `v[from..]` that is not a newline.
fn skip_newlines(v: &Vec<char>, from: usize) -> (k: usize)
    requires
        from <= v.len(),
    ensures
        from <= k <= v.len(),
        trim_start_newlines(v@.subrange(from as int, v.len() as int)) == v@.subrange(k as int, v.len() as int),
{
    let mut k = from;
    while k < v.len() && v[k] == '\n'
        invariant
            from <= k <= v.len(),
            trim_start_newlines(v@.subrange(from as int, v.len() as int)) == trim_start_newlines(
                v@.subrange(k as int, v.len() as int),
            ),
        decreases v.len() - k,
    {
        assert(v@.subrange(k as int, v.len() as int).drop_first() =~= v@.subrange(k + 1, v.len() as int));
        k = k + 1;
    }
    k
}

/// `v[from..]` as a vector of its own.
fn tail_chars(v: &Vec<char>, from: usize) -> (r: Vec<char>)
    requires
        from <= v.len(),
    ensures
        r@ == v@.subrange(from as int, v.len() as int),
{
    let mut r: Vec<char> = Vec::new();
    let mut i = from;
    while i < v.len()
        invariant
            from <= i <= v.len(),
            r@ == v@.subrange(from as int, i as int),
        decreases v.len() - i,
    {
        r.push(v[i]);
        assert(v@.subrange(from as int, i + 1) =~= v@.subrange(from as int, i as int).push(v@[i as int]));
        i = i + 1;
    }
    r
}

/// Whether `v[at..]` starts with the opening delimiter line.
fn opens_at(v: &Vec<char>, at: usize) -> (b: bool)
    requires
        at <= v.len(),
    ensures
        b == (v.len() - at >= 4 && v@.subrange(at as int, v.len() as int).subrange(0, 4) == open_delim()),
{
    let ghost t = v@.subrange(at as int, v.len() as int);
    if v.len() - at < 4 {
        return false;
    }
    let b = v[at] == '-' && v[at + 1] == '-' && v[at + 2] == '-' && v[at + 3] == '\n';
    proof {
        if b {
            assert(t.subrange(0, 4) =~= open_delim());
        } else if t.subrange(0, 4) == open_delim() {
            assert(t.subrange(0, 4)[0] == v@[at as int]);
            assert(t.subrange(0, 4)[1] == v@[at + 1]);
            assert(t.subrange(0, 4)[2] == v@[at + 2]);
            assert(t.subrange(0, 4)[3] == v@[at + 3]);
        }
    }
    b
}

/// Splits a `CONTENT.md` text into its raw TOML front matter and its body.
pub fn split_front_matter(raw: &str) -> (r: Result<(&str, &str), FrontMatterError>)
    ensures
        match (r, split_spec(raw@)) {
            (Ok((fm, body)), Ok((sfm, sbody))) => fm@ == sfm && body@ == sbody,
            (Err(e), Err(se)) => e == se,
            _ => false,
        },
{
    let v = str_chars(raw);
    let n = v.len();
    let t0 = skip_newlines(&v, 0);
    assert(v@.subrange(0, n as int) =~= v@);
    if !opens_at(&v, t0) {
        return Err(FrontMatterError::MissingOpen);
    }
    let ghost t = v@.subrange(t0 as int, n as int);
    let rest_start = t0 + 4;
    let rest = tail_chars(&v, rest_start);
    assert(rest@ =~= t.subrange(4, t.len() as int));
    match find_closing_delimiter(&rest) {
        None => Err(FrontMatterError::MissingClose),
        Some(end) => {
            let b = skip_newlines(&rest, end + 4);
            let fm = raw.substring_char(rest_start, rest_start + end);
            let body = raw.substring_char(rest_start + b, n);
            assert(fm@ =~= rest@.subrange(0, end as int));
            assert(body@ =~= rest@.subrange(b as int, rest@.len() as int));
            Ok((fm, body))
        },
    }
}

/// The text of a `CONTENT.md`: `fm_toml` between delimiter lines, then a
/// blank line and the body when there is one.
pub open spec fn format_spec(fm_toml: Seq<char>, body: Seq<char>) -> Seq<char> {
    if body.len() == 0 {
        open_delim() + fm_toml + seq!['-', '-', '-', '\n']
    } else {
        open_delim() + fm_toml + seq!['-', '-', '-', '\n', '\n'] + body
    }
}

/// Builds a `CONTENT.md` from a serialised front matter and a body.
pub fn format_content_file(fm_toml: &str, body: &str) -> (s: String)
    ensures
        s@ == format_spec(fm_toml@, body@),
{
    let mut s = String::from_str("---\n");
    s.append(fm_toml);
    if body.unicode_len() == 0 {
        s.append("---\n");
    } else {
        s.append("---\n\n");
        s.append(body);
    }
    proof {
        reveal_strlit("---\n");
        reveal_strlit("---\n\n");
    }
    assert(s@ =~= format_spec(fm_toml@, body@));
    s
}

/// A front matter with no line that reads exactly `---`.
pub open spec fn no_delimiter_line(f: Seq<char>) -> bool {
    forall|i: int|
        0 <= i && i + 4 <= f.len() && #[trigger] f.subrange(i, i + 4) == close_delim() ==> i + 4 < f.len()
            && f[i + 4] != '\n'
}

/// No closing delimiter starts inside `f` when `f` has no `---` line and
/// is followed by a newline.
proof fn lemma_no_close_inside(f: Seq<char>, rest: Seq<char>, j: int)
    requires
        no_delimiter_line(f),
        f.len() + 4 < rest.len(),
        rest.subrange(0, f.len() as int) == f,
        rest.subrange(f.len() as int, f.len() as int + 4) == close_delim(),
        0 <= j < f.len(),
    ensures
        !closes_at(rest, j),
{
    let e = f.len() as int;
    if closes_at(rest, j) {
        if j + 4 <= e {
            assert(rest.subrange(j, j + 4) =~= f.subrange(j, j + 4));
            assert(f.subrange(j, j + 4) == close_delim());
            if j + 4 < e {
                assert(rest[j + 4] == rest.subrange(0, e)[j + 4]);
            }
        } else {
            assert(rest.subrange(j, j + 4)[e - j] == rest[e]);
            assert(rest[e] == rest.subrange(e, e + 4)[0]);
        }
    }
}

/// In `f`, then the closing delimiter, then a text that starts with a
/// newline, the first closing delimiter is the one right after `f`.
#[verifier::rlimit(30)]
proof fn lemma_first_close_after(f: Seq<char>, tail: Seq<char>)
    requires
        no_delimiter_line(f),
        tail.len() > 0,
        tail[0] == '\n',
    ensures
        first_close(f + close_delim() + tail) == Some(f.len() as int),
{
    reveal(first_close);
    let rest = f + close_delim() + tail;
    let e = f.len() as int;
    assert(rest.subrange(0, e) =~= f);
    assert(rest.subrange(e, e + 4) =~= close_delim());
    assert(rest[e + 4] == tail[0]);
    assert(closes_at(rest, e));
    assert forall|j: int| 0 <= j < e implies !closes_at(rest, j) by {
        lemma_no_close_inside(f, rest, j);
    }
    assert(closes_at(rest, e) && forall|j: int| 0 <= j < e ==> !closes_at(rest, j));
    let k = choose|i: int| closes_at(rest, i) && forall|j: int| 0 <= j < i ==> !closes_at(rest, j);
    assert(closes_at(rest, k) && forall|j: int| 0 <= j < k ==> !closes_at(rest, j));
    assert(k == e) by {
        if k < e {
            assert(!closes_at(rest, k));
        } else if k > e {
            assert(!closes_at(rest, e));
        }
    }
}

/// Writing a front matter (ending in a newline, with no `---` line inside)
/// and a body (not starting with a newline), then splitting the text, gives
/// both back; the front matter without its final newline.
pub proof fn lemma_format_split_round_trip(f: Seq<char>, body: Seq<char>)
    requires
        no_delimiter_line(f),
        body.len() == 0 || body[0] != '\n',
    ensures
        split_spec(format_spec(f.push('\n'), body)) == Ok::<(Seq<char>, Seq<char>), FrontMatterError>((f, body)),
{
    let fm = f.push('\n');
    let s = format_spec(fm, body);
    let tail = if body.len() == 0 {
        seq!['\n']
    } else {
        seq!['\n', '\n'] + body
    };
    let rest = f + close_delim() + tail;
    assert(s =~= open_delim() + rest);
    assert(trim_start_newlines(s) == s);
    assert(s.subrange(0, 4) =~= open_delim());
    assert(s.subrange(4, s.len() as int) =~= rest);
    lemma_first_close_after(f, tail);
    assert(first_close(s.subrange(4, s.len() as int)) == Some(f.len() as int));
    let e = f.len() as int;
    assert(rest.subrange(0, e) =~= f);
    let after = rest.subrange(e + 4, rest.len() as int);
    assert(after =~= tail);
    if body.len() == 0 {
        assert(after.drop_first() =~= Seq::<char>::empty());
        assert(trim_start_newlines(after) == trim_start_newlines(after.drop_first()));
        assert(trim_start_newlines(Seq::<char>::empty()) == Seq::<char>::empty());
    } else {
        assert(trim_start_newlines(body) == body);
        assert(after.drop_first() =~= seq!['\n'] + body);
        assert((seq!['\n'] + body).drop_first() =~= body);
        assert(trim_start_newlines(after) == trim_start_newlines(after.drop_first()));
        assert(trim_start_newlines(seq!['\n'] + body) == trim_start_newlines(body));
    }
    assert(trim_start_newlines(after) == body);
}

// ---------------------------------------------------------------------------
// Slugs
// ---------------------------------------------------------------------------

/// A character kept in a slug; others become separators.
pub open spec fn slug_char(c: char) -> char {
    if char_is_alphanumeric(c) {
        c
    } else {
        '_'
    }
}

/// The slug of a title: lower-case it, turn every non-alphanumeric
/// character into `_`, and join the non-empty runs with single `_`.
pub open spec fn slug_spec(title: Seq<char>) -> Seq<char> {
    let raw = lowercase(title).map_values(|c: char| slug_char(c));
    join_with(split_on(raw, '_').filter(|p: Seq<char>| p.len() > 0), '_')
}

/// The slug rule on an ASCII title: letters lower-cased, digits kept,
/// everything else a separator.
pub open spec fn ascii_slug_char(c: char) -> char {
    if is_ascii_alnum(c) {
        c
    } else {
        '_'
    }
}

/// Filtering keeps every element that the predicate accepts.
proof fn lemma_filter_keeps_all(s: Seq<Seq<char>>, pred: spec_fn(Seq<char>) -> bool)
    requires
        forall|i: int| 0 <= i < s.len() ==> pred(#[trigger] s[i]),
    ensures
        s.filter(pred) == s,
    decreases s.len(),
{
    reveal(Seq::filter);
    if s.len() > 0 {
        let init = s.drop_last();
        assert forall|i: int| 0 <= i < init.len() implies pred(#[trigger] init[i]) by {
            assert(init[i] == s[i]);
        }
        lemma_filter_keeps_all(init, pred);
        assert(pred(s.last()));
        assert(init.push(s.last()) =~= s);
    }
}

/// A lower-case ASCII letter or a digit.
pub open spec fn lower_alnum(c: char) -> bool {
    ('a' <= c && c <= 'z') || ('0' <= c && c <= '9')
}

/// The slug of an ASCII title is ASCII, and slugging it again changes
/// nothing.
pub proof fn lemma_ascii_slug_idempotent(t: Seq<char>)
    requires
        all_ascii(t),
    ensures
        all_ascii(ascii_slug_spec(t)),
        ascii_slug_spec(ascii_slug_spec(t)) == ascii_slug_spec(t),
{
    let raw = t.map_values(|c: char| ascii_slug_char(ascii_lower(c)));
    let raw_char = |c: char| c == '_' || lower_alnum(c);
    let low = |c: char| lower_alnum(c);
    assert forall|i: int| 0 <= i < raw.len() implies raw_char(#[trigger] raw[i]) by {
        let c = t[i];
        assert(raw[i] == ascii_slug_char(ascii_lower(c)));
        if 'A' <= c && c <= 'Z' {
            assert(65 <= (c as u32) <= 90);
            assert('a' <= ascii_lower(c) && ascii_lower(c) <= 'z');
        }
    }
    lemma_split_chars(raw, '_', raw_char);
    lemma_split_join(raw, '_');
    let pieces = split_on(raw, '_');
    let nonempty = |p: Seq<char>| p.len() > 0;
    let kept = pieces.filter(nonempty);
    assert forall|k: int| 0 <= k < kept.len() implies #[trigger] kept[k].len() > 0 by {
        pieces.lemma_filter_pred(nonempty, k);
    }
    assert forall|k: int, j: int| 0 <= k < kept.len() && 0 <= j < kept[k].len() implies #[trigger] kept[k][j]
        != '_' && low(kept[k][j]) by {
        assert(kept.contains(kept[k]));
        pieces.lemma_filter_contains_rev(nonempty, kept[k]);
        let m = choose|m: int| 0 <= m < pieces.len() && pieces[m] == kept[k];
        assert(free_of(pieces[m], '_'));
        assert(raw_char(pieces[m][j]));
    }
    lemma_join_separated(kept, '_', low);
    let s = join_with(kept, '_');
    assert(s == ascii_slug_spec(t));
    assert forall|i: int| 0 <= i < s.len() implies (#[trigger] s[i] as u32) < 128 by {
        assert(s[i] == '_' || low(s[i]));
    }
    let raw2 = s.map_values(|c: char| ascii_slug_char(ascii_lower(c)));
    assert forall|i: int| 0 <= i < s.len() implies #[trigger] raw2[i] == s[i] by {
        assert(s[i] == '_' || low(s[i]));
    }
    assert(raw2 =~= s);
    if kept.len() >= 1 {
        assert forall|k: int| 0 <= k < kept.len() implies free_of(#[trigger] kept[k], '_') by {
            assert forall|j: int| 0 <= j < kept[k].len() implies kept[k][j] != '_' by {
                assert(kept[k][j] != '_' && low(kept[k][j]));
            }
        }
        lemma_join_split(kept, '_');
        lemma_filter_keeps_all(kept, nonempty);
        assert(split_on(s, '_').filter(nonempty) == kept);
    } else {
        assert(s =~= Seq::<char>::empty());
        crate::text::lemma_find_from(s, '_', 0);
        assert(split_on(s, '_') == seq![s]);
        reveal(Seq::filter);
        let one = seq![s];
        assert(one.len() == 1);
        assert(one.last() == s);
        assert(!nonempty(s));
        assert(one.drop_last() =~= Seq::<Seq<char>>::empty());
        assert(one.drop_last().filter(nonempty) == one.drop_last());
        assert(one.filter(nonempty) == one.drop_last().filter(nonempty));
        assert(one.filter(nonempty) =~= Seq::<Seq<char>>::empty());
    }
}

/// A slug is usable as a directory name: it holds only alphanumeric
/// characters and `_`, never starts or ends with `_`, and never has two
/// `_` in a row.
pub open spec fn is_clean_slug(s: Seq<char>) -> bool {
    separated(s, '_', |c: char| char_is_alphanumeric(c))
}

/// Every slug is clean, whatever the title.
pub proof fn lemma_slug_is_clean(title: Seq<char>)
    ensures
        is_clean_slug(slug_spec(title)),
{
    let raw = lowercase(title).map_values(|c: char| slug_char(c));
    let alnum = |c: char| char_is_alphanumeric(c);
    let raw_char = |c: char| c == '_' || char_is_alphanumeric(c);
    assert forall|i: int| 0 <= i < raw.len() implies raw_char(#[trigger] raw[i]) by {
        assert(raw[i] == slug_char(lowercase(title)[i]));
    }
    lemma_split_chars(raw, '_', raw_char);
    lemma_split_join(raw, '_');
    let pieces = split_on(raw, '_');
    let nonempty = |p: Seq<char>| p.len() > 0;
    let kept = pieces.filter(nonempty);
    assert forall|k: int| 0 <= k < kept.len() implies #[trigger] kept[k].len() > 0 by {
        pieces.lemma_filter_pred(nonempty, k);
    }
    assert forall|k: int, j: int| 0 <= k < kept.len() && 0 <= j < kept[k].len() implies #[trigger] kept[k][j]
        != '_' && alnum(kept[k][j]) by {
        assert(kept.contains(kept[k]));
        pieces.lemma_filter_contains_rev(nonempty, kept[k]);
        let m = choose|m: int| 0 <= m < pieces.len() && pieces[m] == kept[k];
        assert(free_of(pieces[m], '_'));
        assert(raw_char(pieces[m][j]));
    }
    lemma_join_separated(kept, '_', alnum);
}

/// A title has an empty slug exactly when none of its lower-cased
/// characters is kept: each is either not alphanumeric or `_` itself.
pub proof fn lemma_slug_empty(title: Seq<char>)
    ensures
        slug_spec(title).len() == 0 <==> forall|i: int|
            0 <= i < lowercase(title).len() ==> #[trigger] slug_char(lowercase(title)[i]) == '_',
{
    let low = lowercase(title);
    let raw = low.map_values(|c: char| slug_char(c));
    lemma_split_join(raw, '_');
    let pieces = split_on(raw, '_');
    let nonempty = |p: Seq<char>| p.len() > 0;
    let kept = pieces.filter(nonempty);
    let in_raw = |c: char| raw.contains(c);
    assert forall|i: int| 0 <= i < raw.len() implies in_raw(#[trigger] raw[i]) by {
        assert(raw.contains(raw[i]));
    }
    lemma_split_chars(raw, '_', in_raw);
    assert forall|k: int| 0 <= k < kept.len() implies #[trigger] kept[k].len() > 0 by {
        pieces.lemma_filter_pred(nonempty, k);
    }
    assert forall|k: int, j: int| 0 <= k < kept.len() && 0 <= j < kept[k].len() implies #[trigger] kept[k][j]
        != '_' && in_raw(kept[k][j]) by {
        assert(kept.contains(kept[k]));
        pieces.lemma_filter_contains_rev(nonempty, kept[k]);
        let m = choose|m: int| 0 <= m < pieces.len() && pieces[m] == kept[k];
        assert(free_of(pieces[m], '_'));
        assert(in_raw(pieces[m][j]));
    }
    lemma_join_separated(kept, '_', in_raw);
    if slug_spec(title).len() == 0 {
        if kept.len() > 0 {
            assert(join_with(kept, '_').len() > 0);
        }
        assert forall|k: int| 0 <= k < pieces.len() implies #[trigger] pieces[k].len() == 0 by {
            if pieces[k].len() > 0 {
                pieces.lemma_filter_contains(nonempty, k);
            }
        }
        lemma_join_empty_pieces(pieces, '_');
        assert forall|i: int| 0 <= i < low.len() implies #[trigger] slug_char(low[i]) == '_' by {
            assert(raw[i] == slug_char(low[i]));
            assert(join_with(pieces, '_')[i] == '_');
        }
    } else {
        assert(kept.len() > 0);
        let p = kept[0];
        assert(p.len() > 0);
        assert(p[0] != '_' && in_raw(p[0]));
        let i = choose|i: int| 0 <= i < raw.len() && raw[i] == p[0];
        assert(raw[i] == slug_char(low[i]));
        assert(!(slug_char(low[i]) == '_'));
    }
}

pub open spec fn ascii_slug_spec(title: Seq<char>) -> Seq<char> {
    let raw = title.map_values(|c: char| ascii_slug_char(ascii_lower(c)));
    join_with(split_on(raw, '_').filter(|p: Seq<char>| p.len() > 0), '_')
}

/// Converts a human title into a filesystem-safe slug.
pub fn title_to_slug(title: &str) -> (slug: String)
    ensures
        slug@ == slug_spec(title@),
        all_ascii(title@) ==> slug@ == ascii_slug_spec(title@),
        all_ascii(title@) ==> all_ascii(slug@) && ascii_slug_spec(slug@) == slug@,
{
    proof {
        if all_ascii(title@) {
            lemma_ascii_slug_idempotent(title@);
        }
    }
    let lower = to_lowercase(title);
    let chars = str_chars(lower.as_str());
    let ghost ascii = all_ascii(title@);
    let mut raw: Vec<char> = Vec::new();
    let mut i: usize = 0;
    while i < chars.len()
        invariant
            i <= chars.len(),
            chars@ == lowercase(title@),
            ascii ==> chars@ == title@.map_values(|c: char| ascii_lower(c)),
            ascii == all_ascii(title@),
            raw@ == chars@.take(i as int).map_values(|c: char| slug_char(c)),
            ascii ==> raw@ == title@.take(i as int).map_values(|c: char| ascii_slug_char(ascii_lower(c))),
        decreases chars.len() - i,
    {
        let c = chars[i];
        let k = if is_alphanumeric(c) {
            c
        } else {
            '_'
        };
        raw.push(k);
        assert(chars@.take(i + 1).map_values(|c: char| slug_char(c)) =~= chars@.take(i as int).map_values(
            |c: char| slug_char(c),
        ).push(slug_char(c)));
        proof {
            if ascii {
                let t = title@[i as int];
                assert((t as u32) < 128);
                assert(c == ascii_lower(t));
                assert((c as u32) < 128);
                assert(title@.take(i + 1).map_values(|c: char| ascii_slug_char(ascii_lower(c))) =~= title@.take(
                    i as int,
                ).map_values(|c: char| ascii_slug_char(ascii_lower(c))).push(ascii_slug_char(c)));
            }
        }
        i = i + 1;
    }
    assert(chars@.take(chars.len() as int) =~= chars@);
    proof {
        if ascii {
            assert(title@.take(chars.len() as int) =~= title@);
        }
    }
    let pieces = split_chars(&raw, '_');
    let ghost pv = strings_view(pieces@);
    let ghost pred = |p: Seq<char>| p.len() > 0;
    let mut kept: Vec<String> = Vec::new();
    let mut j: usize = 0;
    while j < pieces.len()
        invariant
            j <= pieces.len(),
            pv == strings_view(pieces@),
            pred == (|p: Seq<char>| p.len() > 0),
            strings_view(kept@) == pv.take(j as int).filter(pred),
        decreases pieces.len() - j,
    {
        reveal(Seq::filter);
        assert(pv.take(j + 1).drop_last() =~= pv.take(j as int));
        assert(pv.take(j + 1).last() == pieces@[j as int]@);
        assert(pv.take(j + 1).filter(pred) == if pred(pieces@[j as int]@) {
            pv.take(j as int).filter(pred).push(pieces@[j as int]@)
        } else {
            pv.take(j as int).filter(pred)
        });
        assert(pv[j as int] == pieces@[j as int]@);
        let len = pieces[j].as_str().unicode_len();
        assert(pred(pv[j as int]) == (len > 0));
        if len > 0 {
            let p = String::from_str(pieces[j].as_str());
            proof {
                lemma_strings_view_push(kept@, p);
            }
            kept.push(p);
            assert(strings_view(kept@) =~= pv.take(j as int).filter(pred).push(pv[j as int]));
        }
        j = j + 1;
    }
    assert(pv.take(pieces.len() as int) =~= pv);
    assert(strings_view(kept@) == kept@.map_values(|p: String| p@));
    join_strings(&kept, '_')
}

} // verus!
