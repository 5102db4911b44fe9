//! How the file store lists its items: dates read from the front matter
//! (a date that does not read counts as the time of listing), deleted
//! items hidden, and the rest oldest first.
use vstd::prelude::*;

use crate::tui::{Note, Todo};

verus! {

// ---------------------------------------------------------------------------
// Reading dates
// ---------------------------------------------------------------------------

/// A point in time read as UTC: whole seconds since the Unix epoch, the
/// nanoseconds past them, and its RFC 3339 text.
pub struct UtcTime {
    pub secs: i64,
    pub nanos: u32,
    pub text: String,
}

pub struct UtcTimeView {
    pub secs: i64,
    pub nanos: u32,
    pub text: Seq<char>,
}

impl View for UtcTime {
    type V = UtcTimeView;

    open spec fn view(&self) -> UtcTimeView {
        UtcTimeView { secs: self.secs, nanos: self.nanos, text: self.text@ }
    }
}

pub open spec fn opt_time(o: Option<UtcTime>) -> Option<UtcTimeView> {
    match o {
        Some(t) => Some(t@),
        None => None,
    }
}

/// What chrono reads a text as: the instant and its RFC 3339 text, or
/// `None` when it is no UTC date-time.
pub uninterp spec fn utc_parse(s: Seq<char>) -> Option<UtcTimeView>;

/// The RFC 3339 text chrono writes for an instant (`to_rfc3339`).
pub uninterp spec fn utc_text(secs: i64, nanos: u32) -> Seq<char>;

/// Parses `s` with `s.parse::<chrono::DateTime<chrono::Utc>>()` and reads
/// the instant back (`timestamp`, `timestamp_subsec_nanos`, `to_rfc3339`).
/// The result is named `utc_parse`, its text `utc_text` of its instant;
/// chrono's formats are not restated.
#[verifier::external_body]
fn parse_utc(s: &str) -> (r: Option<UtcTime>)
    ensures
        opt_time(r) == utc_parse(s@),
        r is Some ==> r->0.text@ == utc_text(r->0.secs, r->0.nanos),
{
    match s.parse::<chrono::DateTime<chrono::Utc>>() {
        Ok(t) => Some(UtcTime { secs: t.timestamp(), nanos: t.timestamp_subsec_nanos(), text: t.to_rfc3339() }),
        Err(_) => None,
    }
}

/// The current time (`chrono::Utc::now`), read as `parse_utc` reads a
/// date. Of the instant nothing is claimed; its text is `utc_text` of it.
#[verifier::external_body]
fn clock_now() -> (t: UtcTime)
    ensures
        t.text@ == utc_text(t.secs, t.nanos),
{
    let t = chrono::Utc::now();
    UtcTime { secs: t.timestamp(), nanos: t.timestamp_subsec_nanos(), text: t.to_rfc3339() }
}

/// The RFC 3339 text of a stored date, or of `now` when it does not read.
pub open spec fn date_text(s: Seq<char>, now: UtcTimeView) -> Seq<char> {
    match utc_parse(s) {
        Some(u) => u.text,
        None => now.text,
    }
}

/// The instant of a stored date, or `now` when it does not read.
pub open spec fn date_key(s: Seq<char>, now: UtcTimeView) -> (i64, u32) {
    match utc_parse(s) {
        Some(u) => (u.secs, u.nanos),
        None => (now.secs, now.nanos),
    }
}

fn read_date(s: &str, now: &UtcTime) -> (r: (String, (i64, u32)))
    ensures
        r.0@ == date_text(s@, now@),
        r.1 == date_key(s@, now@),
{
    match parse_utc(s) {
        Some(u) => (u.text, (u.secs, u.nanos)),
        None => (now.text.clone(), (now.secs, now.nanos)),
    }
}

fn read_opt_date(d: Option<String>, now: &UtcTime) -> (r: Option<String>)
    ensures
        match d {
            Some(s) => r is Some && r->0@ == date_text(s@, now@),
            None => r is None,
        },
{
    match d {
        Some(s) => Some(read_date(s.as_str(), now).0),
        None => None,
    }
}

/// A todo read from its directory `slug`: its front-matter fields and its
/// body, with each date rewritten as RFC 3339 text; a date that does not
/// read counts as `now`.
pub fn todo_from(
    slug: String,
    title: String,
    description: String,
    done: bool,
    created_at: &str,
    deleted_at: Option<String>,
    body: String,
    now: &UtcTime,
) -> (t: Todo)
    ensures
        t.slug == slug,
        t.title == title,
        t.description == description,
        t.body == body,
        t.done == done,
        t.created_at@ == date_text(created_at@, now@),
        match deleted_at {
            Some(d) => t.deleted_at is Some && t.deleted_at->0@ == date_text(d@, now@),
            None => t.deleted_at is None,
        },
{
    let created = read_date(created_at, now).0;
    let deleted = read_opt_date(deleted_at, now);
    Todo { slug, title, description, body, done, created_at: created, deleted_at: deleted }
}

/// A note read from its directory `slug`, as `todo_from` reads a todo.
pub fn note_from(
    slug: String,
    title: String,
    description: String,
    created_at: &str,
    deleted_at: Option<String>,
    body: String,
    now: &UtcTime,
) -> (n: Note)
    ensures
        n.slug == slug,
        n.title == title,
        n.description == description,
        n.body == body,
        n.created_at@ == date_text(created_at@, now@),
        match deleted_at {
            Some(d) => n.deleted_at is Some && n.deleted_at->0@ == date_text(d@, now@),
            None => n.deleted_at is None,
        },
{
    let created = read_date(created_at, now).0;
    let deleted = read_opt_date(deleted_at, now);
    Note { slug, title, description, body, created_at: created, deleted_at: deleted }
}

// ---------------------------------------------------------------------------
// Stable ordering by instant
// ---------------------------------------------------------------------------

/// Instants in time order.
pub open spec fn key_le(a: (i64, u32), b: (i64, u32)) -> bool {
    a.0 < b.0 || (a.0 == b.0 && a.1 <= b.1)
}

/// Where a stable insertion puts `x` into `s`: after every trailing
/// element whose instant is not later.
pub open spec fn slot<T>(s: Seq<T>, x: T, key: spec_fn(T) -> (i64, u32)) -> int
    decreases s.len(),
{
    if s.len() == 0 {
        0
    } else if key_le(key(s.last()), key(x)) {
        s.len() as int
    } else {
        slot(s.drop_last(), x, key)
    }
}

/// `s` stably sorted by `key` (what `sort_by_key` gives).
pub open spec fn sort_by_instant<T>(s: Seq<T>, key: spec_fn(T) -> (i64, u32)) -> Seq<T>
    decreases s.len(),
{
    if s.len() == 0 {
        s
    } else {
        let r = sort_by_instant(s.drop_last(), key);
        r.insert(slot(r, s.last(), key), s.last())
    }
}

/// `s` in time order by `key`: never a later element before an earlier.
pub open spec fn in_time_order<T>(s: Seq<T>, key: spec_fn(T) -> (i64, u32)) -> bool {
    forall|i: int, j: int| 0 <= i < j < s.len() ==> key_le(key(#[trigger] s[i]), key(#[trigger] s[j]))
}

/// The stable insertion slot: every element after it is later than `x`,
/// and the one just before it is not.
proof fn lemma_slot<T>(s: Seq<T>, x: T, key: spec_fn(T) -> (i64, u32))
    ensures
        0 <= slot(s, x, key) <= s.len(),
        forall|i: int| slot(s, x, key) <= i < s.len() ==> !key_le(key(#[trigger] s[i]), key(x)),
        slot(s, x, key) > 0 ==> key_le(key(s[slot(s, x, key) - 1]), key(x)),
    decreases s.len(),
{
    if s.len() > 0 && !key_le(key(s.last()), key(x)) {
        let d = s.drop_last();
        lemma_slot(d, x, key);
        assert forall|i: int| slot(s, x, key) <= i < s.len() implies !key_le(key(#[trigger] s[i]), key(x)) by {
            if i < d.len() {
                assert(s[i] == d[i]);
            }
        }
        if slot(s, x, key) > 0 {
            assert(s[slot(s, x, key) - 1] == d[slot(d, x, key) - 1]);
        }
    }
}

/// Sorting keeps every element as often as it occurs, and puts them in
/// time order.
proof fn lemma_sort_by_instant<T>(s: Seq<T>, key: spec_fn(T) -> (i64, u32))
    ensures
        sort_by_instant(s, key).to_multiset() == s.to_multiset(),
        sort_by_instant(s, key).len() == s.len(),
        in_time_order(sort_by_instant(s, key), key),
    decreases s.len(),
{
    broadcast use vstd::seq_lib::group_to_multiset_ensures;
    broadcast use vstd::multiset::group_multiset_axioms;

    if s.len() > 0 {
        let d = s.drop_last();
        let x = s.last();
        lemma_sort_by_instant(d, key);
        let r = sort_by_instant(d, key);
        lemma_slot(r, x, key);
        let k = slot(r, x, key);
        let t = r.insert(k, x);
        assert(t == sort_by_instant(s, key));
        assert(t.remove(k) =~= r);
        assert(t[k] == x);
        assert(r.to_multiset() =~= t.to_multiset().remove(x));
        assert(t.contains(x));
        assert(t.to_multiset() =~= r.to_multiset().insert(x));
        assert(d.push(x) =~= s);
        assert(s.to_multiset() =~= d.to_multiset().insert(x));
        assert forall|i: int, j: int| 0 <= i < j < t.len() implies key_le(key(#[trigger] t[i]), key(#[trigger] t[j])) by {
            if j < k {
                assert(t[i] == r[i] && t[j] == r[j]);
            } else if j == k {
                assert(t[i] == r[i]);
                assert(key_le(key(r[i]), key(r[k - 1])) || i == k - 1);
            } else if i == k {
                assert(t[j] == r[j - 1]);
                assert(!key_le(key(r[j - 1]), key(x)));
            } else if i < k {
                assert(t[i] == r[i] && t[j] == r[j - 1]);
            } else {
                assert(t[i] == r[i - 1] && t[j] == r[j - 1]);
            }
        }
    }
}

/// Filtering keeps each element the predicate accepts as often as it
/// occurs, and no other.
proof fn lemma_filter_counts<T>(s: Seq<T>, pred: spec_fn(T) -> bool, x: T)
    ensures
        s.filter(pred).to_multiset().count(x) == if pred(x) {
            s.to_multiset().count(x)
        } else {
            0
        },
    decreases s.len(),
{
    broadcast use vstd::seq_lib::group_to_multiset_ensures;
    broadcast use vstd::multiset::group_multiset_axioms;

    reveal(Seq::filter);
    if s.len() == 0 {
        assert(s.filter(pred) =~= s);
    } else {
        let d = s.drop_last();
        lemma_filter_counts(d, pred, x);
        assert(d.push(s.last()) =~= s);
    }
}

/// `items` stably sorted by `keys` (one instant per item).
fn sort_by_keys<T>(items: Vec<T>, keys: Vec<(i64, u32)>, Ghost(key): Ghost<spec_fn(T) -> (i64, u32)>) -> (r: Vec<T>)
    requires
        keys@.len() == items@.len(),
        forall|k: int| 0 <= k < items@.len() ==> keys@[k] == key(#[trigger] items@[k]),
    ensures
        r@ == sort_by_instant(items@, key),
{
    let ghost all = items@;
    let n = items.len();
    let mut items = items;
    let mut r: Vec<T> = Vec::new();
    let mut rk: Vec<(i64, u32)> = Vec::new();
    let mut i: usize = 0;
    while i < n
        invariant
            i <= n,
            n == all.len(),
            keys@.len() == n,
            forall|k: int| 0 <= k < n ==> keys@[k] == key(#[trigger] all[k]),
            items@ == all.subrange(i as int, n as int),
            r@ == sort_by_instant(all.take(i as int), key),
            rk@.len() == r@.len(),
            forall|k: int| 0 <= k < r@.len() ==> rk@[k] == key(#[trigger] r@[k]),
        decreases n - i,
    {
        assert(items@[0] == all[i as int]);
        let x = items.remove(0);
        let xk = keys[i];
        assert(items@ =~= all.subrange(i + 1, n as int));
        let ghost sr = r@;
        assert(all.take(i + 1).drop_last() =~= all.take(i as int));
        assert(all.take(i + 1).last() == x);
        let mut j = r.len();
        assert(sr.take(j as int) =~= sr);
        while j > 0 && (rk[j - 1].0 > xk.0 || (rk[j - 1].0 == xk.0 && rk[j - 1].1 > xk.1))
            invariant
                j <= r@.len(),
                sr == r@,
                rk@.len() == r@.len(),
                forall|k: int| 0 <= k < r@.len() ==> rk@[k] == key(#[trigger] r@[k]),
                xk == key(x),
                slot(sr, x, key) == slot(sr.take(j as int), x, key),
            decreases j,
        {
            assert(sr.take(j as int).last() == r@[j - 1]);
            assert(sr.take(j as int).drop_last() =~= sr.take(j - 1));
            j = j - 1;
        }
        proof {
            if j > 0 {
                assert(sr.take(j as int).last() == r@[j - 1]);
            }
        }
        let ghost rb = r@;
        let ghost kb = rk@;
        r.insert(j, x);
        rk.insert(j, xk);
        assert(r@ =~= sr.insert(j as int, x));
        assert forall|k: int| 0 <= k < r@.len() implies rk@[k] == key(#[trigger] r@[k]) by {
            if k < j {
                assert(r@[k] == rb[k] && rk@[k] == kb[k]);
            } else if k > j {
                assert(r@[k] == rb[k - 1] && rk@[k] == kb[k - 1]);
            }
        }
        i = i + 1;
    }
    assert(all.take(n as int) =~= all);
    r
}

// ---------------------------------------------------------------------------
// Listing
// ---------------------------------------------------------------------------

/// A todo that is not deleted.
pub open spec fn live_todo() -> spec_fn(Todo) -> bool {
    |t: Todo| t.deleted_at is None
}

/// A note that is not deleted.
pub open spec fn live_note() -> spec_fn(Note) -> bool {
    |n: Note| n.deleted_at is None
}

/// A todo's creation instant, `now` when its date does not read.
pub open spec fn todo_key(now: UtcTimeView) -> spec_fn(Todo) -> (i64, u32) {
    |t: Todo| date_key(t.created_at@, now)
}

/// A note's creation instant, `now` when its date does not read.
pub open spec fn note_key(now: UtcTimeView) -> spec_fn(Note) -> (i64, u32) {
    |n: Note| date_key(n.created_at@, now)
}

/// What a todo listing shows: no deleted todo, every todo that is not
/// deleted as often as the input holds it, and oldest first (a date that
/// does not read counting as `now`).
pub proof fn lemma_listed_todos(todos: Seq<Todo>, now: UtcTimeView)
    ensures
        forall|i: int|
            0 <= i < sort_by_instant(todos.filter(live_todo()), todo_key(now)).len() ==> (#[trigger] sort_by_instant(
                todos.filter(live_todo()),
                todo_key(now),
            )[i]).deleted_at is None,
        forall|t: Todo|
            t.deleted_at is None ==> #[trigger] sort_by_instant(todos.filter(live_todo()), todo_key(now)).to_multiset().count(t)
                == todos.to_multiset().count(t),
        forall|i: int, j: int|
            0 <= i < j < sort_by_instant(todos.filter(live_todo()), todo_key(now)).len() ==> key_le(
                date_key((#[trigger] sort_by_instant(todos.filter(live_todo()), todo_key(now))[i]).created_at@, now),
                date_key((#[trigger] sort_by_instant(todos.filter(live_todo()), todo_key(now))[j]).created_at@, now),
            ),
{
    broadcast use vstd::seq_lib::group_to_multiset_ensures;

    let live = live_todo();
    let key = todo_key(now);
    let f = todos.filter(live);
    let r = sort_by_instant(f, key);
    lemma_sort_by_instant(f, key);
    assert forall|i: int| 0 <= i < r.len() implies (#[trigger] r[i]).deleted_at is None by {
        assert(r.contains(r[i]));
        assert(r.to_multiset().count(r[i]) > 0);
        lemma_filter_counts(todos, live, r[i]);
    }
    assert forall|t: Todo| t.deleted_at is None implies #[trigger] r.to_multiset().count(t) == todos.to_multiset().count(t) by {
        lemma_filter_counts(todos, live, t);
    }
}

/// What a note listing shows: no deleted note, every note that is not
/// deleted as often as the input holds it, and oldest first (a date that
/// does not read counting as `now`).
pub proof fn lemma_listed_notes(notes: Seq<Note>, now: UtcTimeView)
    ensures
        forall|i: int|
            0 <= i < sort_by_instant(notes.filter(live_note()), note_key(now)).len() ==> (#[trigger] sort_by_instant(
                notes.filter(live_note()),
                note_key(now),
            )[i]).deleted_at is None,
        forall|n: Note|
            n.deleted_at is None ==> #[trigger] sort_by_instant(notes.filter(live_note()), note_key(now)).to_multiset().count(n)
                == notes.to_multiset().count(n),
        forall|i: int, j: int|
            0 <= i < j < sort_by_instant(notes.filter(live_note()), note_key(now)).len() ==> key_le(
                date_key((#[trigger] sort_by_instant(notes.filter(live_note()), note_key(now))[i]).created_at@, now),
                date_key((#[trigger] sort_by_instant(notes.filter(live_note()), note_key(now))[j]).created_at@, now),
            ),
{
    broadcast use vstd::seq_lib::group_to_multiset_ensures;

    let live = live_note();
    let key = note_key(now);
    let f = notes.filter(live);
    let r = sort_by_instant(f, key);
    lemma_sort_by_instant(f, key);
    assert forall|i: int| 0 <= i < r.len() implies (#[trigger] r[i]).deleted_at is None by {
        assert(r.contains(r[i]));
        assert(r.to_multiset().count(r[i]) > 0);
        lemma_filter_counts(notes, live, r[i]);
    }
    assert forall|n: Note| n.deleted_at is None implies #[trigger] r.to_multiset().count(n) == notes.to_multiset().count(n) by {
        lemma_filter_counts(notes, live, n);
    }
}

/// The todos a listing shows: those not deleted, oldest first (a stable
/// sort, so todos created at the same instant keep their order); a date
/// that does not read counts as `now`.
pub fn listed_todos(todos: Vec<Todo>, now: &UtcTime) -> (r: Vec<Todo>)
    ensures
        r@ == sort_by_instant(todos@.filter(live_todo()), todo_key(now@)),
        forall|i: int| 0 <= i < r@.len() ==> (#[trigger] r@[i]).deleted_at is None,
        forall|t: Todo| t.deleted_at is None ==> #[trigger] r@.to_multiset().count(t) == todos@.to_multiset().count(t),
        forall|i: int, j: int|
            0 <= i < j < r@.len() ==> key_le(
                date_key((#[trigger] r@[i]).created_at@, now@),
                date_key((#[trigger] r@[j]).created_at@, now@),
            ),
{
    proof {
        lemma_listed_todos(todos@, now@);
    }
    let ghost all = todos@;
    let ghost live = live_todo();
    let ghost key = todo_key(now@);
    let n = todos.len();
    let mut todos = todos;
    let mut kept: Vec<Todo> = Vec::new();
    let mut keys: Vec<(i64, u32)> = Vec::new();
    let mut i: usize = 0;
    while i < n
        invariant
            i <= n,
            n == all.len(),
            live == live_todo(),
            key == todo_key(now@),
            todos@ == all.subrange(i as int, n as int),
            kept@ == all.take(i as int).filter(live),
            keys@.len() == kept@.len(),
            forall|k: int| 0 <= k < kept@.len() ==> keys@[k] == key(#[trigger] kept@[k]),
        decreases n - i,
    {
        reveal(Seq::filter);
        assert(todos@[0] == all[i as int]);
        let t = todos.remove(0);
        assert(todos@ =~= all.subrange(i + 1, n as int));
        assert(all.take(i + 1).drop_last() =~= all.take(i as int));
        assert(all.take(i + 1).last() == t);
        if t.deleted_at.is_none() {
            let k = read_date(t.created_at.as_str(), now).1;
            let ghost kb = keys@;
            let ghost pb = kept@;
            kept.push(t);
            keys.push(k);
            assert forall|q: int| 0 <= q < kept@.len() implies keys@[q] == key(#[trigger] kept@[q]) by {
                if q < pb.len() {
                    assert(kept@[q] == pb[q] && keys@[q] == kb[q]);
                }
            }
        }
        i = i + 1;
    }
    assert(all.take(n as int) =~= all);
    sort_by_keys(kept, keys, Ghost(key))
}

/// The notes a listing shows, as `listed_todos` lists todos.
pub fn listed_notes(notes: Vec<Note>, now: &UtcTime) -> (r: Vec<Note>)
    ensures
        r@ == sort_by_instant(notes@.filter(live_note()), note_key(now@)),
        forall|i: int| 0 <= i < r@.len() ==> (#[trigger] r@[i]).deleted_at is None,
        forall|n: Note| n.deleted_at is None ==> #[trigger] r@.to_multiset().count(n) == notes@.to_multiset().count(n),
        forall|i: int, j: int|
            0 <= i < j < r@.len() ==> key_le(
                date_key((#[trigger] r@[i]).created_at@, now@),
                date_key((#[trigger] r@[j]).created_at@, now@),
            ),
{
    proof {
        lemma_listed_notes(notes@, now@);
    }
    let ghost all = notes@;
    let ghost live = live_note();
    let ghost key = note_key(now@);
    let n = notes.len();
    let mut notes = notes;
    let mut kept: Vec<Note> = Vec::new();
    let mut keys: Vec<(i64, u32)> = Vec::new();
    let mut i: usize = 0;
    while i < n
        invariant
            i <= n,
            n == all.len(),
            live == live_note(),
            key == note_key(now@),
            notes@ == all.subrange(i as int, n as int),
            kept@ == all.take(i as int).filter(live),
            keys@.len() == kept@.len(),
            forall|k: int| 0 <= k < kept@.len() ==> keys@[k] == key(#[trigger] kept@[k]),
        decreases n - i,
    {
        reveal(Seq::filter);
        assert(notes@[0] == all[i as int]);
        let t = notes.remove(0);
        assert(notes@ =~= all.subrange(i + 1, n as int));
        assert(all.take(i + 1).drop_last() =~= all.take(i as int));
        assert(all.take(i + 1).last() == t);
        if t.deleted_at.is_none() {
            let k = read_date(t.created_at.as_str(), now).1;
            let ghost kb = keys@;
            let ghost pb = kept@;
            kept.push(t);
            keys.push(k);
            assert forall|q: int| 0 <= q < kept@.len() implies keys@[q] == key(#[trigger] kept@[q]) by {
                if q < pb.len() {
                    assert(kept@[q] == pb[q] && keys@[q] == kb[q]);
                }
            }
        }
        i = i + 1;
    }
    assert(all.take(n as int) =~= all);
    sort_by_keys(kept, keys, Ghost(key))
}

/// The current time, from the clock, for reading and listing items. Of
/// the instant nothing is known; its text is chrono's RFC 3339 text of it.
pub fn clock_time() -> (now: UtcTime)
    ensures
        now.text@ == utc_text(now.secs, now.nanos),
{
    clock_now()
}

} // verus!
