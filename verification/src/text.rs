//! Character-level text helpers shared by the editor, the slug rules and
//! the front-matter framing.
use vstd::prelude::*;
use vstd::std_specs::iter::IteratorSpec;
use vstd::string::StrSliceExecFns;

verus! {

broadcast use vstd::string::group_string_axioms;

// ---------------------------------------------------------------------------
// Character classes
// ---------------------------------------------------------------------------

/// The Unicode `White_Space` property (PropList.txt), which is what
/// `char::is_whitespace` tests.
pub open spec fn is_ws(c: char) -> bool {
    ||| ('\u{9}' <= c && c <= '\u{d}')
    ||| c == ' '
    ||| c == '\u{85}'
    ||| c == '\u{a0}'
    ||| c == '\u{1680}'
    ||| ('\u{2000}' <= c && c <= '\u{200a}')
    ||| c == '\u{2028}'
    ||| c == '\u{2029}'
    ||| c == '\u{202f}'
    ||| c == '\u{205f}'
    ||| c == '\u{3000}'
}

/// Whether `c` is a whitespace character.
pub fn is_whitespace(c: char) -> (r: bool)
    ensures
        r == is_ws(c),
{
    ('\u{9}' <= c && c <= '\u{d}') || c == ' ' || c == '\u{85}' || c == '\u{a0}' || c
        == '\u{1680}' || ('\u{2000}' <= c && c <= '\u{200a}') || c == '\u{2028}' || c
        == '\u{2029}' || c == '\u{202f}' || c == '\u{205f}' || c == '\u{3000}'
}

/// ASCII letters and digits.
pub open spec fn is_ascii_alnum(c: char) -> bool {
    ||| ('a' <= c && c <= 'z')
    ||| ('A' <= c && c <= 'Z')
    ||| ('0' <= c && c <= '9')
}

/// What `char::is_alphanumeric` answers for `c`.
pub uninterp spec fn char_is_alphanumeric(c: char) -> bool;

/// Calls `char::is_alphanumeric`. Its result is named `char_is_alphanumeric`;
/// the contract also states the documented answer on ASCII characters
/// (letters and digits only). The non-ASCII tables of the Unicode standard
/// are left unstated.
#[verifier::external_body]
pub(crate) fn is_alphanumeric(c: char) -> (r: bool)
    ensures
        r == char_is_alphanumeric(c),
        (c as u32) < 128 ==> (r <==> is_ascii_alnum(c)),
{
    c.is_alphanumeric()
}

/// ASCII lower-casing of one character.
pub open spec fn ascii_lower(c: char) -> char {
    if 'A' <= c && c <= 'Z' {
        ((c as u32) + 32) as char
    } else {
        c
    }
}

/// Every character of `s` is ASCII.
pub open spec fn all_ascii(s: Seq<char>) -> bool {
    forall|i: int| 0 <= i < s.len() ==> (#[trigger] s[i] as u32) < 128
}

/// What `str::to_lowercase` answers for a string with these characters.
pub uninterp spec fn lowercase(s: Seq<char>) -> Seq<char>;

/// Calls `str::to_lowercase`. Its result is named `lowercase`; on an
/// all-ASCII string the contract states the documented character-wise
/// mapping of `A`-`Z` to `a`-`z`. Other scripts are left unstated.
#[verifier::external_body]
pub(crate) fn to_lowercase(s: &str) -> (r: String)
    ensures
        r@ == lowercase(s@),
        all_ascii(s@) ==> r@ == s@.map_values(|c: char| ascii_lower(c)),
{
    s.to_lowercase()
}

// ---------------------------------------------------------------------------
// Strings as character sequences
// ---------------------------------------------------------------------------

/// Appends one character to `s` (calls `String::push`).
#[verifier::external_body]
pub(crate) fn push_char(s: &mut String, c: char)
    ensures
        final(s)@ == old(s)@.push(c),
{
    s.push(c)
}

/// The characters of `s`, collected into a vector.
pub fn str_chars(s: &str) -> (v: Vec<char>)
    ensures
        v@ == s@,
{
    let mut v: Vec<char> = Vec::new();
    for c in it: s.chars()
        invariant
            v@ == it.seq().take(it.index() as int),
            it.seq() == s@,
    {
        v.push(c);
        assert(c == it.seq()[it.index() as int]);
    }
    v
}

/// A `String` holding exactly the characters `v[from..to]`.
pub fn string_from_chars(v: &Vec<char>, from: usize, to: usize) -> (s: String)
    requires
        from <= to <= v.len(),
    ensures
        s@ == v@.subrange(from as int, to as int),
{
    let mut s = String::new();
    let mut i = from;
    while i < to
        invariant
            from <= i <= to <= v.len(),
            s@ == v@.subrange(from as int, i as int),
        decreases to - i,
    {
        push_char(&mut s, v[i]);
        assert(v@.subrange(from as int, i + 1) == v@.subrange(from as int, i as int).push(v@[i as int]));
        i = i + 1;
    }
    s
}

/// Number of characters of `s`.
pub fn char_len(s: &String) -> (n: usize)
    ensures
        n == s@.len(),
{
    s.as_str().unicode_len()
}

/// The character at index `i` of `s`.
pub fn char_at(s: &String, i: usize) -> (c: char)
    requires
        i < s@.len(),
    ensures
        c == s@[i as int],
{
    s.as_str().get_char(i)
}

/// A new `String` holding the characters `s[from..to]`.
pub fn substring(s: &String, from: usize, to: usize) -> (r: String)
    requires
        from <= to <= s@.len(),
    ensures
        r@ == s@.subrange(from as int, to as int),
{
    String::from_str(s.as_str().substring_char(from, to))
}

/// A new `String` holding `a` followed by `b`.
pub fn concat(a: &String, b: &String) -> (r: String)
    ensures
        r@ == a@ + b@,
{
    let mut r = a.clone();
    r.append(b.as_str());
    r
}

/// Appends `b` to `a`.
pub fn append(a: &mut String, b: &String)
    ensures
        final(a)@ == old(a)@ + b@,
{
    a.append(b.as_str());
}

/// Whether two strings hold the same characters.
pub fn same_text(a: &String, b: &String) -> (r: bool)
    ensures
        r == (a@ == b@),
{
    *a == *b
}

/// Whether `s` holds exactly the characters `lit`.
pub fn eq_str(s: &String, lit: &str) -> (r: bool)
    ensures
        r == (s@ == lit@),
{
    let t = String::from_str(lit);
    *s == t
}

// ---------------------------------------------------------------------------
// Splitting and joining on a separator character
// ---------------------------------------------------------------------------

/// Index of the first occurrence of `c` in `s` at or after `from`, if any.
pub open spec fn find_from(s: Seq<char>, c: char, from: int) -> Option<int>
    decreases s.len() - from,
{
    if from < 0 || from >= s.len() {
        None
    } else if s[from] == c {
        Some(from)
    } else {
        find_from(s, c, from + 1)
    }
}

/// `s` split at every `sep`, as `str::split` with a character pattern does:
/// `n` separators give `n + 1` pieces, and no piece holds `sep`.
pub open spec fn split_on(s: Seq<char>, sep: char) -> Seq<Seq<char>>
    decreases s.len(),
{
    match find_from(s, sep, 0) {
        None => seq![s],
        Some(i) => if 0 <= i < s.len() {
            seq![s.subrange(0, i)] + split_on(s.subrange(i + 1, s.len() as int), sep)
        } else {
            seq![s]
        },
    }
}

/// The pieces of `ls` joined with `sep` between consecutive pieces.
pub open spec fn join_with(ls: Seq<Seq<char>>, sep: char) -> Seq<char>
    decreases ls.len(),
{
    if ls.len() == 0 {
        seq![]
    } else if ls.len() == 1 {
        ls[0]
    } else {
        ls[0] + seq![sep] + join_with(ls.drop_first(), sep)
    }
}

pub proof fn lemma_find_from(s: Seq<char>, c: char, from: int)
    requires
        0 <= from,
    ensures
        match find_from(s, c, from) {
            None => forall|j: int| from <= j < s.len() ==> s[j] != c,
            Some(i) => from <= i < s.len() && s[i] == c && forall|j: int|
                from <= j < i ==> s[j] != c,
        },
    decreases s.len() - from,
{
    if from < s.len() && s[from] != c {
        lemma_find_from(s, c, from + 1);
    }
}

/// No element of `s` is `c`.
pub open spec fn free_of(s: Seq<char>, c: char) -> bool {
    forall|j: int| 0 <= j < s.len() ==> s[j] != c
}

/// Joining the pieces of a split gives the text back, and a split has at
/// least one piece, none holding the separator.
pub proof fn lemma_split_join(s: Seq<char>, sep: char)
    ensures
        join_with(split_on(s, sep), sep) == s,
        split_on(s, sep).len() >= 1,
        forall|k: int| 0 <= k < split_on(s, sep).len() ==> free_of(#[trigger] split_on(s, sep)[k], sep),
    decreases s.len(),
{
    lemma_find_from(s, sep, 0);
    match find_from(s, sep, 0) {
        None => {},
        Some(i) => {
            let rest = s.subrange(i + 1, s.len() as int);
            lemma_split_join(rest, sep);
            let tail = split_on(rest, sep);
            let all = seq![s.subrange(0, i)] + tail;
            assert(all.drop_first() == tail);
            assert(s == s.subrange(0, i) + seq![sep] + rest);
            assert forall|k: int| 0 <= k < all.len() implies free_of(#[trigger] all[k], sep) by {
                if k > 0 {
                    assert(all[k] == tail[k - 1]);
                }
            }
        },
    }
}

/// Splitting a join of separator-free pieces gives the pieces back.
pub proof fn lemma_join_split(ls: Seq<Seq<char>>, sep: char)
    requires
        ls.len() >= 1,
        forall|k: int| 0 <= k < ls.len() ==> free_of(#[trigger] ls[k], sep),
    ensures
        split_on(join_with(ls, sep), sep) == ls,
    decreases ls.len(),
{
    let j = join_with(ls, sep);
    if ls.len() == 1 {
        lemma_find_from(j, sep, 0);
        assert(find_from(j, sep, 0) is None) by {
            if find_from(j, sep, 0) is Some {
                let i = find_from(j, sep, 0)->0;
                assert(ls[0][i] == sep);
            }
        }
    } else {
        let rest = ls.drop_first();
        assert forall|k: int| 0 <= k < rest.len() implies free_of(#[trigger] rest[k], sep) by {
            assert(rest[k] == ls[k + 1]);
        }
        lemma_join_split(rest, sep);
        let n = ls[0].len() as int;
        lemma_find_from(j, sep, 0);
        assert(j[n] == sep);
        assert(forall|q: int| 0 <= q < n ==> j[q] == ls[0][q]);
        assert(find_from(j, sep, 0) == Some(n)) by {
            let f = find_from(j, sep, 0);
            if f is None {
                assert(j[n] != sep);
            } else {
                let i = f->0;
                if i < n {
                    assert(ls[0][i] == sep);
                }
            }
        }
        assert(j.subrange(0, n) == ls[0]);
        assert(j.subrange(n + 1, j.len() as int) == join_with(rest, sep));
        assert(seq![ls[0]] + rest == ls);
    }
}

/// Every character of every piece of a split is one `pred` accepts, where
/// `pred` accepts every character of the text.
pub proof fn lemma_split_chars(s: Seq<char>, sep: char, pred: spec_fn(char) -> bool)
    requires
        forall|i: int| 0 <= i < s.len() ==> pred(#[trigger] s[i]),
    ensures
        forall|k: int, j: int|
            0 <= k < split_on(s, sep).len() && 0 <= j < split_on(s, sep)[k].len() ==> pred(
                #[trigger] split_on(s, sep)[k][j],
            ),
    decreases s.len(),
{
    lemma_find_from(s, sep, 0);
    match find_from(s, sep, 0) {
        None => {
            assert(split_on(s, sep) == seq![s]);
        },
        Some(i) => {
            let rest = s.subrange(i + 1, s.len() as int);
            assert forall|q: int| 0 <= q < rest.len() implies pred(#[trigger] rest[q]) by {
                assert(rest[q] == s[q + i + 1]);
            }
            lemma_split_chars(rest, sep, pred);
            let tail = split_on(rest, sep);
            let all = seq![s.subrange(0, i)] + tail;
            assert(split_on(s, sep) == all);
            assert forall|k: int, j: int| 0 <= k < all.len() && 0 <= j < all[k].len() implies pred(
                #[trigger] all[k][j],
            ) by {
                if k == 0 {
                    assert(all[0][j] == s[j]);
                } else {
                    assert(all[k] == tail[k - 1]);
                }
            }
        },
    }
}

/// Joining pieces that are all empty gives nothing but separators.
pub proof fn lemma_join_empty_pieces(ls: Seq<Seq<char>>, sep: char)
    requires
        forall|k: int| 0 <= k < ls.len() ==> #[trigger] ls[k].len() == 0,
    ensures
        forall|j: int| 0 <= j < join_with(ls, sep).len() ==> #[trigger] join_with(ls, sep)[j] == sep,
    decreases ls.len(),
{
    if ls.len() >= 2 {
        let rest = ls.drop_first();
        assert forall|k: int| 0 <= k < rest.len() implies #[trigger] rest[k].len() == 0 by {
            assert(rest[k] == ls[k + 1]);
        }
        lemma_join_empty_pieces(rest, sep);
        assert(ls[0].len() == 0);
        assert(join_with(ls, sep) =~= seq![sep] + join_with(rest, sep));
    } else if ls.len() == 1 {
        assert(ls[0].len() == 0);
    }
}

/// `s` has no `sep` at either end nor two in a row, and every other
/// character is one `pred` accepts.
pub open spec fn separated(s: Seq<char>, sep: char, pred: spec_fn(char) -> bool) -> bool {
    &&& forall|i: int| 0 <= i < s.len() ==> #[trigger] s[i] == sep || pred(s[i])
    &&& s.len() > 0 ==> s[0] != sep && s[s.len() - 1] != sep
    &&& forall|i: int, j: int| 0 <= i && j == i + 1 && j < s.len() ==> !(#[trigger] s[i] == sep && #[trigger] s[j] == sep)
}

/// Joining non-empty pieces that hold no `sep` gives a separated text.
pub proof fn lemma_join_separated(ls: Seq<Seq<char>>, sep: char, pred: spec_fn(char) -> bool)
    requires
        forall|k: int| 0 <= k < ls.len() ==> #[trigger] ls[k].len() > 0,
        forall|k: int, j: int| 0 <= k < ls.len() && 0 <= j < ls[k].len() ==> #[trigger] ls[k][j] != sep && pred(ls[k][j]),
    ensures
        ls.len() > 0 ==> join_with(ls, sep).len() > 0,
        separated(join_with(ls, sep), sep, pred),
    decreases ls.len(),
{
    if ls.len() == 0 {
    } else if ls.len() == 1 {
        let a = ls[0];
        assert(join_with(ls, sep) == a);
        assert(a.len() > 0);
        assert forall|i: int| 0 <= i < a.len() implies a[i] != sep && pred(a[i]) by {
            assert(ls[0][i] == a[i]);
        }
    } else {
        let a = ls[0];
        let rest = ls.drop_first();
        assert forall|k: int| 0 <= k < rest.len() implies #[trigger] rest[k].len() > 0 by {
            assert(rest[k] == ls[k + 1]);
        }
        assert forall|k: int, j: int| 0 <= k < rest.len() && 0 <= j < rest[k].len() implies #[trigger] rest[k][j]
            != sep && pred(rest[k][j]) by {
            assert(rest[k] == ls[k + 1]);
            assert(ls[k + 1][j] == rest[k][j]);
        }
        lemma_join_separated(rest, sep, pred);
        let r = join_with(rest, sep);
        let s = join_with(ls, sep);
        let n = a.len() as int;
        assert(s == a + seq![sep] + r);
        assert(a.len() > 0);
        assert forall|i: int| 0 <= i < n implies s[i] == a[i] && a[i] != sep && pred(a[i]) by {
            assert(ls[0][i] == a[i]);
        }
        assert(s[n] == sep);
        assert forall|i: int| n < i < s.len() implies s[i] == r[i - n - 1] by {}
        assert forall|i: int| 0 <= i < s.len() implies #[trigger] s[i] == sep || pred(s[i]) by {
            if i < n {
            } else if i == n {
            } else {
                assert(s[i] == r[i - n - 1]);
            }
        }
        assert(s[s.len() - 1] == r[r.len() - 1]);
        assert forall|i: int, j: int| 0 <= i && j == i + 1 && j < s.len() implies !(#[trigger] s[i] == sep
            && #[trigger] s[j] == sep) by {
            if j < n {
            } else if j == n {
                assert(s[i] == a[n - 1]);
            } else if i == n {
                assert(s[j] == r[0]);
            } else {
                assert(s[i] == r[i - n - 1]);
                assert(s[j] == r[j - n - 1]);
            }
        }
    }
}

/// `s` split at every `sep` (the pieces of `str::split`).
pub fn split_chars(v: &Vec<char>, sep: char) -> (pieces: Vec<String>)
    ensures
        pieces@.map_values(|p: String| p@) == split_on(v@, sep),
{
    let mut pieces: Vec<String> = Vec::new();
    let mut start: usize = 0;
    let mut i: usize = 0;
    let ghost done: Seq<Seq<char>> = seq![];
    assert(v@.subrange(0, v.len() as int) == v@);
    while i < v.len()
        invariant
            start <= i <= v.len(),
            pieces@.map_values(|p: String| p@) == done,
            done + split_on(v@.subrange(start as int, v.len() as int), sep) == split_on(v@, sep),
            free_of(v@.subrange(start as int, i as int), sep),
        decreases v.len() - i,
    {
        if v[i] == sep {
            let piece = string_from_chars(v, start, i);
            proof {
                let t = v@.subrange(start as int, v.len() as int);
                lemma_find_from(t, sep, 0);
                let k = (i - start) as int;
                assert(t[k] == sep);
                assert(find_from(t, sep, 0) == Some(k)) by {
                    let f = find_from(t, sep, 0);
                    if f is None {
                    } else {
                        let q = f->0;
                        if q < k {
                            assert(t[q] == v@.subrange(start as int, i as int)[q]);
                        }
                    }
                }
                assert(t.subrange(0, k) == v@.subrange(start as int, i as int));
                assert(t.subrange(k + 1, t.len() as int) == v@.subrange(i + 1, v.len() as int));
                assert(done.push(piece@) + split_on(v@.subrange(i + 1, v.len() as int), sep)
                    == done + split_on(t, sep));
                done = done.push(piece@);
            }
            pieces.push(piece);
            assert(pieces@.map_values(|p: String| p@) == done);
            start = i + 1;
        } else {
            assert(v@.subrange(start as int, i + 1) == v@.subrange(start as int, i as int).push(v@[i as int]));
        }
        i = i + 1;
    }
    let last = string_from_chars(v, start, v.len());
    proof {
        let t = v@.subrange(start as int, v.len() as int);
        lemma_find_from(t, sep, 0);
        assert(find_from(t, sep, 0) is None) by {
            let f = find_from(t, sep, 0);
            if f is Some {
                let q = f->0;
                assert(t[q] == v@.subrange(start as int, i as int)[q]);
            }
        }
        assert(done.push(last@) == split_on(v@, sep));
    }
    pieces.push(last);
    assert(pieces@.map_values(|p: String| p@) == split_on(v@, sep));
    pieces
}

/// The strings of `pieces[from..]` joined with `sep`.
pub fn join_strings(pieces: &Vec<String>, sep: char) -> (s: String)
    ensures
        s@ == join_with(pieces@.map_values(|p: String| p@), sep),
{
    let ghost all = pieces@.map_values(|p: String| p@);
    if pieces.len() == 0 {
        assert(all.len() == 0);
        return String::new();
    }
    let mut s = pieces[0].clone();
    let mut i: usize = 1;
    proof {
        assert(all.take(1) == seq![all[0]]);
    }
    while i < pieces.len()
        invariant
            1 <= i <= pieces.len(),
            all == pieces@.map_values(|p: String| p@),
            s@ == join_with(all.take(i as int), sep),
        decreases pieces.len() - i,
    {
        proof {
            lemma_join_push(all.take(i as int), all[i as int], sep);
            assert(all.take(i as int).push(all[i as int]) == all.take(i + 1));
        }
        push_char(&mut s, sep);
        append(&mut s, &pieces[i]);
        i = i + 1;
    }
    assert(all.take(pieces.len() as int) == all);
    s
}

/// Joining with one more piece at the end appends the separator and it.
pub proof fn lemma_join_push(ls: Seq<Seq<char>>, x: Seq<char>, sep: char)
    requires
        ls.len() >= 1,
    ensures
        join_with(ls.push(x), sep) == join_with(ls, sep) + seq![sep] + x,
    decreases ls.len(),
{
    if ls.len() == 1 {
        assert(ls.push(x).drop_first() == seq![x]);
        assert(ls.push(x)[0] == ls[0]);
        assert(join_with(seq![x], sep) == x);
        assert(join_with(ls, sep) == ls[0]);
        assert(join_with(ls.push(x), sep) == ls[0] + seq![sep] + join_with(seq![x], sep));
    } else {
        lemma_join_push(ls.drop_first(), x, sep);
        assert(ls.push(x).drop_first() == ls.drop_first().push(x));
        assert(ls.push(x)[0] == ls[0]);
        let a = ls[0];
        let b = join_with(ls.drop_first(), sep);
        assert(join_with(ls.push(x), sep) == a + seq![sep] + join_with(ls.drop_first().push(x), sep));
        assert(a + seq![sep] + (b + seq![sep] + x) =~= (a + seq![sep] + b) + seq![sep] + x);
    }
}

/// A split has at most one more piece than the text has characters, and
/// no piece is longer than the text.
pub proof fn lemma_split_len(s: Seq<char>, sep: char)
    ensures
        split_on(s, sep).len() <= s.len() + 1,
        forall|k: int| 0 <= k < split_on(s, sep).len() ==> (#[trigger] split_on(s, sep)[k]).len() <= s.len(),
    decreases s.len(),
{
    lemma_find_from(s, sep, 0);
    match find_from(s, sep, 0) {
        None => {},
        Some(i) => {
            let rest = s.subrange(i + 1, s.len() as int);
            lemma_split_len(rest, sep);
            let all = seq![s.subrange(0, i)] + split_on(rest, sep);
            assert forall|k: int| 0 <= k < all.len() implies (#[trigger] all[k]).len() <= s.len() by {
                if k > 0 {
                    assert(all[k] == split_on(rest, sep)[k - 1]);
                }
            }
        },
    }
}

// ---------------------------------------------------------------------------
// Trimming
// ---------------------------------------------------------------------------

/// `s` without leading and trailing whitespace.
pub open spec fn trim(s: Seq<char>) -> Seq<char> {
    trim_start(trim_end(s))
}

pub open spec fn trim_start(s: Seq<char>) -> Seq<char>
    decreases s.len(),
{
    if s.len() > 0 && is_ws(s[0]) {
        trim_start(s.drop_first())
    } else {
        s
    }
}

pub open spec fn trim_end(s: Seq<char>) -> Seq<char>
    decreases s.len(),
{
    if s.len() > 0 && is_ws(s.last()) {
        trim_end(s.drop_last())
    } else {
        s
    }
}

/// `s` without leading and trailing whitespace (as `str::trim`).
pub fn trim_ws(s: &String) -> (r: String)
    ensures
        r@ == trim(s@),
{
    let v = str_chars(s.as_str());
    let mut e = v.len();
    assert(v@.subrange(0, e as int) =~= v@);
    while e > 0 && is_whitespace(v[e - 1])
        invariant
            e <= v@.len(),
            trim_end(v@) == trim_end(v@.subrange(0, e as int)),
        decreases e,
    {
        assert(v@.subrange(0, e as int).drop_last() =~= v@.subrange(0, e - 1));
        e = e - 1;
    }
    assert(trim_end(v@.subrange(0, e as int)) == v@.subrange(0, e as int));
    let mut b: usize = 0;
    assert(v@.subrange(0, e as int).subrange(0, e as int) =~= v@.subrange(0, e as int));
    while b < e && is_whitespace(v[b])
        invariant
            b <= e <= v@.len(),
            trim_start(v@.subrange(0, e as int)) == trim_start(v@.subrange(b as int, e as int)),
        decreases e - b,
    {
        assert(v@.subrange(b as int, e as int).drop_first() =~= v@.subrange(b + 1, e as int));
        b = b + 1;
    }
    string_from_chars(&v, b, e)
}

/// The characters of each string in `v`.
pub open spec fn strings_view(v: Seq<String>) -> Seq<Seq<char>> {
    v.map_values(|p: String| p@)
}

/// Pushing a string pushes its characters onto the view.
pub proof fn lemma_strings_view_push(v: Seq<String>, x: String)
    ensures
        strings_view(v.push(x)) == strings_view(v).push(x@),
{
    assert(strings_view(v.push(x)) =~= strings_view(v).push(x@));
}

/// `s` without leading whitespace (as `str::trim_start`).
pub fn trim_start_ws(s: &String) -> (r: String)
    ensures
        r@ == trim_start(s@),
{
    let v = str_chars(s.as_str());
    let mut b: usize = 0;
    assert(v@.subrange(0, v.len() as int) =~= v@);
    while b < v.len() && is_whitespace(v[b])
        invariant
            b <= v@.len(),
            trim_start(v@) == trim_start(v@.subrange(b as int, v@.len() as int)),
        decreases v.len() - b,
    {
        assert(v@.subrange(b as int, v@.len() as int).drop_first() =~= v@.subrange(b + 1, v@.len() as int));
        b = b + 1;
    }
    string_from_chars(&v, b, v.len())
}

} // verus!
