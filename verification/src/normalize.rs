//! The title normalizer: parses a raw filename into a canonical
//! (artist, title, version) triple. Track-number prefixes, brackets and
//! underscores are stripped; the artist field is lower-cased, translated
//! to a sorted comma-joined list of names; the trailing parenthetical of
//! the title, if closed, becomes the version annotation.
use vstd::prelude::*;

use crate::text::{
    chars_to_string, clone_chars, find_char_from, find_sub, is_digit, is_space, join_chars,
    lower_chars, lower_of, prefix_len, lemma_prefix_len_at, replace_all, rfind_char, slice_chars,
    sort_strs, spec_find_char_from, spec_find_sub_from, spec_is_digit, spec_is_space, spec_join,
    spec_replace, spec_rfind_char, spec_sort, spec_split_char, spec_trim, split_char, str_to_chars,
    trim_chars, views_of,
};

verus! {

/// The canonical triple that a filename normalizes to. `artist` and
/// `title` are lower-cased and trimmed; a multi-artist field is
/// alphabetically sorted and comma-joined.
pub struct ParsedTitle {
    pub artist: String,
    pub title: String,
    pub version: Option<String>,
}

/// The mathematical value of a `ParsedTitle`.
pub struct ParsedView {
    pub artist: Seq<char>,
    pub title: Seq<char>,
    pub version: Option<Seq<char>>,
}

/// The view of an optional string.
pub open spec fn view_opt(o: Option<String>) -> Option<Seq<char>> {
    match o {
        Some(s) => Some(s@),
        None => None,
    }
}

impl View for ParsedTitle {
    type V = ParsedView;

    open spec fn view(&self) -> ParsedView {
        ParsedView {
            artist: self.artist@,
            title: self.title@,
            version: view_opt(self.version),
        }
    }
}

/// `s` up to its last `.`, or all of it when it has none.
pub open spec fn spec_strip_extension(s: Seq<char>) -> Seq<char> {
    match spec_rfind_char(s, '.') {
        Some(i) => s.take(i),
        None => s,
    }
}

/// `s` with `[` and `]` removed and `_` replaced by a space.
pub open spec fn spec_clean_chars(s: Seq<char>) -> Seq<char>
    decreases s.len(),
{
    if s.len() == 0 {
        Seq::empty()
    } else {
        let rest = spec_clean_chars(s.drop_first());
        if s[0] == '[' || s[0] == ']' {
            rest
        } else if s[0] == '_' {
            seq![' '] + rest
        } else {
            seq![s[0]] + rest
        }
    }
}

/// How many characters a leading track number (digits, an optional dot,
/// optional whitespace) takes up at the front of `s`.
pub open spec fn spec_track_prefix_len(s: Seq<char>) -> int {
    let d = prefix_len(s, |c: char| spec_is_digit(c));
    if d == 0 {
        0
    } else {
        let e = if d < s.len() && s[d] == '.' {
            d + 1
        } else {
            d
        };
        e + prefix_len(s.skip(e), |c: char| spec_is_space(c))
    }
}

/// One artist name: trimmed, with any parenthetical suffix cut off.
pub open spec fn spec_artist_part(p: Seq<char>) -> Seq<char> {
    let t = spec_trim(p);
    match spec_find_char_from(t, '(', 0) {
        Some(i) => spec_trim(t.take(i)),
        None => t,
    }
}

/// The normalized artist field: lower-cased, featuring-variants unified,
/// the comma-separated names cleaned, sorted and rejoined.
pub open spec fn spec_norm_artist(a: Seq<char>) -> Seq<char> {
    let r1 = spec_replace(lower_of(a), "feat."@, "featuring"@);
    let r2 = spec_replace(r1, "ft."@, "featuring"@);
    let r3 = spec_replace(r2, " x "@, " featuring "@);
    let parts = spec_split_char(r3, ',');
    spec_join(spec_sort(parts.map_values(|p: Seq<char>| spec_artist_part(p))), ", "@)
}

/// The title and optional version annotation of the part after the
/// artist separator: the last `(`, if closed by a later `)`, delimits
/// the annotation; both results are trimmed and lower-cased.
pub open spec fn spec_title_version(t: Seq<char>) -> (Seq<char>, Option<Seq<char>>) {
    match spec_rfind_char(t, '(') {
        Some(j) => match spec_find_char_from(t, ')', j) {
            Some(k) => (
                lower_of(spec_trim(t.take(j))),
                Some(lower_of(spec_trim(t.subrange(j + 1, k)))),
            ),
            None => (lower_of(spec_trim(t)), None),
        },
        None => (lower_of(spec_trim(t)), None),
    }
}

/// What `normalize` returns for a filename.
pub open spec fn spec_normalize(f: Seq<char>) -> ParsedView {
    let s = spec_trim(spec_clean_chars(spec_strip_extension(f)));
    let u = s.skip(spec_track_prefix_len(s));
    match spec_find_sub_from(u, " - "@, 0) {
        None => ParsedView { artist: u, title: u, version: None },
        Some(i) => {
            let tv = spec_title_version(u.skip(i + 3));
            ParsedView {
                artist: spec_norm_artist(spec_trim(u.take(i))),
                title: tv.0,
                version: tv.1,
            }
        },
    }
}

/// Remove the extension of `v`: everything from the last `.` on.
fn strip_extension(v: &Vec<char>) -> (r: Vec<char>)
    ensures
        r@ == spec_strip_extension(v@),
{
    match rfind_char(v, '.') {
        Some(i) => slice_chars(v, 0, i),
        None => clone_chars(v),
    }
}

/// Remove brackets and replace underscores by spaces.
fn clean_chars(v: &Vec<char>) -> (r: Vec<char>)
    ensures
        r@ == spec_clean_chars(v@),
{
    let n: usize = v.len();
    let mut out: Vec<char> = Vec::new();
    let mut i: usize = 0;
    assert(v@.skip(0) =~= v@);
    assert(out@ + spec_clean_chars(v@) =~= spec_clean_chars(v@));
    while i < n
        invariant
            n == v@.len(),
            i <= n,
            out@ + spec_clean_chars(v@.skip(i as int)) == spec_clean_chars(v@),
        decreases n - i,
    {
        let c = v[i];
        assert(v@.skip(i as int)[0] == c);
        assert(v@.skip(i as int).drop_first() =~= v@.skip(i + 1));
        if c == '[' || c == ']' {
        } else if c == '_' {
            out.push(' ');
        } else {
            out.push(c);
        }
        i = i + 1;
    }
    assert(v@.skip(n as int) =~= Seq::<char>::empty());
    out
}

/// Remove a leading track number: digits, an optional dot, whitespace.
fn strip_track_prefix(v: &Vec<char>) -> (r: Vec<char>)
    ensures
        r@ == v@.skip(spec_track_prefix_len(v@)),
{
    let n: usize = v.len();
    let mut d: usize = 0;
    while d < n && is_digit(v[d])
        invariant
            n == v@.len(),
            d <= n,
            forall|k: int| 0 <= k < d ==> spec_is_digit(v@[k]),
        decreases n - d,
    {
        d = d + 1;
    }
    proof {
        lemma_prefix_len_at(v@, |c: char| spec_is_digit(c), d as int);
    }
    if d == 0 {
        let r = clone_chars(v);
        assert(v@.skip(0) =~= v@);
        return r;
    }
    let e: usize = if d < n && v[d] == '.' {
        d + 1
    } else {
        d
    };
    let ghost t = v@.skip(e as int);
    let mut k: usize = e;
    while k < n && is_space(v[k])
        invariant
            n == v@.len(),
            e <= k <= n,
            forall|j: int| e <= j < k ==> spec_is_space(v@[j]),
        decreases n - k,
    {
        k = k + 1;
    }
    proof {
        assert(forall|j: int| 0 <= j < k - e ==> t[j] == v@[j + e]);
        lemma_prefix_len_at(t, |c: char| spec_is_space(c), k - e);
        assert(spec_track_prefix_len(v@) == k as int);
    }
    slice_chars(v, k, n)
}

/// Normalize one artist name: trim it and cut any parenthetical suffix.
fn artist_part(p: &Vec<char>) -> (r: Vec<char>)
    ensures
        r@ == spec_artist_part(p@),
{
    let t = trim_chars(p);
    match find_char_from(&t, '(', 0) {
        Some(i) => {
            let cut = slice_chars(&t, 0, i);
            trim_chars(&cut)
        },
        None => t,
    }
}

/// Normalize the artist field of a filename.
fn norm_artist(a: &Vec<char>) -> (r: Vec<char>)
    ensures
        r@ == spec_norm_artist(a@),
{
    let low = lower_chars(a);
    proof {
        reveal_strlit("feat.");
        reveal_strlit("ft.");
        reveal_strlit(" x ");
    }
    let r1 = replace_all(&low, &str_to_chars("feat."), &str_to_chars("featuring"));
    let r2 = replace_all(&r1, &str_to_chars("ft."), &str_to_chars("featuring"));
    let r3 = replace_all(&r2, &str_to_chars(" x "), &str_to_chars(" featuring "));
    let parts = split_char(&r3, ',');
    let m: usize = parts.len();
    let mut cleaned: Vec<Vec<char>> = Vec::new();
    let mut j: usize = 0;
    while j < m
        invariant
            m == parts@.len(),
            j <= m,
            views_of(parts@) == spec_split_char(r3@, ','),
            r3@ == spec_replace(r2@, " x "@, " featuring "@),
            views_of(cleaned@) == views_of(parts@).take(j as int).map_values(
                |p: Seq<char>| spec_artist_part(p),
            ),
        decreases m - j,
    {
        let part = artist_part(&parts[j]);
        cleaned.push(part);
        proof {
            let vs = views_of(parts@);
            assert(vs.take(j + 1 as int) =~= vs.take(j as int).push(vs[j as int]));
            assert(views_of(cleaned@) =~= vs.take(j as int).map_values(
                |p: Seq<char>| spec_artist_part(p),
            ).push(spec_artist_part(vs[j as int])));
            assert(vs.take(j + 1 as int).map_values(|p: Seq<char>| spec_artist_part(p)) =~= vs.take(
                j as int,
            ).map_values(|p: Seq<char>| spec_artist_part(p)).push(
                spec_artist_part(vs[j as int]),
            ));
        }
        j = j + 1;
    }
    proof {
        assert(views_of(parts@).take(m as int) =~= views_of(parts@));
    }
    let sorted = sort_strs(&cleaned);
    join_chars(&sorted, &str_to_chars(", "))
}

/// Lower-case a trimmed slice of `v` and hand it back as a string.
fn lowered_trimmed(v: &Vec<char>) -> (r: String)
    ensures
        r@ == lower_of(spec_trim(v@)),
{
    let t = trim_chars(v);
    chars_to_string(lower_chars(&t))
}

/// Parse a filename into its canonical (artist, title, version) triple.
///
/// The extension and any leading track number are stripped, brackets are
/// removed and underscores become spaces. Without a ` - ` separator the
/// whole cleaned string is both artist and title and there is no
/// version. Otherwise the artist field is normalized, and the trailing
/// closed parenthetical of the title, if any, becomes the version.
pub fn normalize(filename: &str) -> (r: ParsedTitle)
    ensures
        r@ == spec_normalize(filename@),
{
    let f = str_to_chars(filename);
    let base = strip_extension(&f);
    let cleaned = clean_chars(&base);
    let trimmed = trim_chars(&cleaned);
    let u = strip_track_prefix(&trimmed);
    let sep = str_to_chars(" - ");
    let n: usize = u.len();
    proof {
        reveal_strlit(" - ");
    }
    match find_sub(&u, &sep) {
        None => {
            let a = chars_to_string(clone_chars(&u));
            let t = chars_to_string(clone_chars(&u));
            ParsedTitle { artist: a, title: t, version: None }
        },
        Some(i) => {
            let head = slice_chars(&u, 0, i);
            let head_trimmed = trim_chars(&head);
            let artist = chars_to_string(norm_artist(&head_trimmed));
            let t0 = slice_chars(&u, i + 3, n);
            assert(t0@ =~= u@.skip(i + 3));
            let (title, version) = title_version(&t0);
            ParsedTitle { artist, title, version }
        },
    }
}

/// Normalization is deterministic: any two results of normalizing the
/// same filename are the same triple, so repeated calls always agree.
pub proof fn lemma_normalize_deterministic(f: Seq<char>, r1: ParsedView, r2: ParsedView)
    requires
        r1 == spec_normalize(f),
        r2 == spec_normalize(f),
    ensures
        r1 == r2,
{
}

/// Split the post-separator part into title and optional version.
fn title_version(t: &Vec<char>) -> (r: (String, Option<String>))
    ensures
        (r.0@, view_opt(r.1)) == spec_title_version(t@),
{
    match rfind_char(t, '(') {
        Some(j) => {
            proof {
                crate::text::lemma_rfind_char_range(t@, '(');
                crate::text::lemma_find_char_from_range(t@, ')', j as int);
            }
            match find_char_from(t, ')', j) {
                Some(k) => {
                    let head = slice_chars(t, 0, j);
                    let enclosed = slice_chars(t, j + 1, k);
                    let title = lowered_trimmed(&head);
                    let version = lowered_trimmed(&enclosed);
                    (title, Some(version))
                },
                None => (lowered_trimmed(t), None),
            }
        },
        None => (lowered_trimmed(t), None),
    }
}

} // verus!
