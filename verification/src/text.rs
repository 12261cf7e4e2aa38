//! Character-level text utilities: conversions between `String` and
//! `Vec<char>`, trimming, searching, splitting, replacing, joining,
//! lexicographic ordering and decimal formatting. Every executable
//! function is specified exactly against a spec function over `Seq<char>`.
use vstd::prelude::*;

verus! {

/// The characters that `str::to_lowercase` maps a string's characters to.
/// The result depends on the characters alone (locale-independent), so it
/// is given a name here rather than a definition.
pub uninterp spec fn lower_of(s: Seq<char>) -> Seq<char>;

/// Relies on `str::to_lowercase`: locale-independent Unicode lowercasing,
/// a function of the input characters alone; an empty string stays empty.
#[verifier::external_body]
pub fn lowercase(s: &str) -> (r: String)
    ensures
        r@ == lower_of(s@),
        s@.len() == 0 ==> r@.len() == 0,
{
    s.to_lowercase()
}

/// Relies on `String: FromIterator<char>`: collecting the characters of a
/// `Vec<char>` in order yields the string of exactly those characters.
#[verifier::external_body]
pub fn chars_to_string(v: Vec<char>) -> (s: String)
    ensures
        s@ == v@,
{
    String::from_iter(v)
}

/// The characters of a string slice, in order.
pub fn str_to_chars(s: &str) -> (v: Vec<char>)
    ensures
        v@ == s@,
{
    let n: usize = s.unicode_len();
    let mut v: Vec<char> = Vec::new();
    for i in 0..n
        invariant
            n == s@.len(),
            v@ == s@.subrange(0, i as int),
    {
        v.push(s.get_char(i));
        assert(v@ =~= s@.subrange(0, i + 1 as int));
    }
    assert(v@ =~= s@);
    v
}

/// Lowercase a character vector through `lowercase`.
pub fn lower_chars(v: &Vec<char>) -> (r: Vec<char>)
    ensures
        r@ == lower_of(v@),
{
    let s = chars_to_string(clone_chars(v));
    let low = lowercase(s.as_str());
    str_to_chars(low.as_str())
}

/// An element-for-element copy of a character vector.
pub fn clone_chars(v: &Vec<char>) -> (r: Vec<char>)
    ensures
        r@ == v@,
{
    let mut r: Vec<char> = Vec::new();
    let n: usize = v.len();
    for i in 0..n
        invariant
            n == v@.len(),
            r@ == v@.subrange(0, i as int),
    {
        r.push(v[i]);
        assert(r@ =~= v@.subrange(0, i + 1 as int));
    }
    assert(r@ =~= v@);
    r
}

/// The slice of a character vector between two indices.
pub fn slice_chars(v: &Vec<char>, from: usize, to: usize) -> (r: Vec<char>)
    requires
        from <= to <= v@.len(),
    ensures
        r@ == v@.subrange(from as int, to as int),
{
    let mut r: Vec<char> = Vec::new();
    for i in from..to
        invariant
            from <= i <= to <= v@.len(),
            r@ == v@.subrange(from as int, i as int),
    {
        r.push(v[i]);
        assert(r@ =~= v@.subrange(from as int, i + 1 as int));
    }
    r
}

/// Whitespace in the sense of `char::is_whitespace`.
pub open spec fn spec_is_space(c: char) -> bool {
    c == ' ' || c == '\t' || c == '\n' || c == '\r' || c == '\u{000B}' || c == '\u{000C}'
        || c == '\u{0085}' || c == '\u{00A0}' || c == '\u{1680}' || c == '\u{2000}'
        || c == '\u{2001}' || c == '\u{2002}' || c == '\u{2003}' || c == '\u{2004}'
        || c == '\u{2005}' || c == '\u{2006}' || c == '\u{2007}' || c == '\u{2008}'
        || c == '\u{2009}' || c == '\u{200A}' || c == '\u{2028}' || c == '\u{2029}'
        || c == '\u{202F}' || c == '\u{205F}' || c == '\u{3000}'
}

/// Executable test for `spec_is_space`.
pub fn is_space(c: char) -> (r: bool)
    ensures
        r == spec_is_space(c),
{
    c == ' ' || c == '\t' || c == '\n' || c == '\r' || c == '\u{000B}' || c == '\u{000C}'
        || c == '\u{0085}' || c == '\u{00A0}' || c == '\u{1680}' || c == '\u{2000}'
        || c == '\u{2001}' || c == '\u{2002}' || c == '\u{2003}' || c == '\u{2004}'
        || c == '\u{2005}' || c == '\u{2006}' || c == '\u{2007}' || c == '\u{2008}'
        || c == '\u{2009}' || c == '\u{200A}' || c == '\u{2028}' || c == '\u{2029}'
        || c == '\u{202F}' || c == '\u{205F}' || c == '\u{3000}'
}

/// ASCII decimal digit.
pub open spec fn spec_is_digit(c: char) -> bool {
    '0' <= c && c <= '9'
}

/// Executable test for `spec_is_digit`.
pub fn is_digit(c: char) -> (r: bool)
    ensures
        r == spec_is_digit(c),
{
    '0' <= c && c <= '9'
}

/// How many characters at the front of `s` satisfy `pred`.
pub open spec fn prefix_len(s: Seq<char>, pred: spec_fn(char) -> bool) -> int
    decreases s.len(),
{
    if s.len() > 0 && pred(s[0]) {
        1 + prefix_len(s.drop_first(), pred)
    } else {
        0
    }
}

/// How many characters at the back of `s` satisfy `pred`.
pub open spec fn suffix_len(s: Seq<char>, pred: spec_fn(char) -> bool) -> int
    decreases s.len(),
{
    if s.len() > 0 && pred(s.last()) {
        1 + suffix_len(s.drop_last(), pred)
    } else {
        0
    }
}

/// `prefix_len` is the first index whose character fails `pred`.
pub proof fn lemma_prefix_len_at(s: Seq<char>, pred: spec_fn(char) -> bool, i: int)
    requires
        0 <= i <= s.len(),
        forall|k: int| 0 <= k < i ==> pred(s[k]),
        i == s.len() || !pred(s[i]),
    ensures
        prefix_len(s, pred) == i,
    decreases i,
{
    if i == 0 {
    } else {
        assert(pred(s[0]));
        lemma_prefix_len_at(s.drop_first(), pred, i - 1);
    }
}

/// `suffix_len` is the count past the last index whose character fails `pred`.
pub proof fn lemma_suffix_len_at(s: Seq<char>, pred: spec_fn(char) -> bool, i: int)
    requires
        0 <= i <= s.len(),
        forall|k: int| i <= k < s.len() ==> pred(s[k]),
        i == 0 || !pred(s[i - 1]),
    ensures
        suffix_len(s, pred) == s.len() - i,
    decreases s.len() - i,
{
    if i == s.len() {
    } else {
        assert(pred(s.last()));
        lemma_suffix_len_at(s.drop_last(), pred, i);
    }
}

/// `s` with leading and trailing whitespace removed.
pub open spec fn spec_trim(s: Seq<char>) -> Seq<char> {
    let t = s.skip(prefix_len(s, |c: char| spec_is_space(c)));
    t.take(t.len() - suffix_len(t, |c: char| spec_is_space(c)))
}

/// Trim whitespace from both ends of a character vector.
pub fn trim_chars(v: &Vec<char>) -> (r: Vec<char>)
    ensures
        r@ == spec_trim(v@),
{
    let n: usize = v.len();
    let mut a: usize = 0;
    while a < n && is_space(v[a])
        invariant
            n == v@.len(),
            a <= n,
            forall|k: int| 0 <= k < a ==> spec_is_space(v@[k]),
        decreases n - a,
    {
        a = a + 1;
    }
    proof {
        lemma_prefix_len_at(v@, |c: char| spec_is_space(c), a as int);
    }
    let ghost t = v@.skip(a as int);
    let mut b: usize = n;
    while b > a && is_space(v[b - 1])
        invariant
            n == v@.len(),
            a <= b <= n,
            forall|k: int| b <= k < n ==> spec_is_space(v@[k]),
        decreases b,
    {
        b = b - 1;
    }
    proof {
        assert(forall|k: int| b - a <= k < t.len() ==> spec_is_space(#[trigger] t[k]));
        if b > a {
            assert(t[b - a - 1] == v@[b - 1]);
        }
        lemma_suffix_len_at(t, |c: char| spec_is_space(c), b - a);
    }
    let r = slice_chars(v, a, b);
    assert(r@ =~= spec_trim(v@));
    r
}

/// The least index `>= from` where `c` occurs in `s`, if any.
pub open spec fn spec_find_char_from(s: Seq<char>, c: char, from: int) -> Option<int>
    decreases s.len() - from,
{
    if from < 0 || from >= s.len() {
        None
    } else if s[from] == c {
        Some(from)
    } else {
        spec_find_char_from(s, c, from + 1)
    }
}

/// Find the first occurrence of `c` in `v` at or after `from`.
pub fn find_char_from(v: &Vec<char>, c: char, from: usize) -> (r: Option<usize>)
    ensures
        match r {
            Some(i) => from <= i < v@.len() && spec_find_char_from(v@, c, from as int) == Some(
                i as int,
            ),
            None => spec_find_char_from(v@, c, from as int) is None,
        },
{
    let n: usize = v.len();
    let mut i: usize = from;
    while i < n
        invariant
            n == v@.len(),
            from <= i,
            spec_find_char_from(v@, c, from as int) == spec_find_char_from(v@, c, i as int),
        decreases n - i,
    {
        if v[i] == c {
            return Some(i);
        }
        i = i + 1;
    }
    None
}

/// The greatest index where `c` occurs in `s`, if any.
pub open spec fn spec_rfind_char(s: Seq<char>, c: char) -> Option<int>
    decreases s.len(),
{
    if s.len() == 0 {
        None
    } else if s.last() == c {
        Some(s.len() - 1)
    } else {
        spec_rfind_char(s.drop_last(), c)
    }
}

/// Find the last occurrence of `c` in `v`.
pub fn rfind_char(v: &Vec<char>, c: char) -> (r: Option<usize>)
    ensures
        match r {
            Some(i) => i < v@.len() && spec_rfind_char(v@, c) == Some(i as int),
            None => spec_rfind_char(v@, c) is None,
        },
{
    let mut i: usize = v.len();
    assert(v@.take(i as int) =~= v@);
    while i > 0
        invariant
            i <= v@.len(),
            spec_rfind_char(v@, c) == spec_rfind_char(v@.take(i as int), c),
        decreases i,
    {
        i = i - 1;
        if v[i] == c {
            assert(v@.take(i + 1 as int).last() == v@[i as int]);
            return Some(i);
        }
        assert(v@.take(i + 1 as int).drop_last() =~= v@.take(i as int));
    }
    assert(v@.take(0) =~= Seq::<char>::empty());
    None
}

/// What `spec_rfind_char` finds: the greatest occurrence.
pub proof fn lemma_rfind_char_range(s: Seq<char>, c: char)
    ensures
        match spec_rfind_char(s, c) {
            Some(i) => 0 <= i < s.len() && s[i] == c && forall|k: int|
                i < k < s.len() ==> s[k] != c,
            None => forall|k: int| 0 <= k < s.len() ==> s[k] != c,
        },
    decreases s.len(),
{
    if s.len() > 0 && s.last() != c {
        lemma_rfind_char_range(s.drop_last(), c);
        assert(forall|k: int| 0 <= k < s.len() - 1 ==> s[k] == s.drop_last()[k]);
    }
}

/// Whether `sub` occurs at index `i` of `s`.
pub open spec fn spec_match_at(s: Seq<char>, sub: Seq<char>, i: int) -> bool {
    0 <= i && i + sub.len() <= s.len() && s.subrange(i, i + sub.len()) == sub
}

/// Whether `sub` occurs anywhere in `s` (an empty `sub` always does).
pub open spec fn spec_contains(s: Seq<char>, sub: Seq<char>) -> bool {
    exists|i: int| spec_match_at(s, sub, i)
}

/// Whether `sub` occurs at index `i` of `v`.
pub fn match_at(v: &Vec<char>, sub: &Vec<char>, i: usize) -> (r: bool)
    requires
        i + sub@.len() <= v@.len(),
    ensures
        r == spec_match_at(v@, sub@, i as int),
{
    let n: usize = v.len();
    let m: usize = sub.len();
    let mut k: usize = 0;
    while k < m
        invariant
            n == v@.len(),
            m == sub@.len(),
            i + m <= n,
            k <= m,
            forall|j: int| 0 <= j < k ==> v@[i + j] == sub@[j],
        decreases m - k,
    {
        if v[i + k] != sub[k] {
            assert(v@.subrange(i as int, i + m) != sub@) by {
                assert(v@.subrange(i as int, i + m)[k as int] != sub@[k as int]);
            }
            return false;
        }
        k = k + 1;
    }
    assert(v@.subrange(i as int, i + m) =~= sub@);
    true
}

/// Whether `sub` occurs anywhere in `v`.
pub fn contains_sub(v: &Vec<char>, sub: &Vec<char>) -> (r: bool)
    ensures
        r == spec_contains(v@, sub@),
{
    let n: usize = v.len();
    let m: usize = sub.len();
    if m > n {
        assert(!spec_contains(v@, sub@)) by {
            assert(forall|i: int| !spec_match_at(v@, sub@, i));
        }
        return false;
    }
    if m == 0 {
        assert(v@.subrange(0, 0) =~= sub@);
        assert(spec_match_at(v@, sub@, 0));
        return true;
    }
    let mut i: usize = 0;
    while i <= n - m
        invariant
            n == v@.len(),
            m == sub@.len(),
            0 < m <= n,
            i <= n - m + 1,
            forall|j: int| 0 <= j < i ==> !spec_match_at(v@, sub@, j),
        decreases n - i,
    {
        if match_at(v, sub, i) {
            return true;
        }
        i = i + 1;
    }
    assert(forall|j: int| !spec_match_at(v@, sub@, j));
    false
}

/// The least index `>= from` where `sub` occurs in `s`, if any.
pub open spec fn spec_find_sub_from(s: Seq<char>, sub: Seq<char>, from: int) -> Option<int>
    decreases s.len() - from,
{
    if from < 0 || from + sub.len() > s.len() {
        None
    } else if sub.len() == 0 || s.subrange(from, from + sub.len()) == sub {
        Some(from)
    } else {
        spec_find_sub_from(s, sub, from + 1)
    }
}

/// Find the first occurrence of a non-empty `sub` in `v`.
pub fn find_sub(v: &Vec<char>, sub: &Vec<char>) -> (r: Option<usize>)
    requires
        sub@.len() > 0,
    ensures
        match r {
            Some(i) => i + sub@.len() <= v@.len() && spec_find_sub_from(v@, sub@, 0) == Some(
                i as int,
            ),
            None => spec_find_sub_from(v@, sub@, 0) is None,
        },
{
    let n: usize = v.len();
    let m: usize = sub.len();
    if m > n {
        return None;
    }
    let mut i: usize = 0;
    while i <= n - m
        invariant
            n == v@.len(),
            m == sub@.len(),
            0 < m <= n,
            i <= n - m + 1,
            spec_find_sub_from(v@, sub@, 0) == spec_find_sub_from(v@, sub@, i as int),
        decreases n - i,
    {
        if match_at(v, sub, i) {
            return Some(i);
        }
        i = i + 1;
    }
    None
}

/// Whether `s` ends with `suffix`.
pub open spec fn spec_ends_with(s: Seq<char>, suffix: Seq<char>) -> bool {
    s.len() >= suffix.len() && s.skip(s.len() - suffix.len()) == suffix
}

/// Whether `v` ends with `suffix`.
pub fn ends_with(v: &Vec<char>, suffix: &Vec<char>) -> (r: bool)
    ensures
        r == spec_ends_with(v@, suffix@),
{
    let n: usize = v.len();
    let m: usize = suffix.len();
    if m > n {
        return false;
    }
    let r = match_at(v, suffix, n - m);
    assert(v@.subrange(n - m, n - m + m) =~= v@.skip(n - m));
    r
}

/// `s` with every non-overlapping occurrence of `pat`, found left to
/// right, replaced by `rep`; the replacement text is not rescanned.
pub open spec fn spec_replace(s: Seq<char>, pat: Seq<char>, rep: Seq<char>) -> Seq<char>
    decreases s.len(),
{
    if pat.len() == 0 || s.len() < pat.len() {
        s
    } else if s.take(pat.len() as int) == pat {
        rep + spec_replace(s.skip(pat.len() as int), pat, rep)
    } else {
        seq![s[0]] + spec_replace(s.drop_first(), pat, rep)
    }
}

/// Replace every occurrence of `pat` in `v` by `rep`.
pub fn replace_all(v: &Vec<char>, pat: &Vec<char>, rep: &Vec<char>) -> (r: Vec<char>)
    requires
        pat@.len() > 0,
    ensures
        r@ == spec_replace(v@, pat@, rep@),
{
    let n: usize = v.len();
    let m: usize = pat.len();
    let mut out: Vec<char> = Vec::new();
    let mut i: usize = 0;
    assert(v@.skip(0) =~= v@);
    assert(out@ + spec_replace(v@, pat@, rep@) =~= spec_replace(v@, pat@, rep@));
    while i < n
        invariant
            n == v@.len(),
            m == pat@.len(),
            0 < m,
            i <= n,
            out@ + spec_replace(v@.skip(i as int), pat@, rep@) == spec_replace(v@, pat@, rep@),
        decreases n - i,
    {
        if n - i >= m && match_at(v, pat, i) {
            assert(v@.skip(i as int).take(m as int) =~= v@.subrange(i as int, i + m));
            assert(v@.skip(i as int).skip(m as int) =~= v@.skip(i + m));
            out.extend_from_slice(pat_rep_slice(rep));
            i = i + m;
        } else {
            if n - i >= m {
                assert(v@.skip(i as int).take(m as int) =~= v@.subrange(i as int, i + m));
            }
            assert(v@.skip(i as int).drop_first() =~= v@.skip(i + 1));
            assert(v@.skip(i as int)[0] == v@[i as int]);
            out.push(v[i]);
            i = i + 1;
        }
    }
    assert(v@.skip(n as int) =~= Seq::<char>::empty());
    out
}

/// View a replacement vector as a slice.
fn pat_rep_slice(rep: &Vec<char>) -> (r: &[char])
    ensures
        r@ == rep@,
{
    rep.as_slice()
}

/// The segments of `s` between occurrences of `c`; empty segments are
/// kept, and `n` separators yield `n + 1` segments.
pub open spec fn spec_split_char(s: Seq<char>, c: char) -> Seq<Seq<char>>
    decreases s.len(),
    via spec_split_char_decreases
{
    match spec_find_char_from(s, c, 0) {
        None => seq![s],
        Some(i) => seq![s.take(i)] + spec_split_char(s.skip(i + 1), c),
    }
}

/// What `spec_find_char_from` finds: the least occurrence at or after `from`.
pub proof fn lemma_find_char_from_range(s: Seq<char>, c: char, from: int)
    requires
        0 <= from,
    ensures
        match spec_find_char_from(s, c, from) {
            Some(i) => from <= i < s.len() && s[i] == c && forall|k: int|
                from <= k < i ==> s[k] != c,
            None => forall|k: int| from <= k < s.len() ==> s[k] != c,
        },
    decreases s.len() - from,
{
    if from < s.len() && s[from] != c {
        lemma_find_char_from_range(s, c, from + 1);
    }
}

#[via_fn]
proof fn spec_split_char_decreases(s: Seq<char>, c: char) {
    lemma_find_char_from_range(s, c, 0);
}

/// The sequence of element views of a sequence of character vectors.
pub open spec fn views_of(s: Seq<Vec<char>>) -> Seq<Seq<char>> {
    s.map_values(|v: Vec<char>| v@)
}

/// Searching from `from` in `s` finds what searching from `from - d` in
/// `s.skip(d)` finds, shifted by `d`.
pub proof fn lemma_find_char_skip(s: Seq<char>, c: char, d: int, from: int)
    requires
        0 <= d <= from,
        d <= s.len(),
    ensures
        spec_find_char_from(s, c, from) == match spec_find_char_from(s.skip(d), c, from - d) {
            Some(i) => Some(i + d),
            None => None::<int>,
        },
    decreases s.len() - from,
{
    if from < s.len() {
        assert(s.skip(d)[from - d] == s[from]);
        if s[from] != c {
            lemma_find_char_skip(s, c, d, from + 1);
        }
    }
}

/// Split `v` at every occurrence of `c`.
pub fn split_char(v: &Vec<char>, c: char) -> (r: Vec<Vec<char>>)
    ensures
        views_of(r@) == spec_split_char(v@, c),
{
    let n: usize = v.len();
    let mut parts: Vec<Vec<char>> = Vec::new();
    let mut i: usize = 0;
    assert(v@.skip(0) =~= v@);
    assert(views_of(parts@) + spec_split_char(v@, c) =~= spec_split_char(v@, c));
    loop
        invariant
            n == v@.len(),
            i <= n,
            views_of(parts@) + spec_split_char(v@.skip(i as int), c) == spec_split_char(v@, c),
        decreases n - i,
    {
        let ghost rest = v@.skip(i as int);
        match find_char_from(v, c, i) {
            Some(j) => {
                proof {
                    lemma_find_char_skip(v@, c, i as int, i as int);
                    assert(spec_find_char_from(rest, c, 0) == Some(j - i));
                    assert(rest.take(j - i) =~= v@.subrange(i as int, j as int));
                    assert(rest.skip(j - i + 1) =~= v@.skip(j + 1 as int));
                }
                let part = slice_chars(v, i, j);
                parts.push(part);
                proof {
                    assert(views_of(parts@) =~= views_of(parts@.drop_last()).push(
                        v@.subrange(i as int, j as int),
                    ));
                }
                i = j + 1;
            },
            None => {
                proof {
                    lemma_find_char_skip(v@, c, i as int, i as int);
                    assert(spec_find_char_from(rest, c, 0) is None);
                    assert(rest =~= v@.subrange(i as int, n as int));
                }
                let part = slice_chars(v, i, n);
                parts.push(part);
                proof {
                    assert(views_of(parts@) =~= views_of(parts@.drop_last()).push(rest));
                    assert(views_of(parts@) =~= spec_split_char(v@, c));
                }
                return parts;
            },
        }
    }
}

/// The segments of `parts` glued together with `sep` between neighbours.
pub open spec fn spec_join(parts: Seq<Seq<char>>, sep: Seq<char>) -> Seq<char>
    decreases parts.len(),
{
    if parts.len() == 0 {
        Seq::empty()
    } else if parts.len() == 1 {
        parts[0]
    } else {
        parts[0] + sep + spec_join(parts.drop_first(), sep)
    }
}

/// Appending one more segment appends one more separator.
pub proof fn lemma_join_push(parts: Seq<Seq<char>>, sep: Seq<char>, x: Seq<char>)
    ensures
        spec_join(parts.push(x), sep) == if parts.len() == 0 {
            x
        } else {
            spec_join(parts, sep) + sep + x
        },
    decreases parts.len(),
{
    if parts.len() == 0 {
        assert(parts.push(x)[0] == x);
    } else if parts.len() == 1 {
        assert(parts.push(x).drop_first() =~= seq![x]);
        assert(parts.push(x)[0] == parts[0]);
        assert(spec_join(seq![x], sep) == x);
        assert(spec_join(parts.push(x), sep) == parts[0] + sep + x);
    } else {
        lemma_join_push(parts.drop_first(), sep, x);
        assert(parts.push(x).drop_first() =~= parts.drop_first().push(x));
    }
}

/// Glue the vectors of `parts` together with `sep` between neighbours.
pub fn join_chars(parts: &Vec<Vec<char>>, sep: &Vec<char>) -> (r: Vec<char>)
    ensures
        r@ == spec_join(views_of(parts@), sep@),
{
    let n: usize = parts.len();
    let mut out: Vec<char> = Vec::new();
    let mut i: usize = 0;
    while i < n
        invariant
            n == parts@.len(),
            i <= n,
            out@ == spec_join(views_of(parts@).take(i as int), sep@),
        decreases n - i,
    {
        if i > 0 {
            out.extend_from_slice(pat_rep_slice(sep));
        }
        out.extend_from_slice(pat_rep_slice(&parts[i]));
        proof {
            let vs = views_of(parts@);
            assert(vs.take(i + 1 as int) =~= vs.take(i as int).push(vs[i as int]));
            lemma_join_push(vs.take(i as int), sep@, vs[i as int]);
            assert(vs[i as int] == parts@[i as int]@);
        }
        i = i + 1;
    }
    assert(views_of(parts@).take(n as int) =~= views_of(parts@));
    out
}

/// Whether two strings hold the same characters.
pub fn string_eq(a: &String, b: &String) -> (r: bool)
    ensures
        r == (a@ == b@),
{
    a.eq(b)
}

/// Whether two character vectors hold the same characters.
pub fn eq_chars(a: &Vec<char>, b: &Vec<char>) -> (r: bool)
    ensures
        r == (a@ == b@),
{
    let na: usize = a.len();
    let nb: usize = b.len();
    if na != nb {
        return false;
    }
    let mut i: usize = 0;
    while i < na
        invariant
            na == a@.len(),
            na == b@.len(),
            i <= na,
            forall|k: int| 0 <= k < i ==> a@[k] == b@[k],
        decreases na - i,
    {
        if a[i] != b[i] {
            return false;
        }
        i = i + 1;
    }
    assert(a@ =~= b@);
    true
}

/// Lexicographic order on character sequences, by code point.
pub open spec fn spec_str_le(a: Seq<char>, b: Seq<char>) -> bool
    decreases a.len(),
{
    if a.len() == 0 {
        true
    } else if b.len() == 0 {
        false
    } else if a[0] != b[0] {
        (a[0] as u32) < (b[0] as u32)
    } else {
        spec_str_le(a.drop_first(), b.drop_first())
    }
}

/// A common prefix does not affect the lexicographic comparison.
pub proof fn lemma_str_le_skip(a: Seq<char>, b: Seq<char>, i: int)
    requires
        0 <= i <= a.len(),
        i <= b.len(),
        forall|k: int| 0 <= k < i ==> a[k] == b[k],
    ensures
        spec_str_le(a, b) == spec_str_le(a.skip(i), b.skip(i)),
    decreases i,
{
    if i > 0 {
        assert(a[0] == b[0]);
        assert(a.drop_first().skip(i - 1) =~= a.skip(i));
        assert(b.drop_first().skip(i - 1) =~= b.skip(i));
        lemma_str_le_skip(a.drop_first(), b.drop_first(), i - 1);
    } else {
        assert(a.skip(0) =~= a);
        assert(b.skip(0) =~= b);
    }
}

/// Compare two character vectors lexicographically.
pub fn str_le(a: &Vec<char>, b: &Vec<char>) -> (r: bool)
    ensures
        r == spec_str_le(a@, b@),
{
    let na: usize = a.len();
    let nb: usize = b.len();
    let mut i: usize = 0;
    while i < na && i < nb && a[i] == b[i]
        invariant
            na == a@.len(),
            nb == b@.len(),
            i <= na,
            i <= nb,
            forall|k: int| 0 <= k < i ==> a@[k] == b@[k],
        decreases na - i,
    {
        i = i + 1;
    }
    proof {
        lemma_str_le_skip(a@, b@, i as int);
    }
    if i == na {
        true
    } else if i == nb {
        assert(a@.skip(i as int).len() > 0);
        false
    } else {
        assert(a@.skip(i as int)[0] == a@[i as int]);
        assert(b@.skip(i as int)[0] == b@[i as int]);
        (a[i] as u32) < (b[i] as u32)
    }
}

/// Insert `x` into the sorted sequence `s`, before the first element
/// that is not below it.
pub open spec fn spec_insert_sorted(x: Seq<char>, s: Seq<Seq<char>>) -> Seq<Seq<char>>
    decreases s.len(),
{
    if s.len() == 0 {
        seq![x]
    } else if spec_str_le(x, s[0]) {
        seq![x] + s
    } else {
        seq![s[0]] + spec_insert_sorted(x, s.drop_first())
    }
}

/// Sort by inserting each element, from the last to the first.
pub open spec fn spec_sort(s: Seq<Seq<char>>) -> Seq<Seq<char>>
    decreases s.len(),
{
    if s.len() == 0 {
        Seq::empty()
    } else {
        spec_insert_sorted(s[0], spec_sort(s.drop_first()))
    }
}

/// The insertion point is the first index whose element is not below `x`.
proof fn lemma_insert_sorted_at(x: Seq<char>, s: Seq<Seq<char>>, p: int)
    requires
        0 <= p <= s.len(),
        forall|k: int| 0 <= k < p ==> !spec_str_le(x, s[k]),
        p == s.len() || spec_str_le(x, s[p]),
    ensures
        spec_insert_sorted(x, s) == s.take(p).push(x) + s.skip(p),
    decreases p,
{
    if s.len() == 0 {
        assert(spec_insert_sorted(x, s) =~= s.take(p).push(x) + s.skip(p));
    } else if p == 0 {
        assert(s.take(0).push(x) + s.skip(0) =~= seq![x] + s);
    } else {
        lemma_insert_sorted_at(x, s.drop_first(), p - 1);
        assert(s.drop_first().take(p - 1) =~= s.take(p).drop_first());
        assert(s.drop_first().skip(p - 1) =~= s.skip(p));
        assert(seq![s[0]] + (s.drop_first().take(p - 1).push(x) + s.drop_first().skip(p - 1))
            =~= s.take(p).push(x) + s.skip(p));
    }
}

/// Insert a character vector into a sorted vector of vectors.
fn insert_sorted(x: Vec<char>, s: &mut Vec<Vec<char>>)
    ensures
        views_of(final(s)@) == spec_insert_sorted(x@, views_of(old(s)@)),
{
    let n: usize = s.len();
    let mut p: usize = 0;
    while p < n && !str_le(&x, &s[p])
        invariant
            n == s@.len(),
            s@ == old(s)@,
            p <= n,
            forall|k: int| 0 <= k < p ==> !spec_str_le(x@, views_of(s@)[k]),
        decreases n - p,
    {
        p = p + 1;
    }
    proof {
        lemma_insert_sorted_at(x@, views_of(s@), p as int);
    }
    s.insert(p, x);
    proof {
        let vs = views_of(old(s)@);
        assert(views_of(s@) =~= vs.take(p as int).push(x@) + vs.skip(p as int));
    }
}

/// Sort a vector of character vectors lexicographically.
pub fn sort_strs(v: &Vec<Vec<char>>) -> (r: Vec<Vec<char>>)
    ensures
        views_of(r@) == spec_sort(views_of(v@)),
{
    let n: usize = v.len();
    let mut out: Vec<Vec<char>> = Vec::new();
    let mut i: usize = n;
    proof {
        assert(views_of(v@).skip(n as int) =~= Seq::<Seq<char>>::empty());
        assert(views_of(out@) =~= Seq::<Seq<char>>::empty());
    }
    while i > 0
        invariant
            n == v@.len(),
            i <= n,
            views_of(out@) == spec_sort(views_of(v@).skip(i as int)),
        decreases i,
    {
        i = i - 1;
        let x = clone_chars(&v[i]);
        insert_sorted(x, &mut out);
        proof {
            let vs = views_of(v@);
            assert(vs.skip(i as int)[0] == v@[i as int]@);
            assert(vs.skip(i as int).drop_first() =~= vs.skip(i + 1));
        }
    }
    proof {
        assert(views_of(v@).skip(0) =~= views_of(v@));
    }
    out
}

/// The decimal digit character for a value below ten.
pub open spec fn spec_digit(d: int) -> char {
    if d == 0 {
        '0'
    } else if d == 1 {
        '1'
    } else if d == 2 {
        '2'
    } else if d == 3 {
        '3'
    } else if d == 4 {
        '4'
    } else if d == 5 {
        '5'
    } else if d == 6 {
        '6'
    } else if d == 7 {
        '7'
    } else if d == 8 {
        '8'
    } else {
        '9'
    }
}

/// The decimal digit character of `d`.
pub fn digit_char(d: u128) -> (c: char)
    requires
        d < 10,
    ensures
        c == spec_digit(d as int),
{
    match d {
        0 => '0',
        1 => '1',
        2 => '2',
        3 => '3',
        4 => '4',
        5 => '5',
        6 => '6',
        7 => '7',
        8 => '8',
        _ => '9',
    }
}

/// The decimal notation of a non-negative number, without leading zeros.
pub open spec fn spec_dec(n: int) -> Seq<char>
    decreases n,
{
    if n < 10 {
        seq![spec_digit(n)]
    } else {
        spec_dec(n / 10) + seq![spec_digit(n % 10)]
    }
}

/// Format a number in decimal.
pub fn u128_to_dec(n: u128) -> (r: Vec<char>)
    ensures
        r@ == spec_dec(n as int),
    decreases n,
{
    if n < 10 {
        let mut v: Vec<char> = Vec::new();
        v.push(digit_char(n));
        assert(v@ =~= seq![spec_digit(n as int)]);
        v
    } else {
        let mut v = u128_to_dec(n / 10);
        v.push(digit_char(n % 10));
        assert(v@ =~= spec_dec(n as int / 10) + seq![spec_digit(n as int % 10)]);
        v
    }
}

/// Format a 64-bit number in decimal.
pub fn u64_to_dec(n: u64) -> (r: Vec<char>)
    ensures
        r@ == spec_dec(n as int),
{
    u128_to_dec(n as u128)
}

/// Format a 32-bit number in decimal.
pub fn u32_to_dec(n: u32) -> (r: Vec<char>)
    ensures
        r@ == spec_dec(n as int),
{
    u128_to_dec(n as u128)
}

/// A byte count in hundredths of a mebibyte, rounding half up.
pub open spec fn spec_mb_centis(bytes: u64) -> int {
    (bytes * 100 + 524288) / 1048576
}

/// A byte count written in mebibytes with two decimal places.
pub open spec fn spec_mb_string(bytes: u64) -> Seq<char> {
    let c = spec_mb_centis(bytes);
    spec_dec(c / 100) + seq!['.', spec_digit((c / 10) % 10), spec_digit(c % 10)]
}

/// Format a byte count in mebibytes with two decimal places.
pub fn mb_string(bytes: u64) -> (r: Vec<char>)
    ensures
        r@ == spec_mb_string(bytes),
{
    let c: u128 = ((bytes as u128) * 100 + 524288) / 1048576;
    assert(c == spec_mb_centis(bytes));
    let mut r = u128_to_dec(c / 100);
    r.push('.');
    r.push(digit_char((c / 10) % 10));
    r.push(digit_char(c % 10));
    assert(r@ =~= spec_mb_string(bytes));
    r
}

} // verus!
