//! The version classifier: decides whether a version annotation denotes
//! a meaningful remix/edit/year variant, and whether two annotations
//! belong to the same version family.
use vstd::prelude::*;

use crate::normalize::view_opt;
use crate::text::{
    chars_to_string, contains_sub, lower_chars, lower_of, spec_contains, spec_is_digit,
    str_to_chars, string_eq,
};

verus! {

/// How many marker keywords the classifier knows.
pub const KEYWORD_COUNT: usize = 42;

/// The fixed marker vocabulary: remix/edit words, version types,
/// attribution, release state, mix types, length and cut words, regions,
/// and multi-word combinations.
pub open spec fn spec_keyword(i: int) -> Seq<char> {
    if i == 0 {
        "remix"@
    } else if i == 1 {
        "mix"@
    } else if i == 2 {
        "rmx"@
    } else if i == 3 {
        "rework"@
    } else if i == 4 {
        "edit"@
    } else if i == 5 {
        "reconstruction"@
    } else if i == 6 {
        "bootleg"@
    } else if i == 7 {
        "mashup"@
    } else if i == 8 {
        "flip"@
    } else if i == 9 {
        "recut"@
    } else if i == 10 {
        "reprise"@
    } else if i == 11 {
        "version"@
    } else if i == 12 {
        "radio"@
    } else if i == 13 {
        "club"@
    } else if i == 14 {
        "special"@
    } else if i == 15 {
        "extended"@
    } else if i == 16 {
        "dj"@
    } else if i == 17 {
        "vs"@
    } else if i == 18 {
        "presents"@
    } else if i == 19 {
        "remaster"@
    } else if i == 20 {
        "master"@
    } else if i == 21 {
        "remastered"@
    } else if i == 22 {
        "dub"@
    } else if i == 23 {
        "instrumental"@
    } else if i == 24 {
        "acapella"@
    } else if i == 25 {
        "acoustic"@
    } else if i == 26 {
        "live"@
    } else if i == 27 {
        "long"@
    } else if i == 28 {
        "short"@
    } else if i == 29 {
        "full"@
    } else if i == 30 {
        "cut"@
    } else if i == 31 {
        "original"@
    } else if i == 32 {
        "us"@
    } else if i == 33 {
        "uk"@
    } else if i == 34 {
        "euro"@
    } else if i == 35 {
        "italian"@
    } else if i == 36 {
        "spanish"@
    } else if i == 37 {
        "dutch"@
    } else if i == 38 {
        "radio edit"@
    } else if i == 39 {
        "club mix"@
    } else if i == 40 {
        "dance mix"@
    } else {
        "extended mix"@
    }
}

/// The `i`-th marker keyword.
fn keyword(i: usize) -> (r: Vec<char>)
    requires
        i < KEYWORD_COUNT,
    ensures
        r@ == spec_keyword(i as int),
{
    match i {
        0 => str_to_chars("remix"),
        1 => str_to_chars("mix"),
        2 => str_to_chars("rmx"),
        3 => str_to_chars("rework"),
        4 => str_to_chars("edit"),
        5 => str_to_chars("reconstruction"),
        6 => str_to_chars("bootleg"),
        7 => str_to_chars("mashup"),
        8 => str_to_chars("flip"),
        9 => str_to_chars("recut"),
        10 => str_to_chars("reprise"),
        11 => str_to_chars("version"),
        12 => str_to_chars("radio"),
        13 => str_to_chars("club"),
        14 => str_to_chars("special"),
        15 => str_to_chars("extended"),
        16 => str_to_chars("dj"),
        17 => str_to_chars("vs"),
        18 => str_to_chars("presents"),
        19 => str_to_chars("remaster"),
        20 => str_to_chars("master"),
        21 => str_to_chars("remastered"),
        22 => str_to_chars("dub"),
        23 => str_to_chars("instrumental"),
        24 => str_to_chars("acapella"),
        25 => str_to_chars("acoustic"),
        26 => str_to_chars("live"),
        27 => str_to_chars("long"),
        28 => str_to_chars("short"),
        29 => str_to_chars("full"),
        30 => str_to_chars("cut"),
        31 => str_to_chars("original"),
        32 => str_to_chars("us"),
        33 => str_to_chars("uk"),
        34 => str_to_chars("euro"),
        35 => str_to_chars("italian"),
        36 => str_to_chars("spanish"),
        37 => str_to_chars("dutch"),
        38 => str_to_chars("radio edit"),
        39 => str_to_chars("club mix"),
        40 => str_to_chars("dance mix"),
        _ => str_to_chars("extended mix"),
    }
}

/// The keywords from index `i` on that occur in the lower-cased text `low`.
pub open spec fn spec_markers_from(low: Seq<char>, i: int) -> Seq<Seq<char>>
    decreases KEYWORD_COUNT - i,
{
    if i < 0 || i >= KEYWORD_COUNT {
        Seq::empty()
    } else if spec_contains(low, spec_keyword(i)) {
        seq![spec_keyword(i)] + spec_markers_from(low, i + 1)
    } else {
        spec_markers_from(low, i + 1)
    }
}

/// The number of ASCII digits in `s`.
pub open spec fn spec_digit_count(s: Seq<char>) -> int
    decreases s.len(),
{
    if s.len() == 0 {
        0int
    } else {
        spec_digit_count(s.drop_last()) + if spec_is_digit(s.last()) {
            1int
        } else {
            0int
        }
    }
}

/// A classified version annotation: either no version information, or
/// the set of marker keywords that matched.
pub enum VersionAnnotation {
    NoVersion,
    Markers(Vec<String>),
}

/// The views of a sequence of strings.
pub open spec fn strs_views(s: Seq<String>) -> Seq<Seq<char>> {
    s.map_values(|x: String| x@)
}

/// What `classify` decides for an annotation: `None` when there is no
/// version information, otherwise the matched marker keywords. An
/// annotation without a recognized keyword but with at least four digits
/// counts as a bare release year.
pub open spec fn spec_classify(v: Option<Seq<char>>) -> Option<Seq<Seq<char>>> {
    match v {
        None => None,
        Some(raw) => {
            let low = lower_of(raw);
            let m = spec_markers_from(low, 0);
            if m.len() > 0 {
                Some(m)
            } else if spec_digit_count(low) >= 4 {
                Some(seq!["year"@])
            } else {
                None
            }
        },
    }
}

/// Classify a raw version annotation by case-insensitive substring
/// containment against the marker vocabulary, collecting every match.
pub fn classify(annotation: &Option<String>) -> (r: VersionAnnotation)
    ensures
        match r {
            VersionAnnotation::NoVersion => spec_classify(view_opt(*annotation)) is None,
            VersionAnnotation::Markers(v) => spec_classify(view_opt(*annotation)) == Some(
                strs_views(v@),
            ),
        },
{
    match annotation {
        None => VersionAnnotation::NoVersion,
        Some(s) => {
            let raw = str_to_chars(s.as_str());
            let low = lower_chars(&raw);
            let ghost lowv = lower_of(s@);
            let mut found: Vec<String> = Vec::new();
            let mut i: usize = 0;
            assert(strs_views(found@) + spec_markers_from(lowv, 0) =~= spec_markers_from(lowv, 0));
            while i < KEYWORD_COUNT
                invariant
                    i <= KEYWORD_COUNT,
                    low@ == lowv,
                    strs_views(found@) + spec_markers_from(lowv, i as int) == spec_markers_from(
                        lowv,
                        0,
                    ),
                decreases KEYWORD_COUNT - i,
            {
                let kw = keyword(i);
                if contains_sub(&low, &kw) {
                    found.push(chars_to_string(kw));
                    proof {
                        assert(strs_views(found@) =~= strs_views(found@.drop_last()).push(
                            spec_keyword(i as int),
                        ));
                        assert(strs_views(found@) + spec_markers_from(lowv, i + 1)
                            =~= strs_views(found@.drop_last()) + spec_markers_from(lowv, i as int));
                    }
                }
                i = i + 1;
            }
            if found.len() > 0 {
                VersionAnnotation::Markers(found)
            } else {
                assert(spec_markers_from(lowv, 0) =~= Seq::<Seq<char>>::empty());
                let digits = digit_count(&low);
                if digits >= 4 {
                    let mut year: Vec<String> = Vec::new();
                    year.push(chars_to_string(str_to_chars("year")));
                    assert(strs_views(year@) =~= seq!["year"@]);
                    VersionAnnotation::Markers(year)
                } else {
                    VersionAnnotation::NoVersion
                }
            }
        },
    }
}

/// Count the ASCII digits of `v`.
fn digit_count(v: &Vec<char>) -> (r: usize)
    ensures
        r == spec_digit_count(v@),
{
    let n: usize = v.len();
    let mut r: usize = 0;
    let mut i: usize = 0;
    assert(v@.take(0) =~= Seq::<char>::empty());
    while i < n
        invariant
            n == v@.len(),
            i <= n,
            r <= i,
            r == spec_digit_count(v@.take(i as int)),
        decreases n - i,
    {
        assert(v@.take(i + 1 as int).drop_last() =~= v@.take(i as int));
        assert(v@.take(i + 1 as int).last() == v@[i as int]);
        if crate::text::is_digit(v[i]) {
            r = r + 1;
        }
        i = i + 1;
    }
    assert(v@.take(n as int) =~= v@);
    r
}

/// Whether some element of `x` also occurs in `y`.
pub open spec fn spec_intersects(x: Seq<Seq<char>>, y: Seq<Seq<char>>) -> bool {
    exists|i: int| 0 <= i < x.len() && y.contains(x[i])
}

/// Whether the two marker lists share an element.
fn intersects(ma: &Vec<String>, mb: &Vec<String>) -> (r: bool)
    ensures
        r == spec_intersects(strs_views(ma@), strs_views(mb@)),
{
    let na: usize = ma.len();
    let nb: usize = mb.len();
    let mut i: usize = 0;
    while i < na
        invariant
            na == ma@.len(),
            nb == mb@.len(),
            i <= na,
            forall|k: int| 0 <= k < i ==> !strs_views(mb@).contains(strs_views(ma@)[k]),
        decreases na - i,
    {
        let mut j: usize = 0;
        while j < nb
            invariant
                na == ma@.len(),
                nb == mb@.len(),
                i < na,
                j <= nb,
                forall|k: int| 0 <= k < j ==> strs_views(mb@)[k] != strs_views(ma@)[i as int],
            decreases nb - j,
        {
            if string_eq(&ma[i], &mb[j]) {
                assert(strs_views(mb@)[j as int] == strs_views(ma@)[i as int]);
                assert(strs_views(mb@).contains(strs_views(ma@)[i as int]));
                return true;
            }
            j = j + 1;
        }
        assert(!strs_views(mb@).contains(strs_views(ma@)[i as int]));
        i = i + 1;
    }
    false
}

/// Whether two optional strings hold the same text.
fn opt_text_eq(a: &Option<String>, b: &Option<String>) -> (r: bool)
    ensures
        r == (view_opt(*a) == view_opt(*b)),
{
    match (a, b) {
        (Some(x), Some(y)) => string_eq(x, y),
        (None, None) => true,
        _ => false,
    }
}

/// Whether two annotations denote the same version family: two with no
/// version information always do; two marker sets only if they share a
/// keyword or the raw annotation text is identical; one with and one
/// without version information never do.
pub open spec fn spec_equivalent(a: Option<Seq<char>>, b: Option<Seq<char>>) -> bool {
    match (spec_classify(a), spec_classify(b)) {
        (None, None) => true,
        (Some(ma), Some(mb)) => spec_intersects(ma, mb) || a == b,
        _ => false,
    }
}

/// Decide whether two raw annotations denote the same version family.
pub fn equivalent(a: &Option<String>, b: &Option<String>) -> (r: bool)
    ensures
        r == spec_equivalent(view_opt(*a), view_opt(*b)),
{
    let ca = classify(a);
    let cb = classify(b);
    match (ca, cb) {
        (VersionAnnotation::NoVersion, VersionAnnotation::NoVersion) => true,
        (VersionAnnotation::Markers(ma), VersionAnnotation::Markers(mb)) => {
            if intersects(&ma, &mb) {
                true
            } else {
                opt_text_eq(a, b)
            }
        },
        _ => false,
    }
}

/// Sharing an element is a symmetric relation.
pub proof fn lemma_intersects_sym(x: Seq<Seq<char>>, y: Seq<Seq<char>>)
    ensures
        spec_intersects(x, y) == spec_intersects(y, x),
{
    if spec_intersects(x, y) {
        let i = choose|i: int| 0 <= i < x.len() && y.contains(x[i]);
        let j = choose|j: int| 0 <= j < y.len() && y[j] == x[i];
        assert(x.contains(y[j]));
        assert(spec_intersects(y, x));
    }
    if spec_intersects(y, x) {
        let i = choose|i: int| 0 <= i < y.len() && x.contains(y[i]);
        let j = choose|j: int| 0 <= j < x.len() && x[j] == y[i];
        assert(y.contains(x[j]));
        assert(spec_intersects(x, y));
    }
}

/// Version equivalence is symmetric.
pub proof fn lemma_equivalent_sym(a: Option<Seq<char>>, b: Option<Seq<char>>)
    ensures
        spec_equivalent(a, b) == spec_equivalent(b, a),
{
    match (spec_classify(a), spec_classify(b)) {
        (Some(ma), Some(mb)) => {
            lemma_intersects_sym(ma, mb);
        },
        _ => {},
    }
}

/// An annotation without version information is never equivalent to one
/// with markers: the side with a distinguishing tag must not be merged.
pub proof fn lemma_version_asymmetry(a: Option<Seq<char>>, b: Option<Seq<char>>)
    requires
        spec_classify(a) is None,
        spec_classify(b) is Some,
    ensures
        !spec_equivalent(a, b),
        !spec_equivalent(b, a),
{
}

/// Two annotations without version information are always equivalent.
pub proof fn lemma_none_equivalent(a: Option<Seq<char>>, b: Option<Seq<char>>)
    requires
        spec_classify(a) is None,
        spec_classify(b) is None,
    ensures
        spec_equivalent(a, b),
{
}

} // verus!
