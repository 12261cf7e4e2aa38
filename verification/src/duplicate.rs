//! The pairwise duplicate matcher and the pair scheduler: normalizes two
//! filenames, rejects non-matches by the exact-field policy, consults the
//! version classifier, and on a confirmed duplicate lets the quality rule
//! pick the winner. The scheduler evaluates every unordered pair exactly
//! once; its result does not depend on how the rows are partitioned.
use vstd::prelude::*;

use crate::bitrate::{
    spec_better, spec_quality_text, spec_quality_tied, BitrateAnalyzer, lemma_better_antisym,
};
use crate::normalize::{normalize, spec_normalize, view_opt};
use crate::text::{chars_to_string, str_to_chars, string_eq};
use crate::version::{equivalent, lemma_equivalent_sym, spec_equivalent};
use crate::AudioFile;

verus! {

/// One confirmed duplicate pair: the winner, the loser, and the two
/// human-readable justifications.
#[derive(Debug)]
pub struct DuplicateMatch {
    pub higher_quality: AudioFile,
    pub lower_quality: AudioFile,
    pub match_reason: String,
    pub quality_difference: String,
}

/// The mathematical value of a `DuplicateMatch`.
pub struct MatchView {
    pub higher_quality: AudioFile,
    pub lower_quality: AudioFile,
    pub match_reason: Seq<char>,
    pub quality_difference: Seq<char>,
}

impl View for DuplicateMatch {
    type V = MatchView;

    open spec fn view(&self) -> MatchView {
        MatchView {
            higher_quality: self.higher_quality,
            lower_quality: self.lower_quality,
            match_reason: self.match_reason@,
            quality_difference: self.quality_difference@,
        }
    }
}

/// Everything one scan reports: the matches, in no guaranteed order, and
/// how many files were scanned.
#[derive(Debug)]
pub struct DuplicateResults {
    pub matches: Vec<DuplicateMatch>,
    pub total_files_scanned: usize,
}

/// The views of a sequence of matches.
pub open spec fn matches_views(s: Seq<DuplicateMatch>) -> Seq<MatchView> {
    s.map_values(|m: DuplicateMatch| m@)
}

/// Whether two files are duplicates: equal normalized artist, equal
/// normalized title, and equivalent version annotations.
pub open spec fn spec_is_match(a: AudioFile, b: AudioFile) -> bool {
    let pa = spec_normalize(a.file_name@);
    let pb = spec_normalize(b.file_name@);
    pa.artist == pb.artist && pa.title == pb.title && spec_equivalent(pa.version, pb.version)
}

/// The parenthesised version part of a match reason: the first
/// annotation when there is one, else the second, else nothing.
pub open spec fn spec_version_info(v1: Option<Seq<char>>, v2: Option<Seq<char>>) -> Seq<char> {
    match (v1, v2) {
        (Some(x), _) => " ("@ + x + ")"@,
        (None, Some(y)) => " ("@ + y + ")"@,
        (None, None) => Seq::empty(),
    }
}

/// The reason string of a match: the shared normalized artist and title,
/// and the version annotation when present.
pub open spec fn spec_match_reason(a: AudioFile, b: AudioFile) -> Seq<char> {
    let pa = spec_normalize(a.file_name@);
    let pb = spec_normalize(b.file_name@);
    "Exact title match: '"@ + pa.artist + " - "@ + pa.title + spec_version_info(
        pa.version,
        pb.version,
    ) + "'"@
}

/// What `match_pair` returns: nothing unless the exact-field policy and
/// the version classifier both agree, and otherwise the match record
/// with the quality winner placed first.
pub open spec fn spec_match_pair(a: AudioFile, b: AudioFile) -> Option<MatchView> {
    if spec_is_match(a, b) {
        Some(
            MatchView {
                higher_quality: if spec_better(a, b) {
                    a
                } else {
                    b
                },
                lower_quality: if spec_better(a, b) {
                    b
                } else {
                    a
                },
                match_reason: spec_match_reason(a, b),
                quality_difference: spec_quality_text(a, b),
            },
        )
    } else {
        None
    }
}

/// Evaluate one unordered pair of files.
pub fn match_pair(a: &AudioFile, b: &AudioFile) -> (r: Option<DuplicateMatch>)
    ensures
        match r {
            Some(m) => spec_match_pair(*a, *b) == Some(m@),
            None => spec_match_pair(*a, *b) is None,
        },
{
    let pa = normalize(a.file_name.as_str());
    let pb = normalize(b.file_name.as_str());
    if !string_eq(&pa.artist, &pb.artist) {
        return None;
    }
    if !string_eq(&pa.title, &pb.title) {
        return None;
    }
    if !equivalent(&pa.version, &pb.version) {
        return None;
    }
    let mut reason = str_to_chars("Exact title match: '");
    let mut piece = str_to_chars(pa.artist.as_str());
    reason.append(&mut piece);
    let mut piece = str_to_chars(" - ");
    reason.append(&mut piece);
    let mut piece = str_to_chars(pa.title.as_str());
    reason.append(&mut piece);
    let mut piece = version_info(&pa.version, &pb.version);
    reason.append(&mut piece);
    let mut piece = str_to_chars("'");
    reason.append(&mut piece);
    assert(reason@ =~= spec_match_reason(*a, *b));
    let (first_better, quality_difference) = BitrateAnalyzer::compare_quality(a, b);
    let (higher_quality, lower_quality) = if first_better {
        (a.clone(), b.clone())
    } else {
        (b.clone(), a.clone())
    };
    let m = DuplicateMatch {
        higher_quality,
        lower_quality,
        match_reason: chars_to_string(reason),
        quality_difference,
    };
    assert(spec_match_pair(*a, *b) == Some(m@));
    Some(m)
}

/// Build the version part of a reason string.
fn version_info(v1: &Option<String>, v2: &Option<String>) -> (r: Vec<char>)
    ensures
        r@ == spec_version_info(view_opt(*v1), view_opt(*v2)),
{
    let picked: Option<&String> = match (v1, v2) {
        (Some(x), _) => Some(x),
        (None, Some(y)) => Some(y),
        (None, None) => None,
    };
    match picked {
        Some(x) => {
            let mut r = str_to_chars(" (");
            let mut piece = str_to_chars(x.as_str());
            r.append(&mut piece);
            let mut piece = str_to_chars(")");
            r.append(&mut piece);
            assert(r@ =~= spec_version_info(view_opt(*v1), view_opt(*v2)));
            r
        },
        None => {
            let r: Vec<char> = Vec::new();
            assert(r@ =~= spec_version_info(view_opt(*v1), view_opt(*v2)));
            r
        },
    }
}

/// The matches of the pairs `(i, j), (i, j + 1), ...` up to the end.
pub open spec fn spec_row(files: Seq<AudioFile>, i: int, j: int) -> Seq<MatchView>
    decreases files.len() - j,
{
    if j < 0 || j >= files.len() {
        Seq::empty()
    } else {
        let rest = spec_row(files, i, j + 1);
        match spec_match_pair(files[i], files[j]) {
            Some(m) => seq![m] + rest,
            None => rest,
        }
    }
}

/// The matches of every pair whose first index lies in `lo..hi`, row by
/// row, each row paired with everything after it.
pub open spec fn spec_rows(files: Seq<AudioFile>, lo: int, hi: int) -> Seq<MatchView>
    decreases hi - lo,
{
    if lo >= hi {
        Seq::empty()
    } else {
        spec_row(files, lo, lo + 1) + spec_rows(files, lo + 1, hi)
    }
}

/// The matches of the whole collection: every unordered pair exactly once.
pub open spec fn spec_all_matches(files: Seq<AudioFile>) -> Seq<MatchView> {
    spec_rows(files, 0, files.len() as int)
}

/// One more row at the top appends that row's matches.
pub proof fn lemma_rows_snoc(files: Seq<AudioFile>, lo: int, i: int)
    requires
        lo <= i,
    ensures
        spec_rows(files, lo, i + 1) == spec_rows(files, lo, i) + spec_row(files, i, i + 1),
    decreases i - lo,
{
    if lo == i {
        assert(spec_rows(files, lo, i) =~= Seq::<MatchView>::empty());
        assert(spec_rows(files, lo + 1, i + 1) =~= Seq::<MatchView>::empty());
        assert(spec_rows(files, lo, i + 1) == spec_row(files, lo, lo + 1) + spec_rows(
            files,
            lo + 1,
            i + 1,
        ));
        assert(spec_row(files, lo, lo + 1) + spec_rows(files, lo + 1, i + 1) =~= spec_rows(
            files,
            lo,
            i,
        ) + spec_row(files, i, i + 1));
    } else {
        lemma_rows_snoc(files, lo + 1, i);
        assert(spec_rows(files, lo, i + 1) =~= spec_row(files, lo, lo + 1) + (spec_rows(
            files,
            lo + 1,
            i,
        ) + spec_row(files, i, i + 1)));
        assert(spec_row(files, lo, lo + 1) + (spec_rows(files, lo + 1, i) + spec_row(
            files,
            i,
            i + 1,
        )) =~= (spec_row(files, lo, lo + 1) + spec_rows(files, lo + 1, i)) + spec_row(
            files,
            i,
            i + 1,
        ));
    }
}

/// Evaluate the pairs whose first index lies in `lo..hi`. Partitioning
/// the row range across workers and concatenating their results yields
/// exactly the rows of the range.
pub fn match_pairs_in_rows(files: &Vec<AudioFile>, lo: usize, hi: usize) -> (r: Vec<
    DuplicateMatch,
>)
    requires
        lo <= hi <= files@.len(),
    ensures
        matches_views(r@) == spec_rows(files@, lo as int, hi as int),
{
    let n: usize = files.len();
    let mut out: Vec<DuplicateMatch> = Vec::new();
    let mut i: usize = lo;
    assert(matches_views(out@) =~= spec_rows(files@, lo as int, lo as int));
    while i < hi
        invariant
            n == files@.len(),
            lo <= i <= hi <= n,
            matches_views(out@) == spec_rows(files@, lo as int, i as int),
        decreases hi - i,
    {
        let mut j: usize = i + 1;
        while j < n
            invariant
                n == files@.len(),
                lo <= i < hi <= n,
                i + 1 <= j <= n,
                matches_views(out@) + spec_row(files@, i as int, j as int) == spec_rows(
                    files@,
                    lo as int,
                    i as int,
                ) + spec_row(files@, i as int, i + 1),
            decreases n - j,
        {
            match match_pair(&files[i], &files[j]) {
                Some(m) => {
                    out.push(m);
                    proof {
                        assert(matches_views(out@) =~= matches_views(out@.drop_last()).push(
                            out@.last()@,
                        ));
                        assert(matches_views(out@) + spec_row(files@, i as int, j + 1 as int)
                            =~= matches_views(out@.drop_last()) + spec_row(
                            files@,
                            i as int,
                            j as int,
                        ));
                    }
                },
                None => {},
            }
            j = j + 1;
        }
        proof {
            assert(spec_row(files@, i as int, n as int) =~= Seq::<MatchView>::empty());
            assert(matches_views(out@) + spec_row(files@, i as int, n as int) =~= matches_views(
                out@,
            ));
            lemma_rows_snoc(files@, lo as int, i as int);
        }
        i = i + 1;
    }
    out
}

/// Finds duplicate recordings across a collection of audio files.
pub struct DuplicateAnalyzer;

impl DuplicateAnalyzer {
    /// A fresh analyzer.
    pub fn new() -> (r: Self) {
        DuplicateAnalyzer
    }

    /// Evaluate every unordered pair of the collection exactly once and
    /// report the confirmed duplicates together with the scan size. An
    /// empty collection yields no matches and a zero count.
    pub fn find_duplicates(&self, files: Vec<AudioFile>) -> (r: DuplicateResults)
        ensures
            r.total_files_scanned == files@.len(),
            matches_views(r.matches@) == spec_all_matches(files@),
            files@.len() == 0 ==> r.matches@.len() == 0,
    {
        let n: usize = files.len();
        let matches = match_pairs_in_rows(&files, 0, n);
        proof {
            if files@.len() == 0 {
                assert(matches_views(matches@).len() == 0);
            }
        }
        DuplicateResults { matches, total_files_scanned: n }
    }
}

/// The exact-field policy: two files whose normalized titles differ are
/// never reported as a match, whatever their version annotations say.
pub proof fn lemma_exact_field_policy(a: AudioFile, b: AudioFile)
    requires
        spec_normalize(a.file_name@).title != spec_normalize(b.file_name@).title,
    ensures
        spec_match_pair(a, b) is None,
{
}

/// Symmetry: both argument orders agree on whether a match exists, and,
/// outside a full quality tie, on which descriptor is the winner and
/// which the loser.
pub proof fn lemma_match_pair_symmetry(a: AudioFile, b: AudioFile)
    ensures
        match (spec_match_pair(a, b), spec_match_pair(b, a)) {
            (Some(m1), Some(m2)) => !spec_quality_tied(a, b) ==> m1.higher_quality
                == m2.higher_quality && m1.lower_quality == m2.lower_quality,
            (None, None) => true,
            _ => false,
        },
{
    lemma_equivalent_sym(
        spec_normalize(a.file_name@).version,
        spec_normalize(b.file_name@).version,
    );
    if spec_is_match(a, b) && !spec_quality_tied(a, b) {
        lemma_better_antisym(a, b);
    }
}

/// Scale-independence: however the row range is split, the combined
/// matches of the parts form the same multiset as the matches of the
/// whole range, so the reported set does not depend on the number of
/// workers or their schedule.
pub proof fn lemma_schedule_multiset(files: Seq<AudioFile>, lo: int, mid: int, hi: int)
    requires
        lo <= mid <= hi,
    ensures
        spec_rows(files, lo, hi) == spec_rows(files, lo, mid) + spec_rows(files, mid, hi),
        spec_rows(files, lo, hi).to_multiset() == spec_rows(files, lo, mid).to_multiset().add(
            spec_rows(files, mid, hi).to_multiset(),
        ),
    decreases mid - lo,
{
    if lo == mid {
        assert(spec_rows(files, lo, mid) =~= Seq::<MatchView>::empty());
        assert(spec_rows(files, lo, hi) =~= spec_rows(files, lo, mid) + spec_rows(files, mid, hi));
    } else {
        lemma_schedule_multiset(files, lo + 1, mid, hi);
        assert(spec_rows(files, lo, hi) =~= spec_row(files, lo, lo + 1) + (spec_rows(
            files,
            lo + 1,
            mid,
        ) + spec_rows(files, mid, hi)));
        assert(spec_row(files, lo, lo + 1) + (spec_rows(files, lo + 1, mid) + spec_rows(
            files,
            mid,
            hi,
        )) =~= (spec_row(files, lo, lo + 1) + spec_rows(files, lo + 1, mid)) + spec_rows(
            files,
            mid,
            hi,
        ));
    }
    vstd::seq_lib::lemma_multiset_commutative(
        spec_rows(files, lo, mid),
        spec_rows(files, mid, hi),
    );
}

} // verus!
