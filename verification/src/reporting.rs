//! Report contents as plain records. Writing them to disk is I/O and
//! happens outside the library; what is specified here is every cell of
//! the duplicate report, the bitrate summary and the per-file detail
//! rows, including the ordering of the detail rows.
use vstd::prelude::*;

use crate::bitrate::{spec_category_name, spec_from_bitrate, BitrateCategory, BitrateStats};
use crate::duplicate::{DuplicateResults, MatchView};
use crate::normalize::view_opt;
use crate::text::{
    chars_to_string, mb_string, spec_dec, spec_mb_string, str_to_chars, u128_to_dec, u32_to_dec,
};
use crate::version::strs_views;
use crate::AudioFile;

verus! {

/// The views of a table of rows.
pub open spec fn rows_views(s: Seq<Vec<String>>) -> Seq<Seq<Seq<char>>> {
    s.map_values(|r: Vec<String>| strs_views(r@))
}

/// A bitrate cell: the number in kbps, or `Unknown`.
pub open spec fn spec_bitrate_cell(o: Option<u32>) -> Seq<char> {
    match o {
        Some(b) => spec_dec(b as int) + " kbps"@,
        None => "Unknown"@,
    }
}

/// A tag cell: the tag's text, or `Unknown`.
pub open spec fn spec_tag_cell(o: Option<Seq<char>>) -> Seq<char> {
    match o {
        Some(s) => s,
        None => "Unknown"@,
    }
}

/// One duplicate-report row: both descriptors' name, size and bitrate,
/// then the two justifications.
pub open spec fn spec_duplicate_row(m: MatchView) -> Seq<Seq<char>> {
    seq![
        m.higher_quality.file_name@,
        spec_mb_string(m.higher_quality.size_bytes),
        spec_bitrate_cell(m.higher_quality.bitrate),
        m.lower_quality.file_name@,
        spec_mb_string(m.lower_quality.size_bytes),
        spec_bitrate_cell(m.lower_quality.bitrate),
        m.match_reason,
        m.quality_difference,
    ]
}

/// A share of `count` out of `total`, in whole percent, rounding half up;
/// zero when there is no total.
pub open spec fn spec_pct(count: int, total: int) -> int {
    if total <= 0 {
        0int
    } else {
        (200 * count + total) / (2 * total)
    }
}

/// The percentage cell of a summary row.
pub open spec fn spec_pct_string(count: int, total: int) -> Seq<char> {
    spec_dec(spec_pct(count, total)) + ".0%"@
}

/// One bitrate-summary row: band name, file count, share.
pub open spec fn spec_cat_row(c: BitrateCategory, count: int, total: int) -> Seq<Seq<char>> {
    seq![spec_category_name(c), spec_dec(count), spec_pct_string(count, total)]
}

/// The summary rows: one per band that holds at least one file, from the
/// highest band down.
pub open spec fn spec_bitrate_summary(stats: BitrateStats) -> Seq<Seq<Seq<char>>> {
    let total = stats.files_with_bitrate as int;
    (if stats.high_res_count > 0 {
        seq![spec_cat_row(BitrateCategory::HighRes, stats.high_res_count as int, total)]
    } else {
        Seq::empty()
    }) + (if stats.lossless_count > 0 {
        seq![spec_cat_row(BitrateCategory::Lossless, stats.lossless_count as int, total)]
    } else {
        Seq::empty()
    }) + (if stats.high_count > 0 {
        seq![spec_cat_row(BitrateCategory::High, stats.high_count as int, total)]
    } else {
        Seq::empty()
    }) + (if stats.standard_count > 0 {
        seq![spec_cat_row(BitrateCategory::Standard, stats.standard_count as int, total)]
    } else {
        Seq::empty()
    }) + (if stats.low_count > 0 {
        seq![spec_cat_row(BitrateCategory::Low, stats.low_count as int, total)]
    } else {
        Seq::empty()
    }) + (if stats.unknown_count > 0 {
        seq![spec_cat_row(BitrateCategory::Unknown, stats.unknown_count as int, total)]
    } else {
        Seq::empty()
    })
}

/// The sort key of the detail report: the known bitrate, else zero.
pub open spec fn spec_bitrate_key(f: AudioFile) -> int {
    match f.bitrate {
        Some(b) => b as int,
        None => 0int,
    }
}

/// Insert `x` into `s`, which is sorted by descending key, before the
/// first element with a strictly smaller key (so equal keys keep their
/// original order).
pub open spec fn spec_insert_desc(x: AudioFile, s: Seq<AudioFile>) -> Seq<AudioFile>
    decreases s.len(),
{
    if s.len() == 0 {
        seq![x]
    } else if spec_bitrate_key(x) >= spec_bitrate_key(s[0]) {
        seq![x] + s
    } else {
        seq![s[0]] + spec_insert_desc(x, s.drop_first())
    }
}

/// Stable sort by descending bitrate key.
pub open spec fn spec_sort_desc(s: Seq<AudioFile>) -> Seq<AudioFile>
    decreases s.len(),
{
    if s.len() == 0 {
        Seq::empty()
    } else {
        spec_insert_desc(s[0], spec_sort_desc(s.drop_first()))
    }
}

/// One detail row for a file with a known bitrate.
pub open spec fn spec_detail_row(f: AudioFile, b: u32) -> Seq<Seq<char>> {
    seq![
        f.file_name@,
        spec_dec(b as int),
        spec_category_name(spec_from_bitrate(b)),
        spec_mb_string(f.size_bytes),
        spec_tag_cell(view_opt(f.artist)),
        spec_tag_cell(view_opt(f.title)),
        spec_tag_cell(view_opt(f.album)),
    ]
}

/// The detail rows of a file sequence: one per file with a known
/// bitrate, in sequence order.
pub open spec fn spec_detail_rows(s: Seq<AudioFile>) -> Seq<Seq<Seq<char>>>
    decreases s.len(),
{
    if s.len() == 0 {
        Seq::empty()
    } else {
        spec_detail_rows(s.drop_last()) + match s.last().bitrate {
            Some(b) => seq![spec_detail_row(s.last(), b)],
            None => Seq::empty(),
        }
    }
}

/// Builds report contents from analysis results.
pub struct Reporter;

/// A bitrate cell.
fn bitrate_cell(o: Option<u32>) -> (r: String)
    ensures
        r@ == spec_bitrate_cell(o),
{
    match o {
        Some(b) => {
            let mut v = u32_to_dec(b);
            let mut piece = str_to_chars(" kbps");
            v.append(&mut piece);
            assert(v@ =~= spec_bitrate_cell(Some(b)));
            chars_to_string(v)
        },
        None => chars_to_string(str_to_chars("Unknown")),
    }
}

/// A tag cell.
fn tag_cell(o: &Option<String>) -> (r: String)
    ensures
        r@ == spec_tag_cell(view_opt(*o)),
{
    match o {
        Some(s) => s.clone(),
        None => chars_to_string(str_to_chars("Unknown")),
    }
}

/// The percentage cell.
fn pct_string(count: usize, total: usize) -> (r: String)
    ensures
        r@ == spec_pct_string(count as int, total as int),
{
    let p: u128 = if total == 0 {
        0
    } else {
        (200 * (count as u128) + (total as u128)) / (2 * (total as u128))
    };
    assert(p == spec_pct(count as int, total as int));
    let mut v = u128_to_dec(p);
    let mut piece = str_to_chars(".0%");
    v.append(&mut piece);
    assert(v@ =~= spec_pct_string(count as int, total as int));
    chars_to_string(v)
}

/// One summary row.
fn cat_row(c: BitrateCategory, count: usize, total: usize) -> (r: Vec<String>)
    ensures
        strs_views(r@) == spec_cat_row(c, count as int, total as int),
{
    let mut row: Vec<String> = Vec::new();
    row.push(chars_to_string(str_to_chars(c.as_str())));
    row.push(chars_to_string(u128_to_dec(count as u128)));
    row.push(pct_string(count, total));
    assert(strs_views(row@) =~= spec_cat_row(c, count as int, total as int));
    row
}

impl Reporter {
    /// A fresh reporter.
    pub fn new() -> (r: Self) {
        Reporter
    }

    /// The file name of the summary report beside an output path stem.
    pub fn summary_report_name(&self, stem: &str) -> (r: String)
        ensures
            r@ == stem@ + "_summary.csv"@,
    {
        let mut v = str_to_chars(stem);
        let mut piece = str_to_chars("_summary.csv");
        v.append(&mut piece);
        chars_to_string(v)
    }

    /// The file name of the detailed report beside an output path stem.
    pub fn detailed_report_name(&self, stem: &str) -> (r: String)
        ensures
            r@ == stem@ + "_detailed.csv"@,
    {
        let mut v = str_to_chars(stem);
        let mut piece = str_to_chars("_detailed.csv");
        v.append(&mut piece);
        chars_to_string(v)
    }

    /// One row per duplicate match, in match order.
    pub fn duplicate_report_records(&self, results: &DuplicateResults) -> (r: Vec<Vec<String>>)
        ensures
            r@.len() == results.matches@.len(),
            forall|i: int|
                0 <= i < r@.len() ==> strs_views(#[trigger] r@[i]@) == spec_duplicate_row(
                    results.matches@[i]@,
                ),
    {
        let n: usize = results.matches.len();
        let mut out: Vec<Vec<String>> = Vec::new();
        let mut i: usize = 0;
        while i < n
            invariant
                n == results.matches@.len(),
                i <= n,
                out@.len() == i,
                forall|k: int|
                    0 <= k < i ==> strs_views(#[trigger] out@[k]@) == spec_duplicate_row(
                        results.matches@[k]@,
                    ),
            decreases n - i,
        {
            let m = &results.matches[i];
            let mut row: Vec<String> = Vec::new();
            row.push(m.higher_quality.file_name.clone());
            row.push(chars_to_string(mb_string(m.higher_quality.size_bytes)));
            row.push(bitrate_cell(m.higher_quality.bitrate));
            row.push(m.lower_quality.file_name.clone());
            row.push(chars_to_string(mb_string(m.lower_quality.size_bytes)));
            row.push(bitrate_cell(m.lower_quality.bitrate));
            row.push(m.match_reason.clone());
            row.push(m.quality_difference.clone());
            assert(strs_views(row@) =~= spec_duplicate_row(results.matches@[i as int]@));
            out.push(row);
            i = i + 1;
        }
        out
    }

    /// The bitrate summary rows: every non-empty band with its count and
    /// its share of the files that have a bitrate, from the highest band
    /// down.
    pub fn bitrate_summary_records(&self, stats: &BitrateStats) -> (r: Vec<Vec<String>>)
        ensures
            rows_views(r@) == spec_bitrate_summary(*stats),
    {
        let total: usize = stats.files_with_bitrate;
        let mut out: Vec<Vec<String>> = Vec::new();
        if stats.high_res_count > 0 {
            out.push(cat_row(BitrateCategory::HighRes, stats.high_res_count, total));
        }
        if stats.lossless_count > 0 {
            out.push(cat_row(BitrateCategory::Lossless, stats.lossless_count, total));
        }
        if stats.high_count > 0 {
            out.push(cat_row(BitrateCategory::High, stats.high_count, total));
        }
        if stats.standard_count > 0 {
            out.push(cat_row(BitrateCategory::Standard, stats.standard_count, total));
        }
        if stats.low_count > 0 {
            out.push(cat_row(BitrateCategory::Low, stats.low_count, total));
        }
        if stats.unknown_count > 0 {
            out.push(cat_row(BitrateCategory::Unknown, stats.unknown_count, total));
        }
        assert(rows_views(out@) =~= spec_bitrate_summary(*stats));
        out
    }

    /// The detail rows: the files that carry a bitrate, sorted by
    /// descending bitrate (ties keep their input order), one row each.
    pub fn detailed_report_records(&self, files: &Vec<AudioFile>) -> (r: Vec<Vec<String>>)
        ensures
            rows_views(r@) == spec_detail_rows(spec_sort_desc(files@)),
    {
        let sorted = sort_by_bitrate_desc(files);
        let n: usize = sorted.len();
        let mut out: Vec<Vec<String>> = Vec::new();
        let mut i: usize = 0;
        assert(sorted@.take(0) =~= Seq::<AudioFile>::empty());
        assert(rows_views(out@) =~= spec_detail_rows(sorted@.take(0)));
        while i < n
            invariant
                n == sorted@.len(),
                i <= n,
                sorted@ == spec_sort_desc(files@),
                rows_views(out@) == spec_detail_rows(sorted@.take(i as int)),
            decreases n - i,
        {
            proof {
                assert(sorted@.take(i + 1 as int).drop_last() =~= sorted@.take(i as int));
                assert(sorted@.take(i + 1 as int).last() == sorted@[i as int]);
            }
            let f = &sorted[i];
            match f.bitrate {
                Some(b) => {
                    let mut row: Vec<String> = Vec::new();
                    row.push(f.file_name.clone());
                    row.push(chars_to_string(u32_to_dec(b)));
                    row.push(
                        chars_to_string(str_to_chars(BitrateCategory::from_bitrate(b).as_str())),
                    );
                    row.push(chars_to_string(mb_string(f.size_bytes)));
                    row.push(tag_cell(&f.artist));
                    row.push(tag_cell(&f.title));
                    row.push(tag_cell(&f.album));
                    assert(strs_views(row@) =~= spec_detail_row(sorted@[i as int], b));
                    out.push(row);
                    assert(rows_views(out@) =~= rows_views(out@.drop_last()).push(
                        strs_views(out@.last()@),
                    ));
                    assert(rows_views(out@) =~= spec_detail_rows(sorted@.take(i + 1 as int)));
                },
                None => {
                    assert(rows_views(out@) =~= spec_detail_rows(sorted@.take(i + 1 as int)));
                },
            }
            i = i + 1;
        }
        assert(sorted@.take(n as int) =~= sorted@);
        out
    }
}

/// The insertion point is the first index whose key is strictly smaller.
proof fn lemma_insert_desc_at(x: AudioFile, s: Seq<AudioFile>, p: int)
    requires
        0 <= p <= s.len(),
        forall|k: int| 0 <= k < p ==> spec_bitrate_key(x) < spec_bitrate_key(s[k]),
        p == s.len() || spec_bitrate_key(x) >= spec_bitrate_key(s[p]),
    ensures
        spec_insert_desc(x, s) == s.take(p).push(x) + s.skip(p),
    decreases p,
{
    if s.len() == 0 {
        assert(spec_insert_desc(x, s) =~= s.take(p).push(x) + s.skip(p));
    } else if p == 0 {
        assert(s.take(0).push(x) + s.skip(0) =~= seq![x] + s);
    } else {
        lemma_insert_desc_at(x, s.drop_first(), p - 1);
        assert(s.drop_first().take(p - 1) =~= s.take(p).drop_first());
        assert(s.drop_first().skip(p - 1) =~= s.skip(p));
        assert(seq![s[0]] + (s.drop_first().take(p - 1).push(x) + s.drop_first().skip(p - 1))
            =~= s.take(p).push(x) + s.skip(p));
    }
}

/// The key of a file, executable.
fn bitrate_key(f: &AudioFile) -> (r: u32)
    ensures
        r as int == spec_bitrate_key(*f),
{
    match f.bitrate {
        Some(b) => b,
        None => 0,
    }
}

/// Insert a file into a vector sorted by descending key.
fn insert_desc(x: AudioFile, s: &mut Vec<AudioFile>)
    ensures
        final(s)@ == spec_insert_desc(x, old(s)@),
{
    let n: usize = s.len();
    let kx = bitrate_key(&x);
    let mut p: usize = 0;
    while p < n && kx < bitrate_key(&s[p])
        invariant
            n == s@.len(),
            s@ == old(s)@,
            p <= n,
            kx as int == spec_bitrate_key(x),
            forall|k: int| 0 <= k < p ==> spec_bitrate_key(x) < spec_bitrate_key(s@[k]),
        decreases n - p,
    {
        p = p + 1;
    }
    proof {
        lemma_insert_desc_at(x, s@, p as int);
    }
    s.insert(p, x);
    proof {
        assert(s@ =~= old(s)@.take(p as int).push(x) + old(s)@.skip(p as int));
    }
}

/// Sort the files by descending bitrate key, keeping the input order of
/// ties.
pub fn sort_by_bitrate_desc(files: &Vec<AudioFile>) -> (r: Vec<AudioFile>)
    ensures
        r@ == spec_sort_desc(files@),
{
    let n: usize = files.len();
    let mut out: Vec<AudioFile> = Vec::new();
    let mut i: usize = n;
    proof {
        assert(files@.skip(n as int) =~= Seq::<AudioFile>::empty());
        assert(out@ =~= spec_sort_desc(files@.skip(n as int)));
    }
    while i > 0
        invariant
            n == files@.len(),
            i <= n,
            out@ == spec_sort_desc(files@.skip(i as int)),
        decreases i,
    {
        i = i - 1;
        let x = files[i].clone();
        insert_desc(x, &mut out);
        proof {
            assert(files@.skip(i as int)[0] == files@[i as int]);
            assert(files@.skip(i as int).drop_first() =~= files@.skip(i + 1));
        }
    }
    proof {
        assert(files@.skip(0) =~= files@);
    }
    out
}

} // verus!
