//! Bitrate categorisation, the quality comparison rule, and collection
//! statistics over the known bitrates of a file set.
use vstd::prelude::*;

use crate::text::{
    ends_with, mb_string, spec_dec, spec_ends_with, spec_mb_string, str_to_chars, u32_to_dec,
};
use crate::AudioFile;

verus! {

/// The quality band a bitrate falls in.
#[derive(Clone, Copy, PartialEq, Eq, Structural, Debug, Hash)]
pub enum BitrateCategory {
    HighRes,
    Lossless,
    High,
    Standard,
    Low,
    Unknown,
}

/// The band of a bitrate in kbps.
pub open spec fn spec_from_bitrate(bitrate: u32) -> BitrateCategory {
    if bitrate >= 1500 {
        BitrateCategory::HighRes
    } else if bitrate >= 700 {
        BitrateCategory::Lossless
    } else if 256 <= bitrate && bitrate <= 400 {
        BitrateCategory::High
    } else if 160 <= bitrate && bitrate <= 255 {
        BitrateCategory::Standard
    } else if 64 <= bitrate && bitrate <= 159 {
        BitrateCategory::Low
    } else {
        BitrateCategory::Unknown
    }
}

impl BitrateCategory {
    /// Categorise a bitrate in kbps.
    pub fn from_bitrate(bitrate: u32) -> (r: Self)
        ensures
            r == spec_from_bitrate(bitrate),
    {
        if bitrate >= 1500 {
            BitrateCategory::HighRes
        } else if bitrate >= 700 {
            BitrateCategory::Lossless
        } else if 256 <= bitrate && bitrate <= 400 {
            BitrateCategory::High
        } else if 160 <= bitrate && bitrate <= 255 {
            BitrateCategory::Standard
        } else if 64 <= bitrate && bitrate <= 159 {
            BitrateCategory::Low
        } else {
            BitrateCategory::Unknown
        }
    }

    /// The band's display name.
    pub fn as_str(&self) -> (r: &'static str)
        ensures
            r@ == spec_category_name(*self),
    {
        match self {
            BitrateCategory::HighRes => "High-Resolution (1500+ kbps)",
            BitrateCategory::Lossless => "Lossless (700-1499 kbps)",
            BitrateCategory::High => "High Bitrate (256-400 kbps)",
            BitrateCategory::Standard => "Standard Bitrate (160-255 kbps)",
            BitrateCategory::Low => "Low Bitrate (64-159 kbps)",
            BitrateCategory::Unknown => "Other",
        }
    }
}

/// The display name of a band.
pub open spec fn spec_category_name(c: BitrateCategory) -> Seq<char> {
    match c {
        BitrateCategory::HighRes => "High-Resolution (1500+ kbps)"@,
        BitrateCategory::Lossless => "Lossless (700-1499 kbps)"@,
        BitrateCategory::High => "High Bitrate (256-400 kbps)"@,
        BitrateCategory::Standard => "Standard Bitrate (160-255 kbps)"@,
        BitrateCategory::Low => "Low Bitrate (64-159 kbps)"@,
        BitrateCategory::Unknown => "Other"@,
    }
}

/// Whether a file name carries the lossless container extension.
pub open spec fn spec_is_lossless_name(name: Seq<char>) -> bool {
    spec_ends_with(name, ".flac"@)
}

/// Whether the bitrate rule applies: both bitrates known and different.
pub open spec fn spec_bitrate_decides(a: AudioFile, b: AudioFile) -> bool {
    a.bitrate is Some && b.bitrate is Some && a.bitrate != b.bitrate
}

/// Whether the two descriptors tie in every measured dimension, so that
/// the first argument is kept only by convention.
pub open spec fn spec_quality_tied(a: AudioFile, b: AudioFile) -> bool {
    !spec_bitrate_decides(a, b) && a.size_bytes == b.size_bytes
}

/// Whether `a` is the better file: with known, differing bitrates the
/// lossless container wins, then the higher bitrate; else the larger
/// file; on a full tie the first argument.
pub open spec fn spec_better(a: AudioFile, b: AudioFile) -> bool {
    if spec_bitrate_decides(a, b) {
        let fa = spec_is_lossless_name(a.file_name@);
        let fb = spec_is_lossless_name(b.file_name@);
        if fa && !fb {
            true
        } else if !fa && fb {
            false
        } else {
            match (a.bitrate, b.bitrate) {
                (Some(x), Some(y)) => x > y,
                _ => true,
            }
        }
    } else if a.size_bytes != b.size_bytes {
        a.size_bytes > b.size_bytes
    } else {
        true
    }
}

/// The explanation that goes with the quality verdict.
pub open spec fn spec_quality_text(a: AudioFile, b: AudioFile) -> Seq<char> {
    if spec_bitrate_decides(a, b) {
        match (a.bitrate, b.bitrate) {
            (Some(x), Some(y)) => "Bitrate difference: "@ + spec_dec(x as int) + " vs "@
                + spec_dec(y as int) + " kbps"@,
            _ => Seq::empty(),
        }
    } else if a.size_bytes != b.size_bytes {
        "Size difference: "@ + spec_mb_string(a.size_bytes) + " MB vs "@ + spec_mb_string(
            b.size_bytes,
        ) + " MB"@
    } else {
        "Files are identical in size and bitrate"@
    }
}

/// Statistics over the known bitrates of a file set. The average is
/// recoverable from `total_bitrate_kbps` and `files_with_bitrate`.
#[derive(Debug)]
pub struct BitrateStats {
    pub file_count: usize,
    pub high_res_count: usize,
    pub lossless_count: usize,
    pub high_count: usize,
    pub standard_count: usize,
    pub low_count: usize,
    pub unknown_count: usize,
    pub files_with_bitrate: usize,
    pub total_bitrate_kbps: u128,
    pub min_bitrate: u32,
    pub max_bitrate: u32,
}

/// How many files carry a bitrate in band `c`.
pub open spec fn spec_count_cat(files: Seq<AudioFile>, c: BitrateCategory) -> int
    decreases files.len(),
{
    if files.len() == 0 {
        0int
    } else {
        spec_count_cat(files.drop_last(), c) + match files.last().bitrate {
            Some(b) => if spec_from_bitrate(b) == c {
                1int
            } else {
                0int
            },
            None => 0int,
        }
    }
}

/// How many files carry a bitrate at all.
pub open spec fn spec_count_with_bitrate(files: Seq<AudioFile>) -> int
    decreases files.len(),
{
    if files.len() == 0 {
        0int
    } else {
        spec_count_with_bitrate(files.drop_last()) + if files.last().bitrate is Some {
            1int
        } else {
            0int
        }
    }
}

/// The sum of the known bitrates.
pub open spec fn spec_sum_bitrate(files: Seq<AudioFile>) -> int
    decreases files.len(),
{
    if files.len() == 0 {
        0int
    } else {
        spec_sum_bitrate(files.drop_last()) + match files.last().bitrate {
            Some(b) => b as int,
            None => 0int,
        }
    }
}

/// The least known bitrate, starting from the largest representable one.
pub open spec fn spec_min_bitrate(files: Seq<AudioFile>) -> int
    decreases files.len(),
{
    if files.len() == 0 {
        u32::MAX as int
    } else {
        let rest = spec_min_bitrate(files.drop_last());
        match files.last().bitrate {
            Some(b) => if (b as int) < rest {
                b as int
            } else {
                rest
            },
            None => rest,
        }
    }
}

/// The greatest known bitrate, starting from zero.
pub open spec fn spec_max_bitrate(files: Seq<AudioFile>) -> int
    decreases files.len(),
{
    if files.len() == 0 {
        0int
    } else {
        let rest = spec_max_bitrate(files.drop_last());
        match files.last().bitrate {
            Some(b) => if (b as int) > rest {
                b as int
            } else {
                rest
            },
            None => rest,
        }
    }
}

/// Analyses the bitrates of a collection and compares file quality.
pub struct BitrateAnalyzer;

impl BitrateAnalyzer {
    /// A fresh analyzer.
    pub fn new() -> (r: Self) {
        BitrateAnalyzer
    }

    /// Decide which of two files is of higher quality, with an
    /// explanation: when both bitrates are known and differ, a lossless
    /// container wins, then the higher bitrate; otherwise the larger
    /// file; fully equal files keep the first argument.
    pub fn compare_quality(file1: &AudioFile, file2: &AudioFile) -> (r: (bool, String))
        ensures
            r.0 == spec_better(*file1, *file2),
            r.1@ == spec_quality_text(*file1, *file2),
    {
        let flac = str_to_chars(".flac");
        let decided: bool = match (file1.bitrate, file2.bitrate) {
            (Some(x), Some(y)) => x != y,
            _ => false,
        };
        if decided {
            let b1 = bitrate_value(file1);
            let b2 = bitrate_value(file2);
            let n1 = str_to_chars(file1.file_name.as_str());
            let n2 = str_to_chars(file2.file_name.as_str());
            let f1 = ends_with(&n1, &flac);
            let f2 = ends_with(&n2, &flac);
            let better: bool = if f1 && !f2 {
                true
            } else if !f1 && f2 {
                false
            } else {
                b1 > b2
            };
            let mut text = str_to_chars("Bitrate difference: ");
            let mut piece = u32_to_dec(b1);
            text.append(&mut piece);
            let mut piece = str_to_chars(" vs ");
            text.append(&mut piece);
            let mut piece = u32_to_dec(b2);
            text.append(&mut piece);
            let mut piece = str_to_chars(" kbps");
            text.append(&mut piece);
            assert(text@ =~= spec_quality_text(*file1, *file2));
            (better, crate::text::chars_to_string(text))
        } else if file1.size_bytes != file2.size_bytes {
            let better = file1.size_bytes > file2.size_bytes;
            let mut text = str_to_chars("Size difference: ");
            let mut piece = mb_string(file1.size_bytes);
            text.append(&mut piece);
            let mut piece = str_to_chars(" MB vs ");
            text.append(&mut piece);
            let mut piece = mb_string(file2.size_bytes);
            text.append(&mut piece);
            let mut piece = str_to_chars(" MB");
            text.append(&mut piece);
            assert(text@ =~= spec_quality_text(*file1, *file2));
            (better, crate::text::chars_to_string(text))
        } else {
            let text = str_to_chars("Files are identical in size and bitrate");
            (true, crate::text::chars_to_string(text))
        }
    }

    /// Collect the bitrate statistics of a file set.
    pub fn analyze(&self, files: &Vec<AudioFile>) -> (r: BitrateStats)
        ensures
            r.file_count == files@.len(),
            r.high_res_count == spec_count_cat(files@, BitrateCategory::HighRes),
            r.lossless_count == spec_count_cat(files@, BitrateCategory::Lossless),
            r.high_count == spec_count_cat(files@, BitrateCategory::High),
            r.standard_count == spec_count_cat(files@, BitrateCategory::Standard),
            r.low_count == spec_count_cat(files@, BitrateCategory::Low),
            r.unknown_count == spec_count_cat(files@, BitrateCategory::Unknown),
            r.files_with_bitrate == spec_count_with_bitrate(files@),
            r.total_bitrate_kbps == spec_sum_bitrate(files@),
            r.min_bitrate as int == if spec_min_bitrate(files@) == u32::MAX as int {
                0int
            } else {
                spec_min_bitrate(files@)
            },
            r.max_bitrate as int == spec_max_bitrate(files@),
    {
        let n: usize = files.len();
        let mut stats = BitrateStats {
            file_count: n,
            high_res_count: 0,
            lossless_count: 0,
            high_count: 0,
            standard_count: 0,
            low_count: 0,
            unknown_count: 0,
            files_with_bitrate: 0,
            total_bitrate_kbps: 0,
            min_bitrate: u32::MAX,
            max_bitrate: 0,
        };
        let mut i: usize = 0;
        assert(files@.take(0) =~= Seq::<AudioFile>::empty());
        while i < n
            invariant
                n == files@.len(),
                i <= n,
                stats.file_count == n,
                stats.high_res_count == spec_count_cat(
                    files@.take(i as int),
                    BitrateCategory::HighRes,
                ),
                stats.lossless_count == spec_count_cat(
                    files@.take(i as int),
                    BitrateCategory::Lossless,
                ),
                stats.high_count == spec_count_cat(files@.take(i as int), BitrateCategory::High),
                stats.standard_count == spec_count_cat(
                    files@.take(i as int),
                    BitrateCategory::Standard,
                ),
                stats.low_count == spec_count_cat(files@.take(i as int), BitrateCategory::Low),
                stats.unknown_count == spec_count_cat(
                    files@.take(i as int),
                    BitrateCategory::Unknown,
                ),
                stats.files_with_bitrate == spec_count_with_bitrate(files@.take(i as int)),
                stats.total_bitrate_kbps == spec_sum_bitrate(files@.take(i as int)),
                stats.min_bitrate as int == spec_min_bitrate(files@.take(i as int)),
                stats.max_bitrate as int == spec_max_bitrate(files@.take(i as int)),
                stats.high_res_count <= i && stats.lossless_count <= i && stats.high_count <= i
                    && stats.standard_count <= i && stats.low_count <= i && stats.unknown_count
                    <= i && stats.files_with_bitrate <= i,
                stats.total_bitrate_kbps <= (i as u128) * (u32::MAX as u128),
            decreases n - i,
        {
            proof {
                assert(files@.take(i + 1 as int).drop_last() =~= files@.take(i as int));
                assert(files@.take(i + 1 as int).last() == files@[i as int]);
            }
            match files[i].bitrate {
                Some(b) => {
                    match BitrateCategory::from_bitrate(b) {
                        BitrateCategory::HighRes => {
                            stats.high_res_count = stats.high_res_count + 1;
                        },
                        BitrateCategory::Lossless => {
                            stats.lossless_count = stats.lossless_count + 1;
                        },
                        BitrateCategory::High => {
                            stats.high_count = stats.high_count + 1;
                        },
                        BitrateCategory::Standard => {
                            stats.standard_count = stats.standard_count + 1;
                        },
                        BitrateCategory::Low => {
                            stats.low_count = stats.low_count + 1;
                        },
                        BitrateCategory::Unknown => {
                            stats.unknown_count = stats.unknown_count + 1;
                        },
                    }
                    stats.files_with_bitrate = stats.files_with_bitrate + 1;
                    proof {
                        assert((i as u128) * (u32::MAX as u128) + (u32::MAX as u128) == ((i
                            + 1) as u128) * (u32::MAX as u128)) by (nonlinear_arith);
                    }
                    stats.total_bitrate_kbps = stats.total_bitrate_kbps + (b as u128);
                    if b < stats.min_bitrate {
                        stats.min_bitrate = b;
                    }
                    if b > stats.max_bitrate {
                        stats.max_bitrate = b;
                    }
                },
                None => {
                    proof {
                        assert((i as u128) * (u32::MAX as u128) <= ((i + 1) as u128) * (
                        u32::MAX as u128)) by (nonlinear_arith);
                    }
                },
            }
            i = i + 1;
        }
        assert(files@.take(n as int) =~= files@);
        if stats.min_bitrate == u32::MAX {
            stats.min_bitrate = 0;
        }
        stats
    }
}

/// The known bitrate of a file.
fn bitrate_value(f: &AudioFile) -> (r: u32)
    requires
        f.bitrate is Some,
    ensures
        f.bitrate == Some(r),
{
    match f.bitrate {
        Some(b) => b,
        None => 0,
    }
}

/// On a full tie the first argument is always the keeper: the verdict is
/// total and reproducible for any two descriptors.
pub proof fn lemma_tie_keeps_first(a: AudioFile, b: AudioFile)
    requires
        a.bitrate == b.bitrate,
        a.size_bytes == b.size_bytes,
    ensures
        spec_better(a, b),
{
}

/// Without a full tie, the comparison reverses when the arguments swap:
/// the same file is preferred from either side.
pub proof fn lemma_better_antisym(a: AudioFile, b: AudioFile)
    requires
        !spec_quality_tied(a, b),
    ensures
        spec_better(b, a) == !spec_better(a, b),
{
}

} // verus!
