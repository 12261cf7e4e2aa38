use vstd::prelude::*;

pub mod bitrate;
pub mod cli;
pub mod duplicate;
pub mod file_ops;
pub mod normalize;
pub mod reporting;
pub mod text;
pub mod version;

pub use bitrate::{BitrateAnalyzer, BitrateCategory, BitrateStats};
pub use duplicate::{DuplicateAnalyzer, DuplicateMatch, DuplicateResults};
pub use file_ops::FileManager;
pub use reporting::Reporter;

verus! {

/// Per-file record carrying the size, duration, bitrate and tag metadata
/// that the matching engine consumes. Produced by the metadata extraction
/// layer; the engine itself only ever reads it. The duration is kept in
/// whole seconds.
#[derive(Debug)]
pub struct AudioFile {
    pub path: String,
    pub file_name: String,
    pub size_bytes: u64,
    pub duration_secs: Option<u64>,
    pub bitrate: Option<u32>,
    pub artist: Option<String>,
    pub title: Option<String>,
    pub album: Option<String>,
}

impl Clone for AudioFile {
    fn clone(&self) -> (res: Self)
        ensures
            res == *self,
    {
        AudioFile {
            path: self.path.clone(),
            file_name: self.file_name.clone(),
            size_bytes: self.size_bytes,
            duration_secs: self.duration_secs,
            bitrate: self.bitrate,
            artist: clone_opt_string(&self.artist),
            title: clone_opt_string(&self.title),
            album: clone_opt_string(&self.album),
        }
    }
}

/// Whether a file extension, case-insensitively, marks one of the
/// supported audio container formats.
pub fn is_supported_audio_extension(ext: &str) -> (r: bool)
    ensures
        r == (text::lower_of(ext@) == "mp3"@ || text::lower_of(ext@) == "wav"@ || text::lower_of(
            ext@,
        ) == "flac"@),
{
    let low = text::lowercase(ext);
    let lc = text::str_to_chars(low.as_str());
    text::eq_chars(&lc, &text::str_to_chars("mp3")) || text::eq_chars(
        &lc,
        &text::str_to_chars("wav"),
    ) || text::eq_chars(&lc, &text::str_to_chars("flac"))
}

fn clone_opt_string(o: &Option<String>) -> (res: Option<String>)
    ensures
        res == *o,
{
    match o {
        Some(s) => Some(s.clone()),
        None => None,
    }
}

} // verus!
