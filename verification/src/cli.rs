//! The command surface as plain data: which analysis to run and on what.
//! Argument parsing itself happens outside the library and hands over a
//! value of these types.
use vstd::prelude::*;

verus! {

/// A parsed invocation.
pub struct Cli {
    pub command: Commands,
}

/// The two analyses the tool offers.
pub enum Commands {
    /// Find duplicate audio files under `input`; move the losers to
    /// `output` unless `dry_run` is set.
    Duplicates { input: String, output: String, dry_run: bool },
    /// Analyze the bitrates under `input` and write reports to `output`.
    Bitrate { input: String, output: String },
}

} // verus!
