//! Naming rules for the directory that duplicates are moved to. The
//! moves themselves are I/O and live outside the library; what is
//! specified here is where a duplicate goes and what a colliding copy is
//! renamed to.
use vstd::prelude::*;

use crate::text::{chars_to_string, spec_dec, str_to_chars, u64_to_dec};

verus! {

/// Knows the directory that duplicate files are moved to.
pub struct FileManager {
    pub duplicate_dir: String,
}

/// The name a duplicate gets when its plain name is already taken: the
/// stem, a running counter, and the original extension.
pub open spec fn spec_candidate_name(stem: Seq<char>, counter: u64, extension: Seq<char>) -> Seq<
    char,
> {
    stem + "_duplicate_"@ + spec_dec(counter as int) + "."@ + extension
}

impl FileManager {
    /// A manager for the given duplicate directory.
    pub fn new(duplicate_dir: String) -> (r: Self)
        ensures
            r.duplicate_dir == duplicate_dir,
    {
        FileManager { duplicate_dir }
    }

    /// The `counter`-th fallback name for a duplicate whose plain name
    /// collides in the duplicate directory.
    pub fn duplicate_candidate_name(&self, stem: &str, counter: u64, extension: &str) -> (r:
        String)
        ensures
            r@ == spec_candidate_name(stem@, counter, extension@),
    {
        let mut name = str_to_chars(stem);
        let mut piece = str_to_chars("_duplicate_");
        name.append(&mut piece);
        let mut piece = u64_to_dec(counter);
        name.append(&mut piece);
        let mut piece = str_to_chars(".");
        name.append(&mut piece);
        let mut piece = str_to_chars(extension);
        name.append(&mut piece);
        assert(name@ =~= spec_candidate_name(stem@, counter, extension@));
        chars_to_string(name)
    }
}

} // verus!
