//! The user-chosen data directory: reading the remembered choice and
//! checking a new one. There is deliberately no default location; the
//! pointer file and the folder dialog are handled by the caller.
use vstd::prelude::*;
use crate::text::{string_from, trim, trim_seq};

verus! {

/// File name of the event database inside the data directory.
pub const DATABASE_FILE_NAME: &'static str = "chronicle.db";

/// The directory remembered in the pointer file whose contents are
/// `contents`: the contents without surrounding whitespace, or `None` when
/// nothing is left.
pub fn pointer_target(contents: &str) -> (r: Option<String>)
    ensures
        match r {
            Some(p) => p@ == trim_seq(contents@) && p@.len() > 0,
            None => trim_seq(contents@).len() == 0,
        },
{
    let path = trim(contents);
    if path.as_str().is_empty() {
        None
    } else {
        Some(path)
    }
}

/// Error when moving the data to an empty destination.
pub const NO_DESTINATION: &'static str = "no destination directory was provided";

/// Checks a destination for moving the data: it must name something.
pub fn check_relocation_target(new_dir: &str) -> (r: Result<(), String>)
    ensures
        r is Ok <==> new_dir@.len() > 0,
        r matches Err(e) ==> e@ == NO_DESTINATION@,
{
    if new_dir.is_empty() {
        Err(string_from(NO_DESTINATION))
    } else {
        Ok(())
    }
}

} // verus!
