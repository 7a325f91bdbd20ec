//! The tree walker's per-entry decisions.  Traversal itself — reading
//! directories, spawning one concurrent unit per subdirectory, joining the
//! pending units — is the callers' concern; what to do with each discovered
//! entry is decided here.

use vstd::prelude::*;

verus! {

/// What the walker does with one discovered entry.
pub enum EntryAction {
    /// Recurse into a directory as a new concurrent unit of work.
    Spawn,
    /// Transform a regular file in place, synchronously.
    Transform,
    /// Leave the entry alone.
    Skip,
}

/// Whether a file name is the macOS directory-listing artifact that the
/// walker unconditionally skips.
pub fn should_skip(name: &str) -> (r: bool)
    ensures
        r <==> name@ == ".DS_Store"@,
{
    let n = name.to_owned();
    let marker = ".DS_Store".to_owned();
    n == marker
}

/// The rule for an entry discovered inside a directory: subdirectories
/// become concurrent units, the metadata artifact is skipped, every other
/// file is transformed.
pub fn plan_entry(is_dir: bool, name: &str) -> (r: EntryAction)
    ensures
        is_dir ==> r is Spawn,
        !is_dir && name@ == ".DS_Store"@ ==> r is Skip,
        !is_dir && name@ != ".DS_Store"@ ==> r is Transform,
{
    if is_dir {
        EntryAction::Spawn
    } else if should_skip(name) {
        EntryAction::Skip
    } else {
        EntryAction::Transform
    }
}

/// The rule for a path named directly by the caller: directories become
/// concurrent units, everything else is transformed inline.  Nothing is
/// skipped at the top level.
pub fn plan_path(is_dir: bool) -> (r: EntryAction)
    ensures
        r is Spawn <==> is_dir,
        r is Transform <==> !is_dir,
{
    if is_dir {
        EntryAction::Spawn
    } else {
        EntryAction::Transform
    }
}

} // verus!
