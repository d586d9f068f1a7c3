//! Bringing two archives together: which of two versions of a post that a
//! post shares is kept.

use crate::text::{less_than, text_less, to_chars};
use vstd::prelude::*;

verus! {

/// Whether the post that is there is kept as what a post shares, rather
/// than the one of the other archive: it is where both say when they were
/// published and the one that is there is not the earlier.
pub fn keeps_own_share(own_published_at: Option<&str>, other_published_at: Option<&str>) -> (r:
    bool)
    ensures
        r == (match (own_published_at, other_published_at) {
            (Some(own), Some(other)) => !text_less(own@, other@),
            _ => false,
        }),
{
    match (own_published_at, other_published_at) {
        (Some(own), Some(other)) => !less_than(&to_chars(own), &to_chars(other)),
        _ => false,
    }
}

/// What to do with a file of the other archive.
#[derive(Debug, Clone, Copy, PartialEq, Eq, Structural)]
pub enum CopyAction {
    /// Nothing: the file is on record already, or a file is there where it
    /// would go, as when both archives keep their files in one place.
    Skip,
    /// The merge ends: the other archive has the file on record, but not
    /// on disk.
    Fail,
    /// The file is copied and put on record.
    Copy,
}

/// What to do with a file of the other archive, given whether the address
/// is on record here, whether the file is there in the other archive, and
/// whether a file is there where it would go.
pub fn file_copy_action(on_record: bool, source_exists: bool, target_exists: bool) -> (r:
    CopyAction)
    ensures
        r == (if on_record {
            CopyAction::Skip
        } else if !source_exists {
            CopyAction::Fail
        } else if target_exists {
            CopyAction::Skip
        } else {
            CopyAction::Copy
        }),
{
    if on_record {
        CopyAction::Skip
    } else if !source_exists {
        CopyAction::Fail
    } else if target_exists {
        CopyAction::Skip
    } else {
        CopyAction::Copy
    }
}

} // verus!
