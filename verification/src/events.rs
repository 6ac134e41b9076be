//! Change notifications as the engine sees them, and the filter that keeps
//! only "a new regular file was created". A notification carries what the
//! engine reads of a native filesystem event: its kind, the affected
//! paths, and whether the entry is a directory.

use vstd::prelude::*;

verus! {

/// Kind of a filesystem change.
#[derive(Clone, Copy, Debug, PartialEq, Eq, Structural)]
pub enum ChangeKind {
    Created,
    Modified,
    Removed,
    Other,
}

/// One filesystem change notification. `paths` is expected to be
/// non-empty; the first path is the affected entry.
pub struct ChangeNotification {
    pub kind: ChangeKind,
    pub paths: Vec<Vec<u8>>,
    pub is_directory: bool,
}

/// The path of a created regular file, if the notification reports one;
/// everything else is discarded.
pub open spec fn spec_filter_created(n: ChangeNotification) -> Option<Seq<u8>> {
    if n.kind == ChangeKind::Created && !n.is_directory && n.paths@.len() > 0 {
        Some(n.paths@[0]@)
    } else {
        None
    }
}

/// Keep a notification only when it reports a newly created regular file,
/// handing back that file's path.
pub fn filter_created(n: &ChangeNotification) -> (r: Option<Vec<u8>>)
    ensures
        match r {
            Some(p) => spec_filter_created(*n) == Some(p@),
            None => spec_filter_created(*n) is None,
        },
{
    match n.kind {
        ChangeKind::Created => {
            if !n.is_directory && n.paths.len() > 0 {
                Some(crate::paths::copy_bytes(&n.paths[0]))
            } else {
                None
            }
        },
        _ => None,
    }
}

} // verus!
