//! The engine: one notification at a time, filter, classify and relocate,
//! with no state carried from one notification to the next. No failure of
//! a single notification stops the engine; each outcome is reported and
//! the next notification is taken up. The laws at the end state what the
//! engine guarantees: a qualifying file is moved to its category
//! subdirectory and gone from its old path, a non-qualifying file is left
//! untouched, the destination directory is created exactly when missing,
//! and reprocessing a notification after a successful move fails cleanly
//! without touching the tree again.

use vstd::prelude::*;
use crate::paths::{parent_of, file_name_of, extension_of, join, lemma_last_pos, DOT};
use crate::events::{ChangeNotification, spec_filter_created, filter_created};
use crate::classify::{RoutingDecision, RoutingDecisionView, spec_classify, classify};
use crate::relocate::{FsModel, FsModelView, RelocateError, spec_relocate};
use crate::watchset::{WatchSet, WatchSetView};

verus! {

/// What became of one notification.
#[derive(Clone, Copy, Debug, PartialEq, Eq, Structural)]
pub enum ProcessOutcome {
    /// The notification did not report a created regular file, or the
    /// file did not qualify for routing.
    Ignored,
    /// The file was moved to its destination.
    Moved,
    /// The file qualified but relocation failed; the tree is as the
    /// failure left it and the engine goes on.
    Failed(RelocateError),
}

/// What processing one notification does to the tree: nothing unless the
/// notification reports a created regular file whose path classifies to a
/// routing decision, and otherwise whatever relocating per that decision
/// does.
pub open spec fn spec_process(fs: FsModelView, n: ChangeNotification, ws: WatchSetView) -> (
    FsModelView,
    ProcessOutcome,
) {
    match spec_filter_created(n) {
        None => (fs, ProcessOutcome::Ignored),
        Some(p) => match spec_classify(p, ws) {
            RoutingDecisionView::Ignore => (fs, ProcessOutcome::Ignored),
            RoutingDecisionView::Route { source_path, destination_dir, destination_path } => {
                let (fs2, r) = spec_relocate(fs, source_path, destination_dir, destination_path);
                match r {
                    Ok(_) => (fs2, ProcessOutcome::Moved),
                    Err(e) => (fs2, ProcessOutcome::Failed(e)),
                }
            },
        },
    }
}

/// Process one notification: filter, classify, relocate.
pub fn process_notification(fs: &mut FsModel, n: &ChangeNotification, ws: &WatchSet) -> (r:
    ProcessOutcome)
    ensures
        final(fs)@ == spec_process(old(fs)@, *n, ws@).0,
        r == spec_process(old(fs)@, *n, ws@).1,
{
    let path = match filter_created(n) {
        None => {
            return ProcessOutcome::Ignored;
        },
        Some(p) => p,
    };
    match classify(&path, ws) {
        RoutingDecision::Ignore => ProcessOutcome::Ignored,
        RoutingDecision::Route { source_path, destination_dir, destination_path } => {
            match fs.relocate(&source_path, &destination_dir, &destination_path) {
                Ok(_) => ProcessOutcome::Moved,
                Err(e) => ProcessOutcome::Failed(e),
            }
        },
    }
}

/// The tree after processing a whole sequence of notifications in order.
pub open spec fn spec_process_all(
    fs: FsModelView,
    ns: Seq<ChangeNotification>,
    ws: WatchSetView,
) -> FsModelView
    decreases ns.len(),
{
    if ns.len() == 0 {
        fs
    } else {
        spec_process_all(spec_process(fs, ns[0], ws).0, ns.drop_first(), ws)
    }
}

/// The outcome of each notification of a sequence, processed in order.
pub open spec fn spec_outcomes(
    fs: FsModelView,
    ns: Seq<ChangeNotification>,
    ws: WatchSetView,
) -> Seq<ProcessOutcome>
    decreases ns.len(),
{
    if ns.len() == 0 {
        Seq::empty()
    } else {
        seq![spec_process(fs, ns[0], ws).1] + spec_outcomes(
            spec_process(fs, ns[0], ws).0,
            ns.drop_first(),
            ws,
        )
    }
}

/// Processing one more notification after a sequence is processing the
/// extended sequence.
pub proof fn lemma_process_all_snoc(
    fs: FsModelView,
    ns: Seq<ChangeNotification>,
    n: ChangeNotification,
    ws: WatchSetView,
)
    ensures
        spec_process_all(fs, ns.push(n), ws) == spec_process(
            spec_process_all(fs, ns, ws),
            n,
            ws,
        ).0,
        spec_outcomes(fs, ns.push(n), ws) == spec_outcomes(fs, ns, ws).push(
            spec_process(spec_process_all(fs, ns, ws), n, ws).1,
        ),
    decreases ns.len(),
{
    if ns.len() == 0 {
        assert(ns.push(n)[0] == n);
        assert(ns.push(n).drop_first() =~= Seq::<ChangeNotification>::empty());
        let fs1 = spec_process(fs, n, ws).0;
        assert(spec_process_all(fs1, Seq::<ChangeNotification>::empty(), ws) == fs1);
        assert(spec_process_all(fs, ns.push(n), ws) == spec_process_all(
            fs1,
            ns.push(n).drop_first(),
            ws,
        ));
        assert(spec_process_all(fs, ns, ws) == fs);
        assert(spec_outcomes(fs1, Seq::<ChangeNotification>::empty(), ws)
            =~= Seq::<ProcessOutcome>::empty());
        assert(spec_outcomes(fs, ns.push(n), ws) =~= seq![spec_process(fs, n, ws).1]);
        assert(spec_outcomes(fs, ns, ws) =~= Seq::<ProcessOutcome>::empty());
        assert(spec_outcomes(fs, ns, ws).push(spec_process(fs, n, ws).1) =~= seq![
            spec_process(fs, n, ws).1,
        ]);
    } else {
        let fs1 = spec_process(fs, ns[0], ws).0;
        let first = spec_process(fs, ns[0], ws).1;
        lemma_process_all_snoc(fs1, ns.drop_first(), n, ws);
        assert(ns.push(n)[0] == ns[0]);
        assert(ns.push(n).drop_first() =~= ns.drop_first().push(n));
        assert(spec_process_all(fs, ns.push(n), ws) == spec_process_all(
            fs1,
            ns.push(n).drop_first(),
            ws,
        ));
        assert(spec_process_all(fs, ns, ws) == spec_process_all(fs1, ns.drop_first(), ws));
        let tail = spec_process(spec_process_all(fs1, ns.drop_first(), ws), n, ws).1;
        assert(spec_outcomes(fs, ns.push(n), ws) == seq![first] + spec_outcomes(
            fs1,
            ns.drop_first().push(n),
            ws,
        ));
        assert(spec_outcomes(fs, ns, ws) == seq![first] + spec_outcomes(fs1, ns.drop_first(), ws));
        assert((seq![first] + spec_outcomes(fs1, ns.drop_first(), ws)).push(tail) =~= seq![first]
            + spec_outcomes(fs1, ns.drop_first(), ws).push(tail));
    }
}

/// Process a sequence of notifications in order, handing back the outcome
/// of each. An error outcome never stops the run: the next notification
/// is processed against the tree as the failure left it.
#[verifier::loop_isolation(false)]
pub fn process_all(fs: &mut FsModel, ns: &Vec<ChangeNotification>, ws: &WatchSet) -> (outcomes:
    Vec<ProcessOutcome>)
    ensures
        final(fs)@ == spec_process_all(old(fs)@, ns@, ws@),
        outcomes@ == spec_outcomes(old(fs)@, ns@, ws@),
        outcomes@.len() == ns@.len(),
{
    let mut outcomes: Vec<ProcessOutcome> = Vec::new();
    let mut i: usize = 0;
    while i < ns.len()
        invariant
            i <= ns.len(),
            outcomes@.len() == i,
            fs@ == spec_process_all(old(fs)@, ns@.subrange(0, i as int), ws@),
            outcomes@ == spec_outcomes(old(fs)@, ns@.subrange(0, i as int), ws@),
        decreases ns.len() - i,
    {
        proof {
            lemma_process_all_snoc(old(fs)@, ns@.subrange(0, i as int), ns@[i as int], ws@);
            assert(ns@.subrange(0, i as int).push(ns@[i as int]) =~= ns@.subrange(0, i + 1));
        }
        let outcome = process_notification(fs, &ns[i], ws);
        outcomes.push(outcome);
        i = i + 1;
    }
    proof {
        assert(ns@.subrange(0, ns@.len() as int) =~= ns@);
    }
    outcomes
}

/// A file created directly inside a watched root, with a configured
/// extension, is moved: afterwards it exists at
/// `<root>/<category>/<file name>`, no longer exists at its original
/// path, and nothing else about the tree changed. The tree must hold the
/// source file, and neither a file in the destination directory's place
/// nor anything in the destination path's place.
pub proof fn lemma_routed_file_moved(
    fs: FsModelView,
    n: ChangeNotification,
    ws: WatchSetView,
    p: Seq<u8>,
    root: Seq<u8>,
    ext: Seq<u8>,
)
    requires
        spec_filter_created(n) == Some(p),
        parent_of(p) == Some(root),
        ws.roots.contains(root),
        extension_of(file_name_of(p)) == Some(ext),
        ws.rules.contains_key(ext),
        fs.files.contains(p),
        !fs.files.contains(join(root, ws.rules[ext])),
        !fs.files.contains(join(join(root, ws.rules[ext]), file_name_of(p))),
        !fs.dirs.contains(join(join(root, ws.rules[ext]), file_name_of(p))),
    ensures
        ({
            let dir = join(root, ws.rules[ext]);
            let dest = join(dir, file_name_of(p));
            let (fs2, outcome) = spec_process(fs, n, ws);
            outcome == ProcessOutcome::Moved && fs2.files.contains(dest) && !fs2.files.contains(p)
                && fs2.files == fs.files.remove(p).insert(dest) && fs2.dirs == fs.dirs.insert(dir)
        }),
{
    // A configured extension sits after a dot inside the file name, so the
    // name is non-empty and the destination path is longer than the
    // destination directory: provisioning the directory cannot occupy the
    // destination path.
    lemma_last_pos(file_name_of(p), DOT);
}

/// A destination directory is provisioned exactly when missing: a
/// qualifying move into a root without the category subdirectory creates
/// that one subdirectory and no other, and a qualifying move into a root
/// that already has it creates nothing.
pub proof fn lemma_destination_dir_created(
    fs: FsModelView,
    n: ChangeNotification,
    ws: WatchSetView,
    p: Seq<u8>,
    root: Seq<u8>,
    ext: Seq<u8>,
)
    requires
        spec_filter_created(n) == Some(p),
        parent_of(p) == Some(root),
        ws.roots.contains(root),
        extension_of(file_name_of(p)) == Some(ext),
        ws.rules.contains_key(ext),
        fs.files.contains(p),
        !fs.files.contains(join(root, ws.rules[ext])),
        !fs.files.contains(join(join(root, ws.rules[ext]), file_name_of(p))),
        !fs.dirs.contains(join(join(root, ws.rules[ext]), file_name_of(p))),
        fs.dirs.finite(),
    ensures
        ({
            let dir = join(root, ws.rules[ext]);
            let (fs2, outcome) = spec_process(fs, n, ws);
            &&& outcome == ProcessOutcome::Moved
            &&& fs2.dirs == fs.dirs.insert(dir)
            &&& (!fs.dirs.contains(dir) ==> fs2.dirs.len() == fs.dirs.len() + 1)
            &&& (fs.dirs.contains(dir) ==> fs2.dirs =~= fs.dirs)
        }),
{
    lemma_last_pos(file_name_of(p), DOT);
    let dir = join(root, ws.rules[ext]);
    if !fs.dirs.contains(dir) {
        assert(fs.dirs.insert(dir).len() == fs.dirs.len() + 1);
    }
}

/// A created file whose extension has no configured category, or no
/// extension at all, is left untouched.
pub proof fn lemma_unconfigured_extension_ignored(
    fs: FsModelView,
    n: ChangeNotification,
    ws: WatchSetView,
    p: Seq<u8>,
)
    requires
        spec_filter_created(n) == Some(p),
        match extension_of(file_name_of(p)) {
            None => true,
            Some(ext) => !ws.rules.contains_key(ext),
        },
    ensures
        spec_process(fs, n, ws).0 == fs,
        spec_process(fs, n, ws).1 == ProcessOutcome::Ignored,
{
}

/// A created file whose parent directory is not itself a watched root is
/// left untouched; in particular a file created in a subdirectory of a
/// root, covered recursively by the native watch, is not routed.
pub proof fn lemma_outside_root_ignored(
    fs: FsModelView,
    n: ChangeNotification,
    ws: WatchSetView,
    p: Seq<u8>,
)
    requires
        spec_filter_created(n) == Some(p),
        match parent_of(p) {
            None => true,
            Some(parent) => !ws.roots.contains(parent),
        },
    ensures
        spec_process(fs, n, ws).0 == fs,
        spec_process(fs, n, ws).1 == ProcessOutcome::Ignored,
{
}

/// A notification that does not report a created regular file is left
/// unacted on, whatever the tree holds.
pub proof fn lemma_non_creation_ignored(fs: FsModelView, n: ChangeNotification, ws: WatchSetView)
    requires
        spec_filter_created(n) is None,
    ensures
        spec_process(fs, n, ws).0 == fs,
        spec_process(fs, n, ws).1 == ProcessOutcome::Ignored,
{
}

/// Reprocessing a notification after its successful move fails cleanly:
/// the second run reports a recoverable move failure, and the tree is
/// exactly as the first run left it, with the file still at its
/// destination and not duplicated.
pub proof fn lemma_reprocess_fails_cleanly(
    fs: FsModelView,
    n: ChangeNotification,
    ws: WatchSetView,
    p: Seq<u8>,
    root: Seq<u8>,
    ext: Seq<u8>,
)
    requires
        spec_filter_created(n) == Some(p),
        parent_of(p) == Some(root),
        ws.roots.contains(root),
        extension_of(file_name_of(p)) == Some(ext),
        ws.rules.contains_key(ext),
        fs.files.contains(p),
        !fs.files.contains(join(root, ws.rules[ext])),
        !fs.files.contains(join(join(root, ws.rules[ext]), file_name_of(p))),
        !fs.dirs.contains(join(join(root, ws.rules[ext]), file_name_of(p))),
    ensures
        ({
            let dest = join(join(root, ws.rules[ext]), file_name_of(p));
            let (fs2, outcome1) = spec_process(fs, n, ws);
            let (fs3, outcome2) = spec_process(fs2, n, ws);
            &&& outcome1 == ProcessOutcome::Moved
            &&& outcome2 == ProcessOutcome::Failed(RelocateError::MoveFailed)
            &&& fs3 == fs2
            &&& fs3.files.contains(dest)
            &&& !fs3.files.contains(p)
        }),
{
    lemma_last_pos(file_name_of(p), DOT);
    let dir = join(root, ws.rules[ext]);
    let (fs2, outcome1) = spec_process(fs, n, ws);
    // The first run already provisioned the destination directory, so the
    // second run's provisioning step changes nothing.
    assert(fs2.dirs =~= fs2.dirs.insert(dir));
}

} // verus!
