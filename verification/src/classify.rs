//! The classifier: given the path of a newly created file and the watch
//! configuration, decide whether and where the file is to be moved. A
//! file qualifies only when its parent directory is exactly one of the
//! watched roots and its extension has a configured category; the
//! destination is `<root>/<category>/<file name>`.

use vstd::prelude::*;
use crate::paths::{
    parent_of, file_name_of, extension_of, join, parent_dir, file_name, extension, join_path,
    copy_bytes,
};
use crate::watchset::{WatchSet, WatchSetView};

verus! {

/// Outcome of classifying one created file: leave it alone, or move it
/// from `source_path` into `destination_dir`, at `destination_path`.
#[derive(Debug, PartialEq, Eq)]
pub enum RoutingDecision {
    Ignore,
    Route { source_path: Vec<u8>, destination_dir: Vec<u8>, destination_path: Vec<u8> },
}

/// Mathematical model of a routing decision.
#[verifier::ext_equal]
pub enum RoutingDecisionView {
    Ignore,
    Route { source_path: Seq<u8>, destination_dir: Seq<u8>, destination_path: Seq<u8> },
}

impl View for RoutingDecision {
    type V = RoutingDecisionView;

    open spec fn view(&self) -> RoutingDecisionView {
        match self {
            RoutingDecision::Ignore => RoutingDecisionView::Ignore,
            RoutingDecision::Route { source_path, destination_dir, destination_path } => {
                RoutingDecisionView::Route {
                    source_path: source_path@,
                    destination_dir: destination_dir@,
                    destination_path: destination_path@,
                }
            },
        }
    }
}

/// Where a created file at `p` goes under the configuration `ws`: to
/// `<parent>/<category>/<file name>` when `p`'s parent directory is a
/// watched root and `p`'s extension has a configured category, and
/// nowhere otherwise.
pub open spec fn spec_classify(p: Seq<u8>, ws: WatchSetView) -> RoutingDecisionView {
    match parent_of(p) {
        None => RoutingDecisionView::Ignore,
        Some(parent) => {
            if !ws.roots.contains(parent) {
                RoutingDecisionView::Ignore
            } else {
                match extension_of(file_name_of(p)) {
                    None => RoutingDecisionView::Ignore,
                    Some(ext) => {
                        if !ws.rules.contains_key(ext) {
                            RoutingDecisionView::Ignore
                        } else {
                            let dir = join(parent, ws.rules[ext]);
                            RoutingDecisionView::Route {
                                source_path: p,
                                destination_dir: dir,
                                destination_path: join(dir, file_name_of(p)),
                            }
                        }
                    },
                }
            }
        },
    }
}

/// Classify the path of one newly created file against the watch
/// configuration.
pub fn classify(path: &Vec<u8>, ws: &WatchSet) -> (d: RoutingDecision)
    ensures
        d@ == spec_classify(path@, ws@),
{
    let parent = match parent_dir(path) {
        None => {
            return RoutingDecision::Ignore;
        },
        Some(par) => par,
    };
    if !ws.is_root(&parent) {
        return RoutingDecision::Ignore;
    }
    let name = file_name(path);
    let ext = match extension(&name) {
        None => {
            return RoutingDecision::Ignore;
        },
        Some(e) => e,
    };
    let category = match ws.lookup_rule(&ext) {
        None => {
            return RoutingDecision::Ignore;
        },
        Some(c) => c,
    };
    let dir = join_path(&parent, &category);
    let dest = join_path(&dir, &name);
    RoutingDecision::Route {
        source_path: copy_bytes(path),
        destination_dir: dir,
        destination_path: dest,
    }
}

} // verus!
