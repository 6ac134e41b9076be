//! The classifier and the watch configuration on concrete paths.

use watch_dir::classify::{classify, RoutingDecision};
use watch_dir::events::{filter_created, ChangeKind, ChangeNotification};
use watch_dir::watchset::WatchSet;

fn photo_watchset() -> WatchSet {
    let mut ws = WatchSet::new();
    ws.add_root(b"/data/inbox".to_vec());
    ws.add_category(&b"images".to_vec(), &vec![b"jpg".to_vec(), b"png".to_vec()]);
    ws.add_category(&b"docs".to_vec(), &vec![b"pdf".to_vec()]);
    ws
}

#[test]
fn qualifying_file_routes_to_category_subdirectory() {
    let ws = photo_watchset();
    let d = classify(&b"/data/inbox/photo.jpg".to_vec(), &ws);
    assert_eq!(
        d,
        RoutingDecision::Route {
            source_path: b"/data/inbox/photo.jpg".to_vec(),
            destination_dir: b"/data/inbox/images".to_vec(),
            destination_path: b"/data/inbox/images/photo.jpg".to_vec(),
        }
    );
}

#[test]
fn file_without_extension_is_ignored() {
    let ws = photo_watchset();
    let d = classify(&b"/data/inbox/README".to_vec(), &ws);
    assert_eq!(d, RoutingDecision::Ignore);
}

#[test]
fn hidden_file_has_no_extension_and_is_ignored() {
    let ws = photo_watchset();
    let d = classify(&b"/data/inbox/.bashrc".to_vec(), &ws);
    assert_eq!(d, RoutingDecision::Ignore);
}

#[test]
fn extensions_match_case_sensitively() {
    let ws = photo_watchset();
    let d = classify(&b"/data/inbox/photo.JPG".to_vec(), &ws);
    assert_eq!(d, RoutingDecision::Ignore);
}

#[test]
fn parent_must_be_a_root_not_a_descendant() {
    let ws = photo_watchset();
    let d = classify(&b"/data/inbox/archive/old.pdf".to_vec(), &ws);
    assert_eq!(d, RoutingDecision::Ignore);
}

#[test]
fn compound_extension_uses_the_last_component() {
    let ws = photo_watchset();
    let d = classify(&b"/data/inbox/archive.tar.jpg".to_vec(), &ws);
    assert_eq!(
        d,
        RoutingDecision::Route {
            source_path: b"/data/inbox/archive.tar.jpg".to_vec(),
            destination_dir: b"/data/inbox/images".to_vec(),
            destination_path: b"/data/inbox/images/archive.tar.jpg".to_vec(),
        }
    );
}

#[test]
fn duplicate_extension_keeps_the_last_category() {
    let mut ws = WatchSet::new();
    ws.add_root(b"/data/inbox".to_vec());
    ws.add_category(&b"images".to_vec(), &vec![b"jpg".to_vec()]);
    ws.add_category(&b"backup".to_vec(), &vec![b"jpg".to_vec()]);
    let d = classify(&b"/data/inbox/photo.jpg".to_vec(), &ws);
    assert_eq!(
        d,
        RoutingDecision::Route {
            source_path: b"/data/inbox/photo.jpg".to_vec(),
            destination_dir: b"/data/inbox/backup".to_vec(),
            destination_path: b"/data/inbox/backup/photo.jpg".to_vec(),
        }
    );
}

#[test]
fn lookup_rule_finds_configured_extensions_only() {
    let ws = photo_watchset();
    assert_eq!(ws.lookup_rule(&b"jpg".to_vec()), Some(b"images".to_vec()));
    assert_eq!(ws.lookup_rule(&b"png".to_vec()), Some(b"images".to_vec()));
    assert_eq!(ws.lookup_rule(&b"pdf".to_vec()), Some(b"docs".to_vec()));
    assert_eq!(ws.lookup_rule(&b"txt".to_vec()), None);
}

#[test]
fn is_root_matches_exact_paths_only() {
    let ws = photo_watchset();
    assert!(ws.is_root(&b"/data/inbox".to_vec()));
    assert!(!ws.is_root(&b"/data".to_vec()));
    assert!(!ws.is_root(&b"/data/inbox/archive".to_vec()));
}

#[test]
fn filter_keeps_created_regular_files_only() {
    let created = ChangeNotification {
        kind: ChangeKind::Created,
        paths: vec![b"/data/inbox/a.jpg".to_vec()],
        is_directory: false,
    };
    assert_eq!(filter_created(&created), Some(b"/data/inbox/a.jpg".to_vec()));

    let directory = ChangeNotification {
        kind: ChangeKind::Created,
        paths: vec![b"/data/inbox/sub".to_vec()],
        is_directory: true,
    };
    assert_eq!(filter_created(&directory), None);

    let removed = ChangeNotification {
        kind: ChangeKind::Removed,
        paths: vec![b"/data/inbox/a.jpg".to_vec()],
        is_directory: false,
    };
    assert_eq!(filter_created(&removed), None);

    let empty = ChangeNotification { kind: ChangeKind::Created, paths: vec![], is_directory: false };
    assert_eq!(filter_created(&empty), None);
}
