//! End-to-end scenarios over the engine: a watched inbox, a configured
//! extension mapping, and notifications processed against a directory
//! tree.

use watch_dir::engine::{process_all, process_notification, ProcessOutcome};
use watch_dir::events::{ChangeKind, ChangeNotification};
use watch_dir::relocate::{FsModel, RelocateError};
use watch_dir::watchset::WatchSet;

fn inbox_watchset() -> WatchSet {
    let mut ws = WatchSet::new();
    ws.add_root(b"/data/inbox".to_vec());
    ws.add_category(&b"images".to_vec(), &vec![b"jpg".to_vec(), b"png".to_vec()]);
    ws.add_category(&b"docs".to_vec(), &vec![b"pdf".to_vec()]);
    ws
}

fn created_file(path: &[u8]) -> ChangeNotification {
    ChangeNotification {
        kind: ChangeKind::Created,
        paths: vec![path.to_vec()],
        is_directory: false,
    }
}

#[test]
fn configured_extension_is_moved_into_category() {
    let ws = inbox_watchset();
    let mut fs = FsModel::new();
    fs.add_dir(b"/data/inbox".to_vec());
    fs.add_file(b"/data/inbox/photo.jpg".to_vec());

    let out = process_notification(&mut fs, &created_file(b"/data/inbox/photo.jpg"), &ws);

    assert_eq!(out, ProcessOutcome::Moved);
    assert!(fs.has_file(&b"/data/inbox/images/photo.jpg".to_vec()));
    assert!(!fs.has_file(&b"/data/inbox/photo.jpg".to_vec()));
    assert!(fs.has_dir(&b"/data/inbox/images".to_vec()));
}

#[test]
fn unconfigured_extension_is_left_untouched() {
    let ws = inbox_watchset();
    let mut fs = FsModel::new();
    fs.add_dir(b"/data/inbox".to_vec());
    fs.add_file(b"/data/inbox/notes.txt".to_vec());

    let out = process_notification(&mut fs, &created_file(b"/data/inbox/notes.txt"), &ws);

    assert_eq!(out, ProcessOutcome::Ignored);
    assert!(fs.has_file(&b"/data/inbox/notes.txt".to_vec()));
    assert!(!fs.has_dir(&b"/data/inbox/images".to_vec()));
    assert!(!fs.has_dir(&b"/data/inbox/docs".to_vec()));
}

#[test]
fn file_in_subdirectory_is_left_untouched() {
    let ws = inbox_watchset();
    let mut fs = FsModel::new();
    fs.add_dir(b"/data/inbox".to_vec());
    fs.add_dir(b"/data/inbox/archive".to_vec());
    fs.add_file(b"/data/inbox/archive/old.pdf".to_vec());

    let out = process_notification(&mut fs, &created_file(b"/data/inbox/archive/old.pdf"), &ws);

    assert_eq!(out, ProcessOutcome::Ignored);
    assert!(fs.has_file(&b"/data/inbox/archive/old.pdf".to_vec()));
    assert!(!fs.has_dir(&b"/data/inbox/archive/docs".to_vec()));
}

#[test]
fn reprocessing_after_a_move_fails_cleanly() {
    let ws = inbox_watchset();
    let mut fs = FsModel::new();
    fs.add_dir(b"/data/inbox".to_vec());
    fs.add_file(b"/data/inbox/photo.jpg".to_vec());
    let n = created_file(b"/data/inbox/photo.jpg");

    let first = process_notification(&mut fs, &n, &ws);
    let second = process_notification(&mut fs, &n, &ws);

    assert_eq!(first, ProcessOutcome::Moved);
    assert_eq!(second, ProcessOutcome::Failed(RelocateError::MoveFailed));
    assert!(fs.has_file(&b"/data/inbox/images/photo.jpg".to_vec()));
    assert!(!fs.has_file(&b"/data/inbox/photo.jpg".to_vec()));
}

#[test]
fn destination_directory_is_created_exactly_when_missing() {
    let ws = inbox_watchset();
    let mut fs = FsModel::new();
    fs.add_dir(b"/data/inbox".to_vec());
    fs.add_file(b"/data/inbox/photo.jpg".to_vec());
    assert!(!fs.has_dir(&b"/data/inbox/images".to_vec()));

    let out = process_notification(&mut fs, &created_file(b"/data/inbox/photo.jpg"), &ws);

    assert_eq!(out, ProcessOutcome::Moved);
    assert!(fs.has_dir(&b"/data/inbox/images".to_vec()));
    assert!(!fs.has_dir(&b"/data/inbox/docs".to_vec()));
}

#[test]
fn directory_creation_fails_when_a_file_bears_its_name() {
    let ws = inbox_watchset();
    let mut fs = FsModel::new();
    fs.add_dir(b"/data/inbox".to_vec());
    fs.add_file(b"/data/inbox/images".to_vec());
    fs.add_file(b"/data/inbox/photo.jpg".to_vec());

    let out = process_notification(&mut fs, &created_file(b"/data/inbox/photo.jpg"), &ws);

    assert_eq!(out, ProcessOutcome::Failed(RelocateError::DirectoryCreateFailed));
    assert!(fs.has_file(&b"/data/inbox/photo.jpg".to_vec()));
    assert!(!fs.has_dir(&b"/data/inbox/images".to_vec()));
}

#[test]
fn move_fails_when_destination_is_taken() {
    let ws = inbox_watchset();
    let mut fs = FsModel::new();
    fs.add_dir(b"/data/inbox".to_vec());
    fs.add_dir(b"/data/inbox/images".to_vec());
    fs.add_file(b"/data/inbox/images/photo.jpg".to_vec());
    fs.add_file(b"/data/inbox/photo.jpg".to_vec());

    let out = process_notification(&mut fs, &created_file(b"/data/inbox/photo.jpg"), &ws);

    assert_eq!(out, ProcessOutcome::Failed(RelocateError::MoveFailed));
    assert!(fs.has_file(&b"/data/inbox/photo.jpg".to_vec()));
}

#[test]
fn move_fails_when_source_is_gone() {
    let ws = inbox_watchset();
    let mut fs = FsModel::new();
    fs.add_dir(b"/data/inbox".to_vec());

    let out = process_notification(&mut fs, &created_file(b"/data/inbox/photo.jpg"), &ws);

    assert_eq!(out, ProcessOutcome::Failed(RelocateError::MoveFailed));
    assert!(!fs.has_file(&b"/data/inbox/photo.jpg".to_vec()));
    assert!(fs.has_dir(&b"/data/inbox/images".to_vec()));
}

#[test]
fn modified_notification_is_ignored() {
    let ws = inbox_watchset();
    let mut fs = FsModel::new();
    fs.add_file(b"/data/inbox/photo.jpg".to_vec());
    let n = ChangeNotification {
        kind: ChangeKind::Modified,
        paths: vec![b"/data/inbox/photo.jpg".to_vec()],
        is_directory: false,
    };

    let out = process_notification(&mut fs, &n, &ws);

    assert_eq!(out, ProcessOutcome::Ignored);
    assert!(fs.has_file(&b"/data/inbox/photo.jpg".to_vec()));
}

#[test]
fn created_directory_is_ignored() {
    let ws = inbox_watchset();
    let mut fs = FsModel::new();
    let n = ChangeNotification {
        kind: ChangeKind::Created,
        paths: vec![b"/data/inbox/photos.jpg".to_vec()],
        is_directory: true,
    };

    let out = process_notification(&mut fs, &n, &ws);

    assert_eq!(out, ProcessOutcome::Ignored);
}

#[test]
fn a_run_of_notifications_is_processed_in_order() {
    let ws = inbox_watchset();
    let mut fs = FsModel::new();
    fs.add_dir(b"/data/inbox".to_vec());
    fs.add_file(b"/data/inbox/photo.jpg".to_vec());
    fs.add_file(b"/data/inbox/notes.txt".to_vec());
    fs.add_file(b"/data/inbox/paper.pdf".to_vec());
    let ns = vec![
        created_file(b"/data/inbox/photo.jpg"),
        created_file(b"/data/inbox/notes.txt"),
        created_file(b"/data/inbox/photo.jpg"),
        created_file(b"/data/inbox/paper.pdf"),
    ];

    let outcomes = process_all(&mut fs, &ns, &ws);

    assert_eq!(
        outcomes,
        vec![
            ProcessOutcome::Moved,
            ProcessOutcome::Ignored,
            ProcessOutcome::Failed(RelocateError::MoveFailed),
            ProcessOutcome::Moved,
        ]
    );
    assert!(fs.has_file(&b"/data/inbox/images/photo.jpg".to_vec()));
    assert!(fs.has_file(&b"/data/inbox/docs/paper.pdf".to_vec()));
    assert!(fs.has_file(&b"/data/inbox/notes.txt".to_vec()));
    assert!(!fs.has_file(&b"/data/inbox/photo.jpg".to_vec()));
    assert!(!fs.has_file(&b"/data/inbox/paper.pdf".to_vec()));
}
