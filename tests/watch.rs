use nr_cms::watch::{keep_watching, on_change, FsChange, WatchAction};

#[test]
fn changes_that_rebuild() {
    assert_eq!(on_change(FsChange::Create), WatchAction::Regenerate);
    assert_eq!(on_change(FsChange::Modify), WatchAction::Regenerate);
    assert_eq!(on_change(FsChange::Remove), WatchAction::Regenerate);
    assert_eq!(on_change(FsChange::Other), WatchAction::Ignore);
}

#[test]
fn watching_stops_on_true_only() {
    assert!(keep_watching(None));
    assert!(keep_watching(Some(false)));
    assert!(!keep_watching(Some(true)));
}
