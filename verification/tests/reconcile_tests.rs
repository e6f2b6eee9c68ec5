use tetsu::reconcile::Reconciler;

#[test]
fn files_are_handed_out_in_discovery_order() {
    let files = vec!["/media/a.mkv".to_string(), "/media/b.mkv".to_string()];
    let mut rec = Reconciler::begin(files);
    assert!(!rec.processing_complete());
    assert_eq!(rec.next_file(), Some(0));
    assert_eq!(rec.file_at(0).as_str(), "/media/a.mkv");
    assert_eq!(rec.next_file(), Some(1));
    assert_eq!(rec.file_at(1).as_str(), "/media/b.mkv");
    assert_eq!(rec.next_file(), None);
    assert!(rec.processing_complete());
}

#[test]
fn prune_runs_only_after_processing_and_finishes_the_pass() {
    let mut rec = Reconciler::begin(vec!["/media/a.mkv".to_string()]);
    assert!(!rec.done());
    assert_eq!(rec.next_file(), Some(0));
    assert!(rec.processing_complete());
    assert!(!rec.done());
    rec.mark_pruned();
    assert!(rec.done());
}

#[test]
fn empty_discovery_completes_immediately() {
    let mut rec = Reconciler::begin(Vec::new());
    assert!(rec.processing_complete());
    assert_eq!(rec.next_file(), None);
    rec.mark_pruned();
    assert!(rec.done());
}
