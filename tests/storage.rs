use dualis_results::record::CourseResult;
use dualis_results::snapshot::{read_snapshot, Snapshot, SnapshotError};

fn r(id: &str, name: &str, scored: bool) -> CourseResult {
    CourseResult::new(id.to_string(), name.to_string(), scored)
}

#[test]
fn snapshot_not_found() {
    assert!(matches!(read_snapshot(None), Snapshot::NotFound));
}

#[test]
fn snapshot_corrupt() {
    assert!(matches!(read_snapshot(Some(Err(SnapshotError::Corrupt))), Snapshot::Corrupt));
}

#[test]
fn snapshot_found_keeps_order_and_fields() {
    let set = vec![r("2", "B", true), r("1", "A", false)];
    match read_snapshot(Some(Ok(set.clone()))) {
        Snapshot::Found(v) => assert_eq!(v, set),
        other => panic!("unexpected {:?}", other),
    }
    match read_snapshot(Some(Ok(vec![]))) {
        Snapshot::Found(v) => assert!(v.is_empty()),
        other => panic!("unexpected {:?}", other),
    }
}
