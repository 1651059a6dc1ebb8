use dualis_results::record::CourseResult;
use dualis_results::results::{diff_results, unique_by_id};
use dualis_results::snapshot::{newly_graded, Snapshot};

fn r(id: &str, name: &str, scored: bool) -> CourseResult {
    CourseResult::new(id.to_string(), name.to_string(), scored)
}

#[test]
fn test_diff_results() {
    let old = vec![
        CourseResult::new("1".to_string(), "Test".to_string(), false),
        CourseResult::new("2".to_string(), "Test".to_string(), false),
        CourseResult::new("3".to_string(), "Test".to_string(), false),
        CourseResult::new("4".to_string(), "Test".to_string(), false),
        CourseResult::new("5".to_string(), "Test".to_string(), false),
    ];
    let new = vec![
        CourseResult::new("1".to_string(), "Test".to_string(), true),
        CourseResult::new("2".to_string(), "Test".to_string(), false),
        CourseResult::new("3".to_string(), "Test".to_string(), false),
        CourseResult::new("4".to_string(), "Test".to_string(), false),
        CourseResult::new("5".to_string(), "Test".to_string(), false),
    ];
    let changed = diff_results(&old, &new);
    assert_eq!(changed.len(), 1);
    assert_eq!(changed[0], &CourseResult::new("1".to_string(), "Test".to_string(), true));
}

#[test]
fn diff_single_flip() {
    let old = vec![r("1", "A", false)];
    let new = vec![r("1", "A", true)];
    let changed = diff_results(&old, &new);
    assert_eq!(changed, vec![&r("1", "A", true)]);
}

#[test]
fn diff_ignores_new_courses() {
    let old = vec![r("1", "A", false)];
    let new = vec![r("1", "A", true), r("2", "B", true)];
    let changed = diff_results(&old, &new);
    assert_eq!(changed.len(), 1);
    assert_eq!(changed[0].course_id, "1");
}

#[test]
fn diff_ignores_already_graded_and_ungraded() {
    let old = vec![r("1", "A", true), r("2", "B", false)];
    let new = vec![r("1", "A", true), r("2", "B", false)];
    assert!(diff_results(&old, &new).is_empty());
    assert!(diff_results(&[], &new).is_empty());
}

#[test]
fn diff_looks_at_first_earlier_entry() {
    let old = vec![r("1", "A", true), r("1", "A", false)];
    let new = vec![r("1", "A", true)];
    assert!(diff_results(&old, &new).is_empty());
}

#[test]
fn unique_keeps_first_seen() {
    let all = vec![
        r("1", "First", false),
        r("2", "Other", true),
        r("1", "Second", true),
        r("1", "Third", false),
        r("3", "Last", false),
    ];
    let unique = unique_by_id(&all);
    assert_eq!(
        unique,
        vec![r("1", "First", false), r("2", "Other", true), r("3", "Last", false)]
    );
    assert!(unique_by_id(&vec![]).is_empty());
}

#[test]
fn newly_graded_needs_history() {
    let current = vec![r("1", "A", true)];
    assert!(newly_graded(&Snapshot::NotFound, &current).is_none());
    assert!(newly_graded(&Snapshot::Corrupt, &current).is_none());
    let found = newly_graded(&Snapshot::Found(vec![r("1", "A", false)]), &current).unwrap();
    assert_eq!(found, vec![&r("1", "A", true)]);
}
