use basalt::sync::{plan_directory_sync, DestinationState, SourceFile};

fn source(path: &str, destination: DestinationState) -> SourceFile {
    SourceFile { relative_path: path.to_string(), destination }
}

#[test]
fn sync_plan_copies_updates_deletes_and_keeps_identical_files() {
    let sources = vec![
        source("same.srm", DestinationState::SameContents),
        source("changed.srm", DestinationState::DifferentContents),
        source("nested/added.srm", DestinationState::Missing),
    ];
    let destination = vec![
        "same.srm".to_string(),
        "changed.srm".to_string(),
        "deleted.srm".to_string(),
    ];
    let plan = plan_directory_sync(&sources, &destination);
    let report = plan.report();
    assert_eq!(report.copied, 2);
    assert_eq!(report.unchanged, 1);
    assert_eq!(report.deleted, 1);
    assert_eq!(plan.copy, vec!["changed.srm".to_string(), "nested/added.srm".to_string()]);
    assert_eq!(plan.unchanged, vec!["same.srm".to_string()]);
    assert_eq!(plan.delete, vec!["deleted.srm".to_string()]);
    assert!(plan.clear_directory.is_empty());
}

#[test]
fn files_inside_a_replaced_directory_are_not_deleted_twice() {
    let sources = vec![source("a", DestinationState::Directory)];
    let destination = vec!["a/inner.srm".to_string(), "b.srm".to_string()];
    let plan = plan_directory_sync(&sources, &destination);
    assert_eq!(plan.clear_directory, vec!["a".to_string()]);
    assert_eq!(plan.copy, vec!["a".to_string()]);
    assert_eq!(plan.delete, vec!["b.srm".to_string()]);
}

#[test]
fn an_empty_source_deletes_everything() {
    let plan = plan_directory_sync(&[], &["x".to_string(), "y".to_string()]);
    assert_eq!(plan.report().deleted, 2);
    assert_eq!(plan.report().copied, 0);
}
