use progress_copy::dispatch::{
    check_sources, plan_copies, resolve_destination, total_bytes, CopyPlan, CopyTask,
    DispatchError, SourceMetadata, SourceProbe,
};

fn file(path: &str, size: usize) -> SourceProbe {
    SourceProbe {
        path: path.to_string(),
        metadata: Some(SourceMetadata { size, is_directory: false }),
    }
}

fn directory(path: &str) -> SourceProbe {
    SourceProbe {
        path: path.to_string(),
        metadata: Some(SourceMetadata { size: 4096, is_directory: true }),
    }
}

fn missing(path: &str) -> SourceProbe {
    SourceProbe { path: path.to_string(), metadata: None }
}

fn task(source: &str, destination: &str, size: usize) -> CopyTask {
    CopyTask {
        source_path: source.to_string(),
        destination_path: destination.to_string(),
        size_in_bytes: size,
    }
}

#[test]
fn single_source_is_written_at_the_destination_path() {
    let probes: Vec<SourceProbe> = vec![file("some/dir/report.txt", 1_000_000)];
    let plan: CopyPlan = plan_copies(&probes, &"backup/copy.bin".to_string(), false).unwrap();
    assert_eq!(plan.tasks, vec![task("some/dir/report.txt", "backup/copy.bin", 1_000_000)]);
    assert_eq!(plan.total_expected_bytes, 1_000_000);
}

#[test]
fn several_sources_are_written_under_their_file_names() {
    let probes: Vec<SourceProbe> = vec![file("a/x.txt", 10), file("deep/er/y.bin", 20), file("z", 0)];
    let plan: CopyPlan = plan_copies(&probes, &"D".to_string(), false).unwrap();
    assert_eq!(
        plan.tasks,
        vec![task("a/x.txt", "D/x.txt", 10), task("deep/er/y.bin", "D/y.bin", 20), task("z", "D/z", 0)]
    );
    assert_eq!(plan.total_expected_bytes, 30);
}

#[test]
fn sources_with_the_same_file_name_share_a_destination() {
    let probes: Vec<SourceProbe> = vec![file("a/x.txt", 3), file("b/x.txt", 4)];
    let plan: CopyPlan = plan_copies(&probes, &"D".to_string(), false).unwrap();
    assert_eq!(plan.tasks.len(), 2);
    assert_eq!(plan.tasks[0].destination_path, "D/x.txt");
    assert_eq!(plan.tasks[1].destination_path, "D/x.txt");
    assert_eq!(plan.tasks[0].source_path, "a/x.txt");
    assert_eq!(plan.tasks[1].source_path, "b/x.txt");
    assert_eq!(plan.total_expected_bytes, 7);
}

#[test]
fn missing_source_leaves_no_task() {
    let probes: Vec<SourceProbe> = vec![file("a.txt", 1), missing("gone.txt"), file("c.txt", 3)];
    let result: Result<CopyPlan, DispatchError> = plan_copies(&probes, &"D".to_string(), false);
    assert_eq!(result, Err(DispatchError::SourceUnavailable(1)));
    let single: Vec<SourceProbe> = vec![missing("gone.txt")];
    assert_eq!(
        plan_copies(&single, &"out".to_string(), false),
        Err(DispatchError::SourceUnavailable(0))
    );
    assert_eq!(
        plan_copies(&probes, &"D".to_string(), true),
        Err(DispatchError::SourceUnavailable(1))
    );
}

#[test]
fn first_failing_source_is_reported() {
    let probes: Vec<SourceProbe> = vec![file("a", 1), directory("d"), missing("m"), missing("n")];
    assert_eq!(
        plan_copies(&probes, &"D".to_string(), true),
        Err(DispatchError::DirectoryNotExpanded(1))
    );
    assert_eq!(
        plan_copies(&probes, &"D".to_string(), false),
        Err(DispatchError::SourceUnavailable(2))
    );
}

#[test]
fn directory_is_refused_in_recursive_mode_only() {
    let probes: Vec<SourceProbe> = vec![file("a", 1), directory("some/d")];
    assert_eq!(
        plan_copies(&probes, &"D".to_string(), true),
        Err(DispatchError::DirectoryNotExpanded(1))
    );
    let plan: CopyPlan = plan_copies(&probes, &"D".to_string(), false).unwrap();
    assert_eq!(plan.tasks, vec![task("a", "D/a", 1), task("some/d", "D/d", 4096)]);
    assert_eq!(plan.total_expected_bytes, 4097);
}

#[test]
fn files_pass_through_recursive_mode_unchanged() {
    let probes: Vec<SourceProbe> = vec![file("a/one", 5), file("b/two", 6)];
    let plain: CopyPlan = plan_copies(&probes, &"D".to_string(), false).unwrap();
    let recursive: CopyPlan = plan_copies(&probes, &"D".to_string(), true).unwrap();
    assert_eq!(plain, recursive);
    assert_eq!(recursive.tasks, vec![task("a/one", "D/one", 5), task("b/two", "D/two", 6)]);
}

#[test]
fn no_sources_is_an_error() {
    let probes: Vec<SourceProbe> = Vec::new();
    assert_eq!(plan_copies(&probes, &"D".to_string(), false), Err(DispatchError::NoSources));
    assert_eq!(plan_copies(&probes, &"D".to_string(), true), Err(DispatchError::NoSources));
}

#[test]
fn sizes_that_do_not_fit_are_an_error() {
    let probes: Vec<SourceProbe> = vec![file("a", usize::MAX), file("b", 1)];
    assert_eq!(plan_copies(&probes, &"D".to_string(), false), Err(DispatchError::TotalSizeOverflow));
    let fitting: Vec<SourceProbe> = vec![file("a", usize::MAX - 1), file("b", 1)];
    assert_eq!(plan_copies(&fitting, &"D".to_string(), false).unwrap().total_expected_bytes, usize::MAX);
}

#[test]
fn source_without_a_file_name_is_an_error_among_several() {
    let probes: Vec<SourceProbe> = vec![file("a/x", 1), file("b/..", 2), file("/", 3)];
    assert_eq!(plan_copies(&probes, &"D".to_string(), false), Err(DispatchError::MissingFileName(1)));
    let single: Vec<SourceProbe> = vec![file("b/..", 2)];
    let plan: CopyPlan = plan_copies(&single, &"out".to_string(), false).unwrap();
    assert_eq!(plan.tasks, vec![task("b/..", "out", 2)]);
}

#[test]
fn availability_is_checked_before_sizes_and_names() {
    let probes: Vec<SourceProbe> = vec![file("..", usize::MAX), file("b", 1), missing("c")];
    assert_eq!(plan_copies(&probes, &"D".to_string(), false), Err(DispatchError::SourceUnavailable(2)));
    let sized: Vec<SourceProbe> = vec![file("..", usize::MAX), file("b", 1)];
    assert_eq!(plan_copies(&sized, &"D".to_string(), false), Err(DispatchError::TotalSizeOverflow));
}

#[test]
fn check_sources_lists_the_sizes() {
    let probes: Vec<SourceProbe> = vec![file("a", 7), directory("d"), file("c", 0)];
    assert_eq!(check_sources(&probes, false), Ok(vec![7, 4096, 0]));
    assert_eq!(check_sources(&probes, true), Err(DispatchError::DirectoryNotExpanded(1)));
    assert_eq!(check_sources(&Vec::new(), true), Ok(Vec::new()));
    let gone: Vec<SourceProbe> = vec![missing("m"), directory("d")];
    assert_eq!(check_sources(&gone, true), Err(DispatchError::SourceUnavailable(0)));
}

#[test]
fn total_bytes_is_the_sum_of_the_sizes() {
    assert_eq!(total_bytes(&Vec::new()), Some(0));
    assert_eq!(total_bytes(&vec![1_000_000, 50, 0]), Some(1_000_050));
    assert_eq!(total_bytes(&vec![usize::MAX, 0]), Some(usize::MAX));
    assert_eq!(total_bytes(&vec![usize::MAX, 0, 1]), None);
    assert_eq!(total_bytes(&vec![usize::MAX / 2 + 1, usize::MAX / 2 + 1]), None);
}

#[test]
fn resolve_destination_joins_directory_and_file_name() {
    let destination: String = "target/dir".to_string();
    assert_eq!(
        resolve_destination(&"a/b/c.txt".to_string(), &destination, 2),
        Some("target/dir/c.txt".to_string())
    );
    assert_eq!(
        resolve_destination(&"c.txt".to_string(), &destination, 3),
        Some("target/dir/c.txt".to_string())
    );
    assert_eq!(
        resolve_destination(&"a/b/".to_string(), &destination, 2),
        Some("target/dir/b".to_string())
    );
    assert_eq!(resolve_destination(&"a/..".to_string(), &destination, 2), None);
    assert_eq!(resolve_destination(&"/".to_string(), &destination, 2), None);
}

#[test]
fn resolve_destination_takes_a_single_source_verbatim() {
    let destination: String = "target/file".to_string();
    assert_eq!(
        resolve_destination(&"a/b/c.txt".to_string(), &destination, 1),
        Some("target/file".to_string())
    );
    assert_eq!(resolve_destination(&"..".to_string(), &destination, 1), Some("target/file".to_string()));
}
