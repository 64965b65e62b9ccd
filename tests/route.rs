use watch_upload::route::{join_segments, relative_segments, split_segments, PathError};

fn list(items: &[&str]) -> Vec<String> {
    items.iter().map(|s| s.to_string()).collect()
}

#[test]
fn resolver_gives_directories_between_root_and_file() {
    assert_eq!(relative_segments("/data", "/data/a/b/report.xls"), Ok(list(&["a", "b"])));
}

#[test]
fn resolver_gives_no_segments_directly_under_root() {
    assert_eq!(relative_segments("/data", "/data/report.xls"), Ok(Vec::new()));
}

#[test]
fn resolver_rejects_path_outside_root() {
    assert_eq!(relative_segments("/data", "/etc/passwd"), Err(PathError::OutsideRoot));
    assert_eq!(relative_segments("/data", "/database/x.xls"), Err(PathError::OutsideRoot));
    assert_eq!(relative_segments("/data", "/data"), Err(PathError::OutsideRoot));
}

#[test]
fn resolver_under_filesystem_root() {
    assert_eq!(relative_segments("/", "/a/b.xls"), Ok(list(&["a"])));
}

#[test]
fn split_drops_empty_segments() {
    assert_eq!(split_segments("/data//a/b/"), list(&["data", "a", "b"]));
    assert_eq!(split_segments(""), Vec::<String>::new());
    assert_eq!(split_segments("/"), Vec::<String>::new());
}

#[test]
fn join_uses_commas() {
    assert_eq!(join_segments(&list(&["a", "b", "c"])), "a,b,c");
    assert_eq!(join_segments(&list(&["a"])), "a");
    assert_eq!(join_segments(&Vec::new()), "");
}
