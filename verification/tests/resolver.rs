use vm_rs::errors::SyncError;
use vm_rs::paths::{find_corresponding_path, find_in_ancestors, marker_candidates, DirPath};

fn dir(parts: &[&str]) -> DirPath {
    DirPath { components: parts.iter().map(|s| s.to_string()).collect() }
}

#[test]
fn marker_candidates_nearest_first() {
    let d = dir(&["proj", "sub", "dir"]);
    let c = marker_candidates(&d, ".vm-prefix");
    assert_eq!(
        c,
        vec![
            "/proj/sub/dir/.vm-prefix".to_string(),
            "/proj/sub/.vm-prefix".to_string(),
            "/proj/.vm-prefix".to_string(),
            "/.vm-prefix".to_string(),
        ]
    );
}

#[test]
fn find_in_ancestors_picks_nearest() {
    let d = dir(&["proj", "sub", "dir"]);
    assert_eq!(find_in_ancestors(&d, &vec![false, true, true, false]), Some(1));
    assert_eq!(find_in_ancestors(&d, &vec![true, false, false, false]), Some(0));
    assert_eq!(find_in_ancestors(&d, &vec![false, false, false, false]), None);
}

#[test]
fn resolve_reapplies_suffix() {
    let d = dir(&["proj", "sub", "dir"]);
    let r = find_corresponding_path(&d, ".vm-prefix", Some(2), "/home/dev/proj\n");
    assert_eq!(r.unwrap(), "/home/dev/proj/sub/dir");
}

#[test]
fn resolve_at_marker_directory_is_base() {
    let d = dir(&["proj", "sub"]);
    let r = find_corresponding_path(&d, ".vm-prefix", Some(0), "  /home/dev/proj\t");
    assert_eq!(r.unwrap(), "/home/dev/proj");
}

#[test]
fn resolve_missing_marker_is_error() {
    let d = dir(&["proj"]);
    let r = find_corresponding_path(&d, ".s3-prefix", None, "");
    match r {
        Err(SyncError::MarkerNotFound { filename }) => assert_eq!(filename, ".s3-prefix"),
        other => panic!("expected MarkerNotFound, got {:?}", other),
    }
}

#[test]
fn resolve_from_root_marker() {
    let d = dir(&["a", "b"]);
    let r = find_corresponding_path(&d, ".vm-prefix", Some(2), "/srv");
    assert_eq!(r.unwrap(), "/srv/a/b");
}

#[test]
fn marker_error_message_names_file() {
    let e = SyncError::MarkerNotFound { filename: ".vm-prefix".to_string() };
    assert_eq!(e.message(), "marker file .vm-prefix not found in ancestors");
}
