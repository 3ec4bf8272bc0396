use ptracker::storage::{
    config_path, log_path, logs_dir, project_dir, project_path, ptracker_dir, ptracker_dir_in,
    session_path, sessions_dir, StoragePath,
};
use ptracker::storage::{
    config_path_in, log_path_in, logs_dir_in, project_dir_in, project_path_in, session_path_in,
    sessions_dir_in,
};
use ptracker::types::TrackerError;
use std::path::PathBuf;

fn parts_of(r: Result<StoragePath, TrackerError>) -> Option<Vec<String>> {
    match r {
        Ok(p) => Some(p.parts),
        Err(e) => {
            assert_eq!(e, TrackerError::NoHomeDirectory);
            None
        }
    }
}

fn check(r: Result<StoragePath, TrackerError>, expected: &[&str]) {
    if let Some(parts) = parts_of(r) {
        assert_eq!(parts, expected.iter().map(|s| s.to_string()).collect::<Vec<_>>());
    }
}

#[test]
fn ptracker_dir_in_home() {
    let p = ptracker_dir_in(Some(PathBuf::from("/home/alice"))).unwrap();
    assert_eq!(p.home, PathBuf::from("/home/alice"));
    assert_eq!(p.parts, vec![".ptracker".to_string()]);
}

#[test]
fn ptracker_dir_without_home_fails() {
    let r = ptracker_dir_in(None);
    assert!(matches!(r, Err(TrackerError::NoHomeDirectory)));
    assert_eq!(TrackerError::NoHomeDirectory.message(), "Could not find home directory");
}

#[test]
fn home_directory_is_found_here() {
    assert!(ptracker_dir().is_ok());
}

#[test]
fn storage_layout() {
    check(ptracker_dir(), &[".ptracker"]);
    check(config_path(), &[".ptracker", "projects.json"]);
    check(project_dir("my-project"), &[".ptracker", "projects", "my-project"]);
    check(project_path("my-project"), &[".ptracker", "projects", "my-project", "project.json"]);
    check(sessions_dir("my-project"), &[".ptracker", "projects", "my-project", "sessions"]);
    check(
        session_path("my-project", "2026-06-28"),
        &[".ptracker", "projects", "my-project", "sessions", "2026-06-28.json"],
    );
    check(logs_dir("my-project"), &[".ptracker", "projects", "my-project", "logs"]);
    check(
        log_path("my-project", "2026-06-28"),
        &[".ptracker", "projects", "my-project", "logs", "2026-06-28.log"],
    );
}

#[test]
fn project_files_lie_in_project_dir() {
    let dir = parts_of(project_dir("x")).unwrap();
    for r in [project_path("x"), sessions_dir("x"), logs_dir("x"), session_path("x", "d"), log_path("x", "d")] {
        let parts = parts_of(r).unwrap();
        assert!(parts.len() > dir.len());
        assert_eq!(parts[..dir.len()], dir[..]);
    }
    assert_ne!(parts_of(project_dir("a")), parts_of(project_dir("b")));
}

#[test]
fn join_appends_a_component() {
    let p = ptracker_dir_in(Some(PathBuf::from("/h"))).unwrap();
    let q = p.join("x".to_string());
    assert_eq!(q.parts, vec![".ptracker".to_string(), "x".to_string()]);
    assert_eq!(q.home, PathBuf::from("/h"));
}

#[test]
fn path_functions_for_a_given_home() {
    let h = || Some(PathBuf::from("/home/u"));
    let strs = |v: &[&str]| v.iter().map(|s| s.to_string()).collect::<Vec<_>>();
    let c = config_path_in(h()).unwrap();
    assert_eq!(c.home, PathBuf::from("/home/u"));
    assert_eq!(c.parts, strs(&[".ptracker", "projects.json"]));
    assert_eq!(project_dir_in(h(), "p").unwrap().parts, strs(&[".ptracker", "projects", "p"]));
    assert_eq!(project_path_in(h(), "p").unwrap().parts, strs(&[".ptracker", "projects", "p", "project.json"]));
    assert_eq!(sessions_dir_in(h(), "p").unwrap().parts, strs(&[".ptracker", "projects", "p", "sessions"]));
    assert_eq!(logs_dir_in(h(), "p").unwrap().parts, strs(&[".ptracker", "projects", "p", "logs"]));
    let s = session_path_in(h(), "my-project", "2026-06-28").unwrap();
    assert_eq!(s.home, PathBuf::from("/home/u"));
    assert_eq!(s.parts, strs(&[".ptracker", "projects", "my-project", "sessions", "2026-06-28.json"]));
    assert_eq!(log_path_in(h(), "my-project", "2026-06-28").unwrap().parts, strs(&[".ptracker", "projects", "my-project", "logs", "2026-06-28.log"]));
    assert!(matches!(config_path_in(None), Err(TrackerError::NoHomeDirectory)));
    assert!(matches!(project_dir_in(None, "p"), Err(TrackerError::NoHomeDirectory)));
    assert!(matches!(log_path_in(None, "p", "d"), Err(TrackerError::NoHomeDirectory)));
}
