
use ptracker::types::{PTrackerConfig, Project, Quantity, TrackerError};

fn now() -> String {
    chrono::Local::now().format("%Y-%m-%d %H:%M:%S").to_string()
}

fn hours(h: f64) -> Quantity {
    Quantity { bits: h.to_bits() }
}

#[test]
fn test_project_new() {
    let project = Project::new("TestProject", "./src", now());
    assert_eq!(project.name, "TestProject");
    assert_eq!(project.slug, "testproject");
    assert_eq!(project.watch_path, "./src");
    assert_eq!(f64::from_bits(project.total_hours.bits), 0.0);
    assert_eq!(project.total_sessions, 0);
}

#[test]
fn project_created_now_has_a_timestamp() {
    let project = Project::new("P", ".", now());
    // %Y-%m-%d %H:%M:%S
    assert_eq!(project.created_at.len(), 19);
    assert_eq!(&project.created_at[4..5], "-");
    assert_eq!(&project.created_at[10..11], " ");
}

#[test]
fn project_created_at_given_time() {
    let p = Project::new("My Project", "/w", "2026-06-28 10:00:00".to_string());
    assert_eq!(p.slug, "my-project");
    assert_eq!(p.created_at, "2026-06-28 10:00:00");
    assert_eq!(p.total_hours, Quantity::zero());
}

#[test]
fn test_init_project() {
    let mut config = PTrackerConfig::empty();
    config.init_project("TestInit", Some("./src"), now()).unwrap();
    assert!(config.projects.iter().any(|p| p.slug == "testinit"));
}

#[test]
fn test_init_duplicate_fails() {
    let mut config = PTrackerConfig::empty();
    config.init_project("DupTest", Some("./src"), now()).unwrap();
    let result = config.init_project("DupTest", Some("./src"), now());
    assert!(result.is_err());
    assert_eq!(config.projects.len(), 1);
}

#[test]
fn init_refuses_same_slug_and_says_why() {
    let mut config = PTrackerConfig::empty();
    config.init_project("Client API", None, now()).unwrap();
    let err = config.init_project("  client api ", None, now()).unwrap_err();
    assert_eq!(err, TrackerError::AlreadyExists("  client api ".to_string()));
    assert_eq!(err.message(), "Project '  client api ' already exists.");
}

#[test]
fn init_defaults_watch_path_to_current_dir() {
    let mut config = PTrackerConfig::empty();
    let p = config.init_project("A", None, now()).unwrap();
    assert_eq!(p.watch_path, ".");
    let e = &config.projects[0];
    assert_eq!(e.name, "A");
    assert_eq!(e.slug, "a");
    assert_eq!(e.watch_path, ".");
    assert_eq!(e.created_at, p.created_at);
    assert_eq!(e.total_hours.bits, 0);
}

#[test]
fn ptracker_test_rename_project() {
    let mut config = PTrackerConfig::empty();
    let mut project = config.init_project("OldNameTest", Some("./src"), now()).unwrap();
    config.rename_project("OldNameTest", "NewNameTest").unwrap();
    project.rename_to("NewNameTest");

    // old slug gone
    assert!(config.find_slug("oldnametest").is_none());

    // new slug exists
    let i = config.find_slug("newnametest").unwrap();
    assert_eq!(config.projects[i].name, "NewNameTest");
    assert_eq!(config.projects[i].slug, "newnametest");
    assert_eq!(project.name, "NewNameTest");
    assert_eq!(project.slug, "newnametest");
    assert_eq!(project.watch_path, "./src");
}

#[test]
fn rename_unknown_project_fails() {
    let mut config = PTrackerConfig::empty();
    config.init_project("A", None, now()).unwrap();
    let err = config.rename_project("B", "C").unwrap_err();
    assert_eq!(err, TrackerError::NotFound("B".to_string()));
    assert_eq!(err.message(), "Project 'B' not found.\n");
    assert_eq!(config.projects[0].name, "A");
}

#[test]
fn rename_onto_taken_slug_is_not_checked() {
    let mut config = PTrackerConfig::empty();
    config.init_project("A", None, now()).unwrap();
    config.init_project("B", None, now()).unwrap();
    config.rename_project("A", "b").unwrap();
    assert_eq!(config.projects[0].slug, "b");
    assert_eq!(config.projects[1].slug, "b");
    assert_eq!(config.find_slug("b"), Some(0));
}

#[test]
fn test_delete_project() {
    let mut config = PTrackerConfig::empty();
    config.init_project("DeleteTest", Some("./src"), now()).unwrap();
    let removed = config.remove_project("DeleteTest").unwrap();
    assert_eq!(removed.slug, "deletetest");
    assert!(!config.projects.iter().any(|p| p.slug == "deletetest"));
}

#[test]
fn delete_unknown_project_fails() {
    let mut config = PTrackerConfig::empty();
    config.init_project("Keep", None, now()).unwrap();
    assert_eq!(config.remove_project("Gone").unwrap_err(), TrackerError::NotFound("Gone".to_string()));
    assert_eq!(config.projects.len(), 1);
}

#[test]
fn delete_keeps_other_projects_in_order() {
    let mut config = PTrackerConfig::empty();
    for n in ["A", "B", "C"] {
        config.init_project(n, None, now()).unwrap();
    }
    config.remove_project("b").unwrap();
    let slugs: Vec<&str> = config.projects.iter().map(|p| p.slug.as_str()).collect();
    assert_eq!(slugs, vec!["a", "c"]);
}

#[test]
fn test_config_updates_after_log_hours() {
    let mut config = PTrackerConfig::empty();
    config.init_project("ConfigTest", Some("./src"), now()).unwrap();
    config.update_hours("configtest", hours(3.0));
    let entry = config.projects.iter().find(|p| p.slug == "configtest").unwrap();
    assert_eq!(f64::from_bits(entry.total_hours.bits), 3.0);
}

#[test]
fn update_hours_of_unknown_slug_changes_nothing() {
    let mut config = PTrackerConfig::empty();
    config.init_project("X", None, now()).unwrap();
    config.update_hours("y", hours(2.5));
    assert_eq!(config.projects[0].total_hours.bits, 0);
}

#[test]
fn contains_slug_reports_registration() {
    let mut config = PTrackerConfig::empty();
    assert!(!config.contains_slug("x"));
    config.init_project("X", None, now()).unwrap();
    assert!(config.contains_slug("x"));
}

#[test]
fn add_session_counts_and_sets_hours() {
    let mut p = Project::new("P", ".", "t".to_string());
    p.add_session(hours(1.25));
    p.add_session(hours(2.5));
    assert_eq!(p.total_sessions, 2);
    assert_eq!(f64::from_bits(p.total_hours.bits), 2.5);
}

#[test]
fn watch_target_prefers_given_path() {
    let p = Project::new("P", "./proj", "t".to_string());
    assert_eq!(p.watch_target(Some("/other")), "/other");
    assert_eq!(p.watch_target(None), "./proj");
}

#[test]
fn entry_of_project() {
    let p = Project::new("P Q", "/w", "t".to_string());
    let e = p.to_entry();
    assert_eq!(e.name, "P Q");
    assert_eq!(e.slug, "p-q");
    assert_eq!(e.watch_path, "/w");
    assert_eq!(e.created_at, "t");
    assert_eq!(e.total_hours.bits, 0);
}

#[test]
fn init_project_at_given_time() {
    let mut config = PTrackerConfig::empty();
    let p = config.init_project("My App", Some("/src"), "2026-06-28 09:00:00".to_string()).unwrap();
    assert_eq!(p.created_at, "2026-06-28 09:00:00");
    assert_eq!(p.slug, "my-app");
    assert_eq!(config.projects[0].created_at, "2026-06-28 09:00:00");
    let err = config.init_project("my app", None, "t".to_string()).unwrap_err();
    assert_eq!(err, TrackerError::AlreadyExists("my app".to_string()));
}

#[test]
fn delete_after_init_restores_registry() {
    let mut config = PTrackerConfig::empty();
    config.init_project("A", None, "t".to_string()).unwrap();
    config.init_project("B", None, "t".to_string()).unwrap();
    config.remove_project("B").unwrap();
    assert_eq!(config.projects.len(), 1);
    assert_eq!(config.projects[0].slug, "a");
}
