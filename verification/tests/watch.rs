use ptracker::types::{DayLog, FileEvent, Quantity, Session, SessionEvents, SessionTotals};
use ptracker::watch::{map_file_event, ChangeKind, Debouncer, WatchAction, WatchEvent, WatchInput, WatchSession};

const MS: u64 = 1_000_000;

fn event_with(kind: ChangeKind, paths: &[&str], tracker: Option<usize>) -> WatchEvent {
    WatchEvent { kind, paths: paths.iter().map(|p| p.to_string()).collect(), tracker }
}

fn change(kind: ChangeKind, path: &str, at_nanos: u64) -> WatchInput {
    WatchInput::Change { event: event_with(kind, &[path], None), at_nanos }
}

/// Runs one step and records what it says to record.
fn run(s: &mut WatchSession, running: bool, input: WatchInput) -> (Vec<FileEvent>, WatchAction) {
    let step = s.step(running, input);
    for e in &step.record {
        assert!(s.has_room(e));
        s.record(e);
    }
    (step.record, step.next)
}

#[test]
fn map_file_event_kinds() {
    let ev = |kind, paths: &[&str]| event_with(kind, paths, None);
    assert_eq!(map_file_event(&ev(ChangeKind::Create, &["a", "b"])), Some(FileEvent::Created("a".into())));
    assert_eq!(map_file_event(&ev(ChangeKind::Modify, &["m"])), Some(FileEvent::Modified("m".into())));
    assert_eq!(map_file_event(&ev(ChangeKind::Remove, &["r"])), Some(FileEvent::Deleted("r".into())));
    assert_eq!(map_file_event(&ev(ChangeKind::Other, &["o"])), None);
    assert_eq!(map_file_event(&ev(ChangeKind::Create, &[])), None);
}

#[test]
fn map_file_event_renames() {
    let ev = |kind, paths: &[&str]| event_with(kind, paths, None);
    assert_eq!(
        map_file_event(&ev(ChangeKind::RenameBoth, &["old.rs", "new.rs"])),
        Some(FileEvent::Renamed("old.rs".into(), "new.rs".into()))
    );
    assert_eq!(map_file_event(&ev(ChangeKind::RenameBoth, &["one.rs"])), Some(FileEvent::Modified("one.rs".into())));
    assert_eq!(map_file_event(&ev(ChangeKind::RenameFrom, &["a"])), Some(FileEvent::Modified("a".into())));
    assert_eq!(map_file_event(&ev(ChangeKind::RenameTo, &["b"])), Some(FileEvent::Modified("b".into())));
}

#[test]
fn log_lines() {
    assert_eq!(FileEvent::Created("main.rs".into()).log_line("10:00:00"), "[10:00:00] + Created  main.rs");
    assert_eq!(FileEvent::Modified("main.rs".into()).log_line("10:00:01"), "[10:00:01] ~ Modified main.rs");
    assert_eq!(FileEvent::Deleted("main.rs".into()).log_line("10:00:02"), "[10:00:02] - Deleted  main.rs");
    assert_eq!(
        FileEvent::Renamed("client.rs".into(), "cli.rs".into()).log_line("10:00:03"),
        "[10:00:03] > Renamed  client.rs → cli.rs"
    );
}

#[test]
fn path_keys() {
    assert_eq!(FileEvent::Renamed("a".into(), "b".into()).path_key(), "a");
    assert_eq!(FileEvent::Deleted("d".into()).path_key(), "d");
}

#[test]
fn debounce_drops_repeats_within_half_a_second() {
    let mut d = Debouncer::new();
    let k = "f.rs".to_string();
    assert!(d.accept(&k, 0));
    assert!(!d.accept(&k, 499_999_999));
    assert!(d.accept(&k, 500_000_000));
    assert!(!d.accept(&k, 600_000_000));
    assert!(d.accept(&"g.rs".to_string(), 600_000_000));
    // an earlier time than the last one recorded counts as a repeat
    assert!(!d.accept(&k, 100));
}

#[test]
fn step_records_and_debounces() {
    let mut s = WatchSession::new();
    let (r, next) = run(&mut s, true, change(ChangeKind::Create, "a", 0));
    assert_eq!(r, vec![FileEvent::Created("a".into())]);
    assert!(matches!(next, WatchAction::Continue));
    assert!(run(&mut s, true, change(ChangeKind::Modify, "a", 100 * MS)).0.is_empty());
    assert_eq!(run(&mut s, true, change(ChangeKind::Modify, "a", 600 * MS)).0.len(), 1);
    assert!(run(&mut s, true, change(ChangeKind::Other, "b", 700 * MS)).0.is_empty());
    let (r, next) = run(&mut s, false, change(ChangeKind::Create, "c", 800 * MS));
    assert!(r.is_empty() && matches!(next, WatchAction::Stop));
    assert!(matches!(run(&mut s, true, WatchInput::Timeout { at_nanos: 800 * MS }).1, WatchAction::Continue));
    assert!(matches!(run(&mut s, true, WatchInput::Failure).1, WatchAction::ReportFailure));
    assert!(matches!(run(&mut s, true, WatchInput::Disconnected).1, WatchAction::Stop));
    // a stopped change does not mark its path
    assert_eq!(run(&mut s, true, change(ChangeKind::Create, "c", 800 * MS)).0.len(), 1);
    assert_eq!(s.totals(), SessionTotals { created: 2, modified: 1, deleted: 0, renamed: 0 });
}

#[test]
fn record_keeps_totals_matching_events() {
    let mut s = WatchSession::new();
    let evs = vec![
        FileEvent::Created("a".into()),
        FileEvent::Modified("a".into()),
        FileEvent::Modified("b".into()),
        FileEvent::Deleted("c".into()),
        FileEvent::Renamed("d".into(), "e".into()),
    ];
    for e in &evs {
        assert!(s.has_room(e));
        s.record(e);
    }
    assert_eq!(s.events().created, vec!["a".to_string()]);
    assert_eq!(s.events().modified, vec!["a".to_string(), "b".to_string()]);
    assert_eq!(s.events().deleted, vec!["c".to_string()]);
    assert_eq!(s.events().renamed, vec![("d".to_string(), "e".to_string())]);
    assert_eq!(s.totals(), SessionTotals { created: 1, modified: 2, deleted: 1, renamed: 1 });
    let (events, totals) = s.into_parts();
    assert_eq!(events.modified.len(), totals.modified as usize);
}

#[test]
fn rename_halves_are_paired_and_counted_once() {
    let mut s = WatchSession::new();
    let from = WatchInput::Change { event: event_with(ChangeKind::RenameFrom, &["old.rs"], Some(7)), at_nanos: 0 };
    assert!(run(&mut s, true, from).0.is_empty());
    assert_eq!(s.pending_path(), Some("old.rs".to_string()));
    let to = WatchInput::Change { event: event_with(ChangeKind::RenameTo, &["new.rs"], Some(7)), at_nanos: MS };
    assert_eq!(run(&mut s, true, to).0, vec![FileEvent::Renamed("old.rs".into(), "new.rs".into())]);
    assert_eq!(s.pending_path(), None);
    // the watcher's paired report of the same rename repeats it within the window
    let both = WatchInput::Change {
        event: event_with(ChangeKind::RenameBoth, &["old.rs", "new.rs"], Some(7)),
        at_nanos: 2 * MS,
    };
    assert!(run(&mut s, true, both).0.is_empty());
    assert_eq!(s.totals().renamed, 1);
    assert_eq!(s.events().renamed, vec![("old.rs".to_string(), "new.rs".to_string())]);
}

#[test]
fn moved_out_file_is_recorded_as_modified() {
    // a file moved out of the watched folder: only the old half comes
    let mut s = WatchSession::new();
    let from = WatchInput::Change { event: event_with(ChangeKind::RenameFrom, &["gone.rs"], Some(1)), at_nanos: 0 };
    assert!(run(&mut s, true, from).0.is_empty());
    let (r, next) = run(&mut s, true, WatchInput::Timeout { at_nanos: 250 * MS });
    assert_eq!(r, vec![FileEvent::Modified("gone.rs".into())]);
    assert!(matches!(next, WatchAction::Continue));
    assert_eq!(s.pending_path(), None);
    assert_eq!(s.totals().modified, 1);
}

#[test]
fn held_half_is_recorded_at_the_end_of_the_session() {
    let mut s = WatchSession::new();
    let from = WatchInput::Change { event: event_with(ChangeKind::RenameFrom, &["x.rs"], None), at_nanos: 0 };
    run(&mut s, true, from);
    assert!(matches!(run(&mut s, true, WatchInput::Disconnected).1, WatchAction::Stop));
    assert_eq!(s.finish(10 * MS), vec![FileEvent::Modified("x.rs".into())]);
    assert_eq!(s.pending_path(), None);
    assert!(s.finish(20 * MS).is_empty());
}

#[test]
fn unmatched_halves_are_not_paired() {
    let mut s = WatchSession::new();
    let from = WatchInput::Change { event: event_with(ChangeKind::RenameFrom, &["out.rs"], Some(1)), at_nanos: 0 };
    run(&mut s, true, from);
    let to = WatchInput::Change { event: event_with(ChangeKind::RenameTo, &["in.rs"], Some(2)), at_nanos: MS };
    assert_eq!(
        run(&mut s, true, to).0,
        vec![FileEvent::Modified("out.rs".into()), FileEvent::Modified("in.rs".into())]
    );
    // a second old half ends the wait of the first
    let a = WatchInput::Change { event: event_with(ChangeKind::RenameFrom, &["p.rs"], Some(3)), at_nanos: 2 * MS };
    run(&mut s, true, a);
    let b = WatchInput::Change { event: event_with(ChangeKind::RenameFrom, &["q.rs"], Some(4)), at_nanos: 3 * MS };
    assert_eq!(run(&mut s, true, b).0, vec![FileEvent::Modified("p.rs".into())]);
    assert_eq!(s.pending_path(), Some("q.rs".to_string()));
    // any other change ends it too, before that change
    let (r, _) = run(&mut s, true, change(ChangeKind::Create, "n.rs", 4 * MS));
    assert_eq!(r, vec![FileEvent::Modified("q.rs".into()), FileEvent::Created("n.rs".into())]);
    assert_eq!(s.totals(), SessionTotals { created: 1, modified: 4, deleted: 0, renamed: 0 });
}

#[test]
fn rename_to_without_from_is_a_modification() {
    let mut s = WatchSession::new();
    let to = WatchInput::Change { event: event_with(ChangeKind::RenameTo, &["in.rs"], None), at_nanos: 0 };
    assert_eq!(run(&mut s, true, to).0, vec![FileEvent::Modified("in.rs".into())]);
}

#[test]
fn rename_both_alone_is_recorded() {
    let mut s = WatchSession::new();
    let both = WatchInput::Change { event: event_with(ChangeKind::RenameBoth, &["a", "b"], None), at_nanos: 0 };
    assert_eq!(run(&mut s, true, both).0, vec![FileEvent::Renamed("a".into(), "b".into())]);
}

#[test]
fn totals_room_at_the_limit() {
    let t = SessionTotals { created: u32::MAX, modified: 0, deleted: 0, renamed: 0 };
    assert!(!t.has_room(&FileEvent::Created("x".into())));
    assert!(t.has_room(&FileEvent::Modified("x".into())));
}

#[test]
fn defaults_are_empty() {
    let e = SessionEvents::default();
    assert!(e.created.is_empty() && e.modified.is_empty() && e.deleted.is_empty() && e.renamed.is_empty());
    assert_eq!(SessionTotals::default(), SessionTotals { created: 0, modified: 0, deleted: 0, renamed: 0 });
    let s = WatchSession::new();
    assert_eq!(s.totals(), SessionTotals::default());
    assert_eq!(s.pending_path(), None);
}

#[test]
fn day_log_collects_sessions() {
    let mut day = DayLog::new("2026-06-28".to_string());
    assert!(day.sessions.is_empty());
    assert_eq!(day.total_hours, Quantity::zero());
    let session = Session {
        id: "id".into(),
        date: "2026-06-28".into(),
        start: "10:00:00".into(),
        end: Some("11:00:00".into()),
        duration_mins: Some(Quantity { bits: 60.0f64.to_bits() }),
        watch_path: ".".into(),
        events: SessionEvents::default(),
        totals: SessionTotals::default(),
    };
    day.add_session(session, Quantity { bits: 1.0f64.to_bits() });
    assert_eq!(day.sessions.len(), 1);
    assert_eq!(day.sessions[0].id, "id");
    assert_eq!(f64::from_bits(day.total_hours.bits), 1.0);
    assert_eq!(day.date, "2026-06-28");
}
