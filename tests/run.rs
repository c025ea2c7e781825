use br::naming::target_path;
use br::run::{Action, Event, Renamer, RunError};

fn b(s: &str) -> Vec<u8> {
    s.as_bytes().to_vec()
}

fn step(r: &mut Renamer, e: Event) -> Action {
    assert!(r.accepts(&e), "event not expected: {:?}", e);
    r.step(e)
}

#[test]
fn default_root_is_current_directory() {
    let mut r = Renamer::new(Vec::new());
    assert_eq!(step(&mut r, Event::Started), Action::Resolve(b(".")));
}

#[test]
fn missing_root_aborts_without_renaming() {
    let mut r = Renamer::new(vec![b("/no/such/dir"), b("/other")]);
    assert_eq!(step(&mut r, Event::Started), Action::Resolve(b("/no/such/dir")));
    assert_eq!(
        step(&mut r, Event::NotResolved),
        Action::Abort(RunError::PathResolution(b("/no/such/dir")))
    );
    assert!(r.is_over());
    assert!(!r.accepts(&Event::Resolved(b("/other"))));
    assert!(!r.accepts(&Event::WalkEnded));
}

#[test]
fn empty_directory_is_skipped() {
    let mut r = Renamer::new(vec![b("/r")]);
    step(&mut r, Event::Started);
    assert_eq!(step(&mut r, Event::Resolved(b("/r"))), Action::Walk(b("/r")));
    assert_eq!(step(&mut r, Event::Entry(b("/r"), true)), Action::NextEntry);
    assert_eq!(step(&mut r, Event::Entry(b("/r/empty"), true)), Action::NextEntry);
    assert_eq!(step(&mut r, Event::WalkEnded), Action::Finish);
    assert!(r.is_over());
}

#[test]
fn nested_files_are_all_renamed() {
    let mut r = Renamer::new(vec![b("R")]);
    step(&mut r, Event::Started);
    assert_eq!(step(&mut r, Event::Resolved(b("/abs/R"))), Action::Walk(b("/abs/R")));
    assert_eq!(step(&mut r, Event::Entry(b("/abs/R"), true)), Action::NextEntry);
    assert_eq!(step(&mut r, Event::Entry(b("/abs/R/a.txt"), false)), Action::Read(b("/abs/R/a.txt")));
    let to_a = target_path(b"/abs/R/a.txt", b"A");
    assert_eq!(step(&mut r, Event::Contents(b("A"))), Action::Rename(b("/abs/R/a.txt"), to_a));
    assert_eq!(step(&mut r, Event::Renamed), Action::NextEntry);
    assert_eq!(step(&mut r, Event::Entry(b("/abs/R/sub"), true)), Action::NextEntry);
    assert_eq!(
        step(&mut r, Event::Entry(b("/abs/R/sub/b.txt"), false)),
        Action::Read(b("/abs/R/sub/b.txt"))
    );
    let to_b = target_path(b"/abs/R/sub/b.txt", b"B");
    assert!(to_b.starts_with(b"/abs/R/sub/"));
    assert!(to_b.ends_with(b".txt"));
    assert_eq!(step(&mut r, Event::Contents(b("B"))), Action::Rename(b("/abs/R/sub/b.txt"), to_b));
    assert_eq!(step(&mut r, Event::Renamed), Action::NextEntry);
    assert_eq!(step(&mut r, Event::WalkEnded), Action::Finish);
}

#[test]
fn roots_are_handled_in_order() {
    let mut r = Renamer::new(vec![b("one"), b("two")]);
    assert_eq!(step(&mut r, Event::Started), Action::Resolve(b("one")));
    step(&mut r, Event::Resolved(b("/one")));
    assert_eq!(step(&mut r, Event::WalkEnded), Action::Resolve(b("two")));
    assert_eq!(step(&mut r, Event::Resolved(b("/two"))), Action::Walk(b("/two")));
    assert_eq!(step(&mut r, Event::WalkEnded), Action::Finish);
}

#[test]
fn second_missing_root_aborts() {
    let mut r = Renamer::new(vec![b("one"), b("gone")]);
    step(&mut r, Event::Started);
    step(&mut r, Event::Resolved(b("/one")));
    step(&mut r, Event::WalkEnded);
    assert_eq!(
        step(&mut r, Event::NotResolved),
        Action::Abort(RunError::PathResolution(b("gone")))
    );
}

#[test]
fn unlisted_entries_are_skipped() {
    let mut r = Renamer::new(vec![b("/r")]);
    step(&mut r, Event::Started);
    step(&mut r, Event::Resolved(b("/r")));
    assert_eq!(step(&mut r, Event::Unlisted), Action::NextEntry);
    assert!(!r.is_over());
}

#[test]
fn unreadable_file_aborts() {
    let mut r = Renamer::new(vec![b("/r")]);
    step(&mut r, Event::Started);
    step(&mut r, Event::Resolved(b("/r")));
    step(&mut r, Event::Entry(b("/r/f"), false));
    assert_eq!(step(&mut r, Event::Unreadable), Action::Abort(RunError::Read(b("/r/f"))));
    assert!(r.is_over());
}

#[test]
fn failed_rename_aborts() {
    let mut r = Renamer::new(vec![b("/r")]);
    step(&mut r, Event::Started);
    step(&mut r, Event::Resolved(b("/r")));
    step(&mut r, Event::Entry(b("/r/f.c"), false));
    let to = target_path(b"/r/f.c", b"x");
    step(&mut r, Event::Contents(b("x")));
    assert_eq!(step(&mut r, Event::RenameFailed), Action::Abort(RunError::Rename(b("/r/f.c"), to)));
}

#[test]
fn identical_files_get_one_target() {
    let mut r = Renamer::new(vec![b("/r")]);
    step(&mut r, Event::Started);
    step(&mut r, Event::Resolved(b("/r")));
    step(&mut r, Event::Entry(b("/r/x.txt"), false));
    let first = step(&mut r, Event::Contents(b("same")));
    step(&mut r, Event::Renamed);
    step(&mut r, Event::Entry(b("/r/y.txt"), false));
    let second = step(&mut r, Event::Contents(b("same")));
    match (first, second) {
        (Action::Rename(_, t1), Action::Rename(_, t2)) => assert_eq!(t1, t2),
        other => panic!("expected two renames, got {:?}", other),
    }
}

#[test]
fn unexpected_events_are_refused() {
    let r = Renamer::new(vec![b("/r")]);
    assert!(r.accepts(&Event::Started));
    assert!(!r.accepts(&Event::Renamed));
    assert!(!r.accepts(&Event::Contents(b("x"))));
}
