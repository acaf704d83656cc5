use modrinther::fetch::{classify_status, plan_fetch, FetchError};
use modrinther::manifest::{ModFile, ModrinthIndex};
use modrinther::report::{failure_line, success_line, summary_text, tally};
use modrinther::scheduler::Scheduler;

fn artifact(path: &str, url: &str, size: u64) -> ModFile {
    ModFile {
        downloads: vec![url.to_string()],
        env: vec![],
        file_size: size,
        hashes: vec![],
        path: path.to_string(),
    }
}

fn two_artifact_pack() -> ModrinthIndex {
    ModrinthIndex {
        dependencies: vec![],
        files: vec![artifact("mods/a.jar", "http://x/a", 10), artifact("mods/b.jar", "http://y/b", 20)],
        format_version: 1,
        game: "minecraft".to_string(),
        name: "Pack".to_string(),
        version_id: "1.0".to_string(),
    }
}

#[test]
fn scenario_one_success_one_transport_failure() {
    let index = two_artifact_pack();
    let a = plan_fetch(&index.files[0], "out").unwrap();
    assert_eq!(a.url, "http://x/a");
    assert_eq!(a.destination, "out/mods/a.jar");
    let b = plan_fetch(&index.files[1], "out").unwrap();
    assert_eq!(b.url, "http://y/b");
    assert_eq!(b.destination, "out/mods/b.jar");

    let mut s = Scheduler::new(index.files.len(), 5).unwrap();
    assert_eq!(s.launch_all(), vec![0, 1]);
    s.complete(1, Err(FetchError::Transport("connection refused".to_string())));
    s.complete(0, classify_status(200));
    assert!(s.is_finished());
    let outcome = s.into_outcome();
    assert_eq!(outcome.len(), 2);
    assert!(outcome[0].is_ok());
    assert!(matches!(outcome[1], Err(FetchError::Transport(_))));

    let t = tally(&outcome);
    assert_eq!(t.success_count, 1);
    assert_eq!(t.failure_count, 1);
    assert_eq!(t.failed, vec![1]);
    assert_eq!(success_line(t.success_count as u64, 2), "Successfully downloaded: 1/2");
    assert_eq!(failure_line(t.failure_count as u64, 2), "Failed to download: 1/2");
}

#[test]
fn outcome_has_one_entry_per_artifact_in_manifest_order() {
    let mut s = Scheduler::new(4, 2).unwrap();
    assert_eq!(s.launch_all(), vec![0, 1]);
    s.complete(1, Err(FetchError::HttpStatus(404)));
    assert_eq!(s.launch_all(), vec![2]);
    s.complete(2, Ok(()));
    s.complete(0, Err(FetchError::PathEscape));
    assert_eq!(s.launch_all(), vec![3]);
    s.complete(3, Ok(()));
    let outcome = s.into_outcome();
    assert_eq!(outcome.len(), 4);
    assert_eq!(outcome[0], Err(FetchError::PathEscape));
    assert_eq!(outcome[1], Err(FetchError::HttpStatus(404)));
    assert_eq!(outcome[2], Ok(()));
    assert_eq!(outcome[3], Ok(()));
}

#[test]
fn never_more_than_the_cap_in_flight() {
    let mut s = Scheduler::new(12, 5).unwrap();
    assert_eq!(s.launch_all(), vec![0, 1, 2, 3, 4]);
    assert_eq!(s.in_flight(), 5);
    assert_eq!(s.launch(), None);
    s.complete(2, Ok(()));
    assert_eq!(s.in_flight(), 4);
    assert_eq!(s.launch(), Some(5));
    assert_eq!(s.launch(), None);
    assert_eq!(s.in_flight(), 5);
}

#[test]
fn a_failure_does_not_stop_the_others() {
    let mut s = Scheduler::new(3, 1).unwrap();
    assert_eq!(s.launch(), Some(0));
    s.complete(0, classify_status(404));
    assert_eq!(s.launch(), Some(1));
    s.complete(1, Ok(()));
    assert_eq!(s.launch(), Some(2));
    s.complete(2, Ok(()));
    let outcome = s.into_outcome();
    assert_eq!(outcome[0], Err(FetchError::HttpStatus(404)));
    assert_eq!(outcome[1], Ok(()));
    assert_eq!(outcome[2], Ok(()));
}

#[test]
fn completed_counter_reaches_the_total() {
    let mut s = Scheduler::new(3, 2).unwrap();
    assert_eq!(s.completed(), 0);
    s.launch_all();
    s.complete(0, Err(FetchError::LocalIO("disk full".to_string())));
    assert_eq!(s.completed(), 1);
    assert!(!s.is_finished());
    s.launch_all();
    s.complete(2, Ok(()));
    s.complete(1, Err(FetchError::HttpStatus(500)));
    assert_eq!(s.completed(), 3);
    assert_eq!(s.total(), 3);
    assert!(s.is_finished());
}

#[test]
fn empty_manifest_is_finished_at_once() {
    let mut s = Scheduler::new(0, 5).unwrap();
    assert!(s.launch_all().is_empty());
    assert!(s.is_finished());
    assert!(s.into_outcome().is_empty());
}

#[test]
fn zero_cap_is_refused() {
    assert!(Scheduler::new(3, 0).is_none());
}

#[test]
fn in_flight_query_tracks_slots() {
    let mut s = Scheduler::new(2, 1).unwrap();
    assert!(!s.is_in_flight(0));
    s.launch();
    assert!(s.is_in_flight(0));
    assert!(!s.is_in_flight(1));
    assert!(!s.is_in_flight(7));
    s.complete(0, Ok(()));
    assert!(!s.is_in_flight(0));
}

#[test]
fn escaping_artifact_is_refused_before_any_write() {
    let f = artifact("../../etc/passwd", "http://x/p", 1);
    assert!(matches!(plan_fetch(&f, "out"), Err(FetchError::PathEscape)));
}

#[test]
fn status_codes_are_classified() {
    assert_eq!(classify_status(200), Ok(()));
    assert_eq!(classify_status(204), Ok(()));
    assert_eq!(classify_status(299), Ok(()));
    assert_eq!(classify_status(199), Err(FetchError::HttpStatus(199)));
    assert_eq!(classify_status(301), Err(FetchError::HttpStatus(301)));
    assert_eq!(classify_status(404), Err(FetchError::HttpStatus(404)));
}

#[test]
fn planning_twice_gives_the_same_destination() {
    let f = artifact("config/a/b.toml", "http://x/b", 3);
    let first = plan_fetch(&f, "root").unwrap();
    let second = plan_fetch(&f, "root").unwrap();
    assert_eq!(first.destination, second.destination);
    assert_eq!(first.destination, "root/config/a/b.toml");
}

#[test]
fn summary_lists_every_artifact() {
    let index = two_artifact_pack();
    assert_eq!(
        summary_text(&index),
        "Modpack: Pack\nMinecraft version: unknown\nLoader: Unknown unknown\nTotal mods: 2\n\n\
         Installed mods:\n- a.jar (10 bytes)\n- b.jar (20 bytes)\n"
    );
}
