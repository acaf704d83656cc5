use modrinther::fetch::{plan_fetch, Action, Event, FetchError, FetchPlan, Materialization};
use modrinther::manifest::ModFile;

fn plan(url: &str, dest: &str) -> FetchPlan {
    FetchPlan { url: url.to_string(), destination: dest.to_string() }
}

fn successful_session(p: FetchPlan, chunks: &[u64]) -> Vec<Action> {
    let (mut m, first) = Materialization::start(p);
    let mut actions = vec![first];
    actions.push(m.step(Event::Ready));
    actions.push(m.step(Event::Status(200)));
    actions.push(m.step(Event::Ready));
    for &c in chunks {
        actions.push(m.step(Event::Chunk(c)));
    }
    actions.push(m.step(Event::EndOfBody));
    actions.push(m.step(Event::Ready));
    assert!(m.is_finished());
    actions
}

#[test]
fn successful_fetch_steps() {
    let (mut m, first) = Materialization::start(plan("http://x/a", "out/mods/a.jar"));
    assert_eq!(first, Action::MakeParentDirs("out/mods/a.jar".to_string()));
    assert_eq!(m.step(Event::Ready), Action::Get("http://x/a".to_string()));
    assert_eq!(m.step(Event::Status(200)), Action::CreateFile("out/mods/a.jar".to_string()));
    assert_eq!(m.step(Event::Ready), Action::CopyChunk);
    assert_eq!(m.step(Event::Chunk(4)), Action::CopyChunk);
    assert_eq!(m.step(Event::Chunk(6)), Action::CopyChunk);
    assert_eq!(m.bytes_written(), 10);
    assert_eq!(m.step(Event::EndOfBody), Action::Flush);
    assert!(!m.is_finished());
    assert_eq!(m.step(Event::Ready), Action::Finish(Ok(())));
    assert!(m.is_finished());
}

#[test]
fn http_error_status_ends_the_fetch() {
    let (mut m, _) = Materialization::start(plan("http://x/a", "out/a"));
    m.step(Event::Ready);
    assert_eq!(m.step(Event::Status(404)), Action::Finish(Err(FetchError::HttpStatus(404))));
    assert!(m.is_finished());
    assert!(!m.accepts(&Event::Ready));
}

#[test]
fn transport_failure_ends_the_fetch() {
    let (mut m, _) = Materialization::start(plan("http://y/b", "out/b"));
    m.step(Event::Ready);
    let e = FetchError::Transport("connection refused".to_string());
    assert_eq!(
        m.step(Event::Failed(e)),
        Action::Finish(Err(FetchError::Transport("connection refused".to_string())))
    );
    assert_eq!(m.bytes_written(), 0);
}

#[test]
fn write_failure_mid_body_ends_the_fetch() {
    let (mut m, _) = Materialization::start(plan("http://x/a", "out/a"));
    m.step(Event::Ready);
    m.step(Event::Status(201));
    m.step(Event::Ready);
    m.step(Event::Chunk(3));
    let r = m.step(Event::Failed(FetchError::LocalIO("disk full".to_string())));
    assert_eq!(r, Action::Finish(Err(FetchError::LocalIO("disk full".to_string()))));
    assert_eq!(m.bytes_written(), 3);
}

#[test]
fn events_out_of_turn_are_not_accepted() {
    let (m, _) = Materialization::start(plan("http://x/a", "out/a"));
    assert!(m.accepts(&Event::Ready));
    assert!(m.accepts(&Event::Failed(FetchError::PathEscape)));
    assert!(!m.accepts(&Event::Chunk(1)));
    assert!(!m.accepts(&Event::Status(200)));
    assert!(!m.accepts(&Event::EndOfBody));
}

#[test]
fn byte_count_saturates() {
    let (mut m, _) = Materialization::start(plan("u", "d"));
    m.step(Event::Ready);
    m.step(Event::Status(200));
    m.step(Event::Ready);
    m.step(Event::Chunk(u64::MAX - 1));
    m.step(Event::Chunk(5));
    assert_eq!(m.bytes_written(), u64::MAX);
}

#[test]
fn second_run_repeats_the_same_steps() {
    let f = ModFile {
        downloads: vec!["http://x/a".to_string(), "http://mirror/a".to_string()],
        env: vec![],
        file_size: 10,
        hashes: vec![],
        path: "mods/a.jar".to_string(),
    };
    let first = successful_session(plan_fetch(&f, "out").unwrap(), &[10]);
    let second = successful_session(plan_fetch(&f, "out").unwrap(), &[10]);
    assert_eq!(first, second);
    assert_eq!(first[2], Action::CreateFile("out/mods/a.jar".to_string()));
    assert_eq!(first[first.len() - 1], Action::Finish(Ok(())));
}
