use ollama_gui::events::{DownloadProgressUpdate, Error, OllamaStreamProgress, StreamEvent};
use ollama_gui::multiplexer::SessionMultiplexer;
use ollama_gui::session::{subscribe_to_download, subscribe_to_stream, Session};
use ollama_gui::session_id::SessionId;

fn id(value: u128) -> SessionId {
    SessionId::from_u128(value)
}

fn generate(value: u128, prompt: &str) -> Session {
    subscribe_to_stream(id(value), "http://h/api/generate", prompt, "phi4", None)
}

fn pull(value: u128) -> Session {
    subscribe_to_download(id(value), "http://h/api/pull".to_string(), "llama3".to_string())
}

fn ids(table: &SessionMultiplexer) -> Vec<u128> {
    table.streams().iter().map(|stream| stream.id().value).collect()
}

#[test]
fn multiplexer_starts_empty() {
    let table = SessionMultiplexer::new();
    assert!(table.streams().is_empty());
    assert!(table.sessions().is_empty());
    assert!(!table.is_active(id(1)));
}

#[test]
fn multiplexer_start_opens_a_stream() {
    let mut table = SessionMultiplexer::new();
    assert!(table.start(generate(1, "a")));
    assert!(table.start(pull(2)));
    assert!(table.is_active(id(1)));
    assert!(table.is_active(id(2)));
    assert_eq!(table.sessions(), vec![generate(1, "a"), pull(2)]);
}

#[test]
fn multiplexer_start_for_a_running_identity_changes_nothing() {
    let mut table = SessionMultiplexer::new();
    assert!(table.start(generate(1, "first")));
    assert!(!table.start(generate(1, "second")));
    assert!(!table.start(pull(1)));
    assert_eq!(table.sessions(), vec![generate(1, "first")]);
}

#[test]
fn multiplexer_tags_events_with_the_identity() {
    let mut table = SessionMultiplexer::new();
    table.start(generate(1, "a"));
    table.start(generate(2, "b"));
    let events = table.feed(id(2), b"{\"response\":\"x\"}");
    assert_eq!(
        events,
        vec![(
            id(2),
            StreamEvent::Chat(Ok(OllamaStreamProgress::Streaming { token: "x".to_string() }))
        )]
    );
}

#[test]
fn multiplexer_gives_no_event_for_an_identity_it_does_not_hold() {
    let mut table = SessionMultiplexer::new();
    table.start(generate(1, "a"));
    assert_eq!(table.feed(id(9), b"{\"response\":\"x\"}"), vec![]);
    assert_eq!(table.fail(id(9), Error::RequestFailed("x".to_string())), vec![]);
    table.finish(id(9));
    assert_eq!(ids(&table), vec![1]);
}

#[test]
fn multiplexer_cancel_silences_the_session() {
    let mut table = SessionMultiplexer::new();
    table.start(pull(1));
    table.start(pull(2));
    assert!(table.cancel(id(1)));
    assert!(!table.is_active(id(1)));
    assert_eq!(table.feed(id(1), b"{\"status\":\"late\"}\n"), vec![]);
    assert_eq!(table.fail(id(1), Error::RequestFailed("late".to_string())), vec![]);
    assert!(table.is_active(id(2)));
    assert!(!table.cancel(id(1)));
}

#[test]
fn multiplexer_keeps_an_ended_stream_silent() {
    let mut table = SessionMultiplexer::new();
    table.start(generate(1, "a"));
    let events = table.feed(id(1), b"{\"done\":true}");
    assert_eq!(events.len(), 1);
    assert!(events[0].1.is_terminal());
    assert!(!table.is_active(id(1)));
    assert!(table.sessions().is_empty());
    assert_eq!(ids(&table), vec![1]);
    assert_eq!(table.feed(id(1), b"{\"response\":\"late\"}"), vec![]);
}

#[test]
fn multiplexer_start_replaces_an_ended_stream() {
    let mut table = SessionMultiplexer::new();
    table.start(generate(1, "a"));
    table.start(pull(2));
    table.fail(id(1), Error::RequestFailed("refused".to_string()));
    assert!(table.start(generate(1, "retry")));
    assert_eq!(ids(&table), vec![2, 1]);
    assert_eq!(table.sessions(), vec![pull(2), generate(1, "retry")]);
}

#[test]
fn multiplexer_failure_is_reported_to_its_own_session_only() {
    let mut table = SessionMultiplexer::new();
    table.start(generate(1, "a"));
    table.start(pull(2));
    let events = table.fail(id(2), Error::RequestFailed("refused".to_string()));
    assert_eq!(
        events,
        vec![(id(2), StreamEvent::Download(Err(Error::RequestFailed("refused".to_string()))))]
    );
    assert!(table.is_active(id(1)));
    assert!(!table.is_active(id(2)));
}

#[test]
fn multiplexer_end_of_response_ends_the_stream_without_an_event() {
    let mut table = SessionMultiplexer::new();
    table.start(pull(2));
    table.finish(id(2));
    assert!(!table.is_active(id(2)));
    assert_eq!(ids(&table), vec![2]);
}

#[test]
fn multiplexer_reconcile_drops_and_opens() {
    let mut table = SessionMultiplexer::new();
    table.start(generate(1, "a"));
    table.start(pull(2));
    table.start(pull(3));
    table.feed(id(3), b"{\"status\":\"s\"}\n");
    table.reconcile(vec![pull(3), generate(4, "d"), generate(1, "changed")]);
    assert_eq!(ids(&table), vec![1, 3, 4]);
    assert_eq!(table.sessions(), vec![generate(1, "a"), pull(3), generate(4, "d")]);
}

#[test]
fn multiplexer_reconcile_does_not_reopen_an_ended_stream() {
    let mut table = SessionMultiplexer::new();
    table.start(pull(2));
    table.feed(id(2), b"broken\n");
    table.reconcile(vec![pull(2)]);
    assert_eq!(ids(&table), vec![2]);
    assert!(table.sessions().is_empty());
    table.reconcile(vec![]);
    assert!(table.streams().is_empty());
    table.reconcile(vec![pull(2)]);
    assert_eq!(table.sessions(), vec![pull(2)]);
}

#[test]
fn multiplexer_reconcile_opens_one_stream_for_a_repeated_identity() {
    let mut table = SessionMultiplexer::new();
    table.reconcile(vec![generate(1, "a"), pull(1), generate(1, "b")]);
    assert_eq!(table.sessions(), vec![generate(1, "a")]);
}

#[test]
fn multiplexer_download_events_keep_their_order() {
    let mut table = SessionMultiplexer::new();
    table.start(pull(2));
    let events = table.feed(id(2), b"{\"status\":\"a\"}\n{\"status\":\"b\"}\n");
    let statuses: Vec<String> = events
        .into_iter()
        .map(|(_, event)| match event {
            StreamEvent::Download(Ok(DownloadProgressUpdate::Progress { status, .. })) => status,
            other => panic!("unexpected event {:?}", other),
        })
        .collect();
    assert_eq!(statuses, vec!["a".to_string(), "b".to_string()]);
}
