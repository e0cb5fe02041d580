use ollama_gui::events::{DownloadProgressUpdate, Error, OllamaStreamProgress, StreamEvent};
use ollama_gui::session::{
    subscribe_to_download, subscribe_to_stream, RequestBody, Session, SessionKind, StreamSession,
};
use ollama_gui::session_id::SessionId;

fn generate() -> Session {
    subscribe_to_stream(SessionId::from_u128(1), "http://h/api/generate", "hi", "phi4", None)
}

fn pull() -> Session {
    subscribe_to_download(
        SessionId::from_u128(2),
        "http://h/api/pull".to_string(),
        "llama3".to_string(),
    )
}

fn token(text: &str) -> StreamEvent {
    StreamEvent::Chat(Ok(OllamaStreamProgress::Streaming { token: text.to_string() }))
}

fn progress(status: &str, total: u64, completed: u64) -> StreamEvent {
    StreamEvent::Download(Ok(DownloadProgressUpdate::Progress {
        status: status.to_string(),
        total,
        completed,
    }))
}

#[test]
fn session_for_a_chat_asks_for_a_generation() {
    let session = subscribe_to_stream(
        SessionId::from_u128(1),
        "http://h/api/generate",
        "hi",
        "phi4",
        Some(vec![1, 2]),
    );
    assert_eq!(session.id, SessionId::from_u128(1));
    assert_eq!(session.url, "http://h/api/generate");
    assert_eq!(
        session.kind,
        SessionKind::Generate {
            prompt: "hi".to_string(),
            model: "phi4".to_string(),
            context: Some(vec![1, 2]),
        }
    );
}

#[test]
fn session_body_of_a_generation_holds_prompt_and_context() {
    let session = subscribe_to_stream(SessionId::nil(), "u", "hi", "phi4", Some(vec![1, 2]));
    assert_eq!(
        session.body(),
        RequestBody {
            model: "phi4".to_string(),
            prompt: Some("hi".to_string()),
            stream: true,
            context: Some(vec![1, 2]),
        }
    );
    assert_eq!(generate().body().context, None);
}

#[test]
fn session_body_of_a_pull_holds_the_model_only() {
    assert_eq!(
        pull().body(),
        RequestBody { model: "llama3".to_string(), prompt: None, stream: true, context: None }
    );
}

#[test]
fn stream_session_opens_unclosed() {
    let stream = StreamSession::open(generate());
    assert!(!stream.is_closed());
    assert_eq!(stream.id(), SessionId::from_u128(1));
    assert_eq!(stream.session(), &generate());
}

#[test]
fn stream_session_gives_one_event_for_each_generation_chunk() {
    let mut stream = StreamSession::open(generate());
    assert_eq!(stream.feed(b"{\"response\":\"he\"}"), vec![token("he")]);
    assert_eq!(stream.feed(b"garbage"), vec![token("garbage")]);
    assert!(!stream.is_closed());
}

#[test]
fn stream_session_closes_when_the_answer_is_complete() {
    let mut stream = StreamSession::open(generate());
    let events = stream.feed(b"{\"done\":true,\"context\":[5]}");
    assert_eq!(
        events,
        vec![StreamEvent::Chat(Ok(OllamaStreamProgress::Finished { context: vec![5] }))]
    );
    assert!(stream.is_closed());
    assert_eq!(stream.feed(b"{\"response\":\"late\"}"), vec![]);
    assert_eq!(stream.fail(Error::RequestFailed("late".to_string())), vec![]);
}

#[test]
fn stream_session_gives_the_events_of_the_lines_of_a_download_chunk() {
    let mut stream = StreamSession::open(pull());
    let events = stream.feed(b"{\"status\":\"a\",\"total\":10}\n{\"status\":\"b\",\"completed\":4}\n");
    assert_eq!(events, vec![progress("a", 10, 0), progress("b", 0, 4)]);
    assert!(!stream.is_closed());
}

#[test]
fn stream_session_closes_at_a_parse_error() {
    let mut stream = StreamSession::open(pull());
    let events = stream.feed(b"{\"status\":\"a\"}\n??\n{\"status\":\"b\"}\n");
    assert_eq!(events.len(), 2);
    assert_eq!(events[0], progress("a", 0, 0));
    assert!(matches!(events[1], StreamEvent::Download(Err(Error::ParseError(_)))));
    assert!(events[1].is_terminal());
    assert!(stream.is_closed());
    assert_eq!(stream.feed(b"{\"status\":\"c\"}\n"), vec![]);
}

#[test]
fn stream_session_reports_a_failure_once_and_closes() {
    let mut stream = StreamSession::open(generate());
    let events = stream.fail(Error::RequestFailed("refused".to_string()));
    assert_eq!(events, vec![StreamEvent::Chat(Err(Error::RequestFailed("refused".to_string())))]);
    assert!(stream.is_closed());
    assert_eq!(stream.fail(Error::RequestFailed("again".to_string())), vec![]);

    let mut stream = StreamSession::open(pull());
    let events = stream.fail(Error::ChannelError("full".to_string()));
    assert_eq!(events, vec![StreamEvent::Download(Err(Error::ChannelError("full".to_string())))]);
}

#[test]
fn stream_session_ends_silently_with_the_response() {
    let mut stream = StreamSession::open(pull());
    stream.finish();
    assert!(stream.is_closed());
    assert_eq!(stream.feed(b"{\"status\":\"a\"}\n"), vec![]);
}

#[test]
fn stream_event_is_terminal_unless_it_is_a_token_or_progress() {
    assert!(!token("t").is_terminal());
    assert!(!progress("s", 1, 1).is_terminal());
    assert!(StreamEvent::Chat(Ok(OllamaStreamProgress::Finished { context: vec![] })).is_terminal());
    assert!(StreamEvent::Download(Ok(DownloadProgressUpdate::Finished)).is_terminal());
    assert!(StreamEvent::Chat(Err(Error::RequestFailed("x".to_string()))).is_terminal());
    assert!(StreamEvent::Download(Err(Error::ParseError("x".to_string()))).is_terminal());
}
