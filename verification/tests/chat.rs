use ollama_gui::chat::{ChatEntry, ChatHistory, ChatState, HistoryError, OllamaChat};
use ollama_gui::events::{Error, OllamaStreamProgress};
use ollama_gui::session::{Session, SessionKind};
use ollama_gui::session_id::SessionId;

fn chat() -> OllamaChat {
    OllamaChat::with_id(SessionId::from_u128(7))
}

fn streaming_chat(prompt: &str) -> OllamaChat {
    let mut chat = chat();
    chat.set_prompt(prompt.to_string());
    chat.start();
    chat
}

fn token(text: &str) -> Result<OllamaStreamProgress, Error> {
    Ok(OllamaStreamProgress::Streaming { token: text.to_string() })
}

fn entry(prompt: &str, response: &str) -> ChatEntry {
    ChatEntry { prompt: prompt.to_string(), response: response.to_string() }
}

#[test]
fn chat_opens_blank() {
    let chat = chat();
    assert_eq!(chat.uuid(), SessionId::from_u128(7));
    assert_eq!(chat.display_name(), "New Unnamed Chat");
    assert_eq!(chat.editing_name(), None);
    assert_eq!(chat.state(), ChatState::Idle);
    assert_eq!(chat.input_prompt(), "");
    assert_eq!(chat.model(), "phi4");
    assert_eq!(chat.context(), None);
    assert!(chat.chat_entries().is_empty());
}

#[test]
fn chat_new_draws_its_own_identity() {
    let one = OllamaChat::new();
    let other = OllamaChat::new();
    assert_ne!(one.uuid(), other.uuid());
    assert_eq!(one.state(), ChatState::Idle);
    assert_eq!(one.display_name(), "New Unnamed Chat");
}

#[test]
fn chat_start_opens_a_turn_and_clears_the_input() {
    let chat = streaming_chat("hi");
    assert_eq!(chat.state(), ChatState::Streaming);
    assert_eq!(chat.input_prompt(), "");
    assert_eq!(chat.chat_entries(), &vec![entry("hi", "")]);
}

#[test]
fn chat_start_while_streaming_adds_no_second_entry() {
    let mut chat = streaming_chat("hi");
    chat.set_prompt("again".to_string());
    chat.start();
    assert_eq!(chat.state(), ChatState::Streaming);
    assert_eq!(chat.chat_entries(), &vec![entry("hi", "")]);
    assert_eq!(chat.input_prompt(), "again");
}

#[test]
fn chat_tokens_accumulate_in_order() {
    let mut chat = streaming_chat("hi");
    for piece in ["he", "l", "", "lo"] {
        assert!(chat.progress(token(piece)).is_none());
    }
    assert_eq!(chat.chat_entries(), &vec![entry("hi", "hello")]);
    assert_eq!(chat.state(), ChatState::Streaming);
}

#[test]
fn chat_token_while_not_streaming_is_dropped() {
    let mut chat = chat();
    assert!(chat.progress(token("late")).is_none());
    assert_eq!(chat.state(), ChatState::Idle);
    assert!(chat.chat_entries().is_empty());

    let mut chat = streaming_chat("hi");
    chat.progress(Ok(OllamaStreamProgress::Finished { context: vec![1] }));
    chat.progress(token("late"));
    assert_eq!(chat.chat_entries(), &vec![entry("hi", "")]);
    assert_eq!(chat.state(), ChatState::Finished);
}

#[test]
fn chat_completion_stores_the_context_and_hands_out_the_transcript() {
    let mut chat = streaming_chat("hi");
    chat.progress(token("yo"));
    let saved = chat.progress(Ok(OllamaStreamProgress::Finished { context: vec![4, 5] }));
    assert_eq!(chat.state(), ChatState::Finished);
    assert_eq!(chat.context(), Some(&vec![4, 5]));
    assert_eq!(
        saved,
        Some(ChatHistory {
            display_name: "New Unnamed Chat".to_string(),
            uuid: "00000000-0000-0000-0000-000000000007".to_string(),
            context: vec![4, 5],
            model: "phi4".to_string(),
            chat: vec![entry("hi", "yo")],
        })
    );
}

#[test]
fn chat_completion_while_not_streaming_changes_nothing() {
    let mut chat = chat();
    let saved = chat.progress(Ok(OllamaStreamProgress::Finished { context: vec![4] }));
    assert_eq!(saved, None);
    assert_eq!(chat.state(), ChatState::Idle);
    assert_eq!(chat.context(), None);
}

#[test]
fn chat_failure_keeps_the_partial_response() {
    let mut chat = streaming_chat("hi");
    chat.progress(token("par"));
    let saved = chat.progress(Err(Error::RequestFailed("reset".to_string())));
    assert_eq!(saved, None);
    assert_eq!(chat.state(), ChatState::Errored);
    assert_eq!(chat.chat_entries(), &vec![entry("hi", "par")]);
}

#[test]
fn chat_start_after_a_failure_is_a_retry() {
    let mut chat = streaming_chat("hi");
    chat.progress(Err(Error::ChannelError("closed".to_string())));
    chat.set_prompt("once more".to_string());
    chat.start();
    assert_eq!(chat.state(), ChatState::Streaming);
    assert_eq!(chat.chat_entries(), &vec![entry("hi", ""), entry("once more", "")]);
}

#[test]
fn chat_start_after_completion_opens_the_next_turn() {
    let mut chat = streaming_chat("one");
    chat.progress(token("1"));
    chat.progress(Ok(OllamaStreamProgress::Finished { context: vec![1] }));
    chat.set_prompt("two".to_string());
    chat.start();
    chat.progress(token("2"));
    assert_eq!(chat.chat_entries(), &vec![entry("one", "1"), entry("two", "2")]);
    assert_eq!(chat.context(), Some(&vec![1]));
}

#[test]
fn chat_rename_commits_the_trimmed_name() {
    let mut chat = chat();
    chat.start_rename();
    assert_eq!(chat.editing_name(), Some(&"New Unnamed Chat".to_string()));
    chat.update_temp_name("  \t Plans for May \n".to_string());
    let saved = chat.finish_rename();
    assert_eq!(chat.display_name(), "Plans for May");
    assert_eq!(chat.editing_name(), None);
    assert_eq!(saved.map(|history| history.display_name), Some("Plans for May".to_string()));
}

#[test]
fn chat_rename_without_a_start_changes_nothing() {
    let mut chat = chat();
    chat.update_temp_name("ignored".to_string());
    assert_eq!(chat.editing_name(), None);
    assert_eq!(chat.finish_rename(), None);
    assert_eq!(chat.display_name(), "New Unnamed Chat");
}

#[test]
fn chat_rename_that_is_canceled_keeps_the_name() {
    let mut chat = chat();
    chat.start_rename();
    chat.update_temp_name("other".to_string());
    chat.cancel_rename();
    assert_eq!(chat.editing_name(), None);
    assert_eq!(chat.display_name(), "New Unnamed Chat");
    assert_eq!(chat.finish_rename(), None);
}

#[test]
fn chat_history_of_a_chat_without_context_has_an_empty_context() {
    let history = streaming_chat("q").history();
    assert_eq!(history.context, Vec::<u64>::new());
    assert_eq!(history.uuid, "00000000-0000-0000-0000-000000000007");
    assert_eq!(history.chat, vec![entry("q", "")]);
}

#[test]
fn chat_from_history_restores_a_finished_chat() {
    let history = ChatHistory {
        display_name: "Old".to_string(),
        uuid: "550e8400-e29b-41d4-a716-446655440000".to_string(),
        context: vec![9, 8],
        model: "llama3".to_string(),
        chat: vec![entry("q", "a")],
    };
    let chat = OllamaChat::from_history(history.clone()).unwrap();
    assert_eq!(chat.uuid(), SessionId::from_u128(0x550e8400e29b41d4a716446655440000));
    assert_eq!(chat.state(), ChatState::Finished);
    assert_eq!(chat.display_name(), "Old");
    assert_eq!(chat.model(), "llama3");
    assert_eq!(chat.context(), Some(&vec![9, 8]));
    assert_eq!(chat.input_prompt(), "");
    assert_eq!(chat.editing_name(), None);
    assert_eq!(chat.history(), history);
}

#[test]
fn chat_from_history_without_entries_is_idle() {
    let history = ChatHistory {
        display_name: "Empty".to_string(),
        uuid: "550e8400-e29b-41d4-a716-446655440000".to_string(),
        context: vec![],
        model: "phi4".to_string(),
        chat: vec![],
    };
    let chat = OllamaChat::from_history(history).unwrap();
    assert_eq!(chat.state(), ChatState::Idle);
    assert_eq!(chat.context(), Some(&vec![]));
}

#[test]
fn chat_from_history_refuses_an_identity_that_is_no_uuid() {
    let history = ChatHistory {
        display_name: "Old".to_string(),
        uuid: "not-a-uuid".to_string(),
        context: vec![],
        model: "phi4".to_string(),
        chat: vec![],
    };
    assert_eq!(OllamaChat::from_history(history).err(), Some(HistoryError::InvalidUuid));
}

#[test]
fn chat_wants_a_stream_only_while_streaming() {
    let mut chat = chat();
    assert_eq!(chat.subscription("http://host"), None);
    chat.set_prompt("hi".to_string());
    chat.start();
    assert_eq!(
        chat.subscription("http://host"),
        Some(Session {
            id: SessionId::from_u128(7),
            url: "http://host/api/generate".to_string(),
            kind: SessionKind::Generate {
                prompt: "hi".to_string(),
                model: "phi4".to_string(),
                context: None,
            },
        })
    );
    chat.progress(Ok(OllamaStreamProgress::Finished { context: vec![3] }));
    assert_eq!(chat.subscription("http://host"), None);
    chat.set_prompt("next".to_string());
    chat.start();
    let wanted = chat.subscription("http://host").unwrap();
    assert_eq!(
        wanted.kind,
        SessionKind::Generate {
            prompt: "next".to_string(),
            model: "phi4".to_string(),
            context: Some(vec![3]),
        }
    );
}

#[test]
fn chat_shows_the_name_being_edited() {
    let mut chat = chat();
    assert_eq!(chat.shown_name(), "New Unnamed Chat");
    chat.start_rename();
    chat.update_temp_name("Dra".to_string());
    assert_eq!(chat.shown_name(), "Dra");
    chat.cancel_rename();
    assert_eq!(chat.shown_name(), "New Unnamed Chat");
}

#[test]
fn chat_accepts_start_unless_it_is_streaming() {
    let mut chat = chat();
    assert!(chat.accepts_start());
    chat.start();
    assert!(!chat.accepts_start());
    chat.progress(Err(Error::RequestFailed("x".to_string())));
    assert!(chat.accepts_start());
    chat.start();
    chat.progress(Ok(OllamaStreamProgress::Finished { context: vec![] }));
    assert!(chat.accepts_start());
}
