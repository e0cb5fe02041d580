use ollama_gui::chat::{ChatEntry, ChatHistory, ChatState};
use ollama_gui::download::DownloadProgress;
use ollama_gui::events::{DownloadProgressUpdate, Error, OllamaStreamProgress, StreamEvent};
use ollama_gui::gui::{AppSettings, AppState, Effect, Message, OllamaGUI};
use ollama_gui::session::{Session, SessionKind};
use ollama_gui::session_id::SessionId;

fn id(value: u128) -> SessionId {
    SessionId::from_u128(value)
}

fn settings() -> AppSettings {
    AppSettings { theme: "Nord".to_string(), default_url: "http://server:1".to_string() }
}

fn history(uuid: &str, name: &str) -> ChatHistory {
    ChatHistory {
        display_name: name.to_string(),
        uuid: uuid.to_string(),
        context: vec![1],
        model: "phi4".to_string(),
        chat: vec![ChatEntry { prompt: "q".to_string(), response: "a".to_string() }],
    }
}

fn gui_with_chats(count: u128) -> OllamaGUI {
    let mut gui = OllamaGUI::new(settings(), vec![]);
    let first = gui.current_chat();
    for value in 1..=count {
        gui.update_with(Message::NewChat, id(value));
    }
    gui.update(Message::DeleteChat(first));
    gui
}

fn names(gui: &OllamaGUI) -> Vec<String> {
    gui.chats().iter().map(|chat| chat.display_name().clone()).collect()
}

fn chat_ids(gui: &OllamaGUI) -> Vec<u128> {
    gui.chats().iter().map(|chat| chat.uuid().value).collect()
}

fn download_ids(gui: &OllamaGUI) -> Vec<u128> {
    gui.download_progress().iter().map(|download| download.id.value).collect()
}

fn start_download(gui: &mut OllamaGUI, model: &str, value: u128) {
    gui.update(Message::DownloadModelInputChanged(model.to_string()));
    gui.update_with(Message::StartDownloadModel, id(value));
}

#[test]
fn settings_of_a_first_run() {
    assert_eq!(
        AppSettings::default(),
        AppSettings {
            theme: "KanagawaDragon".to_string(),
            default_url: "http://localhost:11434".to_string(),
        }
    );
}

#[test]
fn gui_opens_with_one_blank_chat_where_nothing_is_stored() {
    let gui = OllamaGUI::new(settings(), vec![]);
    assert_eq!(gui.chats().len(), 1);
    assert_eq!(gui.current_chat(), gui.chats()[0].uuid());
    assert_eq!(gui.chats()[0].state(), ChatState::Idle);
    assert_eq!(gui.editing_chat(), None);
    assert_eq!(gui.state(), AppState::Chat);
    assert_eq!(gui.default_url(), "http://server:1");
    assert_eq!(gui.theme(), "Nord");
    assert_eq!(gui.download_model_input(), "");
    assert!(gui.download_progress().is_empty());
    assert_eq!(gui.settings(), settings());
}

#[test]
fn gui_opens_with_the_stored_chats_and_shows_the_first() {
    let gui = OllamaGUI::new(
        settings(),
        vec![
            history("no uuid", "broken"),
            history("00000000-0000-0000-0000-00000000000b", "B"),
            history("00000000-0000-0000-0000-00000000000a", "A"),
        ],
    );
    assert_eq!(names(&gui), vec!["B".to_string(), "A".to_string()]);
    assert_eq!(gui.current_chat(), id(0xb));
    assert_eq!(gui.chats()[0].state(), ChatState::Finished);
}

#[test]
fn gui_new_chat_is_appended_and_shown() {
    let mut gui = gui_with_chats(1);
    let effect = gui.update_with(Message::NewChat, id(5));
    assert_eq!(effect, Effect::Nothing);
    assert_eq!(chat_ids(&gui), vec![1, 5]);
    assert_eq!(gui.current_chat(), id(5));
}

#[test]
fn gui_new_chat_draws_its_own_identity() {
    let mut gui = gui_with_chats(1);
    gui.update(Message::NewChat);
    assert_eq!(gui.chats().len(), 2);
    assert_eq!(gui.current_chat(), gui.chats()[1].uuid());
    assert_ne!(gui.chats()[1].uuid(), SessionId::nil());
}

#[test]
fn gui_prompt_and_start_reach_the_named_chat_only() {
    let mut gui = gui_with_chats(2);
    gui.update(Message::PromptChanged(id(2), "hi".to_string()));
    assert_eq!(gui.chats()[0].input_prompt(), "");
    assert_eq!(gui.chats()[1].input_prompt(), "hi");
    assert_eq!(gui.update(Message::StartChat(id(2))), Effect::Nothing);
    assert_eq!(gui.chats()[0].state(), ChatState::Idle);
    assert_eq!(gui.chats()[1].state(), ChatState::Streaming);
}

#[test]
fn gui_messages_for_a_chat_that_is_not_there_change_nothing() {
    let mut gui = gui_with_chats(1);
    for message in [
        Message::StartChat(id(9)),
        Message::PromptChanged(id(9), "x".to_string()),
        Message::StartRenameChat(id(9)),
        Message::UpdateTempName(id(9), "x".to_string()),
        Message::FinishRenameChat(id(9)),
        Message::CancelRenameChat(id(9)),
        Message::ChatProgress((id(9), Err(Error::RequestFailed("x".to_string())))),
    ] {
        assert_eq!(gui.update(message), Effect::Nothing);
    }
    assert_eq!(chat_ids(&gui), vec![1]);
    assert_eq!(gui.chats()[0].state(), ChatState::Idle);
    assert_eq!(gui.editing_chat(), None);
}

#[test]
fn gui_start_while_streaming_opens_no_second_stream() {
    let mut gui = gui_with_chats(1);
    gui.update(Message::PromptChanged(id(1), "hi".to_string()));
    gui.update(Message::StartChat(id(1)));
    let wanted = gui.subscription();
    gui.update(Message::StartChat(id(1)));
    assert_eq!(gui.subscription(), wanted);
    assert_eq!(wanted.len(), 1);
    assert_eq!(gui.chats()[0].chat_entries().len(), 1);
}

#[test]
fn gui_tokens_never_cross_between_chats() {
    let mut gui = gui_with_chats(2);
    gui.update(Message::StartChat(id(1)));
    gui.update(Message::StartChat(id(2)));
    for (to, piece) in [(1, "a"), (2, "x"), (1, "b"), (2, "y"), (1, "c")] {
        let token = OllamaStreamProgress::Streaming { token: piece.to_string() };
        gui.update(Message::ChatProgress((id(to), Ok(token))));
    }
    assert_eq!(gui.chats()[0].chat_entries()[0].response, "abc");
    assert_eq!(gui.chats()[1].chat_entries()[0].response, "xy");
}

#[test]
fn gui_completion_asks_to_store_the_chat() {
    let mut gui = gui_with_chats(1);
    gui.update(Message::PromptChanged(id(1), "hi".to_string()));
    gui.update(Message::StartChat(id(1)));
    let done = OllamaStreamProgress::Finished { context: vec![7] };
    let effect = gui.update(Message::ChatProgress((id(1), Ok(done.clone()))));
    assert_eq!(effect, Effect::SaveChat(gui.chats()[0].history()));
    assert_eq!(gui.chats()[0].state(), ChatState::Finished);
    assert_eq!(gui.update(Message::ChatProgress((id(1), Ok(done)))), Effect::Nothing);
}

#[test]
fn gui_select_shows_the_chat_and_ends_a_rename_view() {
    let mut gui = gui_with_chats(2);
    gui.update(Message::StartRenameChat(id(1)));
    assert_eq!(gui.editing_chat(), Some(id(1)));
    gui.update(Message::SelectChat(id(2)));
    assert_eq!(gui.current_chat(), id(2));
    assert_eq!(gui.editing_chat(), None);
}

#[test]
fn gui_rename_commits_and_asks_to_store() {
    let mut gui = gui_with_chats(1);
    gui.update(Message::StartRenameChat(id(1)));
    gui.update(Message::UpdateTempName(id(1), " Trip ".to_string()));
    let effect = gui.update(Message::FinishRenameChat(id(1)));
    assert_eq!(names(&gui), vec!["Trip".to_string()]);
    assert_eq!(gui.editing_chat(), None);
    assert_eq!(effect, Effect::SaveChat(gui.chats()[0].history()));
}

#[test]
fn gui_rename_that_is_canceled_stores_nothing() {
    let mut gui = gui_with_chats(1);
    gui.update(Message::StartRenameChat(id(1)));
    gui.update(Message::UpdateTempName(id(1), "Trip".to_string()));
    assert_eq!(gui.update(Message::CancelRenameChat(id(1))), Effect::Nothing);
    assert_eq!(names(&gui), vec!["New Unnamed Chat".to_string()]);
    assert_eq!(gui.editing_chat(), None);
    assert_eq!(gui.update(Message::FinishRenameChat(id(1))), Effect::Nothing);
}

#[test]
fn gui_delete_removes_the_chat_and_shows_the_first_left() {
    let mut gui = gui_with_chats(3);
    gui.update(Message::SelectChat(id(2)));
    gui.update(Message::StartRenameChat(id(2)));
    assert_eq!(gui.update(Message::DeleteChat(id(2))), Effect::DeleteChat(id(2)));
    assert_eq!(chat_ids(&gui), vec![1, 3]);
    assert_eq!(gui.current_chat(), id(1));
    assert_eq!(gui.editing_chat(), None);
}

#[test]
fn gui_delete_of_a_chat_that_is_not_shown_keeps_the_selection() {
    let mut gui = gui_with_chats(3);
    gui.update(Message::SelectChat(id(3)));
    gui.update(Message::StartRenameChat(id(3)));
    gui.update(Message::DeleteChat(id(1)));
    assert_eq!(chat_ids(&gui), vec![2, 3]);
    assert_eq!(gui.current_chat(), id(3));
    assert_eq!(gui.editing_chat(), Some(id(3)));
}

#[test]
fn gui_delete_of_the_last_chat_shows_none() {
    let mut gui = gui_with_chats(1);
    assert_eq!(gui.update(Message::DeleteChat(id(1))), Effect::DeleteChat(id(1)));
    assert!(gui.chats().is_empty());
    assert_eq!(gui.current_chat(), SessionId::nil());
    assert_eq!(gui.update(Message::DeleteChat(id(1))), Effect::DeleteChat(id(1)));
}

#[test]
fn gui_delete_of_a_streaming_chat_ends_its_stream() {
    let mut gui = gui_with_chats(2);
    gui.update(Message::StartChat(id(1)));
    gui.update(Message::StartChat(id(2)));
    gui.update(Message::DeleteChat(id(1)));
    let wanted: Vec<u128> = gui.subscription().iter().map(|session| session.id.value).collect();
    assert_eq!(wanted, vec![2]);
}

#[test]
fn gui_settings_changes_ask_to_store_the_settings() {
    let mut gui = gui_with_chats(1);
    let effect = gui.update(Message::ChangeTheme("Dracula".to_string()));
    assert_eq!(
        effect,
        Effect::SaveSettings(AppSettings {
            theme: "Dracula".to_string(),
            default_url: "http://server:1".to_string(),
        })
    );
    let effect = gui.update(Message::ChangeDefaultUrl("http://other".to_string()));
    assert_eq!(
        effect,
        Effect::SaveSettings(AppSettings {
            theme: "Dracula".to_string(),
            default_url: "http://other".to_string(),
        })
    );
    assert_eq!(gui.theme(), "Dracula");
    assert_eq!(gui.default_url(), "http://other");
}

#[test]
fn gui_page_changes() {
    let mut gui = gui_with_chats(1);
    assert_eq!(gui.update(Message::ChangeAppState(AppState::Settings)), Effect::Nothing);
    assert_eq!(gui.state(), AppState::Settings);
    gui.update(Message::ChangeAppState(AppState::Chat));
    assert_eq!(gui.state(), AppState::Chat);
}

#[test]
fn gui_download_starts_with_the_typed_model_and_clears_the_input() {
    let mut gui = gui_with_chats(1);
    start_download(&mut gui, "llama3", 10);
    assert_eq!(gui.download_model_input(), "");
    assert_eq!(
        gui.download_progress(),
        &vec![DownloadProgress::new(id(10), "llama3".to_string())]
    );
}

#[test]
fn gui_download_without_a_model_name_does_not_start() {
    let mut gui = gui_with_chats(1);
    assert!(!gui.draws_identity(&Message::StartDownloadModel));
    assert_eq!(gui.update(Message::StartDownloadModel), Effect::Nothing);
    assert!(gui.download_progress().is_empty());
    gui.update(Message::DownloadModelInputChanged("m".to_string()));
    assert!(gui.draws_identity(&Message::StartDownloadModel));
    assert!(gui.draws_identity(&Message::NewChat));
    assert!(!gui.draws_identity(&Message::StartChat(id(1))));
}

#[test]
fn gui_download_progress_overwrites_the_named_download_only() {
    let mut gui = gui_with_chats(1);
    start_download(&mut gui, "a", 10);
    start_download(&mut gui, "b", 11);
    let update = DownloadProgressUpdate::Progress {
        status: "pulling".to_string(),
        total: 50,
        completed: 20,
    };
    gui.update(Message::DownloadProgress(id(11), Ok(update.clone())));
    gui.update(Message::DownloadProgress(id(12), Ok(update)));
    assert_eq!(gui.download_progress()[0], DownloadProgress::new(id(10), "a".to_string()));
    assert_eq!(
        gui.download_progress()[1],
        DownloadProgress {
            id: id(11),
            model: "b".to_string(),
            status: "pulling".to_string(),
            total: 50,
            completed: 20,
        }
    );
}

#[test]
fn gui_download_that_is_complete_disappears() {
    let mut gui = gui_with_chats(1);
    start_download(&mut gui, "a", 10);
    start_download(&mut gui, "b", 11);
    gui.update(Message::DownloadProgress(id(10), Ok(DownloadProgressUpdate::Finished)));
    assert_eq!(download_ids(&gui), vec![11]);
}

#[test]
fn gui_download_failure_stays_visible_until_canceled() {
    let mut gui = gui_with_chats(1);
    start_download(&mut gui, "a", 10);
    gui.update(Message::DownloadProgress(
        id(10),
        Err(Error::RequestFailed("refused".to_string())),
    ));
    assert_eq!(gui.download_progress()[0].status, "Error: RequestFailed(refused)");
    assert_eq!(gui.update(Message::CancelDownload(id(10))), Effect::Nothing);
    assert!(gui.download_progress().is_empty());
}

#[test]
fn gui_wants_a_stream_for_each_streaming_chat_and_each_download() {
    let mut gui = gui_with_chats(3);
    gui.update(Message::PromptChanged(id(3), "hi".to_string()));
    gui.update(Message::StartChat(id(3)));
    gui.update(Message::StartChat(id(1)));
    start_download(&mut gui, "llama3", 10);
    assert_eq!(
        gui.subscription(),
        vec![
            Session {
                id: id(1),
                url: "http://server:1/api/generate".to_string(),
                kind: SessionKind::Generate {
                    prompt: "".to_string(),
                    model: "phi4".to_string(),
                    context: None,
                },
            },
            Session {
                id: id(3),
                url: "http://server:1/api/generate".to_string(),
                kind: SessionKind::Generate {
                    prompt: "hi".to_string(),
                    model: "phi4".to_string(),
                    context: None,
                },
            },
            Session {
                id: id(10),
                url: "http://server:1/api/pull".to_string(),
                kind: SessionKind::Pull { model: "llama3".to_string() },
            },
        ]
    );
}

#[test]
fn message_from_event_tags_the_event() {
    let token = OllamaStreamProgress::Streaming { token: "t".to_string() };
    assert_eq!(
        Message::from_event(id(4), StreamEvent::Chat(Ok(token.clone()))),
        Message::ChatProgress((id(4), Ok(token)))
    );
    assert_eq!(
        Message::from_event(id(4), StreamEvent::Download(Ok(DownloadProgressUpdate::Finished))),
        Message::DownloadProgress(id(4), Ok(DownloadProgressUpdate::Finished))
    );
}

#[test]
fn gui_shown_chat_is_the_first_with_the_current_identity() {
    let mut gui = gui_with_chats(2);
    gui.update(Message::SelectChat(id(2)));
    assert_eq!(gui.shown_chat().map(|chat| chat.uuid()), Some(id(2)));
    gui.update(Message::SelectChat(id(9)));
    assert!(gui.shown_chat().is_none());
    gui.update(Message::DeleteChat(id(1)));
    gui.update(Message::DeleteChat(id(2)));
    assert!(gui.shown_chat().is_none());
}
