//! The application state: every chat and download, and how messages change them.
//!
//! `OllamaGUI::update` is the single place where state changes. It answers
//! each message with the effect that the caller has to carry out on disk, and
//! `OllamaGUI::subscription` says which streams the state wants open.

use vstd::prelude::*;
use vstd::string::StringExecFns;

use crate::chat::{
    joined, law_tokens_accumulate, ChatHistory, ChatModel, ChatState, HistoryModel, OllamaChat,
};
use crate::download::{DownloadModel, DownloadProgress};
use crate::events::{
    chat_outcome_view, download_outcome_view, ChatOutcomeModel, DownloadOutcomeModel,
    DownloadProgressUpdate, DownloadUpdateModel, Error, OllamaStreamProgress, StreamEvent,
    StreamEventModel, StreamProgressModel,
};
use crate::keyed::{
    find, holds, lemma_position_bounds, lemma_update_keeps_positions, models, position,
    remove_all, without,
};
use crate::session::{Session, SessionModel};
use crate::session_id::{is_random_uuid, uuid_parse, SessionId};

verus! {

/// What is kept of the application between runs.
#[derive(Debug, PartialEq, Eq)]
pub struct AppSettings {
    pub theme: String,
    pub default_url: String,
}

/// The model of `AppSettings`.
pub struct SettingsModel {
    pub theme: Seq<char>,
    pub default_url: Seq<char>,
}

impl View for AppSettings {
    type V = SettingsModel;

    open spec fn view(&self) -> SettingsModel {
        SettingsModel { theme: self.theme@, default_url: self.default_url@ }
    }
}

impl SettingsModel {
    /// The settings of a first run.
    pub open spec fn initial() -> SettingsModel {
        SettingsModel { theme: "KanagawaDragon"@, default_url: "http://localhost:11434"@ }
    }
}

impl Default for AppSettings {
    fn default() -> (settings: AppSettings)
        ensures
            settings@ == SettingsModel::initial(),
    {
        AppSettings {
            theme: String::from_str("KanagawaDragon"),
            default_url: String::from_str("http://localhost:11434"),
        }
    }
}

impl Clone for AppSettings {
    fn clone(&self) -> (copy: AppSettings)
        ensures
            copy@ == self@,
    {
        AppSettings { theme: self.theme.clone(), default_url: self.default_url.clone() }
    }
}

/// Which page the application shows.
#[derive(Clone, Copy, Debug, PartialEq, Eq, Structural)]
pub enum AppState {
    Chat,
    Settings,
}

/// What can happen to the application: what the user does, and what the
/// streams report.
#[derive(Debug, PartialEq, Eq)]
pub enum Message {
    NewChat,
    StartChat(SessionId),
    ChatProgress((SessionId, Result<OllamaStreamProgress, Error>)),
    SelectChat(SessionId),
    PromptChanged(SessionId, String),
    StartRenameChat(SessionId),
    FinishRenameChat(SessionId),
    CancelRenameChat(SessionId),
    UpdateTempName(SessionId, String),
    DeleteChat(SessionId),
    ChangeAppState(AppState),
    ChangeTheme(String),
    ChangeDefaultUrl(String),
    DownloadModelInputChanged(String),
    StartDownloadModel,
    DownloadProgress(SessionId, Result<DownloadProgressUpdate, Error>),
    CancelDownload(SessionId),
}

/// The model of a `Message`.
pub enum MessageModel {
    NewChat,
    StartChat(SessionId),
    ChatProgress(SessionId, ChatOutcomeModel),
    SelectChat(SessionId),
    PromptChanged(SessionId, Seq<char>),
    StartRenameChat(SessionId),
    FinishRenameChat(SessionId),
    CancelRenameChat(SessionId),
    UpdateTempName(SessionId, Seq<char>),
    DeleteChat(SessionId),
    ChangeAppState(AppState),
    ChangeTheme(Seq<char>),
    ChangeDefaultUrl(Seq<char>),
    DownloadModelInputChanged(Seq<char>),
    StartDownloadModel,
    DownloadProgress(SessionId, DownloadOutcomeModel),
    CancelDownload(SessionId),
}

impl View for Message {
    type V = MessageModel;

    open spec fn view(&self) -> MessageModel {
        match self {
            Message::NewChat => MessageModel::NewChat,
            Message::StartChat(id) => MessageModel::StartChat(*id),
            Message::ChatProgress((id, outcome)) => MessageModel::ChatProgress(
                *id,
                chat_outcome_view(*outcome),
            ),
            Message::SelectChat(id) => MessageModel::SelectChat(*id),
            Message::PromptChanged(id, prompt) => MessageModel::PromptChanged(*id, prompt@),
            Message::StartRenameChat(id) => MessageModel::StartRenameChat(*id),
            Message::FinishRenameChat(id) => MessageModel::FinishRenameChat(*id),
            Message::CancelRenameChat(id) => MessageModel::CancelRenameChat(*id),
            Message::UpdateTempName(id, name) => MessageModel::UpdateTempName(*id, name@),
            Message::DeleteChat(id) => MessageModel::DeleteChat(*id),
            Message::ChangeAppState(state) => MessageModel::ChangeAppState(*state),
            Message::ChangeTheme(theme) => MessageModel::ChangeTheme(theme@),
            Message::ChangeDefaultUrl(url) => MessageModel::ChangeDefaultUrl(url@),
            Message::DownloadModelInputChanged(input) => MessageModel::DownloadModelInputChanged(
                input@,
            ),
            Message::StartDownloadModel => MessageModel::StartDownloadModel,
            Message::DownloadProgress(id, outcome) => MessageModel::DownloadProgress(
                *id,
                download_outcome_view(*outcome),
            ),
            Message::CancelDownload(id) => MessageModel::CancelDownload(*id),
        }
    }
}

impl Clone for Message {
    fn clone(&self) -> (copy: Message)
        ensures
            copy@ == self@,
    {
        match self {
            Message::NewChat => Message::NewChat,
            Message::StartChat(id) => Message::StartChat(*id),
            Message::ChatProgress((id, Ok(progress))) => Message::ChatProgress(
                (*id, Ok(progress.clone())),
            ),
            Message::ChatProgress((id, Err(error))) => Message::ChatProgress(
                (*id, Err(error.clone())),
            ),
            Message::SelectChat(id) => Message::SelectChat(*id),
            Message::PromptChanged(id, prompt) => Message::PromptChanged(*id, prompt.clone()),
            Message::StartRenameChat(id) => Message::StartRenameChat(*id),
            Message::FinishRenameChat(id) => Message::FinishRenameChat(*id),
            Message::CancelRenameChat(id) => Message::CancelRenameChat(*id),
            Message::UpdateTempName(id, name) => Message::UpdateTempName(*id, name.clone()),
            Message::DeleteChat(id) => Message::DeleteChat(*id),
            Message::ChangeAppState(state) => Message::ChangeAppState(*state),
            Message::ChangeTheme(theme) => Message::ChangeTheme(theme.clone()),
            Message::ChangeDefaultUrl(url) => Message::ChangeDefaultUrl(url.clone()),
            Message::DownloadModelInputChanged(input) => Message::DownloadModelInputChanged(
                input.clone(),
            ),
            Message::StartDownloadModel => Message::StartDownloadModel,
            Message::DownloadProgress(id, Ok(update)) => Message::DownloadProgress(
                *id,
                Ok(update.clone()),
            ),
            Message::DownloadProgress(id, Err(error)) => Message::DownloadProgress(
                *id,
                Err(error.clone()),
            ),
            Message::CancelDownload(id) => Message::CancelDownload(*id),
        }
    }
}

/// The message that hands an event of the session `id` to its owner.
pub open spec fn tagged(id: SessionId, event: StreamEventModel) -> MessageModel {
    match event {
        StreamEventModel::Chat(outcome) => MessageModel::ChatProgress(id, outcome),
        StreamEventModel::Download(outcome) => MessageModel::DownloadProgress(id, outcome),
    }
}

impl Message {
    /// The message that hands an event of the session `id` to its owner.
    pub fn from_event(id: SessionId, event: StreamEvent) -> (message: Message)
        ensures
            message@ == tagged(id, event@),
    {
        match event {
            StreamEvent::Chat(outcome) => Message::ChatProgress((id, outcome)),
            StreamEvent::Download(outcome) => Message::DownloadProgress(id, outcome),
        }
    }
}

/// What the caller has to do on disk after a message was applied.
#[derive(Debug, PartialEq, Eq)]
pub enum Effect {
    /// Nothing.
    Nothing,
    /// Store this chat under its identity.
    SaveChat(ChatHistory),
    /// Remove what is stored of the chat with this identity.
    DeleteChat(SessionId),
    /// Store these settings.
    SaveSettings(AppSettings),
}

/// The model of an `Effect`.
pub enum EffectModel {
    Nothing,
    SaveChat(HistoryModel),
    DeleteChat(SessionId),
    SaveSettings(SettingsModel),
}

impl View for Effect {
    type V = EffectModel;

    open spec fn view(&self) -> EffectModel {
        match self {
            Effect::Nothing => EffectModel::Nothing,
            Effect::SaveChat(history) => EffectModel::SaveChat(history@),
            Effect::DeleteChat(id) => EffectModel::DeleteChat(*id),
            Effect::SaveSettings(settings) => EffectModel::SaveSettings(settings@),
        }
    }
}

/// The chats that stored transcripts restore, in order. A transcript whose
/// identity is no UUID restores nothing.
pub open spec fn restored_chats(histories: Seq<HistoryModel>) -> Seq<ChatModel>
    decreases histories.len(),
{
    if histories.len() == 0 {
        Seq::empty()
    } else {
        let earlier: Seq<ChatModel> = restored_chats(histories.drop_last());
        match uuid_parse(histories.last().uuid) {
            Some(bits) => earlier.push(
                ChatModel::restored(histories.last(), SessionId { value: bits }),
            ),
            None => earlier,
        }
    }
}

/// The generation streams that the chats want open, in the order of the chats.
pub open spec fn chat_sessions(chats: Seq<ChatModel>, base_url: Seq<char>) -> Seq<SessionModel>
    decreases chats.len(),
{
    if chats.len() == 0 {
        Seq::empty()
    } else {
        let earlier: Seq<SessionModel> = chat_sessions(chats.drop_last(), base_url);
        match chats.last().session(base_url) {
            Some(session) => earlier.push(session),
            None => earlier,
        }
    }
}

/// The download streams that the downloads want open, one for each.
pub open spec fn download_sessions(downloads: Seq<DownloadModel>, base_url: Seq<char>) -> Seq<
    SessionModel,
> {
    downloads.map_values(|download: DownloadModel| download.session(base_url))
}

/// The model of an `OllamaGUI`.
pub struct GuiModel {
    pub chats: Seq<ChatModel>,
    /// The chat that is shown; the nil identity where there is none.
    pub current_chat: SessionId,
    /// The chat whose name is being edited.
    pub editing_chat: Option<SessionId>,
    pub state: AppState,
    /// Where the server is reached.
    pub default_url: Seq<char>,
    pub theme: Seq<char>,
    /// The name typed for the next download.
    pub download_model_input: Seq<char>,
    pub downloads: Seq<DownloadModel>,
}

impl GuiModel {
    /// The application as it opens with these settings and chats: the first
    /// chat is shown.
    pub open spec fn opened(settings: SettingsModel, chats: Seq<ChatModel>) -> GuiModel {
        GuiModel {
            chats,
            current_chat: if chats.len() > 0 {
                chats[0].uuid
            } else {
                SessionId { value: 0 }
            },
            editing_chat: None,
            state: AppState::Chat,
            default_url: settings.default_url,
            theme: settings.theme,
            download_model_input: Seq::empty(),
            downloads: Seq::empty(),
        }
    }

    /// The settings to keep.
    pub open spec fn settings(self) -> SettingsModel {
        SettingsModel { theme: self.theme, default_url: self.default_url }
    }

    /// Whether some chat has the identity `id`.
    pub open spec fn has_chat(self, id: SessionId) -> bool {
        holds::<OllamaChat>(self.chats, id)
    }

    /// The first chat with the identity `id`.
    pub open spec fn chat(self, id: SessionId) -> ChatModel
        recommends
            self.has_chat(id),
    {
        self.chats[position::<OllamaChat>(self.chats, id) as int]
    }

    /// The state with `next` in place of the first chat with the identity `id`.
    pub open spec fn with_chat(self, id: SessionId, next: ChatModel) -> GuiModel
        recommends
            self.has_chat(id),
    {
        GuiModel {
            chats: self.chats.update(position::<OllamaChat>(self.chats, id) as int, next),
            ..self
        }
    }

    /// Whether some download has the identity `id`.
    pub open spec fn has_download(self, id: SessionId) -> bool {
        holds::<DownloadProgress>(self.downloads, id)
    }

    /// The first download with the identity `id`.
    pub open spec fn download(self, id: SessionId) -> DownloadModel
        recommends
            self.has_download(id),
    {
        self.downloads[position::<DownloadProgress>(self.downloads, id) as int]
    }

    /// The state without the downloads that have the identity `id`.
    pub open spec fn without_download(self, id: SessionId) -> GuiModel {
        GuiModel { downloads: without::<DownloadProgress>(self.downloads, id), ..self }
    }

    /// The state without the chats that have the identity `id`. Where the
    /// chat shown is among them, the first chat left is shown, or none; where
    /// the chat being renamed is among them, no rename is under way any more.
    pub open spec fn without_chat(self, id: SessionId) -> GuiModel {
        let left: Seq<ChatModel> = without::<OllamaChat>(self.chats, id);
        GuiModel {
            chats: left,
            current_chat: if self.current_chat != id {
                self.current_chat
            } else if left.len() > 0 {
                left[0].uuid
            } else {
                SessionId { value: 0 }
            },
            editing_chat: if self.editing_chat == Some(id) {
                None
            } else {
                self.editing_chat
            },
            ..self
        }
    }

    /// Whether applying the message draws a fresh identity: a new chat does,
    /// and so does a download that has a model name to start with.
    pub open spec fn draws_identity(self, message: MessageModel) -> bool {
        match message {
            MessageModel::NewChat => true,
            MessageModel::StartDownloadModel => self.download_model_input.len() > 0,
            _ => false,
        }
    }

    /// The state after a message, where `fresh` is the identity drawn for it.
    ///
    /// A message that names a chat or a download that is not there changes
    /// nothing.
    pub open spec fn updated(self, message: MessageModel, fresh: SessionId) -> GuiModel {
        match message {
            MessageModel::NewChat => GuiModel {
                chats: self.chats.push(ChatModel::blank(fresh)),
                current_chat: fresh,
                ..self
            },
            MessageModel::StartChat(id) => if self.has_chat(id) {
                self.with_chat(id, self.chat(id).started())
            } else {
                self
            },
            MessageModel::ChatProgress(id, outcome) => if self.has_chat(id) {
                self.with_chat(id, self.chat(id).progressed(outcome))
            } else {
                self
            },
            MessageModel::SelectChat(id) => GuiModel {
                current_chat: id,
                editing_chat: None,
                ..self
            },
            MessageModel::PromptChanged(id, prompt) => if self.has_chat(id) {
                self.with_chat(id, self.chat(id).with_prompt(prompt))
            } else {
                self
            },
            MessageModel::StartRenameChat(id) => if self.has_chat(id) {
                GuiModel {
                    editing_chat: Some(id),
                    ..self.with_chat(id, self.chat(id).rename_started())
                }
            } else {
                self
            },
            MessageModel::UpdateTempName(id, name) => if self.has_chat(id) {
                self.with_chat(id, self.chat(id).temp_name_updated(name))
            } else {
                self
            },
            MessageModel::FinishRenameChat(id) => if self.has_chat(id) {
                GuiModel {
                    editing_chat: None,
                    ..self.with_chat(id, self.chat(id).rename_finished())
                }
            } else {
                self
            },
            MessageModel::CancelRenameChat(id) => if self.has_chat(id) {
                GuiModel {
                    editing_chat: None,
                    ..self.with_chat(id, self.chat(id).rename_canceled())
                }
            } else {
                self
            },
            MessageModel::DeleteChat(id) => self.without_chat(id),
            MessageModel::ChangeAppState(state) => GuiModel { state, ..self },
            MessageModel::ChangeTheme(theme) => GuiModel { theme, ..self },
            MessageModel::ChangeDefaultUrl(url) => GuiModel { default_url: url, ..self },
            MessageModel::DownloadModelInputChanged(input) => GuiModel {
                download_model_input: input,
                ..self
            },
            MessageModel::StartDownloadModel => if self.download_model_input.len() > 0 {
                GuiModel {
                    downloads: self.downloads.push(
                        DownloadModel::started(fresh, self.download_model_input),
                    ),
                    download_model_input: Seq::empty(),
                    ..self
                }
            } else {
                self
            },
            MessageModel::DownloadProgress(id, outcome) => match outcome {
                Ok(DownloadUpdateModel::Finished) => self.without_download(id),
                _ => if self.has_download(id) {
                    GuiModel {
                        downloads: self.downloads.update(
                            position::<DownloadProgress>(self.downloads, id) as int,
                            self.download(id).progressed(outcome).unwrap(),
                        ),
                        ..self
                    }
                } else {
                    self
                },
            },
            MessageModel::CancelDownload(id) => self.without_download(id),
        }
    }

    /// What is to be done on disk after a message: a chat is stored when its
    /// answer is complete and when it was renamed, what is stored of a chat is
    /// removed when the chat is deleted, and the settings are stored when one
    /// of them changed.
    pub open spec fn effect(self, message: MessageModel) -> EffectModel {
        match message {
            MessageModel::ChatProgress(id, outcome) => if self.has_chat(id) && self.chat(
                id,
            ).completes(outcome) {
                EffectModel::SaveChat(self.chat(id).progressed(outcome).history())
            } else {
                EffectModel::Nothing
            },
            MessageModel::FinishRenameChat(id) => if self.has_chat(id) && self.chat(
                id,
            ).editing_name is Some {
                EffectModel::SaveChat(self.chat(id).rename_finished().history())
            } else {
                EffectModel::Nothing
            },
            MessageModel::DeleteChat(id) => EffectModel::DeleteChat(id),
            MessageModel::ChangeTheme(theme) => EffectModel::SaveSettings(
                SettingsModel { theme, default_url: self.default_url },
            ),
            MessageModel::ChangeDefaultUrl(url) => EffectModel::SaveSettings(
                SettingsModel { theme: self.theme, default_url: url },
            ),
            _ => EffectModel::Nothing,
        }
    }

    /// The streams that the state wants open: one for each chat that is
    /// streaming, then one for each download.
    pub open spec fn sessions(self) -> Seq<SessionModel> {
        chat_sessions(self.chats, self.default_url) + download_sessions(
            self.downloads,
            self.default_url,
        )
    }
}

/// Whether the message hands a token to a chat.
pub open spec fn is_token(message: MessageModel) -> bool {
    message matches MessageModel::ChatProgress(_, Ok(StreamProgressModel::Streaming { .. }))
}

/// The tokens that the messages hand to the chat `id`, in order.
pub open spec fn tokens_for(messages: Seq<MessageModel>, id: SessionId) -> Seq<Seq<char>>
    decreases messages.len(),
{
    if messages.len() == 0 {
        Seq::empty()
    } else {
        let earlier: Seq<Seq<char>> = tokens_for(messages.drop_last(), id);
        match messages.last() {
            MessageModel::ChatProgress(to, Ok(StreamProgressModel::Streaming { token })) => if to
                == id {
                earlier.push(token)
            } else {
                earlier
            },
            _ => earlier,
        }
    }
}

impl GuiModel {
    /// The state after each of the messages, in order, where every identity
    /// drawn is `fresh`.
    pub open spec fn after_all(self, messages: Seq<MessageModel>, fresh: SessionId) -> GuiModel
        decreases messages.len(),
    {
        if messages.len() == 0 {
            self
        } else {
            self.after_all(messages.drop_last(), fresh).updated(messages.last(), fresh)
        }
    }
}

impl GuiModel {
    /// What is to be done on disk after each of the messages, in order, where
    /// every identity drawn is `fresh`.
    pub open spec fn effects_of_all(self, messages: Seq<MessageModel>, fresh: SessionId) -> Seq<
        EffectModel,
    >
        decreases messages.len(),
    {
        if messages.len() == 0 {
            Seq::empty()
        } else {
            self.effects_of_all(messages.drop_last(), fresh).push(
                self.after_all(messages.drop_last(), fresh).effect(messages.last()),
            )
        }
    }
}

/// The models of the effects, in order.
pub open spec fn effect_views(effects: Seq<Effect>) -> Seq<EffectModel> {
    effects.map_values(|effect: Effect| effect@)
}

/// A message that draws no identity gives the same state whatever identity is
/// at hand.
pub proof fn law_identity_only_where_drawn(
    gui: GuiModel,
    message: MessageModel,
    one: SessionId,
    other: SessionId,
)
    requires
        !gui.draws_identity(message),
    ensures
        gui.updated(message, one) == gui.updated(message, other),
{
}

/// `StartChat` for a chat that is streaming changes nothing: no entry is
/// added, and the streams that the state wants open are the same, so that no
/// second stream is opened for the chat.
pub proof fn law_restart_changes_nothing(gui: GuiModel, id: SessionId, fresh: SessionId)
    requires
        gui.has_chat(id),
        gui.chat(id).state == ChatState::Streaming,
    ensures
        gui.updated(MessageModel::StartChat(id), fresh) == gui,
        gui.updated(MessageModel::StartChat(id), fresh).sessions() == gui.sessions(),
        gui.effect(MessageModel::StartChat(id)) == EffectModel::Nothing,
{
    let at: int = position::<OllamaChat>(gui.chats, id) as int;
    assert(gui.chats.update(at, gui.chats[at]) == gui.chats);
}

/// An outcome of a stream reaches the chat it is tagged for and no other:
/// every other chat is found as it was.
pub proof fn law_progress_reaches_one_chat(
    gui: GuiModel,
    to: SessionId,
    outcome: ChatOutcomeModel,
    id: SessionId,
    fresh: SessionId,
)
    requires
        id != to,
    ensures
        gui.updated(MessageModel::ChatProgress(to, outcome), fresh).has_chat(id) == gui.has_chat(
            id,
        ),
        gui.has_chat(id) ==> gui.updated(MessageModel::ChatProgress(to, outcome), fresh).chat(id)
            == gui.chat(id),
{
    if gui.has_chat(to) {
        let at: int = position::<OllamaChat>(gui.chats, to) as int;
        lemma_position_bounds::<OllamaChat>(gui.chats, to);
        lemma_position_bounds::<OllamaChat>(gui.chats, id);
        lemma_update_keeps_positions::<OllamaChat>(
            gui.chats,
            at,
            gui.chat(to).progressed(outcome),
            id,
        );
    }
}

/// Tokens reach their own chat only, in the order of arrival: after any
/// sequence of token messages, for this chat and for others, the response of
/// the last entry of a streaming chat is what it was with the tokens tagged
/// for this chat behind it, and nothing else of the chat has changed.
pub proof fn law_tokens_reach_their_chat(
    gui: GuiModel,
    messages: Seq<MessageModel>,
    id: SessionId,
    fresh: SessionId,
)
    requires
        forall|i: int| 0 <= i < messages.len() ==> is_token(#[trigger] messages[i]),
        gui.has_chat(id),
        gui.chat(id).state == ChatState::Streaming,
        gui.chat(id).entries.len() > 0,
    ensures
        gui.after_all(messages, fresh).has_chat(id),
        gui.after_all(messages, fresh).chat(id) == gui.chat(id).with_token(
            joined(tokens_for(messages, id)),
        ),
    decreases messages.len(),
{
    let chat = gui.chat(id);
    if messages.len() == 0 {
        law_tokens_accumulate(chat, Seq::empty());
    } else {
        let earlier = messages.drop_last();
        assert forall|i: int| 0 <= i < earlier.len() implies is_token(#[trigger] earlier[i]) by {
            assert(earlier[i] == messages[i]);
        }
        law_tokens_reach_their_chat(gui, earlier, id, fresh);
        let before = gui.after_all(earlier, fresh);
        assert(is_token(messages[messages.len() - 1]));
        match messages.last() {
            MessageModel::ChatProgress(to, Ok(StreamProgressModel::Streaming { token })) => {
                let outcome: ChatOutcomeModel = Ok(StreamProgressModel::Streaming { token });
                if to == id {
                    let at: int = position::<OllamaChat>(before.chats, id) as int;
                    lemma_position_bounds::<OllamaChat>(before.chats, id);
                    lemma_update_keeps_positions::<OllamaChat>(
                        before.chats,
                        at,
                        before.chat(id).progressed(outcome),
                        id,
                    );
                    law_tokens_accumulate(chat, tokens_for(earlier, id));
                    law_tokens_accumulate(chat, tokens_for(messages, id));
                    assert(tokens_for(messages, id).drop_last() == tokens_for(earlier, id));
                } else {
                    law_progress_reaches_one_chat(before, to, outcome, id, fresh);
                }
            },
            _ => {},
        }
    }
}

/// The application: its chats and downloads and what the user is looking at.
#[derive(Debug)]
pub struct OllamaGUI {
    chats: Vec<OllamaChat>,
    current_chat: SessionId,
    editing_chat: Option<SessionId>,
    state: AppState,
    default_url: String,
    theme: String,
    download_model_input: String,
    download_progress: Vec<DownloadProgress>,
}

impl View for OllamaGUI {
    type V = GuiModel;

    closed spec fn view(&self) -> GuiModel {
        GuiModel {
            chats: models(self.chats@),
            current_chat: self.current_chat,
            editing_chat: self.editing_chat,
            state: self.state,
            default_url: self.default_url@,
            theme: self.theme@,
            download_model_input: self.download_model_input@,
            downloads: models(self.download_progress@),
        }
    }
}

/// Restores the chats of stored transcripts.
pub fn restore_chats(histories: Vec<ChatHistory>) -> (chats: Vec<OllamaChat>)
    ensures
        models(chats@) == restored_chats(models(histories@)),
{
    let ghost all = models(histories@);
    let mut chats: Vec<OllamaChat> = Vec::new();
    for history in it: histories
        invariant
            models(it.seq()) == all,
            models(chats@) == restored_chats(all.take(it.index() as int)),
    {
        let ghost done = models(chats@);
        proof {
            assert(all.take(it.index() + 1).drop_last() == all.take(it.index() as int));
            assert(all.take(it.index() + 1).last() == history@);
        }
        match OllamaChat::from_history(history) {
            Ok(chat) => {
                chats.push(chat);
                proof {
                    assert(models(chats@) == done.push(chat@));
                }
            },
            Err(_) => {},
        }
    }
    proof {
        assert(all.take(all.len() as int) == all);
    }
    chats
}

impl OllamaGUI {
    /// The application as it opens with these settings and chats.
    pub fn with_chats(settings: AppSettings, chats: Vec<OllamaChat>) -> (gui: OllamaGUI)
        ensures
            gui@ == GuiModel::opened(settings@, models(chats@)),
    {
        let current_chat = if chats.len() > 0 {
            chats[0].uuid()
        } else {
            SessionId::nil()
        };
        let gui = OllamaGUI {
            chats,
            current_chat,
            editing_chat: None,
            state: AppState::Chat,
            default_url: settings.default_url,
            theme: settings.theme,
            download_model_input: String::new(),
            download_progress: Vec::new(),
        };
        proof {
            assert(gui@.downloads =~= Seq::empty());
        }
        gui
    }

    /// The application as it opens with these settings and the chats that the
    /// stored transcripts restore. Where they restore none, one blank chat
    /// under a fresh identity is opened.
    pub fn new(settings: AppSettings, histories: Vec<ChatHistory>) -> (gui: OllamaGUI)
        ensures
            gui@ == GuiModel::opened(settings@, gui@.chats),
            restored_chats(models(histories@)).len() > 0 ==> gui@.chats == restored_chats(
                models(histories@),
            ),
            restored_chats(models(histories@)).len() == 0 ==> gui@.chats == seq![
                ChatModel::blank(gui@.current_chat),
            ] && is_random_uuid(gui@.current_chat.value),
    {
        let mut chats = restore_chats(histories);
        if chats.len() == 0 {
            let chat = OllamaChat::new();
            chats.push(chat);
            proof {
                assert(models(chats@) == seq![chat@]);
            }
        }
        OllamaGUI::with_chats(settings, chats)
    }

    /// The chats, in the order in which they are listed.
    pub fn chats(&self) -> (chats: &Vec<OllamaChat>)
        ensures
            models(chats@) == self@.chats,
    {
        &self.chats
    }

    /// The chat that is shown; the nil identity where there is none.
    pub fn current_chat(&self) -> (id: SessionId)
        ensures
            id == self@.current_chat,
    {
        self.current_chat
    }

    /// The chat that is shown: the first with the identity `current_chat`.
    pub fn shown_chat(&self) -> (shown: Option<&OllamaChat>)
        ensures
            match shown {
                Some(chat) => self@.has_chat(self@.current_chat) && chat@ == self@.chat(
                    self@.current_chat,
                ),
                None => !self@.has_chat(self@.current_chat),
            },
    {
        match find(&self.chats, self.current_chat) {
            Some(at) => Some(&self.chats[at]),
            None => None,
        }
    }

    /// The chat whose name is being edited.
    pub fn editing_chat(&self) -> (id: Option<SessionId>)
        ensures
            id == self@.editing_chat,
    {
        self.editing_chat
    }

    /// Which page the application shows.
    pub fn state(&self) -> (state: AppState)
        ensures
            state == self@.state,
    {
        self.state
    }

    /// Where the server is reached.
    pub fn default_url(&self) -> (url: &String)
        ensures
            url@ == self@.default_url,
    {
        &self.default_url
    }

    /// The name of the theme.
    pub fn theme(&self) -> (theme: &String)
        ensures
            theme@ == self@.theme,
    {
        &self.theme
    }

    /// The name typed for the next download.
    pub fn download_model_input(&self) -> (input: &String)
        ensures
            input@ == self@.download_model_input,
    {
        &self.download_model_input
    }

    /// The downloads under way, in the order in which they were started.
    pub fn download_progress(&self) -> (downloads: &Vec<DownloadProgress>)
        ensures
            models(downloads@) == self@.downloads,
    {
        &self.download_progress
    }

    /// The settings to keep.
    pub fn settings(&self) -> (settings: AppSettings)
        ensures
            settings@ == self@.settings(),
    {
        AppSettings { theme: self.theme.clone(), default_url: self.default_url.clone() }
    }

    /// Whether applying the message draws a fresh identity.
    pub fn draws_identity(&self, message: &Message) -> (draws: bool)
        ensures
            draws == self@.draws_identity(message@),
    {
        match message {
            Message::NewChat => true,
            Message::StartDownloadModel => !self.download_model_input.as_str().is_empty(),
            _ => false,
        }
    }

    /// Applies a message, drawing a fresh random identity where the message
    /// needs one, and returns what is to be done on disk.
    pub fn update(&mut self, message: Message) -> (effect: Effect)
        ensures
            exists|fresh: SessionId|
                final(self)@ == #[trigger] old(self)@.updated(message@, fresh)
                    && (old(self)@.draws_identity(message@) ==> is_random_uuid(fresh.value)),
            effect@ == old(self)@.effect(message@),
    {
        let fresh = if self.draws_identity(&message) {
            SessionId::random()
        } else {
            SessionId::nil()
        };
        self.update_with(message, fresh)
    }

    /// Applies a message, with `fresh` as the identity of what the message
    /// creates, and returns what is to be done on disk.
    pub fn update_with(&mut self, message: Message, fresh: SessionId) -> (effect: Effect)
        ensures
            final(self)@ == old(self)@.updated(message@, fresh),
            effect@ == old(self)@.effect(message@),
    {
        let ghost before = models(self.chats@);
        let ghost loads = models(self.download_progress@);
        match message {
            Message::NewChat => {
                let chat = OllamaChat::with_id(fresh);
                self.current_chat = fresh;
                self.chats.push(chat);
                proof {
                    assert(models(self.chats@) == before.push(chat@));
                }
                Effect::Nothing
            },
            Message::StartChat(id) => {
                match find(&self.chats, id) {
                    Some(at) => {
                        self.chats[at].start();
                        proof {
                            assert(models(self.chats@) == before.update(
                                at as int,
                                before[at as int].started(),
                            ));
                        }
                    },
                    None => {},
                }
                Effect::Nothing
            },
            Message::ChatProgress((id, progress)) => {
                match find(&self.chats, id) {
                    Some(at) => {
                        let saved = self.chats[at].progress(progress);
                        proof {
                            assert(models(self.chats@) == before.update(
                                at as int,
                                before[at as int].progressed(chat_outcome_view(progress)),
                            ));
                        }
                        match saved {
                            Some(history) => Effect::SaveChat(history),
                            None => Effect::Nothing,
                        }
                    },
                    None => Effect::Nothing,
                }
            },
            Message::SelectChat(id) => {
                self.current_chat = id;
                self.editing_chat = None;
                Effect::Nothing
            },
            Message::PromptChanged(id, prompt) => {
                match find(&self.chats, id) {
                    Some(at) => {
                        self.chats[at].set_prompt(prompt);
                        proof {
                            assert(models(self.chats@) == before.update(
                                at as int,
                                before[at as int].with_prompt(prompt@),
                            ));
                        }
                    },
                    None => {},
                }
                Effect::Nothing
            },
            Message::StartRenameChat(id) => {
                match find(&self.chats, id) {
                    Some(at) => {
                        self.chats[at].start_rename();
                        self.editing_chat = Some(id);
                        proof {
                            assert(models(self.chats@) == before.update(
                                at as int,
                                before[at as int].rename_started(),
                            ));
                        }
                    },
                    None => {},
                }
                Effect::Nothing
            },
            Message::UpdateTempName(id, name) => {
                match find(&self.chats, id) {
                    Some(at) => {
                        self.chats[at].update_temp_name(name);
                        proof {
                            assert(models(self.chats@) == before.update(
                                at as int,
                                before[at as int].temp_name_updated(name@),
                            ));
                        }
                    },
                    None => {},
                }
                Effect::Nothing
            },
            Message::FinishRenameChat(id) => {
                match find(&self.chats, id) {
                    Some(at) => {
                        let saved = self.chats[at].finish_rename();
                        self.editing_chat = None;
                        proof {
                            assert(models(self.chats@) == before.update(
                                at as int,
                                before[at as int].rename_finished(),
                            ));
                        }
                        match saved {
                            Some(history) => Effect::SaveChat(history),
                            None => Effect::Nothing,
                        }
                    },
                    None => Effect::Nothing,
                }
            },
            Message::CancelRenameChat(id) => {
                match find(&self.chats, id) {
                    Some(at) => {
                        self.chats[at].cancel_rename();
                        self.editing_chat = None;
                        proof {
                            assert(models(self.chats@) == before.update(
                                at as int,
                                before[at as int].rename_canceled(),
                            ));
                        }
                    },
                    None => {},
                }
                Effect::Nothing
            },
            Message::DeleteChat(id) => {
                remove_all(&mut self.chats, id);
                if self.current_chat == id {
                    self.current_chat = if self.chats.len() > 0 {
                        self.chats[0].uuid()
                    } else {
                        SessionId::nil()
                    };
                }
                if self.editing_chat == Some(id) {
                    self.editing_chat = None;
                }
                Effect::DeleteChat(id)
            },
            Message::ChangeAppState(state) => {
                self.state = state;
                Effect::Nothing
            },
            Message::ChangeTheme(theme) => {
                self.theme = theme;
                Effect::SaveSettings(self.settings())
            },
            Message::ChangeDefaultUrl(url) => {
                self.default_url = url;
                Effect::SaveSettings(self.settings())
            },
            Message::DownloadModelInputChanged(input) => {
                self.download_model_input = input;
                Effect::Nothing
            },
            Message::StartDownloadModel => {
                if !self.download_model_input.as_str().is_empty() {
                    let download = DownloadProgress::new(fresh, self.download_model_input.clone());
                    self.download_progress.push(download);
                    self.download_model_input = String::new();
                    proof {
                        assert(models(self.download_progress@) == loads.push(download@));
                    }
                }
                Effect::Nothing
            },
            Message::DownloadProgress(id, outcome) => {
                match outcome {
                    Ok(DownloadProgressUpdate::Finished) => {
                        remove_all(&mut self.download_progress, id);
                    },
                    _ => match find(&self.download_progress, id) {
                        Some(at) => {
                            self.download_progress[at].progress(outcome);
                            proof {
                                assert(models(self.download_progress@) == loads.update(
                                    at as int,
                                    loads[at as int].progressed(
                                        download_outcome_view(outcome),
                                    ).unwrap(),
                                ));
                            }
                        },
                        None => {},
                    },
                }
                Effect::Nothing
            },
            Message::CancelDownload(id) => {
                remove_all(&mut self.download_progress, id);
                Effect::Nothing
            },
        }
    }

    /// The streams that the state wants open: one for each chat that is
    /// streaming, then one for each download.
    pub fn subscription(&self) -> (wanted: Vec<Session>)
        ensures
            models(wanted@) == self@.sessions(),
    {
        let ghost chats = models(self.chats@);
        let ghost loads = models(self.download_progress@);
        let ghost url = self.default_url@;
        let mut wanted: Vec<Session> = Vec::new();
        let mut at: usize = 0;
        while at < self.chats.len()
            invariant
                at <= self.chats.len(),
                chats == models(self.chats@),
                url == self.default_url@,
                models(wanted@) == chat_sessions(chats.take(at as int), url),
            decreases self.chats.len() - at,
        {
            let ghost done = models(wanted@);
            proof {
                assert(chats.take(at + 1).drop_last() == chats.take(at as int));
                assert(chats.take(at + 1).last() == self.chats@[at as int]@);
            }
            match self.chats[at].subscription(self.default_url.as_str()) {
                Some(session) => {
                    wanted.push(session);
                    proof {
                        assert(models(wanted@) == done.push(session@));
                    }
                },
                None => {},
            }
            at += 1;
        }
        proof {
            assert(chats.take(at as int) == chats);
        }
        let ghost first = models(wanted@);
        let mut at: usize = 0;
        while at < self.download_progress.len()
            invariant
                at <= self.download_progress.len(),
                loads == models(self.download_progress@),
                url == self.default_url@,
                models(wanted@) == first + download_sessions(loads, url).take(at as int),
            decreases self.download_progress.len() - at,
        {
            let ghost done = models(wanted@);
            let session = self.download_progress[at].subscription(self.default_url.as_str());
            wanted.push(session);
            proof {
                assert(models(wanted@) == done.push(session@));
                assert(download_sessions(loads, url).take(at + 1) == download_sessions(
                    loads,
                    url,
                ).take(at as int).push(session@));
            }
            at += 1;
        }
        proof {
            assert(download_sessions(loads, url).take(at as int) == download_sessions(loads, url));
        }
        wanted
    }
}

} // verus!
