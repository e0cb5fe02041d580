//! The chat state machine: one conversation, its transcript, and how the
//! events of its generation stream change it.

use vstd::prelude::*;
use vstd::string::StringExecFns;

use crate::events::{
    chat_outcome_view, ChatOutcomeModel, Error, OllamaStreamProgress, StreamProgressModel,
};
use crate::session::{subscribe_to_stream, Session, SessionKindModel, SessionModel};
use crate::session_id::{is_random_uuid, uuid_parse, uuid_text, SessionId};
use crate::text::{trim_text, trimmed};

verus! {

/// Where a chat stands.
#[derive(Clone, Copy, Debug, PartialEq, Eq, Structural)]
pub enum ChatState {
    /// Nothing was asked yet.
    Idle,
    /// An answer is arriving.
    Streaming,
    /// The last answer is complete.
    Finished,
    /// The last answer broke off with a failure.
    Errored,
}

/// One turn of a conversation: what was asked and what was answered.
#[derive(Debug, PartialEq, Eq)]
pub struct ChatEntry {
    pub prompt: String,
    pub response: String,
}

/// The model of a `ChatEntry`.
pub struct EntryModel {
    pub prompt: Seq<char>,
    pub response: Seq<char>,
}

impl View for ChatEntry {
    type V = EntryModel;

    open spec fn view(&self) -> EntryModel {
        EntryModel { prompt: self.prompt@, response: self.response@ }
    }
}

impl Clone for ChatEntry {
    fn clone(&self) -> (copy: ChatEntry)
        ensures
            copy@ == self@,
    {
        ChatEntry { prompt: self.prompt.clone(), response: self.response.clone() }
    }
}

/// The models of the entries, in order.
pub open spec fn entry_views(entries: Seq<ChatEntry>) -> Seq<EntryModel> {
    entries.map_values(|entry: ChatEntry| entry@)
}

/// Copies a transcript, entry by entry.
pub fn copy_entries(entries: &Vec<ChatEntry>) -> (copy: Vec<ChatEntry>)
    ensures
        entry_views(copy@) == entry_views(entries@),
{
    let mut copy: Vec<ChatEntry> = Vec::new();
    let mut at: usize = 0;
    while at < entries.len()
        invariant
            at <= entries.len(),
            entry_views(copy@) == entry_views(entries@).take(at as int),
        decreases entries.len() - at,
    {
        let ghost before = entry_views(copy@);
        copy.push(entries[at].clone());
        proof {
            assert(entry_views(copy@) == before.push(entries@[at as int]@));
            assert(entry_views(entries@).take(at + 1) == entry_views(entries@).take(
                at as int,
            ).push(entries@[at as int]@));
        }
        at += 1;
    }
    proof {
        assert(entry_views(entries@).take(at as int) == entry_views(entries@));
    }
    copy
}

/// A chat as it is stored: one document per chat, keyed by the chat's identity.
#[derive(Debug, PartialEq, Eq)]
pub struct ChatHistory {
    pub display_name: String,
    pub uuid: String,
    pub context: Vec<u64>,
    pub model: String,
    pub chat: Vec<ChatEntry>,
}

/// The model of a `ChatHistory`.
pub struct HistoryModel {
    pub display_name: Seq<char>,
    pub uuid: Seq<char>,
    pub context: Seq<u64>,
    pub model: Seq<char>,
    pub chat: Seq<EntryModel>,
}

impl View for ChatHistory {
    type V = HistoryModel;

    open spec fn view(&self) -> HistoryModel {
        HistoryModel {
            display_name: self.display_name@,
            uuid: self.uuid@,
            context: self.context@,
            model: self.model@,
            chat: entry_views(self.chat@),
        }
    }
}

impl Clone for ChatHistory {
    fn clone(&self) -> (copy: ChatHistory)
        ensures
            copy@ == self@,
    {
        ChatHistory {
            display_name: self.display_name.clone(),
            uuid: self.uuid.clone(),
            context: self.context.clone(),
            model: self.model.clone(),
            chat: copy_entries(&self.chat),
        }
    }
}

/// Why a stored chat could not be restored.
#[derive(Clone, Copy, Debug, PartialEq, Eq, Structural)]
pub enum HistoryError {
    /// The stored identity is no UUID.
    InvalidUuid,
}

/// The model of an `OllamaChat`.
pub struct ChatModel {
    pub uuid: SessionId,
    pub display_name: Seq<char>,
    /// The name as it is being edited, while a rename is under way.
    pub editing_name: Option<Seq<char>>,
    pub state: ChatState,
    /// What the user has typed and not yet sent.
    pub input_prompt: Seq<char>,
    pub model: Seq<char>,
    /// The continuation state that the server returned with its last answer.
    pub context: Option<Seq<u64>>,
    pub entries: Seq<EntryModel>,
}

impl ChatModel {
    /// A chat that is streaming has the entry that the stream fills.
    pub open spec fn wf(self) -> bool {
        self.state == ChatState::Streaming ==> self.entries.len() > 0
    }

    /// The chat that a user opens: nothing asked, nothing answered.
    pub open spec fn blank(uuid: SessionId) -> ChatModel {
        ChatModel {
            uuid,
            display_name: "New Unnamed Chat"@,
            editing_name: None,
            state: ChatState::Idle,
            input_prompt: Seq::empty(),
            model: "phi4"@,
            context: None,
            entries: Seq::empty(),
        }
    }

    /// The chat that a stored transcript restores under the given identity. It
    /// is finished where the transcript holds entries, and idle where it holds none.
    pub open spec fn restored(history: HistoryModel, uuid: SessionId) -> ChatModel {
        ChatModel {
            uuid,
            display_name: history.display_name,
            editing_name: None,
            state: if history.chat.len() > 0 {
                ChatState::Finished
            } else {
                ChatState::Idle
            },
            input_prompt: Seq::empty(),
            model: history.model,
            context: Some(history.context),
            entries: history.chat,
        }
    }

    /// Whether `start` opens a new turn: it does unless an answer is arriving.
    pub open spec fn accepts_start(self) -> bool {
        self.state != ChatState::Streaming
    }

    /// The name to show for the chat: the name being edited while a rename is
    /// under way, else its name.
    pub open spec fn shown_name(self) -> Seq<char> {
        match self.editing_name {
            Some(name) => name,
            None => self.display_name,
        }
    }

    /// The chat after `start`: a new entry with the typed prompt and an empty
    /// response, the input cleared, the state `Streaming`. A chat that is
    /// streaming stays as it is.
    pub open spec fn started(self) -> ChatModel {
        if self.accepts_start() {
            ChatModel {
                state: ChatState::Streaming,
                input_prompt: Seq::empty(),
                entries: self.entries.push(
                    EntryModel { prompt: self.input_prompt, response: Seq::empty() },
                ),
                ..self
            }
        } else {
            self
        }
    }

    /// The chat with `token` appended to the response of its last entry.
    pub open spec fn with_token(self, token: Seq<char>) -> ChatModel {
        if self.entries.len() > 0 {
            let last: EntryModel = self.entries.last();
            ChatModel {
                entries: self.entries.update(
                    self.entries.len() - 1,
                    EntryModel { prompt: last.prompt, response: last.response + token },
                ),
                ..self
            }
        } else {
            self
        }
    }

    /// The chat after an outcome of its stream. While it is streaming, a token
    /// extends the last response, completion stores the context and finishes
    /// the chat, and a failure leaves the transcript and marks the chat as
    /// errored. A chat that is not streaming stays as it is.
    pub open spec fn progressed(self, outcome: ChatOutcomeModel) -> ChatModel {
        if self.state == ChatState::Streaming {
            match outcome {
                Ok(StreamProgressModel::Streaming { token }) => self.with_token(token),
                Ok(StreamProgressModel::Finished { context }) => ChatModel {
                    context: Some(context),
                    state: ChatState::Finished,
                    ..self
                },
                Err(_) => ChatModel { state: ChatState::Errored, ..self },
            }
        } else {
            self
        }
    }

    /// Whether the outcome completes the answer of this chat, so that the
    /// transcript is to be stored.
    pub open spec fn completes(self, outcome: ChatOutcomeModel) -> bool {
        self.state == ChatState::Streaming && outcome matches Ok(
            StreamProgressModel::Finished { .. },
        )
    }

    /// The chat after a rename has begun: the name being edited is the name shown.
    pub open spec fn rename_started(self) -> ChatModel {
        ChatModel { editing_name: Some(self.display_name), ..self }
    }

    /// The chat after the name being edited was replaced; nothing changes
    /// where no rename is under way.
    pub open spec fn temp_name_updated(self, name: Seq<char>) -> ChatModel {
        if self.editing_name is Some {
            ChatModel { editing_name: Some(name), ..self }
        } else {
            self
        }
    }

    /// The chat after the rename was committed: the edited name, trimmed, is
    /// the name shown.
    pub open spec fn rename_finished(self) -> ChatModel {
        match self.editing_name {
            Some(name) => ChatModel { display_name: trimmed(name), editing_name: None, ..self },
            None => self,
        }
    }

    /// The chat after the rename was given up.
    pub open spec fn rename_canceled(self) -> ChatModel {
        ChatModel { editing_name: None, ..self }
    }

    /// The chat with another text typed as its prompt.
    pub open spec fn with_prompt(self, prompt: Seq<char>) -> ChatModel {
        ChatModel { input_prompt: prompt, ..self }
    }

    /// The chat as it is stored.
    pub open spec fn history(self) -> HistoryModel {
        HistoryModel {
            display_name: self.display_name,
            uuid: uuid_text(self.uuid.value),
            context: match self.context {
                Some(context) => context,
                None => Seq::empty(),
            },
            model: self.model,
            chat: self.entries,
        }
    }

    /// The stream that this chat wants open against the server at `base_url`:
    /// one generation session while it is streaming, for the prompt of its last
    /// entry, with the stored context.
    pub open spec fn session(self, base_url: Seq<char>) -> Option<SessionModel> {
        if self.state == ChatState::Streaming && self.entries.len() > 0 {
            Some(
                SessionModel {
                    id: self.uuid,
                    url: base_url + "/api/generate"@,
                    kind: SessionKindModel::Generate {
                        prompt: self.entries.last().prompt,
                        model: self.model,
                        context: self.context,
                    },
                },
            )
        } else {
            None
        }
    }
}

/// The tokens joined into one text, in order.
pub open spec fn joined(tokens: Seq<Seq<char>>) -> Seq<char>
    decreases tokens.len(),
{
    if tokens.len() == 0 {
        Seq::empty()
    } else {
        joined(tokens.drop_last()) + tokens.last()
    }
}

impl ChatModel {
    /// The chat after each of the tokens arrived, in order.
    pub open spec fn after_tokens(self, tokens: Seq<Seq<char>>) -> ChatModel
        decreases tokens.len(),
    {
        if tokens.len() == 0 {
            self
        } else {
            self.after_tokens(tokens.drop_last()).progressed(
                Ok(StreamProgressModel::Streaming { token: tokens.last() }),
            )
        }
    }
}

/// `start` on a chat that is streaming changes nothing. So a second `start`
/// right behind the first adds no second entry: `start` twice is `start` once.
pub proof fn law_start_is_idempotent(chat: ChatModel)
    ensures
        chat.state == ChatState::Streaming ==> chat.started() == chat,
        chat.started().started() == chat.started(),
        chat.started().state == ChatState::Streaming,
        chat.accepts_start() ==> chat.started().entries.len() == chat.entries.len() + 1,
{
}

/// A failure keeps what has arrived: the transcript is as it was, and the
/// chat, now errored, accepts `start` again.
pub proof fn law_failure_keeps_transcript(chat: ChatModel, error: crate::events::ErrorModel)
    requires
        chat.state == ChatState::Streaming,
    ensures
        chat.progressed(Err(error)).entries == chat.entries,
        chat.progressed(Err(error)).state == ChatState::Errored,
        chat.progressed(Err(error)).started().state == ChatState::Streaming,
        chat.progressed(Err(error)).started().entries.len() == chat.entries.len() + 1,
{
}

/// An outcome of the stream touches the response of the last entry and
/// nothing else of the transcript, and touches nothing at all unless the chat
/// is streaming.
pub proof fn law_only_last_response_changes(chat: ChatModel, outcome: ChatOutcomeModel)
    ensures
        chat.state != ChatState::Streaming ==> chat.progressed(outcome) == chat,
        chat.progressed(outcome).entries.len() == chat.entries.len(),
        forall|i: int|
            0 <= i < chat.entries.len() - 1 ==> (#[trigger] chat.progressed(outcome).entries[i])
                == chat.entries[i],
        forall|i: int|
            0 <= i < chat.entries.len() ==> (#[trigger] chat.progressed(
                outcome,
            ).entries[i]).prompt == chat.entries[i].prompt,
        chat.wf() ==> chat.progressed(outcome).wf(),
{
}

/// Tokens accumulate: after the tokens `t1 .. tn` have arrived at a chat that
/// is streaming, the response of its last entry is what it was with
/// `t1 + .. + tn` behind it, and nothing else has changed.
pub proof fn law_tokens_accumulate(chat: ChatModel, tokens: Seq<Seq<char>>)
    requires
        chat.state == ChatState::Streaming,
        chat.entries.len() > 0,
    ensures
        chat.after_tokens(tokens) == chat.with_token(joined(tokens)),
        chat.after_tokens(tokens).entries.last().response == chat.entries.last().response
            + joined(tokens),
    decreases tokens.len(),
{
    let last: EntryModel = chat.entries.last();
    if tokens.len() == 0 {
        assert(last.response + Seq::<char>::empty() == last.response);
        assert(chat.entries.update(chat.entries.len() - 1, last) == chat.entries);
    } else {
        let earlier = tokens.drop_last();
        law_tokens_accumulate(chat, earlier);
        let before = chat.with_token(joined(earlier));
        assert(before.state == ChatState::Streaming);
        assert((last.response + joined(earlier)) + tokens.last() == last.response + (joined(
            earlier,
        ) + tokens.last()));
        assert(before.with_token(tokens.last()).entries == chat.with_token(
            joined(tokens),
        ).entries);
    }
}

/// One conversation with a model.
#[derive(Debug)]
pub struct OllamaChat {
    uuid: SessionId,
    display_name: String,
    editing_name: Option<String>,
    state: ChatState,
    input_prompt: String,
    model: String,
    context: Option<Vec<u64>>,
    chat_entries: Vec<ChatEntry>,
}

impl View for OllamaChat {
    type V = ChatModel;

    closed spec fn view(&self) -> ChatModel {
        ChatModel {
            uuid: self.uuid,
            display_name: self.display_name@,
            editing_name: match self.editing_name {
                Some(name) => Some(name@),
                None => None,
            },
            state: self.state,
            input_prompt: self.input_prompt@,
            model: self.model@,
            context: match self.context {
                Some(context) => Some(context@),
                None => None,
            },
            entries: entry_views(self.chat_entries@),
        }
    }
}

impl OllamaChat {
    /// A blank chat under the given identity.
    pub fn with_id(uuid: SessionId) -> (chat: OllamaChat)
        ensures
            chat@ == ChatModel::blank(uuid),
    {
        let chat = OllamaChat {
            uuid,
            display_name: String::from_str("New Unnamed Chat"),
            editing_name: None,
            state: ChatState::Idle,
            input_prompt: String::new(),
            model: String::from_str("phi4"),
            context: None,
            chat_entries: Vec::new(),
        };
        proof {
            assert(chat@.entries =~= Seq::empty());
        }
        chat
    }

    /// A blank chat under a fresh random identity.
    pub fn new() -> (chat: OllamaChat)
        ensures
            chat@ == ChatModel::blank(chat@.uuid),
            is_random_uuid(chat@.uuid.value),
    {
        OllamaChat::with_id(SessionId::random())
    }

    /// Restores a stored chat. The stored identity must be a UUID.
    pub fn from_history(history: ChatHistory) -> (restored: Result<OllamaChat, HistoryError>)
        ensures
            match uuid_parse(history@.uuid) {
                Some(bits) => restored matches Ok(chat) && chat@ == ChatModel::restored(
                    history@,
                    SessionId { value: bits },
                ),
                None => restored == Err::<OllamaChat, HistoryError>(HistoryError::InvalidUuid),
            },
    {
        match SessionId::parse(history.uuid.as_str()) {
            Some(uuid) => {
                let state = if history.chat.len() > 0 {
                    ChatState::Finished
                } else {
                    ChatState::Idle
                };
                Ok(
                    OllamaChat {
                        uuid,
                        display_name: history.display_name,
                        editing_name: None,
                        state,
                        input_prompt: String::new(),
                        model: history.model,
                        context: Some(history.context),
                        chat_entries: history.chat,
                    },
                )
            },
            None => Err(HistoryError::InvalidUuid),
        }
    }

    /// The identity of the chat.
    pub fn uuid(&self) -> (uuid: SessionId)
        ensures
            uuid == self@.uuid,
    {
        self.uuid
    }

    /// Where the chat stands.
    pub fn state(&self) -> (state: ChatState)
        ensures
            state == self@.state,
    {
        self.state
    }

    /// The name shown for the chat.
    pub fn display_name(&self) -> (name: &String)
        ensures
            name@ == self@.display_name,
    {
        &self.display_name
    }

    /// The name as it is being edited, while a rename is under way.
    pub fn editing_name(&self) -> (name: Option<&String>)
        ensures
            match name {
                Some(text) => self@.editing_name == Some(text@),
                None => self@.editing_name is None,
            },
    {
        match &self.editing_name {
            Some(name) => Some(name),
            None => None,
        }
    }

    /// The name to show for the chat: the name being edited while a rename is
    /// under way, else its name.
    pub fn shown_name(&self) -> (name: &String)
        ensures
            name@ == self@.shown_name(),
    {
        match &self.editing_name {
            Some(name) => name,
            None => &self.display_name,
        }
    }

    /// Whether `start` opens a new turn: it does unless an answer is arriving.
    pub fn accepts_start(&self) -> (accepts: bool)
        ensures
            accepts == self@.accepts_start(),
    {
        match self.state {
            ChatState::Streaming => false,
            _ => true,
        }
    }

    /// What the user has typed and not yet sent.
    pub fn input_prompt(&self) -> (prompt: &String)
        ensures
            prompt@ == self@.input_prompt,
    {
        &self.input_prompt
    }

    /// The name of the model that answers.
    pub fn model(&self) -> (model: &String)
        ensures
            model@ == self@.model,
    {
        &self.model
    }

    /// The continuation state that the server returned with its last answer.
    pub fn context(&self) -> (context: Option<&Vec<u64>>)
        ensures
            match context {
                Some(numbers) => self@.context == Some(numbers@),
                None => self@.context is None,
            },
    {
        match &self.context {
            Some(context) => Some(context),
            None => None,
        }
    }

    /// The transcript.
    pub fn chat_entries(&self) -> (entries: &Vec<ChatEntry>)
        ensures
            entry_views(entries@) == self@.entries,
    {
        &self.chat_entries
    }

    /// Replaces what the user has typed.
    pub fn set_prompt(&mut self, prompt: String)
        ensures
            final(self)@ == old(self)@.with_prompt(prompt@),
    {
        self.input_prompt = prompt;
    }

    /// Begins a rename: the name to edit starts as the name shown.
    pub fn start_rename(&mut self)
        ensures
            final(self)@ == old(self)@.rename_started(),
    {
        self.editing_name = Some(self.display_name.clone());
    }

    /// Replaces the name being edited. Nothing happens where no rename is
    /// under way.
    pub fn update_temp_name(&mut self, name: String)
        ensures
            final(self)@ == old(self)@.temp_name_updated(name@),
    {
        if self.editing_name.is_some() {
            self.editing_name = Some(name);
        }
    }

    /// Commits the rename: the edited name, trimmed, becomes the name shown.
    /// Returns the chat as it is to be stored, or `None` where no rename was
    /// under way.
    pub fn finish_rename(&mut self) -> (saved: Option<ChatHistory>)
        ensures
            final(self)@ == old(self)@.rename_finished(),
            match saved {
                Some(history) => old(self)@.editing_name is Some
                    && history@ == final(self)@.history(),
                None => old(self)@.editing_name is None,
            },
    {
        let name = match &self.editing_name {
            Some(name) => Some(trim_text(name.as_str())),
            None => None,
        };
        match name {
            Some(name) => {
                self.display_name = name;
                self.editing_name = None;
                Some(self.history())
            },
            None => None,
        }
    }

    /// Gives up the rename.
    pub fn cancel_rename(&mut self)
        ensures
            final(self)@ == old(self)@.rename_canceled(),
    {
        self.editing_name = None;
    }

    /// Opens a new turn with the typed prompt, unless an answer is arriving.
    pub fn start(&mut self)
        ensures
            final(self)@ == old(self)@.started(),
    {
        match self.state {
            ChatState::Streaming => {},
            _ => {
                let ghost before = entry_views(self.chat_entries@);
                let prompt = self.input_prompt.clone();
                self.input_prompt = String::new();
                self.chat_entries.push(ChatEntry { prompt, response: String::new() });
                self.state = ChatState::Streaming;
                proof {
                    assert(entry_views(self.chat_entries@) == before.push(
                        EntryModel { prompt: prompt@, response: Seq::empty() },
                    ));
                }
            },
        }
    }

    /// Applies an outcome of the chat's stream. Returns the chat as it is to
    /// be stored where the outcome completed the answer, else `None`.
    pub fn progress(&mut self, progress: Result<OllamaStreamProgress, Error>) -> (saved: Option<
        ChatHistory,
    >)
        ensures
            final(self)@ == old(self)@.progressed(chat_outcome_view(progress)),
            match saved {
                Some(history) => old(self)@.completes(chat_outcome_view(progress)) && history@
                    == final(self)@.history(),
                None => !old(self)@.completes(chat_outcome_view(progress)),
            },
    {
        match self.state {
            ChatState::Streaming => match progress {
                Ok(OllamaStreamProgress::Streaming { token }) => {
                    if self.chat_entries.len() > 0 {
                        let last: usize = self.chat_entries.len() - 1;
                        let ghost before = entry_views(self.chat_entries@);
                        let ghost entry = self.chat_entries@[last as int]@;
                        self.chat_entries[last].response.append(token.as_str());
                        proof {
                            assert(entry_views(self.chat_entries@) == before.update(
                                last as int,
                                EntryModel {
                                    prompt: entry.prompt,
                                    response: entry.response + token@,
                                },
                            ));
                        }
                    }
                    None
                },
                Ok(OllamaStreamProgress::Finished { context }) => {
                    self.context = Some(context);
                    self.state = ChatState::Finished;
                    Some(self.history())
                },
                Err(_) => {
                    self.state = ChatState::Errored;
                    None
                },
            },
            _ => None,
        }
    }

    /// The chat as it is stored.
    pub fn history(&self) -> (history: ChatHistory)
        ensures
            history@ == self@.history(),
    {
        ChatHistory {
            display_name: self.display_name.clone(),
            uuid: self.uuid.to_text(),
            context: match &self.context {
                Some(context) => context.clone(),
                None => Vec::new(),
            },
            model: self.model.clone(),
            chat: copy_entries(&self.chat_entries),
        }
    }

    /// The stream that this chat wants open against the server at `base_url`.
    pub fn subscription(&self, base_url: &str) -> (wanted: Option<Session>)
        ensures
            match wanted {
                Some(session) => self@.session(base_url@) == Some(session@),
                None => self@.session(base_url@) is None,
            },
    {
        match self.state {
            ChatState::Streaming => {
                if self.chat_entries.len() == 0 {
                    return None;
                }
                let mut url = String::from_str(base_url);
                url.append("/api/generate");
                let last: usize = self.chat_entries.len() - 1;
                let context = match &self.context {
                    Some(context) => Some(context.clone()),
                    None => None,
                };
                Some(
                    subscribe_to_stream(
                        self.uuid,
                        url.as_str(),
                        self.chat_entries[last].prompt.as_str(),
                        self.model.as_str(),
                        context,
                    ),
                )
            },
            _ => None,
        }
    }
}

impl crate::keyed::Keyed for OllamaChat {
    open spec fn key_of(model: ChatModel) -> SessionId {
        model.uuid
    }

    fn key(&self) -> (id: SessionId) {
        self.uuid
    }
}

} // verus!
