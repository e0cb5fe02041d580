//! Stream sessions: what is asked of the server, and the life of one request.

use vstd::prelude::*;
use vstd::string::StringExecFns;

use crate::decoder::{
    decode_download_chunk, decode_generate_chunk, download_events, generate_event, parsed_lines,
};
use crate::events::{
    download_outcome_views, event_views, DownloadOutcomeModel, DownloadProgressUpdate, Error,
    ErrorModel, StreamEvent, StreamEventModel,
};
use crate::json::json_parse;
use crate::keyed::Keyed;
use crate::session_id::SessionId;
use crate::text::utf8_lossy;

verus! {

/// What a session asks of the server.
#[derive(Debug, PartialEq, Eq)]
pub enum SessionKind {
    /// An answer to `prompt` from `model`, continuing `context` if there is one.
    Generate { prompt: String, model: String, context: Option<Vec<u64>> },
    /// The download of `model`.
    Pull { model: String },
}

/// The model of a `SessionKind`.
pub enum SessionKindModel {
    Generate { prompt: Seq<char>, model: Seq<char>, context: Option<Seq<u64>> },
    Pull { model: Seq<char> },
}

impl View for SessionKind {
    type V = SessionKindModel;

    open spec fn view(&self) -> SessionKindModel {
        match self {
            SessionKind::Generate { prompt, model, context } => SessionKindModel::Generate {
                prompt: prompt@,
                model: model@,
                context: match context {
                    Some(numbers) => Some(numbers@),
                    None => None,
                },
            },
            SessionKind::Pull { model } => SessionKindModel::Pull { model: model@ },
        }
    }
}

impl Clone for SessionKind {
    fn clone(&self) -> (copy: SessionKind)
        ensures
            copy@ == self@,
    {
        match self {
            SessionKind::Generate { prompt, model, context } => SessionKind::Generate {
                prompt: prompt.clone(),
                model: model.clone(),
                context: match context {
                    Some(numbers) => Some(numbers.clone()),
                    None => None,
                },
            },
            SessionKind::Pull { model } => SessionKind::Pull { model: model.clone() },
        }
    }
}

/// One stream to open: whose it is, where the request goes, and what it asks.
#[derive(Debug, PartialEq, Eq)]
pub struct Session {
    pub id: SessionId,
    pub url: String,
    pub kind: SessionKind,
}

/// The model of a `Session`.
pub struct SessionModel {
    pub id: SessionId,
    pub url: Seq<char>,
    pub kind: SessionKindModel,
}

impl View for Session {
    type V = SessionModel;

    open spec fn view(&self) -> SessionModel {
        SessionModel { id: self.id, url: self.url@, kind: self.kind@ }
    }
}

impl Clone for Session {
    fn clone(&self) -> (copy: Session)
        ensures
            copy@ == self@,
    {
        Session { id: self.id, url: self.url.clone(), kind: self.kind.clone() }
    }
}

/// Describes the generation stream of the chat `id`: a request to `url` for an
/// answer to `prompt` from `model`, continuing `context` if there is one.
pub fn subscribe_to_stream(
    id: SessionId,
    url: &str,
    prompt: &str,
    model: &str,
    context: Option<Vec<u64>>,
) -> (session: Session)
    ensures
        session@ == (SessionModel {
            id,
            url: url@,
            kind: SessionKindModel::Generate {
                prompt: prompt@,
                model: model@,
                context: match context {
                    Some(numbers) => Some(numbers@),
                    None => None,
                },
            },
        }),
{
    Session {
        id,
        url: String::from_str(url),
        kind: SessionKind::Generate {
            prompt: String::from_str(prompt),
            model: String::from_str(model),
            context,
        },
    }
}

/// Describes the download stream `id`: a request to `url` for `model`.
pub fn subscribe_to_download(id: SessionId, url: String, model: String) -> (session: Session)
    ensures
        session@ == (SessionModel { id, url: url@, kind: SessionKindModel::Pull { model: model@ } }),
{
    Session { id, url, kind: SessionKind::Pull { model } }
}

/// The body of a request: a JSON object with these members. `prompt` and
/// `context` are left out of the object where they are `None`.
#[derive(Debug, PartialEq, Eq)]
pub struct RequestBody {
    pub model: String,
    pub prompt: Option<String>,
    pub stream: bool,
    pub context: Option<Vec<u64>>,
}

/// The model of a `RequestBody`.
pub struct RequestBodyModel {
    pub model: Seq<char>,
    pub prompt: Option<Seq<char>>,
    pub stream: bool,
    pub context: Option<Seq<u64>>,
}

impl View for RequestBody {
    type V = RequestBodyModel;

    open spec fn view(&self) -> RequestBodyModel {
        RequestBodyModel {
            model: self.model@,
            prompt: match self.prompt {
                Some(prompt) => Some(prompt@),
                None => None,
            },
            stream: self.stream,
            context: match self.context {
                Some(numbers) => Some(numbers@),
                None => None,
            },
        }
    }
}

impl SessionKindModel {
    /// The body that asks for this: always a stream of answers; for a
    /// generation the prompt, and the context if there is one.
    pub open spec fn body(self) -> RequestBodyModel {
        match self {
            SessionKindModel::Generate { prompt, model, context } => RequestBodyModel {
                model,
                prompt: Some(prompt),
                stream: true,
                context,
            },
            SessionKindModel::Pull { model } => RequestBodyModel {
                model,
                prompt: None,
                stream: true,
                context: None,
            },
        }
    }

    /// The events that one chunk of the response stands for.
    ///
    /// A chunk of a generation stream is one event. A chunk of a download
    /// stream gives the events of its lines.
    pub open spec fn chunk_events(self, chunk: Seq<u8>) -> Seq<StreamEventModel> {
        match self {
            SessionKindModel::Generate { .. } => seq![
                StreamEventModel::Chat(
                    Ok(generate_event(json_parse(utf8_lossy(chunk)), utf8_lossy(chunk))),
                ),
            ],
            SessionKindModel::Pull { .. } => download_events(parsed_lines(chunk)).map_values(
                |outcome: DownloadOutcomeModel| StreamEventModel::Download(outcome),
            ),
        }
    }

    /// The event that reports a failure of a session of this kind.
    pub open spec fn failure(self, error: ErrorModel) -> StreamEventModel {
        match self {
            SessionKindModel::Generate { .. } => StreamEventModel::Chat(Err(error)),
            SessionKindModel::Pull { .. } => StreamEventModel::Download(Err(error)),
        }
    }
}

/// Whether the events end their session: the last of them is terminal.
pub open spec fn ends_session(events: Seq<StreamEventModel>) -> bool {
    events.len() > 0 && events.last().is_terminal()
}

impl Session {
    /// The body of the request that opens the session.
    pub fn body(&self) -> (body: RequestBody)
        ensures
            body@ == self@.kind.body(),
    {
        match &self.kind {
            SessionKind::Generate { prompt, model, context } => RequestBody {
                model: model.clone(),
                prompt: Some(prompt.clone()),
                stream: true,
                context: match context {
                    Some(numbers) => Some(numbers.clone()),
                    None => None,
                },
            },
            SessionKind::Pull { model } => RequestBody {
                model: model.clone(),
                prompt: None,
                stream: true,
                context: None,
            },
        }
    }
}

/// One request in flight: the session it serves, and whether its stream has ended.
///
/// Whoever performs the request reports what happens to it: that it could not
/// be sent or read (`fail`), each chunk of the response (`feed`), and the end
/// of the response (`finish`). The session answers with the events to hand
/// on. Once a terminal event is out, it is closed and gives no more.
#[derive(Debug)]
pub struct StreamSession {
    session: Session,
    closed: bool,
}

/// The model of a `StreamSession`.
pub struct StreamSessionModel {
    pub session: SessionModel,
    pub closed: bool,
}

impl View for StreamSession {
    type V = StreamSessionModel;

    closed spec fn view(&self) -> StreamSessionModel {
        StreamSessionModel { session: self.session@, closed: self.closed }
    }
}

impl StreamSessionModel {
    /// The session as it is opened.
    pub open spec fn opened(session: SessionModel) -> StreamSessionModel {
        StreamSessionModel { session, closed: false }
    }

    /// The events that a chunk of the response gives: those it stands for, and
    /// none once the session is closed.
    pub open spec fn chunk_events(self, chunk: Seq<u8>) -> Seq<StreamEventModel> {
        if self.closed {
            Seq::empty()
        } else {
            self.session.kind.chunk_events(chunk)
        }
    }

    /// The session after a chunk: closed where the chunk held a terminal event.
    pub open spec fn fed(self, chunk: Seq<u8>) -> StreamSessionModel {
        StreamSessionModel {
            closed: self.closed || ends_session(self.session.kind.chunk_events(chunk)),
            ..self
        }
    }

    /// The events that a failure gives: the one that reports it, and none once
    /// the session is closed.
    pub open spec fn failure_events(self, error: ErrorModel) -> Seq<StreamEventModel> {
        if self.closed {
            Seq::empty()
        } else {
            seq![self.session.kind.failure(error)]
        }
    }

    /// The session once it is over, by a failure or by the end of the response.
    pub open spec fn ended(self) -> StreamSessionModel {
        StreamSessionModel { closed: true, ..self }
    }
}

/// Wraps the outcomes of a download stream as stream events.
fn wrap_download_outcomes(outcomes: Vec<Result<DownloadProgressUpdate, Error>>) -> (events: Vec<
    StreamEvent,
>)
    ensures
        event_views(events@) == download_outcome_views(outcomes@).map_values(
            |outcome: DownloadOutcomeModel| StreamEventModel::Download(outcome),
        ),
{
    let ghost wanted = download_outcome_views(outcomes@).map_values(
        |outcome: DownloadOutcomeModel| StreamEventModel::Download(outcome),
    );
    let mut events: Vec<StreamEvent> = Vec::new();
    for outcome in it: outcomes
        invariant
            wanted == download_outcome_views(it.seq()).map_values(
                |outcome: DownloadOutcomeModel| StreamEventModel::Download(outcome),
            ),
            event_views(events@) == wanted.take(it.index() as int),
    {
        let ghost before = event_views(events@);
        let event = StreamEvent::Download(outcome);
        proof {
            assert(event@ == wanted[it.index() as int]);
        }
        events.push(event);
        proof {
            assert(event_views(events@) == before.push(event@));
            assert(wanted.take(it.index() + 1) == wanted.take(it.index() as int).push(event@));
        }
    }
    proof {
        assert(wanted.take(wanted.len() as int) == wanted);
    }
    events
}

impl StreamSession {
    /// Opens the session: nothing was sent or received yet.
    pub fn open(session: Session) -> (opened: StreamSession)
        ensures
            opened@ == StreamSessionModel::opened(session@),
    {
        StreamSession { session, closed: false }
    }

    /// The session that this request serves.
    pub fn session(&self) -> (session: &Session)
        ensures
            session@ == self@.session,
    {
        &self.session
    }

    /// The identity of the session.
    pub fn id(&self) -> (id: SessionId)
        ensures
            id == self@.session.id,
    {
        self.session.id
    }

    /// Whether the stream has ended.
    pub fn is_closed(&self) -> (closed: bool)
        ensures
            closed == self@.closed,
    {
        self.closed
    }

    /// Takes one chunk of the response and gives the events it stands for.
    pub fn feed(&mut self, chunk: &[u8]) -> (events: Vec<StreamEvent>)
        ensures
            event_views(events@) == old(self)@.chunk_events(chunk@),
            final(self)@ == (if old(self)@.closed {
                old(self)@
            } else {
                old(self)@.fed(chunk@)
            }),
    {
        if self.closed {
            return Vec::new();
        }
        let events = match &self.session.kind {
            SessionKind::Generate { .. } => {
                let mut events: Vec<StreamEvent> = Vec::new();
                events.push(StreamEvent::Chat(Ok(decode_generate_chunk(chunk))));
                events
            },
            SessionKind::Pull { .. } => wrap_download_outcomes(decode_download_chunk(chunk)),
        };
        let count: usize = events.len();
        if count > 0 && events[count - 1].is_terminal() {
            proof {
                assert(event_views(events@).last() == events@[count - 1]@);
            }
            self.closed = true;
        }
        events
    }

    /// Takes a failure of the request and gives the event that reports it.
    /// The session is closed afterwards.
    pub fn fail(&mut self, error: Error) -> (events: Vec<StreamEvent>)
        ensures
            event_views(events@) == old(self)@.failure_events(error@),
            final(self)@ == old(self)@.ended(),
    {
        let mut events: Vec<StreamEvent> = Vec::new();
        if !self.closed {
            let event = match &self.session.kind {
                SessionKind::Generate { .. } => StreamEvent::Chat(Err(error)),
                SessionKind::Pull { .. } => StreamEvent::Download(Err(error)),
            };
            events.push(event);
            self.closed = true;
        }
        events
    }

    /// Takes the end of the response: the session is closed, and no event
    /// reports it.
    pub fn finish(&mut self)
        ensures
            final(self)@ == old(self)@.ended(),
    {
        self.closed = true;
    }
}

impl Keyed for Session {
    open spec fn key_of(model: SessionModel) -> SessionId {
        model.id
    }

    fn key(&self) -> (id: SessionId) {
        self.id
    }
}

impl Keyed for StreamSession {
    open spec fn key_of(model: StreamSessionModel) -> SessionId {
        model.session.id
    }

    fn key(&self) -> (id: SessionId) {
        self.session.id
    }
}

} // verus!
