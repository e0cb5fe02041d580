//! What a stream session reports: tokens, progress, completion and failure.

use vstd::prelude::*;
use vstd::string::StringExecFns;

verus! {

/// Why a session failed. Each kind carries the description of what went wrong.
#[derive(Debug, PartialEq, Eq)]
pub enum Error {
    /// The transport failed: the request could not be sent or the body not read.
    RequestFailed(String),
    /// A line that had to be JSON was not.
    ParseError(String),
    /// An event could not be handed on.
    ChannelError(String),
}

/// The model of an `Error`.
pub enum ErrorModel {
    RequestFailed(Seq<char>),
    ParseError(Seq<char>),
    ChannelError(Seq<char>),
}

impl ErrorModel {
    /// The error as one text: the name of its kind, and in brackets what it carries.
    pub open spec fn description(self) -> Seq<char> {
        match self {
            ErrorModel::RequestFailed(detail) => "RequestFailed("@ + detail + ")"@,
            ErrorModel::ParseError(detail) => "ParseError("@ + detail + ")"@,
            ErrorModel::ChannelError(detail) => "ChannelError("@ + detail + ")"@,
        }
    }
}

impl View for Error {
    type V = ErrorModel;

    open spec fn view(&self) -> ErrorModel {
        match self {
            Error::RequestFailed(detail) => ErrorModel::RequestFailed(detail@),
            Error::ParseError(detail) => ErrorModel::ParseError(detail@),
            Error::ChannelError(detail) => ErrorModel::ChannelError(detail@),
        }
    }
}

impl Error {
    /// The error as one text.
    pub fn describe(&self) -> (text: String)
        ensures
            text@ == self@.description(),
    {
        let (kind, detail) = match self {
            Error::RequestFailed(detail) => ("RequestFailed(", detail),
            Error::ParseError(detail) => ("ParseError(", detail),
            Error::ChannelError(detail) => ("ChannelError(", detail),
        };
        let mut text = String::from_str(kind);
        text.append(detail.as_str());
        text.append(")");
        text
    }

}

impl Clone for Error {
    fn clone(&self) -> (copy: Error)
        ensures
            copy@ == self@,
    {
        match self {
            Error::RequestFailed(detail) => Error::RequestFailed(detail.clone()),
            Error::ParseError(detail) => Error::ParseError(detail.clone()),
            Error::ChannelError(detail) => Error::ChannelError(detail.clone()),
        }
    }
}

/// What a generation stream reports while it runs.
#[derive(Debug, PartialEq, Eq)]
pub enum OllamaStreamProgress {
    /// The next piece of the answer.
    Streaming { token: String },
    /// The answer is complete; `context` continues the conversation.
    Finished { context: Vec<u64> },
}

/// The model of an `OllamaStreamProgress`.
pub enum StreamProgressModel {
    Streaming { token: Seq<char> },
    Finished { context: Seq<u64> },
}

impl View for OllamaStreamProgress {
    type V = StreamProgressModel;

    open spec fn view(&self) -> StreamProgressModel {
        match self {
            OllamaStreamProgress::Streaming { token } => StreamProgressModel::Streaming {
                token: token@,
            },
            OllamaStreamProgress::Finished { context } => StreamProgressModel::Finished {
                context: context@,
            },
        }
    }
}

impl Clone for OllamaStreamProgress {
    fn clone(&self) -> (copy: OllamaStreamProgress)
        ensures
            copy@ == self@,
    {
        match self {
            OllamaStreamProgress::Streaming { token } => OllamaStreamProgress::Streaming {
                token: token.clone(),
            },
            OllamaStreamProgress::Finished { context } => OllamaStreamProgress::Finished {
                context: context.clone(),
            },
        }
    }
}

/// What a model download reports while it runs.
#[derive(Debug, PartialEq, Eq)]
pub enum DownloadProgressUpdate {
    /// The server's latest word on the download.
    Progress { status: String, total: u64, completed: u64 },
    /// The download is complete.
    Finished,
}

/// The model of a `DownloadProgressUpdate`.
pub enum DownloadUpdateModel {
    Progress { status: Seq<char>, total: u64, completed: u64 },
    Finished,
}

impl View for DownloadProgressUpdate {
    type V = DownloadUpdateModel;

    open spec fn view(&self) -> DownloadUpdateModel {
        match self {
            DownloadProgressUpdate::Progress {
                status,
                total,
                completed,
            } => DownloadUpdateModel::Progress {
                status: status@,
                total: *total,
                completed: *completed,
            },
            DownloadProgressUpdate::Finished => DownloadUpdateModel::Finished,
        }
    }
}

impl Clone for DownloadProgressUpdate {
    fn clone(&self) -> (copy: DownloadProgressUpdate)
        ensures
            copy@ == self@,
    {
        match self {
            DownloadProgressUpdate::Progress {
                status,
                total,
                completed,
            } => DownloadProgressUpdate::Progress {
                status: status.clone(),
                total: *total,
                completed: *completed,
            },
            DownloadProgressUpdate::Finished => DownloadProgressUpdate::Finished,
        }
    }
}

/// The model of what a generation stream yields: progress or failure.
pub type ChatOutcomeModel = Result<StreamProgressModel, ErrorModel>;

/// The model of what a download stream yields: progress or failure.
pub type DownloadOutcomeModel = Result<DownloadUpdateModel, ErrorModel>;

/// The model of one outcome of a generation stream.
pub open spec fn chat_outcome_view(outcome: Result<OllamaStreamProgress, Error>) -> ChatOutcomeModel {
    match outcome {
        Ok(progress) => Ok(progress@),
        Err(error) => Err(error@),
    }
}

/// The model of one outcome of a download stream.
pub open spec fn download_outcome_view(
    outcome: Result<DownloadProgressUpdate, Error>,
) -> DownloadOutcomeModel {
    match outcome {
        Ok(update) => Ok(update@),
        Err(error) => Err(error@),
    }
}

/// The models of the outcomes of a download stream, in order.
pub open spec fn download_outcome_views(
    outcomes: Seq<Result<DownloadProgressUpdate, Error>>,
) -> Seq<DownloadOutcomeModel> {
    outcomes.map_values(|outcome: Result<DownloadProgressUpdate, Error>| download_outcome_view(outcome))
}

/// An event of a stream session, of either protocol.
#[derive(Debug, PartialEq, Eq)]
pub enum StreamEvent {
    /// An outcome of a generation stream.
    Chat(Result<OllamaStreamProgress, Error>),
    /// An outcome of a download stream.
    Download(Result<DownloadProgressUpdate, Error>),
}

/// The model of a `StreamEvent`.
pub enum StreamEventModel {
    Chat(ChatOutcomeModel),
    Download(DownloadOutcomeModel),
}

impl StreamEventModel {
    /// Whether the event ends its session: the answer is complete, the
    /// download is complete, or the session failed.
    pub open spec fn is_terminal(self) -> bool {
        match self {
            StreamEventModel::Chat(Ok(StreamProgressModel::Streaming { .. })) => false,
            StreamEventModel::Download(Ok(DownloadUpdateModel::Progress { .. })) => false,
            _ => true,
        }
    }
}

impl View for StreamEvent {
    type V = StreamEventModel;

    open spec fn view(&self) -> StreamEventModel {
        match self {
            StreamEvent::Chat(outcome) => StreamEventModel::Chat(chat_outcome_view(*outcome)),
            StreamEvent::Download(outcome) => StreamEventModel::Download(
                download_outcome_view(*outcome),
            ),
        }
    }
}

impl Clone for StreamEvent {
    fn clone(&self) -> (copy: StreamEvent)
        ensures
            copy@ == self@,
    {
        match self {
            StreamEvent::Chat(Ok(progress)) => StreamEvent::Chat(Ok(progress.clone())),
            StreamEvent::Chat(Err(error)) => StreamEvent::Chat(Err(error.clone())),
            StreamEvent::Download(Ok(update)) => StreamEvent::Download(Ok(update.clone())),
            StreamEvent::Download(Err(error)) => StreamEvent::Download(Err(error.clone())),
        }
    }
}

/// The models of the events, in order.
pub open spec fn event_views(events: Seq<StreamEvent>) -> Seq<StreamEventModel> {
    events.map_values(|event: StreamEvent| event@)
}

impl StreamEvent {
    /// Whether the event ends its session.
    pub fn is_terminal(&self) -> (terminal: bool)
        ensures
            terminal == self@.is_terminal(),
    {
        match self {
            StreamEvent::Chat(Ok(OllamaStreamProgress::Streaming { .. })) => false,
            StreamEvent::Download(Ok(DownloadProgressUpdate::Progress { .. })) => false,
            _ => true,
        }
    }
}

} // verus!
