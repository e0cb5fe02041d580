//! The streaming session engine of a desktop chat client for a generative-model
//! server: chunk decoding, stream sessions, the session multiplexer, and the
//! chat and download state machines, each with a machine-checked contract.
//!
//! The library does no input or output. Whoever performs the requests hands it
//! the bytes that arrive and the failures that occur, and carries out on disk
//! the effects that it returns.

pub mod chat;
pub mod decoder;
pub mod download;
pub mod engine;
pub mod events;
pub mod gui;
pub mod json;
pub mod keyed;
pub mod multiplexer;
pub mod session;
pub mod session_id;
pub mod text;

pub use chat::{ChatEntry, ChatHistory, ChatState, HistoryError, OllamaChat};
pub use decoder::{
    decode_download_chunk, decode_download_line, decode_generate_chunk, decode_generate_value,
};
pub use download::DownloadProgress;
pub use engine::{Report, SessionEngine};
pub use events::{DownloadProgressUpdate, Error, OllamaStreamProgress, StreamEvent};
pub use gui::{AppSettings, AppState, Effect, Message, OllamaGUI};
pub use json::JsonValue;
pub use multiplexer::SessionMultiplexer;
pub use session::{
    subscribe_to_download, subscribe_to_stream, RequestBody, Session, SessionKind, StreamSession,
};
pub use session_id::SessionId;
