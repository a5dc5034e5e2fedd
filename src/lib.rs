//! Client-side runtime for a model-inference server reached over a message socket.
//!
//! The library holds the decisions of the client: call identifiers, the
//! framing of call envelopes, the correlation of inbound frames with the call
//! in flight, the streaming state machine, the typed method vocabulary, and
//! the supervisory connection state machine. Whoever owns the socket performs
//! the actions these state machines ask for and hands back what happened.
//! It also holds the W++ character-sheet tokenizer, parser and formatter,
//! and the conversation records with their editable, undoable history.

mod character;
mod chat_tree;
mod client;
mod config;
mod envelope;
mod error;
mod exchange;
mod history;
mod ids;
mod models;
mod supervisor;
mod text;
pub mod wpp;

pub use character::Character;
pub use chat_tree::{
    Action, Author, ChatHistoryTree, MessageNode, SaveableChatHistoryTree, SaveableMessage,
    SimpleHistory, SimpleMessage,
};
pub use client::{lemma_call_ids_unique, ClientSocket, UllmApi};
pub use config::{ApiConfig, Config, SubConfig, UllmConfig};
pub use envelope::{lemma_call_text_identifies_call, lemma_uuid_text_injective, MethodCall};
pub use error::AliceError;
pub use exchange::{
    correlate, lemma_foreign_reply_rejected, lemma_frames_in_order, lemma_result_answers_call,
    lemma_undecodable_is_response_error, Call, Inbound, MethodReturn, Progress, Step,
};
pub use history::{chat_prompt, History, Message, PartialHistory};
pub use ids::CallIds;
pub use models::{
    CompletionParams, CompletionResult, CompletionStatus, ConnectionStatus, Engine, ListResult,
    LoadParams, Model, ModelListResult, ModelStatus, SimpleResult, Status, StatusResult,
};
pub use supervisor::{lemma_reconnect_once, StatusEvent, Supervisor, TickAction};
pub use wpp::header::{ChatPromptContext, Header, HeaderItem};
pub use wpp::item::{Attribute, WppItem};
pub use wpp::parser::parse;
pub use wpp::tokenizer::{tokenize, Token};
