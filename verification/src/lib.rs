//! Control logic for conversational AI sessions: attachment and retrieval
//! source validation, one response stream per conversation, paginated
//! history, and the lifecycle of a locally hosted model with its download.
pub mod error;
pub mod text;
pub mod attachment;
pub mod rag;
pub mod download;
pub mod local_ai;
pub mod stream;
pub mod message;
pub mod conversation;
pub mod chat;
pub mod orchestrator;
pub mod model_list;
pub mod completion;
