//! The decision core of a chat bot that relays thread, forum and mention
//! messages to language-model back ends and keeps a conversation history per
//! session. Sending and receiving is left to the caller.
use vstd::prelude::*;

pub mod chunks;
pub mod config;
pub mod data;
pub mod handler;
pub mod number;
pub mod stream;
pub mod text;

pub use chunks::split_string_into_chunks;
pub use config::{Config, ConfigError};
pub use data::{
    ChatGPT, ChatGPTData, ChatGPTMessage, ChatGPTRequest, ChatGPTResponse, Choice,
    IndividualChatGPT, IndividualChatGPTData, Llama, LlamaData, LlamaMessage, LlamaRequest,
    TranslateRequest, Usage,
};
pub use handler::{Handler, IncomingMessage};

verus! {

} // verus!
