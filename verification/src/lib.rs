//! A host-plugin adapter for a chat-completion HTTP provider.
//!
//! The library holds the verified core: the model registry,
//! configuration resolution, request-body construction, and response
//! translation, all built on a small JSON value model with a verified
//! serializer and parser. The host glue (configuration lookups and the
//! HTTP round trip itself) lives outside the library and hands plain
//! values in and out: a status code and a body come back from the wire,
//! and the translators here turn them into the result handed to the
//! host.

pub mod config;
pub mod errors;
pub mod json;
pub mod parse;
pub mod registry;
pub mod request;
pub mod response;
pub mod text;

pub use config::{resolve_config, temp_resolve, Settings};
pub use errors::{ConfigError, Error};
pub use json::Json;
pub use registry::{default_model, find, models, Model};
pub use request::{auth_header, build_request_body, endpoint, CompletionToolInput, InputSchema, Message, Tool};
pub use response::{
    completion_from_response, decode_chat, tools_from_response, ChatChoice, ChatMessage,
    ChatResult, ToolFunctionResult, ToolResult, Usage,
};
pub use text::{chars_to_string, str_to_chars};
