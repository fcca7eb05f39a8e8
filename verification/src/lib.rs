//! The rules behind Praxis's AI filters.
//!
//! - [`chat_completions`] tells Chat Completions operations apart by their request
//!   heads, with the matcher of [`operation`]; [`registry_check`] compares the
//!   registry with a specification of the API.
//! - [`promotion`] decides which values may be promoted to which headers, and
//!   [`model_rewrite`] validates the configuration of the model rewrite filter.
//! - [`nemo`] asks a NeMo Guardrails service about messages and turns the answer
//!   into a result.
//!
//! Reading configuration and talking to the network happen outside; the library
//! takes and gives plain values. Strings are reasoned about as sequences of
//! characters, as [`text`] lays down.
pub mod chat_completions;
pub mod error;
pub mod header_name;
pub mod json;
pub mod model_rewrite;
pub mod nemo;
pub mod operation;
pub mod promotion;
pub mod registry_check;
pub mod string_map;
pub mod text;
