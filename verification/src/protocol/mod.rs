//! Protocol conversion: the core representation, raw HTTP messages, and the
//! per-protocol adapters.
pub mod chat;
pub mod context;
pub mod google;
pub mod ir;
pub mod raw;
pub mod reasoning;
pub mod signature;
pub mod stream_state;
pub mod responses;
pub mod adapters;
pub mod hooks;
pub mod chat_stream;
pub mod gemini_stream;
pub mod anthropic;
pub mod anthropic_stream;
pub mod responses_stream;
pub mod responses_provider;
pub mod responses_client;
pub mod anthropic_blocks;
pub mod anthropic_adapter;
pub mod chat_adapter;
pub mod google_adapter;
pub mod registry;
