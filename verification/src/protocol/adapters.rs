//! The built-in protocol adapters. Each is stateless and serves both as the
//! client-facing side and as the upstream side of its protocol; the
//! conversions themselves are in the protocol modules ([`crate::protocol::chat`],
//! [`crate::protocol::google`], [`crate::protocol::responses`]).
use vstd::prelude::*;
use crate::json::Json;
use crate::protocol::ir::Protocol;

verus! {

/// An upstream provider's endpoint, built by the gateway from its
/// configuration.
#[derive(Debug)]
pub struct ProviderEndpoint {
    /// The provider's unique key.
    pub key: String,
    pub protocol: Protocol,
    /// Base URL, such as `https://api.anthropic.com`.
    pub base_url: String,
    /// API key (decrypted).
    pub api_key: String,
    /// Protocol version header, such as Anthropic's `2023-06-01`.
    pub version: Option<String>,
    pub user_agent: Option<String>,
    /// Protocol-specific extra settings.
    pub extra: Vec<(String, Json)>,
}

impl ProviderEndpoint {
    /// A minimal endpoint: no version, user agent or extras.
    pub fn new(key: &str, protocol: Protocol, base_url: &str, api_key: &str) -> (r: ProviderEndpoint)
        ensures
            r.key@ == key@,
            r.protocol == protocol,
            r.base_url@ == base_url@,
            r.api_key@ == api_key@,
            r.version is None,
            r.user_agent is None,
            r.extra@.len() == 0,
    {
        ProviderEndpoint {
            key: key.to_string(),
            protocol,
            base_url: base_url.to_string(),
            api_key: api_key.to_string(),
            version: None,
            user_agent: None,
            extra: Vec::new(),
        }
    }
}

/// A request ready to be sent upstream.
#[derive(Debug)]
pub struct UpstreamRequest {
    /// The HTTP method's name.
    pub method: String,
    pub url: String,
    pub headers: Vec<(String, String)>,
    /// The JSON body.
    pub body: Json,
    pub stream: bool,
}

/// Anthropic Messages (`/v1/messages`).
#[derive(Debug, Default, Clone, Copy)]
pub struct AnthropicAdapter;

/// Google Generative AI (Gemini).
#[derive(Debug, Default, Clone, Copy)]
pub struct GoogleGenAiAdapter;

/// OpenAI Chat Completions (`/v1/chat/completions`).
#[derive(Debug, Default, Clone, Copy)]
pub struct OpenAiChatAdapter;

/// OpenAI Responses (`/v1/responses`).
#[derive(Debug, Default, Clone, Copy)]
pub struct OpenAiResponsesAdapter;

impl AnthropicAdapter {
    /// The protocol this adapter speaks.
    pub fn protocol(&self) -> (r: Protocol)
        ensures
            r == Protocol::Anthropic,
    {
        Protocol::Anthropic
    }
}

impl GoogleGenAiAdapter {
    /// The protocol this adapter speaks.
    pub fn protocol(&self) -> (r: Protocol)
        ensures
            r == Protocol::GoogleGenai,
    {
        Protocol::GoogleGenai
    }
}

impl OpenAiChatAdapter {
    /// The protocol this adapter speaks.
    pub fn protocol(&self) -> (r: Protocol)
        ensures
            r == Protocol::OpenAiChat,
    {
        Protocol::OpenAiChat
    }
}

impl OpenAiResponsesAdapter {
    /// The protocol this adapter speaks.
    pub fn protocol(&self) -> (r: Protocol)
        ensures
            r == Protocol::OpenAiResponse,
    {
        Protocol::OpenAiResponse
    }
}

} // verus!
