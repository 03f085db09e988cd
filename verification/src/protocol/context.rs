//! The request context: a snapshot of routing and session facts that adapters
//! and plugin hooks read during one request.
use vstd::prelude::*;
use crate::json::Json;
use crate::protocol::ir::Protocol;

verus! {

/// Context of one request.
#[derive(Debug)]
pub struct ReqCtx {
    /// Request id assigned by the gateway.
    pub request_id: String,
    /// Session id (from the `session_id` field or a window-id header).
    pub session_id: Option<String>,
    /// The model alias the client asked for, before routing.
    pub model_alias: String,
    /// Client-side protocol.
    pub client_protocol: Protocol,
    /// Upstream protocol, once routed.
    pub upstream_protocol: Option<Protocol>,
    /// Provider key, once routed.
    pub provider_key: Option<String>,
    /// Route alias, when the model was resolved through the routes table.
    pub route_alias: Option<String>,
    /// Upstream model name, once routed.
    pub upstream_model: Option<String>,
    /// Output token ceiling of the upstream model (fallback for protocols that
    /// require `max_tokens`).
    pub upstream_max_output_tokens: Option<u32>,
    /// Whether the request streams.
    pub stream: bool,
    /// Other metadata, as JSON object members.
    pub meta: Vec<(String, Json)>,
}

impl ReqCtx {
    /// A fresh context for a request arriving over `client_protocol`: nothing
    /// routed yet, not streaming, empty alias and metadata.
    pub fn new(request_id: String, client_protocol: Protocol) -> (r: ReqCtx)
        ensures
            r.request_id@ == request_id@,
            r.session_id is None,
            r.model_alias@.len() == 0,
            r.client_protocol == client_protocol,
            r.upstream_protocol is None,
            r.provider_key is None,
            r.route_alias is None,
            r.upstream_model is None,
            r.upstream_max_output_tokens is None,
            !r.stream,
            r.meta@.len() == 0,
    {
        ReqCtx {
            request_id,
            session_id: None,
            model_alias: String::new(),
            client_protocol,
            upstream_protocol: None,
            provider_key: None,
            route_alias: None,
            upstream_model: None,
            upstream_max_output_tokens: None,
            stream: false,
            meta: Vec::new(),
        }
    }

    /// Records the routing result: upstream protocol and provider key. Every
    /// other field is kept.
    pub fn with_route(self, upstream: Protocol, provider_key: String) -> (r: ReqCtx)
        ensures
            r.upstream_protocol == Some(upstream),
            r.provider_key matches Some(k) && k@ == provider_key@,
            r.request_id == self.request_id,
            r.session_id == self.session_id,
            r.model_alias == self.model_alias,
            r.client_protocol == self.client_protocol,
            r.route_alias == self.route_alias,
            r.upstream_model == self.upstream_model,
            r.upstream_max_output_tokens == self.upstream_max_output_tokens,
            r.stream == self.stream,
            r.meta == self.meta,
    {
        let mut c = self;
        c.upstream_protocol = Some(upstream);
        c.provider_key = Some(provider_key);
        c
    }
}

} // verus!
