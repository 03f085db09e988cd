//! The hooks used when no plugin is enabled: every hook leaves what it is
//! given as it is.
use vstd::prelude::*;
use crate::protocol::context::ReqCtx;
use crate::protocol::ir::{ContentBlock, CoreRequest, CoreResponse, CoreStreamEvent, Tool};
use crate::protocol::raw::{ChunkVerdict, RawChunk, RawMessage, RawVerdict};

verus! {

/// Hooks that do nothing.
#[derive(Debug, Default, Clone, Copy)]
pub struct NoopHooks;

impl NoopHooks {
    /// Leaves the request unchanged.
    pub fn on_request(&self, _ctx: &ReqCtx, req: &mut CoreRequest)
        ensures
            *final(req) == *old(req),
    {
    }

    /// Injects no tools.
    pub fn inject_tools(&self, _ctx: &ReqCtx) -> (r: Vec<Tool>)
        ensures
            r@.len() == 0,
    {
        Vec::new()
    }

    /// Leaves the response unchanged.
    pub fn on_response(&self, _ctx: &ReqCtx, resp: &mut CoreResponse)
        ensures
            *final(resp) == *old(resp),
    {
    }

    /// Keeps every stream event (never asks to drop it).
    pub fn on_stream_event(&self, _ctx: &ReqCtx, ev: &mut CoreStreamEvent) -> (drop: bool)
        ensures
            !drop,
            *final(ev) == *old(ev),
    {
        false
    }

    /// Keeps every content block (never asks to skip it).
    pub fn filter_content(&self, _ctx: &ReqCtx, block: &mut ContentBlock) -> (skip: bool)
        ensures
            !skip,
            *final(block) == *old(block),
    {
        false
    }

    /// Returns the upstream error message as it is.
    pub fn transform_error(&self, _ctx: &ReqCtx, msg: &str) -> (r: String)
        ensures
            r@ == msg@,
    {
        msg.to_string()
    }

    /// Passes the client request on unchanged.
    pub fn on_client_request_raw(&self, _ctx: &ReqCtx, m: &mut RawMessage) -> (r: RawVerdict)
        ensures
            r == RawVerdict::Pass,
            *final(m) == *old(m),
    {
        RawVerdict::Pass
    }

    /// Passes the upstream request on unchanged.
    pub fn on_upstream_request_raw(&self, _ctx: &ReqCtx, m: &mut RawMessage) -> (r: RawVerdict)
        ensures
            r == RawVerdict::Pass,
            *final(m) == *old(m),
    {
        RawVerdict::Pass
    }

    /// Passes the upstream response on unchanged.
    pub fn on_upstream_response_raw(&self, _ctx: &ReqCtx, m: &mut RawMessage) -> (r: RawVerdict)
        ensures
            r == RawVerdict::Pass,
            *final(m) == *old(m),
    {
        RawVerdict::Pass
    }

    /// Passes the client response on unchanged.
    pub fn on_client_response_raw(&self, _ctx: &ReqCtx, m: &mut RawMessage) -> (r: RawVerdict)
        ensures
            r == RawVerdict::Pass,
            *final(m) == *old(m),
    {
        RawVerdict::Pass
    }

    /// Forwards the upstream chunk unchanged.
    pub fn on_upstream_chunk_raw(&self, _ctx: &ReqCtx, c: &mut RawChunk) -> (r: ChunkVerdict)
        ensures
            r == ChunkVerdict::Forward,
            *final(c) == *old(c),
    {
        ChunkVerdict::Forward
    }

    /// Forwards the client chunk unchanged.
    pub fn on_client_chunk_raw(&self, _ctx: &ReqCtx, c: &mut RawChunk) -> (r: ChunkVerdict)
        ensures
            r == ChunkVerdict::Forward,
            *final(c) == *old(c),
    {
        ChunkVerdict::Forward
    }

    /// Enabled for every model.
    pub fn enabled_for_model(&self, _model: &str) -> (r: bool)
        ensures
            r,
    {
        true
    }
}

} // verus!
