//! Gemini `generateContent` requests and responses: a core request into a
//! Gemini request (the upstream side), a Gemini request into a core request
//! (the client side), and the responses both ways.
use vstd::prelude::*;
use crate::json::{fields_view, find_field, items_view, json_view, lemma_fields_view, lemma_items_view, lookup, set_field, with_field, with_member, Json, JsonNum, JsonV};
use crate::protocol::adapters::{GoogleGenAiAdapter, ProviderEndpoint, UpstreamRequest};
use crate::protocol::anthropic_adapter::{string_items, strings_of};
use crate::protocol::chat::{str_field, str_or_empty};
use crate::protocol::chat_stream::{jfield, jobject};
use crate::protocol::context::ReqCtx;
use crate::protocol::google::{candidate_content, candidate_to_core, contents_messages, contents_to_core, core_to_contents, core_to_generation_config, core_to_parts, core_to_system_instruction, core_to_tool_config, core_to_tools, content_value, finish_reason_name, finish_reason_of, gem_contents, all_names, gemini_tools, gemini_tools_core, gemini_usage, gemini_usage_value, generate_path, generate_path_of, generation_config, instruction_blocks, opt_choice, parts_blocks, parts_of, response_parts, stream_path, stream_path_of, strip_trailing_slashes, system_instruction, system_instruction_to_core, tool_config_choice, tool_config_to_core, tool_config_value, tools_to_core, trim_end_slashes, unmap_stop_reason, usage_from_gemini, usage_object, DEFAULT_VERSION};
use crate::protocol::ir::{blocks_view, lemma_blocks_view, message_view, opt_view, tool_choice_view, tool_view, BlockV, ContentBlock, CoreRequest, CoreResponse, Message, Reasoning, Role, StopReason, Tool, ToolV, Usage};
use crate::protocol::reasoning::{budget_for, effort_for, effort_from_budget, is_level, lemma_level_names};
use crate::protocol::responses_client::{flag_of, msgs_view, number_field, number_of, opt_num};
use crate::protocol::responses_provider::{has_tool_use, opt_with};
use crate::text::{concat_str, eq_ignore_case, str_eq, str_eq_ignore_case};

verus! {

/// The unparsed Gemini fields a request carries along (its `gemini.extra`
/// metadata, when an object), else an empty object.
pub open spec fn gemini_extra_base(meta: Seq<(Seq<char>, JsonV)>) -> JsonV {
    match find_field(meta, "gemini.extra"@) {
        Some(JsonV::Object(fs)) => JsonV::Object(fs),
        _ => JsonV::Object(Seq::empty()),
    }
}

/// `base` with each member of `computed` set in turn (`Map::insert`).
pub open spec fn merge_fields(base: Seq<(Seq<char>, JsonV)>, computed: Seq<(Seq<char>, JsonV)>) -> Seq<(Seq<char>, JsonV)>
    decreases computed.len(),
{
    if computed.len() == 0 {
        base
    } else {
        set_field(merge_fields(base, computed.drop_last()), computed.last().0, computed.last().1)
    }
}

/// The members of a value when it is an object, else none.
pub open spec fn object_members(v: Option<JsonV>) -> Seq<(Seq<char>, JsonV)> {
    match v {
        Some(JsonV::Object(fs)) => fs,
        _ => Seq::empty(),
    }
}

/// The body of the Gemini request for a core request: the carried-along
/// fields, then (each replacing a field of the same name) `contents`, and
/// `systemInstruction`, `tools`, `toolConfig` when there are any; the
/// computed `generationConfig`, when there is one, is merged over the
/// carried-along one, the computed members winning.
pub open spec fn gemini_body(req: CoreRequest) -> JsonV {
    let ms = msgs_view(req.messages@);
    let b0 = gemini_extra_base(fields_view(req.meta@));
    let b1 = with_field(
        b0,
        "contents"@,
        JsonV::Array(gem_contents(ms, all_names(ms)).map_values(|c: (Seq<char>, Seq<JsonV>)| content_value(c))),
    );
    let b2 = opt_with(b1, "systemInstruction"@, system_instruction(blocks_view(req.system@), ms));
    let b3 = opt_with(b2, "tools"@, gemini_tools(req.tools@.map_values(|t: Tool| tool_view(t))));
    let b4 = opt_with(b3, "toolConfig"@, match req.tool_choice {
        Some(t) => Some(tool_config_value(tool_choice_view(t))),
        None => None,
    });
    match generation_config(req) {
        Some(gc) => with_field(
            b4,
            "generationConfig"@,
            JsonV::Object(merge_fields(object_members(b4.field("generationConfig"@)), object_members(Some(gc)))),
        ),
        None => b4,
    }
}

/// Whether the endpoint asks for bearer authorization (its `auth` setting is
/// `bearer`, in any case).
pub open spec fn uses_bearer(extra: Seq<(Seq<char>, JsonV)>) -> bool {
    match find_field(extra, "auth"@) {
        Some(JsonV::Str(s)) => eq_ignore_case(s, "bearer"@),
        _ => false,
    }
}

/// The request headers: JSON content, the key (as a bearer token, or in
/// `x-goog-api-key`), and the user agent when configured.
pub open spec fn gemini_headers(api_key: Seq<char>, bearer: bool, user_agent: Option<Seq<char>>) -> Seq<
    (Seq<char>, Seq<char>),
> {
    seq![
        ("content-type"@, "application/json"@),
        if bearer {
            ("authorization"@, "Bearer "@ + api_key)
        } else {
            ("x-goog-api-key"@, api_key)
        },
    ] + match user_agent {
        Some(ua) => seq![("user-agent"@, ua)],
        None => Seq::empty(),
    }
}

/// The path of a request: streaming or not, for the endpoint's API version
/// (the default without one) and the request's model.
pub open spec fn gemini_path(version: Option<Seq<char>>, model: Seq<char>, stream: bool) -> Seq<char> {
    let v = match version {
        Some(x) => x,
        None => DEFAULT_VERSION@,
    };
    if stream {
        stream_path_of(v, model)
    } else {
        generate_path_of(v, model)
    }
}

/// The first candidate of a response, or null.
pub open spec fn first_candidate(raw: JsonV) -> JsonV {
    match raw.field("candidates"@) {
        Some(JsonV::Array(a)) => if a.len() > 0 {
            a[0]
        } else {
            JsonV::Null
        },
        _ => JsonV::Null,
    }
}

/// The members of the request that the core request holds.
pub open spec fn is_known_gemini_member(k: Seq<char>) -> bool {
    k == "model"@ || k == "systemInstruction"@ || k == "system_instruction"@ || k == "contents"@ || k == "tools"@
        || k == "toolConfig"@ || k == "tool_config"@ || k == "generationConfig"@ || k == "generation_config"@ || k
        == "stream"@
}

/// The members of the generation config that the core request holds.
pub open spec fn is_known_config_member(k: Seq<char>) -> bool {
    k == "maxOutputTokens"@ || k == "temperature"@ || k == "topP"@ || k == "stopSequences"@ || k == "thinkingConfig"@
}

pub open spec fn unknown_members(fs: Seq<(Seq<char>, JsonV)>, config: bool) -> Seq<(Seq<char>, JsonV)>
    decreases fs.len(),
{
    if fs.len() == 0 {
        Seq::empty()
    } else {
        unknown_members(fs.drop_last(), config) + if (if config {
            is_known_config_member(fs.last().0)
        } else {
            is_known_gemini_member(fs.last().0)
        }) {
            Seq::empty()
        } else {
            seq![fs.last()]
        }
    }
}

/// `raw[a]`, else `raw[b]`.
pub open spec fn field_or(raw: JsonV, a: Seq<char>, b: Seq<char>) -> Option<JsonV> {
    match raw.field(a) {
        Some(v) => Some(v),
        None => raw.field(b),
    }
}

/// The metadata of a Gemini request: its other members, with the generation
/// config's other members as a `generationConfig` object, kept as
/// `gemini.extra` when there are any.
pub open spec fn gemini_request_meta(raw: JsonV) -> Seq<(Seq<char>, JsonV)> {
    match raw {
        JsonV::Object(fs) => {
            let extra = unknown_members(fs, false);
            let gc_extra = match field_or(raw, "generationConfig"@, "generation_config"@) {
                Some(JsonV::Object(g)) => unknown_members(g, true),
                _ => Seq::empty(),
            };
            let all = if gc_extra.len() > 0 {
                set_field(extra, "generationConfig"@, JsonV::Object(gc_extra))
            } else {
                extra
            };
            if all.len() > 0 {
                seq![("gemini.extra"@, JsonV::Object(all))]
            } else {
                Seq::empty()
            }
        },
        _ => Seq::empty(),
    }
}

/// The reasoning effort of a `thinkingConfig`: its `thinkingLevel`, else the
/// level of its `thinkingBudget`; none when empty.
pub open spec fn thinking_effort_of(tc: JsonV) -> Option<Seq<char>> {
    let e = match tc.field_str("thinkingLevel"@) {
        Some(l) => Some(l),
        None => match tc.field_u64("thinkingBudget"@) {
            Some(b) => Some(effort_for(b as u32)),
            None => None,
        },
    };
    match e {
        Some(s) => if s.len() > 0 {
            Some(s)
        } else {
            None
        },
        None => None,
    }
}

/// A Gemini thinking budget without a named level reads as the highest
/// effort level whose budget does not exceed it (the lowest level,
/// `minimal`, for a budget below every level's).
pub proof fn law_gemini_budget_reads_as_highest_level_within(tc: JsonV, b: u64)
    requires
        tc.field_str("thinkingLevel"@) is None,
        tc.field_u64("thinkingBudget"@) == Some(b),
        b <= u32::MAX,
    ensures
        thinking_effort_of(tc) matches Some(e) && is_level(e) && (b >= 1024 ==> budget_for(e) <= b) && (b
            < 1024 ==> e == "minimal"@) && forall|l: Seq<char>|
            is_level(l) && budget_for(l) <= b ==> budget_for(l) <= budget_for(e),
{
    lemma_level_names();
    reveal_strlit("minimal");
    reveal_strlit("low");
    reveal_strlit("medium");
    reveal_strlit("high");
    reveal_strlit("xhigh");
    reveal_strlit("max");
    let e = effort_for(b as u32);
    assert(e.len() > 0);
    assert(thinking_effort_of(tc) == Some(e));
}

/// The Gemini response object of a core response.
pub open spec fn gemini_response(resp: CoreResponse) -> JsonV {
    JsonV::Object(
        seq![
            ("candidates"@, JsonV::Array(
                seq![JsonV::Object(
                    seq![
                        ("content"@, JsonV::Object(
                            seq![
                                ("role"@, JsonV::Str("model"@)),
                                ("parts"@, JsonV::Array(response_parts(blocks_view(resp.content@)))),
                            ],
                        )),
                        ("finishReason"@, JsonV::Str(finish_reason_name(resp.stop_reason))),
                        ("index"@, JsonV::PosInt(0)),
                    ],
                )],
            )),
            ("usageMetadata"@, gemini_usage_value(resp.usage)),
            ("modelVersion"@, JsonV::Str(resp.model@)),
            ("responseId"@, JsonV::Str(resp.id@)),
        ],
    )
}

} // verus!

verus! {

/// The computed generation config merged over the one in `body` (see
/// [`merge_fields`]).
fn merged_config(body: &Json, gc: &Json) -> (r: Json)
    ensures
        r@ == JsonV::Object(merge_fields(object_members(body@.field("generationConfig"@)), object_members(Some(gc@)))),
{
    let mut merged: Json = match body.get("generationConfig") {
        Some(v) => match v {
            Json::Object(_) => v.deep_clone(),
            _ => crate::json::empty_object(),
        },
        None => crate::json::empty_object(),
    };
    let ghost base = object_members(body@.field("generationConfig"@));
    assert(merged@ == JsonV::Object(merge_fields(base, Seq::empty())));
    match gc {
        Json::Object(fs) => {
            proof {
                lemma_fields_view(fs@);
            }
            let ghost fv = fields_view(fs@);
            let mut i: usize = 0;
            proof {
                assert(fv.take(0) =~= Seq::<(Seq<char>, JsonV)>::empty());
            }
            while i < fs.len()
                invariant
                    i <= fs@.len() == fv.len(),
                    fv == fields_view(fs@),
                    forall|k: int| 0 <= k < fs@.len() ==> #[trigger] fv[k] == (fs@[k].0@, json_view(fs@[k].1)),
                    merged@ == JsonV::Object(merge_fields(base, fv.take(i as int))),
                decreases fs@.len() - i,
            {
                proof {
                    assert(fv.take(i + 1).drop_last() == fv.take(i as int));
                    assert(fv.take(i + 1).last() == fv[i as int]);
                }
                merged = with_member(merged, fs[i].0.clone(), fs[i].1.deep_clone());
                i = i + 1;
            }
            proof {
                assert(fv.take(fv.len() as int) == fv);
            }
        },
        _ => {},
    }
    merged
}

/// The request body (see [`gemini_body`]).
pub fn build_gemini_body(req: &CoreRequest) -> (r: Json)
    ensures
        r@ == gemini_body(*req),
{
    proof {
        lemma_fields_view(req.meta@);
    }
    let ms = req.messages.as_slice();
    assert(ms@ == req.messages@);
    let b0 = match lookup(&req.meta, "gemini.extra") {
        Some(v) => match v {
            Json::Object(_) => v.deep_clone(),
            _ => crate::json::empty_object(),
        },
        None => crate::json::empty_object(),
    };
    assert(b0@ == gemini_extra_base(fields_view(req.meta@)));
    let contents = core_to_contents(ms);
    proof {
        lemma_items_view(contents@);
        assert(items_view(contents@) =~= contents@.map_values(|j: Json| j@));
    }
    let b1 = with_member(b0, "contents".to_string(), Json::Array(contents));
    let b2 = match core_to_system_instruction(&req.system, ms) {
        Some(si) => with_member(b1, "systemInstruction".to_string(), si),
        None => b1,
    };
    let ts = req.tools.as_slice();
    assert(ts@ == req.tools@);
    let b3 = match core_to_tools(ts) {
        Some(t) => with_member(b2, "tools".to_string(), t),
        None => b2,
    };
    let tc = match &req.tool_choice {
        Some(t) => Some(t),
        None => None,
    };
    let b4 = match core_to_tool_config(tc) {
        Some(c) => with_member(b3, "toolConfig".to_string(), c),
        None => b3,
    };
    match core_to_generation_config(req) {
        Some(gc) => {
            let merged = merged_config(&b4, &gc);
            with_member(b4, "generationConfig".to_string(), merged)
        },
        None => b4,
    }
}

impl GoogleGenAiAdapter {
    /// Core request → Gemini upstream request: `POST` to the base URL
    /// (trailing slashes dropped) followed by the streaming or plain path of
    /// the request's model, with the headers of [`gemini_headers`] and the
    /// body of [`gemini_body`].
    pub fn from_core_request(&self, _ctx: &ReqCtx, req: &CoreRequest, endpoint: &ProviderEndpoint) -> (r: UpstreamRequest)
        ensures
            r.method@ == "POST"@,
            r.url@ == strip_trailing_slashes(endpoint.base_url@) + gemini_path(opt_view(endpoint.version), req.model@, req.stream),
            r.headers@.map_values(|h: (String, String)| (h.0@, h.1@)) == gemini_headers(
                endpoint.api_key@,
                uses_bearer(fields_view(endpoint.extra@)),
                opt_view(endpoint.user_agent),
            ),
            r.body@ == gemini_body(*req),
            r.stream == req.stream,
    {
        let version: &str = match &endpoint.version {
            Some(v) => v.as_str(),
            None => DEFAULT_VERSION,
        };
        let path = if req.stream {
            stream_path(version, req.model.as_str())
        } else {
            generate_path(version, req.model.as_str())
        };
        let base = trim_end_slashes(endpoint.base_url.as_str());
        let url = concat_str(base.as_str(), path.as_str());
        proof {
            lemma_fields_view(endpoint.extra@);
        }
        let bearer = match lookup(&endpoint.extra, "auth") {
            Some(v) => match v.as_str() {
                Some(s) => str_eq_ignore_case(s, "bearer"),
                None => false,
            },
            None => false,
        };
        let mut headers: Vec<(String, String)> = Vec::new();
        headers.push(("content-type".to_string(), "application/json".to_string()));
        if bearer {
            headers.push(("authorization".to_string(), concat_str("Bearer ", endpoint.api_key.as_str())));
        } else {
            headers.push(("x-goog-api-key".to_string(), endpoint.api_key.clone()));
        }
        if let Some(ua) = &endpoint.user_agent {
            headers.push(("user-agent".to_string(), ua.clone()));
        }
        proof {
            assert(headers@.map_values(|h: (String, String)| (h.0@, h.1@)) =~= gemini_headers(
                endpoint.api_key@,
                uses_bearer(fields_view(endpoint.extra@)),
                opt_view(endpoint.user_agent),
            ));
        }
        UpstreamRequest { method: "POST".to_string(), url, headers, body: build_gemini_body(req), stream: req.stream }
    }

    /// Gemini response → core response: response id and model version (empty
    /// when absent), the blocks of the first candidate, `tool_use` as the stop
    /// reason when a function is called (Gemini reports `STOP` then), else the
    /// candidate's finish reason or `end_turn`, and the usage (zero when
    /// absent).
    pub fn to_core_response(&self, _ctx: &ReqCtx, raw: &Json) -> (r: CoreResponse)
        ensures
            r.id@ == str_or_empty(raw@, "responseId"@),
            r.model@ == str_or_empty(raw@, "modelVersion"@),
            blocks_view(r.content@) == parts_blocks(parts_of(candidate_content(first_candidate(raw@)))),
            r.stop_reason == if has_tool_use(parts_blocks(parts_of(candidate_content(first_candidate(raw@))))) {
                Some(StopReason::ToolUse)
            } else {
                match first_candidate(raw@).field_str("finishReason"@) {
                    Some(s) => match finish_reason_of(s) {
                        Some(x) => Some(x),
                        None => Some(StopReason::EndTurn),
                    },
                    None => Some(StopReason::EndTurn),
                }
            },
            r.usage == match raw@.field("usageMetadata"@) {
                Some(u) => gemini_usage(u),
                None => Usage { input_tokens: 0, output_tokens: 0, cache_read_tokens: 0, cache_write_tokens: 0, reasoning_tokens: 0 },
            },
    {
        let null = Json::Null;
        let cand: &Json = match raw.get("candidates") {
            Some(Json::Array(a)) => {
                proof {
                    lemma_items_view(a@);
                }
                if a.len() > 0 {
                    &a[0]
                } else {
                    &null
                }
            },
            _ => &null,
        };
        let (content, finish) = candidate_to_core(cand);
        let ghost bv = blocks_view(content@);
        proof {
            lemma_blocks_view(content@);
        }
        let mut tool = false;
        let mut k: usize = 0;
        while k < content.len()
            invariant
                k <= content@.len() == bv.len(),
                bv == blocks_view(content@),
                forall|j: int| 0 <= j < content@.len() ==> #[trigger] bv[j] == crate::protocol::ir::block_view(content@[j]),
                tool == (exists|j: int| 0 <= j < k && #[trigger] bv[j] is ToolUse),
            decreases content@.len() - k,
        {
            let t = matches!(content[k], ContentBlock::ToolUse { .. });
            proof {
                assert(t == bv[k as int] is ToolUse);
                if !t && !tool {
                    assert forall|j: int| 0 <= j < k + 1 implies !(#[trigger] bv[j] is ToolUse) by {
                        if j < k {
                            assert(!(exists|q: int| 0 <= q < k && #[trigger] bv[q] is ToolUse) ==> !(bv[j] is ToolUse));
                        }
                    }
                }
            }
            tool = tool || t;
            k = k + 1;
        }
        let stop_reason = if tool {
            Some(StopReason::ToolUse)
        } else {
            match finish {
                Some(x) => Some(x),
                None => Some(StopReason::EndTurn),
            }
        };
        let usage = match raw.get("usageMetadata") {
            Some(u) => usage_from_gemini(u),
            None => Usage::zero(),
        };
        CoreResponse {
            id: str_field(raw, "responseId"),
            model: str_field(raw, "modelVersion"),
            content,
            stop_reason,
            usage,
        }
    }

    /// Core response → Gemini response object (see [`gemini_response`]).
    pub fn from_core_response(&self, _ctx: &ReqCtx, resp: &CoreResponse) -> (r: Json)
        requires
            resp.usage.input_tokens + resp.usage.output_tokens <= u32::MAX,
        ensures
            r@ == gemini_response(*resp),
    {
        let cs = resp.content.as_slice();
        assert(cs@ == resp.content@);
        let parts = core_to_parts(cs);
        let mut content: Vec<(String, Json)> = Vec::new();
        content.push(jfield("role", Json::Str("model".to_string())));
        content.push(jfield("parts", Json::Array(parts)));
        proof {
            lemma_fields_view(content@);
        }
        let mut cand: Vec<(String, Json)> = Vec::new();
        cand.push(jfield("content", jobject(content)));
        cand.push(jfield("finishReason", Json::Str(unmap_stop_reason(resp.stop_reason).to_string())));
        cand.push(jfield("index", Json::Num(JsonNum::PosInt(0))));
        proof {
            lemma_fields_view(cand@);
        }
        let c = jobject(cand);
        let mut cands: Vec<Json> = Vec::new();
        cands.push(c);
        proof {
            lemma_items_view(cands@);
            assert(items_view(cands@) =~= seq![c@]);
        }
        let mut fs: Vec<(String, Json)> = Vec::new();
        fs.push(jfield("candidates", Json::Array(cands)));
        fs.push(jfield("usageMetadata", usage_object(&resp.usage)));
        fs.push(jfield("modelVersion", Json::Str(resp.model.clone())));
        fs.push(jfield("responseId", Json::Str(resp.id.clone())));
        proof {
            lemma_fields_view(fs@);
            let exp = gemini_response(*resp)->Object_0;
            let ce = exp[0].1->Array_0[0]->Object_0;
            assert(fields_view(content@) =~= ce[0].1->Object_0);
            assert(fields_view(cand@) =~= ce);
            assert(fields_view(fs@) =~= exp);
        }
        jobject(fs)
    }
}

} // verus!

verus! {

/// The members of an object that the core request does not hold (see
/// [`unknown_members`]).
fn unknown_fields(fs: &Vec<(String, Json)>, config: bool) -> (r: Vec<(String, Json)>)
    ensures
        fields_view(r@) == unknown_members(fields_view(fs@), config),
{
    proof {
        lemma_fields_view(fs@);
    }
    let ghost fv = fields_view(fs@);
    let mut out: Vec<(String, Json)> = Vec::new();
    proof {
        lemma_fields_view(out@);
        assert(fields_view(out@) =~= unknown_members(fv.take(0), config));
    }
    let mut i: usize = 0;
    while i < fs.len()
        invariant
            i <= fs@.len() == fv.len(),
            fv == fields_view(fs@),
            forall|k: int| 0 <= k < fs@.len() ==> #[trigger] fv[k] == (fs@[k].0@, json_view(fs@[k].1)),
            fields_view(out@) == unknown_members(fv.take(i as int), config),
        decreases fs@.len() - i,
    {
        proof {
            assert(fv.take(i + 1).drop_last() == fv.take(i as int));
            assert(fv.take(i + 1).last() == fv[i as int]);
        }
        let k = fs[i].0.as_str();
        let known = if config {
            str_eq(k, "maxOutputTokens") || str_eq(k, "temperature") || str_eq(k, "topP") || str_eq(k, "stopSequences")
                || str_eq(k, "thinkingConfig")
        } else {
            str_eq(k, "model") || str_eq(k, "systemInstruction") || str_eq(k, "system_instruction") || str_eq(
                k,
                "contents",
            ) || str_eq(k, "tools") || str_eq(k, "toolConfig") || str_eq(k, "tool_config") || str_eq(
                k,
                "generationConfig",
            ) || str_eq(k, "generation_config") || str_eq(k, "stream")
        };
        if !known {
            let ghost before = out@;
            out.push((fs[i].0.clone(), fs[i].1.deep_clone()));
            proof {
                lemma_fields_view(before);
                lemma_fields_view(out@);
                assert(fields_view(out@) =~= fields_view(before).push(fv[i as int]));
            }
        } else {
            proof {
                assert(fields_view(out@) + Seq::<(Seq<char>, JsonV)>::empty() == fields_view(out@));
            }
        }
        i = i + 1;
    }
    proof {
        assert(fv.take(fv.len() as int) == fv);
    }
    out
}

fn get_either<'a>(raw: &'a Json, a: &str, b: &str) -> (r: Option<&'a Json>)
    ensures
        match r {
            Some(v) => field_or(raw@, a@, b@) == Some(v@),
            None => field_or(raw@, a@, b@) is None,
        },
{
    match raw.get(a) {
        Some(v) => Some(v),
        None => raw.get(b),
    }
}

impl GoogleGenAiAdapter {
    /// Gemini request → core request: model (the body's when non-empty, else
    /// the context's alias; also the alias), system instruction, contents,
    /// tools, tool config, the generation config's limit, sampling numbers,
    /// stop sequences and thinking effort, the stream flag (the context's
    /// when the body has none), and the other members as metadata.
    pub fn to_core_request(&self, ctx: &ReqCtx, raw: &Json) -> (r: CoreRequest)
        ensures
            r.model@ == match raw@.field_str("model"@) {
                Some(m) => if m.len() > 0 {
                    m
                } else {
                    ctx.model_alias@
                },
                None => ctx.model_alias@,
            },
            r.model_alias@ == r.model@,
            blocks_view(r.system@) == instruction_blocks(field_or(raw@, "systemInstruction"@, "system_instruction"@)),
            msgs_view(r.messages@) == match raw@.field("contents"@) {
                Some(JsonV::Array(cs)) => contents_messages(cs),
                _ => Seq::empty(),
            },
            r.tools@.map_values(|t: Tool| tool_view(t)) == match raw@.field("tools"@) {
                Some(JsonV::Array(ts)) => gemini_tools_core(ts),
                _ => Seq::empty(),
            },
            opt_choice(r.tool_choice) == match field_or(raw@, "toolConfig"@, "tool_config"@) {
                Some(tc) => tool_config_choice(tc),
                None => None,
            },
            match field_or(raw@, "generationConfig"@, "generation_config"@) {
                Some(gc) => {
                    &&& r.max_tokens == match gc.field_u64("maxOutputTokens"@) {
                        Some(u) => Some(u as u32),
                        None => None,
                    }
                    &&& opt_num(r.temperature) == number_field(gc, "temperature"@)
                    &&& opt_num(r.top_p) == number_field(gc, "topP"@)
                    &&& r.stop@.map_values(|x: String| x@) == match gc.field("stopSequences"@) {
                        Some(JsonV::Array(a)) => strings_of(a),
                        _ => Seq::empty(),
                    }
                    &&& match gc.field("thinkingConfig"@) {
                        Some(tc) => match thinking_effort_of(tc) {
                            Some(e) => r.reasoning matches Some(x) && opt_view(x.effort) == Some(e) && x.summary is None,
                            None => r.reasoning is None,
                        },
                        None => r.reasoning is None,
                    }
                },
                None => r.max_tokens is None && r.temperature is None && r.top_p is None && r.stop@.len() == 0
                    && r.reasoning is None,
            },
            r.stream == match raw@.field("stream"@) {
                Some(v) => match v.bool_of() {
                    Some(b) => b,
                    None => ctx.stream,
                },
                None => ctx.stream,
            },
            fields_view(r.meta@) == gemini_request_meta(raw@),
    {
        let model: String = match raw.get_str("model") {
            Some(m) => if m.unicode_len() > 0 {
                m.to_string()
            } else {
                ctx.model_alias.clone()
            },
            None => ctx.model_alias.clone(),
        };
        let mut req = CoreRequest::new(model.as_str());
        req.model_alias = model;
        req.system = system_instruction_to_core(get_either(raw, "systemInstruction", "system_instruction"));
        match raw.get("contents") {
            Some(Json::Array(cs)) => {
                proof {
                    lemma_items_view(cs@);
                    assert(cs@.map_values(|j: Json| j@) =~= items_view(cs@));
                }
                req.messages = contents_to_core(cs.as_slice());
            },
            _ => {
                proof {
                    assert(msgs_view(req.messages@) =~= Seq::<(Role, Seq<BlockV>)>::empty());
                }
            },
        }
        match raw.get("tools") {
            Some(Json::Array(ts)) => {
                proof {
                    lemma_items_view(ts@);
                    assert(ts@.map_values(|j: Json| j@) =~= items_view(ts@));
                }
                req.tools = tools_to_core(ts.as_slice());
            },
            _ => {
                proof {
                    assert(req.tools@.map_values(|t: Tool| tool_view(t)) =~= Seq::<ToolV>::empty());
                }
            },
        }
        let tcv = get_either(raw, "toolConfig", "tool_config");
        req.tool_choice = tool_config_to_core(tcv);
        let gcv = get_either(raw, "generationConfig", "generation_config");
        if let Some(gc) = gcv {
            req.max_tokens = match gc.get_u64("maxOutputTokens") {
                Some(u) => Some(u as u32),
                None => None,
            };
            req.temperature = number_of(gc.get("temperature"));
            req.top_p = number_of(gc.get("topP"));
            match gc.get("stopSequences") {
                Some(Json::Array(a)) => {
                    req.stop = string_items(a);
                },
                _ => {
                    proof {
                        assert(req.stop@.map_values(|x: String| x@) =~= Seq::<Seq<char>>::empty());
                    }
                },
            }
            if let Some(tc) = gc.get("thinkingConfig") {
                let effort: Option<String> = match tc.get_str("thinkingLevel") {
                    Some(l) => Some(l.to_string()),
                    None => match tc.get_u64("thinkingBudget") {
                        Some(b) => Some(effort_from_budget(b as u32).to_string()),
                        None => None,
                    },
                };
                if let Some(e) = effort {
                    if e.as_str().unicode_len() > 0 {
                        req.reasoning = Some(Reasoning { effort: Some(e), summary: None });
                    }
                }
            }
        }
        req.stream = match raw.get("stream") {
            Some(v) => match v.as_bool() {
                Some(b) => b,
                None => ctx.stream,
            },
            None => ctx.stream,
        };
        if let Json::Object(fs) = raw {
            let extra = unknown_fields(fs, false);
            let gc_extra: Vec<(String, Json)> = match gcv {
                Some(Json::Object(g)) => unknown_fields(g, true),
                _ => {
                    let e: Vec<(String, Json)> = Vec::new();
                    proof {
                        assert(fields_view(e@) =~= Seq::<(Seq<char>, JsonV)>::empty());
                    }
                    e
                },
            };
            let all: Json = if gc_extra.len() > 0 {
                proof {
                    lemma_fields_view(gc_extra@);
                }
                with_member(Json::Object(extra), "generationConfig".to_string(), Json::Object(gc_extra))
            } else {
                proof {
                    lemma_fields_view(gc_extra@);
                }
                Json::Object(extra)
            };
            match all {
                Json::Object(afs) => {
                    proof {
                        lemma_fields_view(afs@);
                    }
                    if afs.len() > 0 {
                        let mut meta: Vec<(String, Json)> = Vec::new();
                        meta.push(("gemini.extra".to_string(), Json::Object(afs)));
                        proof {
                            lemma_fields_view(meta@);
                            assert(fields_view(meta@) =~= gemini_request_meta(raw@));
                        }
                        req.meta = meta;
                    } else {
                        proof {
                            assert(fields_view(req.meta@) =~= gemini_request_meta(raw@));
                        }
                    }
                },
                _ => {},
            }
        } else {
            proof {
                assert(fields_view(req.meta@) =~= gemini_request_meta(raw@));
            }
        }
        req
    }
}

} // verus!
