//! Anthropic content blocks ↔ core blocks, shared by the client and provider
//! sides so that Anthropic means the same in both directions.
use vstd::prelude::*;
use crate::json::{fields_view, find_field, items_view, json_view, lemma_fields_view, lemma_find_field_index, lemma_items_view, Json, JsonV};
use crate::protocol::chat::{str_field, str_or_empty};
use crate::protocol::chat_stream::{jfield, jobject};
use crate::protocol::ir::{block_view, blocks_view, lemma_blocks_view, lemma_blocks_view_push, opt_block_view, opt_view, BlockV, ContentBlock};
use crate::protocol::responses_client::flag_of;
use crate::text::str_eq;

verus! {

pub open spec fn opt_json_item(o: Option<JsonV>) -> Seq<JsonV> {
    match o {
        Some(v) => seq![v],
        None => Seq::empty(),
    }
}

pub open spec fn opt_block_item(o: Option<BlockV>) -> Seq<BlockV> {
    match o {
        Some(b) => seq![b],
        None => Seq::empty(),
    }
}

/// The content of a tool result: a lone text block as a string, anything
/// else as the array of its blocks.
pub open spec fn result_content(content: Seq<BlockV>) -> JsonV
    decreases content, 2int,
{
    if content.len() == 1 && content[0] is Text {
        JsonV::Str(content[0]->Text_text)
    } else {
        JsonV::Array(to_anthropic_all(content))
    }
}

/// The Anthropic block of a core block. An image is given by URL or as
/// base64; a tool result carries its error flag only when set; reasoning with
/// text is a `thinking` block (with its credential when non-empty), reasoning
/// without text but with a credential is restored in its original form
/// (`redacted_thinking` with the credential as data, or an empty `thinking`),
/// and reasoning with neither is dropped. Documents have no Anthropic form
/// here and are dropped.
pub open spec fn to_anthropic(b: BlockV) -> Option<JsonV>
    decreases b, 0int,
{
    match b {
        BlockV::Text { text } => Some(JsonV::Object(seq![("type"@, JsonV::Str("text"@)), ("text"@, JsonV::Str(text))])),
        BlockV::Image { data, media_type } => Some(
            JsonV::Object(
                seq![
                    ("type"@, JsonV::Str("image"@)),
                    ("source"@, if media_type == "url"@ {
                        JsonV::Object(seq![("type"@, JsonV::Str("url"@)), ("url"@, JsonV::Str(data))])
                    } else {
                        JsonV::Object(
                            seq![
                                ("type"@, JsonV::Str("base64"@)),
                                ("media_type"@, JsonV::Str(media_type)),
                                ("data"@, JsonV::Str(data)),
                            ],
                        )
                    }),
                ],
            ),
        ),
        BlockV::Document { .. } => None,
        BlockV::ToolUse { id, name, namespace: _, input, signature: _ } => Some(
            JsonV::Object(
                seq![
                    ("type"@, JsonV::Str("tool_use"@)),
                    ("id"@, JsonV::Str(id)),
                    ("name"@, JsonV::Str(name)),
                    ("input"@, input),
                ],
            ),
        ),
        BlockV::ToolResult { tool_use_id, content, is_error } => Some(
            JsonV::Object(
                seq![
                    ("type"@, JsonV::Str("tool_result"@)),
                    ("tool_use_id"@, JsonV::Str(tool_use_id)),
                    ("content"@, result_content(content)),
                ] + if is_error {
                    seq![("is_error"@, JsonV::Bool(true))]
                } else {
                    Seq::empty()
                },
            ),
        ),
        BlockV::Reasoning { text, signature, redacted } => if text.len() == 0 {
            match signature {
                Some(sig) => if sig.len() > 0 {
                    if redacted {
                        Some(JsonV::Object(seq![("type"@, JsonV::Str("redacted_thinking"@)), ("data"@, JsonV::Str(sig))]))
                    } else {
                        Some(
                            JsonV::Object(
                                seq![
                                    ("type"@, JsonV::Str("thinking"@)),
                                    ("thinking"@, JsonV::Str(Seq::empty())),
                                    ("signature"@, JsonV::Str(sig)),
                                ],
                            ),
                        )
                    }
                } else {
                    None
                },
                None => None,
            }
        } else {
            Some(
                JsonV::Object(
                    seq![("type"@, JsonV::Str("thinking"@)), ("thinking"@, JsonV::Str(text))] + match signature {
                        Some(sig) => if sig.len() > 0 {
                            seq![("signature"@, JsonV::Str(sig))]
                        } else {
                            Seq::empty()
                        },
                        None => Seq::empty(),
                    },
                ),
            )
        },
    }
}

/// The Anthropic blocks of core blocks, in order; blocks without one are
/// dropped.
pub open spec fn to_anthropic_all(bs: Seq<BlockV>) -> Seq<JsonV>
    decreases bs, 1int,
{
    if bs.len() == 0 {
        Seq::empty()
    } else {
        opt_json_item(to_anthropic(bs[0])) + to_anthropic_all(bs.drop_first())
    }
}

pub proof fn lemma_to_anthropic_all_push(bs: Seq<BlockV>, b: BlockV)
    ensures
        to_anthropic_all(bs.push(b)) == to_anthropic_all(bs) + opt_json_item(to_anthropic(b)),
    decreases bs.len(),
{
    if bs.len() == 0 {
        assert(bs.push(b).drop_first() =~= Seq::<BlockV>::empty());
        assert(to_anthropic_all(Seq::<BlockV>::empty()) == Seq::<JsonV>::empty());
        assert(bs.push(b)[0] == b);
        assert(bs =~= Seq::<BlockV>::empty());
        assert(to_anthropic_all(bs.push(b)) =~= opt_json_item(to_anthropic(b)));
    } else {
        assert(bs.push(b).drop_first() =~= bs.drop_first().push(b));
        lemma_to_anthropic_all_push(bs.drop_first(), b);
        assert(to_anthropic_all(bs.push(b)) =~= to_anthropic_all(bs) + opt_json_item(to_anthropic(b)));
    }
}

/// The core block of an Anthropic block: text, image (by its source's data,
/// PNG unless a media type is given; none without a source), tool use (input
/// an empty object when absent), tool result (its content a string or an
/// array of blocks), thinking, and redacted thinking (its data kept as the
/// credential); other types have none.
pub open spec fn from_anthropic(v: JsonV) -> Option<BlockV>
    decreases v, 0int,
{
    match v {
        JsonV::Object(fs) => {
            let ty = v.field_str("type"@);
            if ty == Some("text"@) {
                Some(BlockV::Text { text: str_or_empty(v, "text"@) })
            } else if ty == Some("image"@) {
                match v.field("source"@) {
                    Some(src) => Some(
                        BlockV::Image {
                            data: str_or_empty(src, "data"@),
                            media_type: match src.field_str("media_type"@) {
                                Some(m) => m,
                                None => "image/png"@,
                            },
                        },
                    ),
                    None => None,
                }
            } else if ty == Some("tool_use"@) {
                Some(
                    BlockV::ToolUse {
                        id: str_or_empty(v, "id"@),
                        name: str_or_empty(v, "name"@),
                        namespace: None,
                        input: match v.field("input"@) {
                            Some(i) => i,
                            None => JsonV::Object(Seq::empty()),
                        },
                        signature: None,
                    },
                )
            } else if ty == Some("tool_result"@) {
                let content = match find_field(fs, "content"@) {
                    Some(JsonV::Str(s)) => seq![BlockV::Text { text: s }],
                    Some(JsonV::Array(arr)) => {
                        proof {
                            lemma_find_field_index(fs, "content"@);
                            let i = choose|i: int| 0 <= i < fs.len() && #[trigger] fs[i].1 == JsonV::Array(arr);
                            assert(decreases_to!(v => fs));
                            assert(decreases_to!(fs => fs[i]));
                            assert(decreases_to!(fs[i] => fs[i].1));
                            assert(decreases_to!(v => arr));
                        }
                        from_anthropic_all(arr)
                    },
                    _ => Seq::empty(),
                };
                Some(
                    BlockV::ToolResult {
                        tool_use_id: str_or_empty(v, "tool_use_id"@),
                        content,
                        is_error: flag_of(v, "is_error"@),
                    },
                )
            } else if ty == Some("thinking"@) {
                Some(
                    BlockV::Reasoning {
                        text: str_or_empty(v, "thinking"@),
                        signature: v.field_str("signature"@),
                        redacted: false,
                    },
                )
            } else if ty == Some("redacted_thinking"@) {
                Some(BlockV::Reasoning { text: Seq::empty(), signature: v.field_str("data"@), redacted: true })
            } else {
                None
            }
        },
        _ => None,
    }
}

/// The core blocks of Anthropic blocks, in order; blocks without one are
/// dropped.
pub open spec fn from_anthropic_all(vs: Seq<JsonV>) -> Seq<BlockV>
    decreases vs, 1int,
{
    if vs.len() == 0 {
        Seq::empty()
    } else {
        opt_block_item(from_anthropic(vs[0])) + from_anthropic_all(vs.drop_first())
    }
}

pub proof fn lemma_from_anthropic_all_push(vs: Seq<JsonV>, v: JsonV)
    ensures
        from_anthropic_all(vs.push(v)) == from_anthropic_all(vs) + opt_block_item(from_anthropic(v)),
    decreases vs.len(),
{
    if vs.len() == 0 {
        assert(vs.push(v).drop_first() =~= Seq::<JsonV>::empty());
        assert(from_anthropic_all(Seq::<JsonV>::empty()) == Seq::<BlockV>::empty());
        assert(vs.push(v)[0] == v);
        assert(vs =~= Seq::<JsonV>::empty());
        assert(from_anthropic_all(vs.push(v)) =~= opt_block_item(from_anthropic(v)));
    } else {
        assert(vs.push(v).drop_first() =~= vs.drop_first().push(v));
        lemma_from_anthropic_all_push(vs.drop_first(), v);
        assert(from_anthropic_all(vs.push(v)) =~= from_anthropic_all(vs) + opt_block_item(from_anthropic(v)));
    }
}

} // verus!

verus! {

fn sj(s: &str) -> (r: Json)
    ensures
        r@ == JsonV::Str(s@),
{
    Json::Str(s.to_string())
}

fn push_json(out: &mut Vec<Json>, v: Json)
    ensures
        items_view(final(out)@) == items_view(old(out)@).push(v@),
{
    proof {
        lemma_items_view(out@);
    }
    let ghost before = items_view(out@);
    out.push(v);
    proof {
        lemma_items_view(out@);
        assert(items_view(out@) =~= before.push(v@));
    }
}

/// Core block → Anthropic block (see [`to_anthropic`]).
pub fn block_to_anthropic(block: &ContentBlock) -> (r: Option<Json>)
    ensures
        match r {
            Some(v) => to_anthropic(block@) == Some(v@),
            None => to_anthropic(block@) is None,
        },
    decreases block@,
{
    match block {
        ContentBlock::Text { text } => {
            let mut fs: Vec<(String, Json)> = Vec::new();
            fs.push(jfield("type", sj("text")));
            fs.push(jfield("text", Json::Str(text.clone())));
            proof {
                lemma_fields_view(fs@);
                assert(fields_view(fs@) =~= to_anthropic(block@)->0->Object_0);
            }
            Some(jobject(fs))
        },
        ContentBlock::Image { data, media_type } => {
            let mut src: Vec<(String, Json)> = Vec::new();
            if str_eq(media_type.as_str(), "url") {
                src.push(jfield("type", sj("url")));
                src.push(jfield("url", Json::Str(data.clone())));
            } else {
                src.push(jfield("type", sj("base64")));
                src.push(jfield("media_type", Json::Str(media_type.clone())));
                src.push(jfield("data", Json::Str(data.clone())));
            }
            let mut fs: Vec<(String, Json)> = Vec::new();
            fs.push(jfield("type", sj("image")));
            fs.push(jfield("source", jobject(src)));
            proof {
                lemma_fields_view(src@);
                lemma_fields_view(fs@);
                let exp = to_anthropic(block@)->0->Object_0;
                assert(fields_view(src@) =~= exp[1].1->Object_0);
                assert(fields_view(fs@) =~= exp);
            }
            Some(jobject(fs))
        },
        ContentBlock::Document { .. } => None,
        ContentBlock::ToolUse { id, name, input, .. } => {
            let mut fs: Vec<(String, Json)> = Vec::new();
            fs.push(jfield("type", sj("tool_use")));
            fs.push(jfield("id", Json::Str(id.clone())));
            fs.push(jfield("name", Json::Str(name.clone())));
            fs.push(jfield("input", input.deep_clone()));
            proof {
                lemma_fields_view(fs@);
                assert(fields_view(fs@) =~= to_anthropic(block@)->0->Object_0);
            }
            Some(jobject(fs))
        },
        ContentBlock::ToolResult { tool_use_id, content, is_error } => {
            proof {
                lemma_blocks_view(content@);
            }
            let ghost cv = blocks_view(content@);
            let lone = content.len() == 1 && matches!(content[0], ContentBlock::Text { .. });
            let value = if lone {
                match &content[0] {
                    ContentBlock::Text { text } => Json::Str(text.clone()),
                    _ => Json::Null,
                }
            } else {
                let mut arr: Vec<Json> = Vec::new();
                proof {
                    lemma_items_view(arr@);
                    assert(items_view(arr@) =~= to_anthropic_all(cv.take(0)));
                }
                let mut i: usize = 0;
                while i < content.len()
                    invariant
                        i <= content@.len() == cv.len(),
                        cv == blocks_view(content@),
                        block@ == (BlockV::ToolResult { tool_use_id: tool_use_id@, content: cv, is_error: *is_error }),
                        forall|k: int| 0 <= k < content@.len() ==> #[trigger] cv[k] == block_view(content@[k]),
                        items_view(arr@) == to_anthropic_all(cv.take(i as int)),
                    decreases content@.len() - i,
                {
                    proof {
                        assert(decreases_to!(block@ => (block@)->ToolResult_content));
                        assert(decreases_to!(block@ => cv[i as int]));
                        assert(cv.take(i + 1) == cv.take(i as int).push(cv[i as int]));
                        lemma_to_anthropic_all_push(cv.take(i as int), cv[i as int]);
                    }
                    match block_to_anthropic(&content[i]) {
                        Some(v) => push_json(&mut arr, v),
                        None => {
                            proof {
                                assert(items_view(arr@) + Seq::<JsonV>::empty() == items_view(arr@));
                            }
                        },
                    }
                    i = i + 1;
                }
                proof {
                    assert(cv.take(cv.len() as int) == cv);
                }
                Json::Array(arr)
            };
            assert(value@ == result_content(cv));
            let mut fs: Vec<(String, Json)> = Vec::new();
            fs.push(jfield("type", sj("tool_result")));
            fs.push(jfield("tool_use_id", Json::Str(tool_use_id.clone())));
            fs.push(jfield("content", value));
            if *is_error {
                fs.push(jfield("is_error", Json::Bool(true)));
            }
            proof {
                lemma_fields_view(fs@);
                assert(fields_view(fs@) =~= to_anthropic(block@)->0->Object_0);
            }
            Some(jobject(fs))
        },
        ContentBlock::Reasoning { text, signature, redacted } => {
            if text.as_str().unicode_len() == 0 {
                if let Some(sig) = signature {
                    if sig.as_str().unicode_len() > 0 {
                        let mut fs: Vec<(String, Json)> = Vec::new();
                        if *redacted {
                            fs.push(jfield("type", sj("redacted_thinking")));
                            fs.push(jfield("data", Json::Str(sig.clone())));
                        } else {
                            fs.push(jfield("type", sj("thinking")));
                            fs.push(jfield("thinking", Json::Str(String::new())));
                            fs.push(jfield("signature", Json::Str(sig.clone())));
                        }
                        proof {
                            lemma_fields_view(fs@);
                            assert(fields_view(fs@) =~= to_anthropic(block@)->0->Object_0);
                        }
                        return Some(jobject(fs));
                    }
                }
                return None;
            }
            let mut fs: Vec<(String, Json)> = Vec::new();
            fs.push(jfield("type", sj("thinking")));
            fs.push(jfield("thinking", Json::Str(text.clone())));
            if let Some(sig) = signature {
                if sig.as_str().unicode_len() > 0 {
                    fs.push(jfield("signature", Json::Str(sig.clone())));
                }
            }
            proof {
                lemma_fields_view(fs@);
                assert(fields_view(fs@) =~= to_anthropic(block@)->0->Object_0);
            }
            Some(jobject(fs))
        },
    }
}

/// Core blocks → Anthropic blocks (see [`to_anthropic_all`]).
pub fn blocks_to_anthropic(bs: &Vec<ContentBlock>) -> (r: Vec<Json>)
    ensures
        items_view(r@) == to_anthropic_all(blocks_view(bs@)),
{
    proof {
        lemma_blocks_view(bs@);
    }
    let ghost bv = blocks_view(bs@);
    let mut arr: Vec<Json> = Vec::new();
    proof {
        lemma_items_view(arr@);
        assert(items_view(arr@) =~= to_anthropic_all(bv.take(0)));
    }
    let mut i: usize = 0;
    while i < bs.len()
        invariant
            i <= bs@.len() == bv.len(),
            bv == blocks_view(bs@),
            forall|k: int| 0 <= k < bs@.len() ==> #[trigger] bv[k] == block_view(bs@[k]),
            items_view(arr@) == to_anthropic_all(bv.take(i as int)),
        decreases bs@.len() - i,
    {
        proof {
            assert(bv.take(i + 1) == bv.take(i as int).push(bv[i as int]));
            lemma_to_anthropic_all_push(bv.take(i as int), bv[i as int]);
        }
        match block_to_anthropic(&bs[i]) {
            Some(v) => push_json(&mut arr, v),
            None => {
                proof {
                    assert(items_view(arr@) + Seq::<JsonV>::empty() == items_view(arr@));
                }
            },
        }
        i = i + 1;
    }
    proof {
        assert(bv.take(bv.len() as int) == bv);
    }
    arr
}

/// Anthropic block → core block (see [`from_anthropic`]).
pub fn anthropic_to_block(v: &Json) -> (r: Option<ContentBlock>)
    ensures
        opt_block_view(r) == from_anthropic(v@),
    decreases v@,
{
    let fs = match v {
        Json::Object(fs) => fs,
        _ => {
            return None;
        },
    };
    proof {
        lemma_fields_view(fs@);
    }
    let ty = v.get_str("type");
    let is = |t: &str| -> (b: bool)
        ensures
            b == (ty matches Some(x) && x@ == t@),
        {
            match ty {
                Some(x) => str_eq(x, t),
                None => false,
            }
        };
    if is("text") {
        Some(ContentBlock::Text { text: str_field(v, "text") })
    } else if is("image") {
        match v.get("source") {
            Some(src) => {
                let mt = match src.get_str("media_type") {
                    Some(m) => m.to_string(),
                    None => "image/png".to_string(),
                };
                Some(ContentBlock::Image { data: str_field(src, "data"), media_type: mt })
            },
            None => None,
        }
    } else if is("tool_use") {
        let input = match v.get("input") {
            Some(i) => i.deep_clone(),
            None => crate::json::empty_object(),
        };
        Some(
            ContentBlock::ToolUse {
                id: str_field(v, "id"),
                name: str_field(v, "name"),
                namespace: None,
                input,
                signature: None,
            },
        )
    } else if is("tool_result") {
        let ghost fv = fields_view(fs@);
        let mut content: Vec<ContentBlock> = Vec::new();
        match crate::json::lookup(fs, "content") {
            Some(c) => match c {
                Json::Str(s) => {
                    content.push(ContentBlock::Text { text: s.clone() });
                    proof {
                        lemma_blocks_view(content@);
                        assert(blocks_view(content@) =~= seq![BlockV::Text { text: s@ }]);
                    }
                },
                Json::Array(arr) => {
                    proof {
                        lemma_items_view(arr@);
                        lemma_find_field_index(fv, "content"@);
                        let j = choose|j: int| 0 <= j < fv.len() && #[trigger] fv[j].1 == c@;
                        assert(decreases_to!(v@ => fv));
                        assert(decreases_to!(fv => fv[j]));
                        assert(decreases_to!(fv[j] => fv[j].1));
                        assert(decreases_to!(c@ => items_view(arr@)));
                    }
                    let ghost av = items_view(arr@);
                    proof {
                        lemma_blocks_view(content@);
                        assert(blocks_view(content@) =~= from_anthropic_all(av.take(0)));
                    }
                    let mut i: usize = 0;
                    while i < arr.len()
                        invariant
                            i <= arr@.len() == av.len(),
                            av == items_view(arr@),
                            decreases_to!(v@ => av),
                            forall|k: int| 0 <= k < arr@.len() ==> #[trigger] av[k] == json_view(arr@[k]),
                            blocks_view(content@) == from_anthropic_all(av.take(i as int)),
                        decreases arr@.len() - i,
                    {
                        proof {
                            assert(decreases_to!(av => av[i as int]));
                            assert(av.take(i + 1) == av.take(i as int).push(av[i as int]));
                            lemma_from_anthropic_all_push(av.take(i as int), av[i as int]);
                        }
                        match anthropic_to_block(&arr[i]) {
                            Some(b) => {
                                proof {
                                    lemma_blocks_view_push(content@, b);
                                }
                                content.push(b);
                            },
                            None => {
                                proof {
                                    assert(blocks_view(content@) + Seq::<BlockV>::empty() == blocks_view(content@));
                                }
                            },
                        }
                        i = i + 1;
                    }
                    proof {
                        assert(av.take(av.len() as int) == av);
                    }
                },
                _ => {
                    proof {
                        lemma_blocks_view(content@);
                        assert(blocks_view(content@) =~= Seq::<BlockV>::empty());
                    }
                },
            },
            None => {
                proof {
                    lemma_blocks_view(content@);
                    assert(blocks_view(content@) =~= Seq::<BlockV>::empty());
                }
            },
        }
        let is_error = match v.get("is_error") {
            Some(x) => match x.as_bool() {
                Some(b) => b,
                None => false,
            },
            None => false,
        };
        Some(ContentBlock::ToolResult { tool_use_id: str_field(v, "tool_use_id"), content, is_error })
    } else if is("thinking") {
        let signature = match v.get_str("signature") {
            Some(s) => Some(s.to_string()),
            None => None,
        };
        Some(ContentBlock::Reasoning { text: str_field(v, "thinking"), signature, redacted: false })
    } else if is("redacted_thinking") {
        let signature = match v.get_str("data") {
            Some(s) => Some(s.to_string()),
            None => None,
        };
        Some(ContentBlock::Reasoning { text: String::new(), signature, redacted: true })
    } else {
        None
    }
}

/// Anthropic blocks → core blocks (see [`from_anthropic_all`]).
pub fn anthropic_to_blocks(vs: &Vec<Json>) -> (r: Vec<ContentBlock>)
    ensures
        blocks_view(r@) == from_anthropic_all(items_view(vs@)),
{
    proof {
        lemma_items_view(vs@);
    }
    let ghost av = items_view(vs@);
    let mut content: Vec<ContentBlock> = Vec::new();
    proof {
        lemma_blocks_view(content@);
        assert(blocks_view(content@) =~= from_anthropic_all(av.take(0)));
    }
    let mut i: usize = 0;
    while i < vs.len()
        invariant
            i <= vs@.len() == av.len(),
            av == items_view(vs@),
            forall|k: int| 0 <= k < vs@.len() ==> #[trigger] av[k] == json_view(vs@[k]),
            blocks_view(content@) == from_anthropic_all(av.take(i as int)),
        decreases vs@.len() - i,
    {
        proof {
            assert(av.take(i + 1) == av.take(i as int).push(av[i as int]));
            lemma_from_anthropic_all_push(av.take(i as int), av[i as int]);
        }
        match anthropic_to_block(&vs[i]) {
            Some(b) => {
                proof {
                    lemma_blocks_view_push(content@, b);
                }
                content.push(b);
            },
            None => {
                proof {
                    assert(blocks_view(content@) + Seq::<BlockV>::empty() == blocks_view(content@));
                }
            },
        }
        i = i + 1;
    }
    proof {
        assert(av.take(av.len() as int) == av);
    }
    content
}

} // verus!
