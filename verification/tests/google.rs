use moonbridge::json::Json;
use moonbridge::protocol::google::{
    generate_path, map_finish_reason, stream_path, unmap_stop_reason, usage_from_gemini,
    usage_object,
};
use moonbridge::protocol::ir::{StopReason, Usage};

fn obj(fs: &[(&str, Json)]) -> Json {
    Json::Object(fs.iter().map(|(k, v)| (k.to_string(), v.deep_clone())).collect())
}

fn num(u: u64) -> Json {
    Json::Num(moonbridge::json::JsonNum::PosInt(u))
}

#[test]
fn builds_paths() {
    assert_eq!(
        generate_path("v1beta", "gemini-2.0-flash"),
        "/v1beta/models/gemini-2.0-flash:generateContent"
    );
    assert!(stream_path("v1", "g").contains(":streamGenerateContent?alt=sse"));
}

#[test]
fn paths_trim_version_slashes() {
    assert_eq!(generate_path("//v1/", "m"), "/v1/models/m:generateContent");
    assert_eq!(stream_path("/v1beta", "m"), "/v1beta/models/m:streamGenerateContent?alt=sse");
}

#[test]
fn maps_finish_reasons() {
    assert_eq!(map_finish_reason("STOP"), Some(StopReason::EndTurn));
    assert_eq!(map_finish_reason("MAX_TOKENS"), Some(StopReason::MaxTokens));
    assert_eq!(map_finish_reason("SAFETY"), Some(StopReason::ContentFilter));
    assert_eq!(unmap_stop_reason(Some(StopReason::MaxTokens)), "MAX_TOKENS");
    assert_eq!(unmap_stop_reason(Some(StopReason::ToolUse)), "STOP");
}

#[test]
fn maps_usage() {
    let u = usage_from_gemini(&obj(&[
        ("promptTokenCount", num(7)),
        ("candidatesTokenCount", num(3)),
        ("cachedContentTokenCount", num(2)),
    ]));
    assert_eq!(u.input_tokens, 7);
    assert_eq!(u.output_tokens, 3);
    assert_eq!(u.cache_read_tokens, 2);
}

#[test]
fn usage_object_totals() {
    let u = Usage {
        input_tokens: 7,
        output_tokens: 3,
        cache_read_tokens: 0,
        cache_write_tokens: 0,
        reasoning_tokens: 1,
    };
    let v = usage_object(&u);
    assert_eq!(v.get_u64("totalTokenCount"), Some(10));
    assert_eq!(v.get_u64("thoughtsTokenCount"), Some(1));
}
