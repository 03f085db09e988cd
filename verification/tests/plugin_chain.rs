use moonbridge::json::Json;
use moonbridge::plugin::chain::{chunk_step, error_step, flag_step, init_order, raw_step, run_raw_chain, shutdown_order, tools_step};
use moonbridge::protocol::ir::Tool;
use moonbridge::protocol::raw::{ChunkVerdict, RawVerdict};

fn abort(m: &str) -> RawVerdict {
    RawVerdict::Abort { message: m.to_string() }
}

#[test]
fn first_decisive_raw_answer_wins_and_failures_are_skipped() {
    assert!(raw_step(None).is_none());
    assert!(raw_step(Some(RawVerdict::Pass)).is_none());
    assert!(matches!(raw_step(Some(abort("x"))), Some(RawVerdict::Abort { .. })));
    let v = run_raw_chain(vec![None, Some(RawVerdict::Pass), Some(abort("first")), Some(abort("second"))]);
    assert!(matches!(v, RawVerdict::Abort { message } if message == "first"));
    assert!(matches!(run_raw_chain(vec![None, Some(RawVerdict::Pass)]), RawVerdict::Pass));
    assert!(matches!(run_raw_chain(vec![]), RawVerdict::Pass));
}

#[test]
fn drop_and_skip_answers_end_the_chain() {
    assert!(chunk_step(Some(ChunkVerdict::Drop)));
    assert!(!chunk_step(Some(ChunkVerdict::Forward)));
    assert!(!chunk_step(None));
    assert!(flag_step(Some(true)));
    assert!(!flag_step(Some(false)));
    assert!(!flag_step(None));
}

#[test]
fn error_rewrites_and_tools_accumulate() {
    let m = error_step("boom".to_string(), Some("rewritten".to_string()));
    assert_eq!(m, "rewritten");
    assert_eq!(error_step(m, None), "rewritten");
    let tool = |n: &str| Tool { name: n.to_string(), description: None, input_schema: Json::Null };
    let mut ts = vec![tool("a")];
    tools_step(&mut ts, Some(vec![tool("b"), tool("c")]));
    tools_step(&mut ts, None);
    assert_eq!(ts.iter().map(|t| t.name.as_str()).collect::<Vec<_>>(), vec!["a", "b", "c"]);
}

#[test]
fn init_in_load_order_shutdown_in_reverse() {
    assert_eq!(init_order(3), vec![0, 1, 2]);
    assert_eq!(shutdown_order(3), vec![2, 1, 0]);
    assert!(init_order(0).is_empty());
    assert!(shutdown_order(0).is_empty());
}
