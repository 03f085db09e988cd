use moonbridge::protocol::ir::{CoreRequest, Reasoning};
use moonbridge::protocol::reasoning::{
    clamped_thinking_budget, effort_from_budget, reasoning_effort, thinking_budget,
};

fn req_with(effort: Option<&str>) -> CoreRequest {
    let mut r = CoreRequest::new("m");
    r.reasoning = effort.map(|e| Reasoning {
        effort: Some(e.to_string()),
        summary: None,
    });
    r
}

#[test]
fn effort_is_trimmed_and_blanks_are_none() {
    assert_eq!(reasoning_effort(&req_with(Some("  high "))).as_deref(), Some("high"));
    assert_eq!(reasoning_effort(&req_with(Some("   "))), None);
    assert_eq!(reasoning_effort(&req_with(None)), None);
    assert_eq!(reasoning_effort(&CoreRequest::new("m")), None);
}

#[test]
fn budget_table_and_clamp() {
    assert_eq!(thinking_budget("low"), 2048);
    assert_eq!(thinking_budget("HIGH"), 16384, "大小写不敏感");
    assert_eq!(thinking_budget("bogus"), 8192, "未知档回落 medium");
    assert_eq!(clamped_thinking_budget("low", 4096), Some(2048));
    assert_eq!(clamped_thinking_budget("max", 4000), Some(3999));
    assert_eq!(clamped_thinking_budget("high", 1024), None);
    assert_eq!(clamped_thinking_budget("high", 0), None);
}

#[test]
fn effort_from_budget_takes_the_highest_level_not_above() {
    assert_eq!(effort_from_budget(0), "minimal");
    assert_eq!(effort_from_budget(2048), "low");
    assert_eq!(effort_from_budget(8191), "low");
    assert_eq!(effort_from_budget(16384), "high");
    assert_eq!(effort_from_budget(100_000), "max");
    // the budget of a level maps back to that level
    for level in ["minimal", "low", "medium", "high", "xhigh", "max"] {
        assert_eq!(effort_from_budget(thinking_budget(level)), level);
    }
}
