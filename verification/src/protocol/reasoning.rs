//! Reasoning effort ↔ thinking-token budget mapping shared by the adapters.
//!
//! OpenAI-style protocols name an effort level; Anthropic (`budget_tokens`) and
//! Gemini (`thinkingBudget`) take a token budget. One table translates between
//! them so that every adapter maps the same intent the same way.
use vstd::prelude::*;
use crate::protocol::ir::CoreRequest;
use crate::text::{eq_ignore_case, str_eq_ignore_case, trim, trim_str};

verus! {

/// Smallest thinking budget Anthropic accepts.
pub const MIN_THINKING_BUDGET: u32 = 1024;

/// The named effort levels.
pub open spec fn is_level(e: Seq<char>) -> bool {
    e == "minimal"@ || e == "low"@ || e == "medium"@ || e == "high"@ || e == "xhigh"@ || e == "max"@
}

/// Budget of each effort level (`minimal` … `max`); unknown levels count as
/// `medium`.
pub open spec fn budget_for(effort: Seq<char>) -> u32 {
    if eq_ignore_case(effort, "minimal"@) {
        1024
    } else if eq_ignore_case(effort, "low"@) {
        2048
    } else if eq_ignore_case(effort, "medium"@) {
        8192
    } else if eq_ignore_case(effort, "high"@) {
        16384
    } else if eq_ignore_case(effort, "xhigh"@) {
        24576
    } else if eq_ignore_case(effort, "max"@) {
        32768
    } else {
        8192
    }
}

/// The highest level whose budget does not exceed `budget` (`minimal` below the
/// lowest level).
pub open spec fn effort_for(budget: u32) -> Seq<char> {
    if budget >= 32768 {
        "max"@
    } else if budget >= 24576 {
        "xhigh"@
    } else if budget >= 16384 {
        "high"@
    } else if budget >= 8192 {
        "medium"@
    } else if budget >= 2048 {
        "low"@
    } else {
        "minimal"@
    }
}

/// Token budget of an effort level, case-insensitively.
pub fn thinking_budget(effort: &str) -> (r: u32)
    ensures
        r == budget_for(effort@),
{
    if str_eq_ignore_case(effort, "minimal") {
        1024
    } else if str_eq_ignore_case(effort, "low") {
        2048
    } else if str_eq_ignore_case(effort, "medium") {
        8192
    } else if str_eq_ignore_case(effort, "high") {
        16384
    } else if str_eq_ignore_case(effort, "xhigh") {
        24576
    } else if str_eq_ignore_case(effort, "max") {
        32768
    } else {
        8192
    }
}

/// Effort level of a token budget (inverse of [`thinking_budget`]).
pub fn effort_from_budget(budget: u32) -> (r: &'static str)
    ensures
        r@ == effort_for(budget),
{
    if budget >= 32768 {
        "max"
    } else if budget >= 24576 {
        "xhigh"
    } else if budget >= 16384 {
        "high"
    } else if budget >= 8192 {
        "medium"
    } else if budget >= 2048 {
        "low"
    } else {
        "minimal"
    }
}

/// The level's budget, lowered to stay strictly below `max_tokens`, or `None`
/// when that leaves less than [`MIN_THINKING_BUDGET`].
pub open spec fn clamped_budget(effort: Seq<char>, max_tokens: u32) -> Option<u32> {
    let cap: int = if max_tokens == 0 {
        0
    } else {
        max_tokens - 1
    };
    let b: int = if budget_for(effort) <= cap {
        budget_for(effort) as int
    } else {
        cap
    };
    if b >= MIN_THINKING_BUDGET {
        Some(b as u32)
    } else {
        None
    }
}

pub fn clamped_thinking_budget(effort: &str, max_tokens: u32) -> (r: Option<u32>)
    ensures
        r == clamped_budget(effort@, max_tokens),
{
    let cap = max_tokens.saturating_sub(1);
    let b = thinking_budget(effort);
    let budget = if b <= cap {
        b
    } else {
        cap
    };
    if budget >= MIN_THINKING_BUDGET {
        Some(budget)
    } else {
        None
    }
}

/// The request's reasoning effort with surrounding whitespace removed; `None`
/// when unset or blank.
pub open spec fn effort_of(req: CoreRequest) -> Option<Seq<char>> {
    match req.reasoning {
        Some(r) => match r.effort {
            Some(e) => if trim(e@).len() > 0 {
                Some(trim(e@))
            } else {
                None
            },
            None => None,
        },
        None => None,
    }
}

pub fn reasoning_effort(req: &CoreRequest) -> (r: Option<String>)
    ensures
        match r {
            Some(e) => effort_of(*req) == Some(e@),
            None => effort_of(*req) is None,
        },
{
    match &req.reasoning {
        Some(rs) => match &rs.effort {
            Some(e) => {
                let t = trim_str(e.as_str());
                if t.as_str().unicode_len() > 0 {
                    Some(t)
                } else {
                    None
                }
            },
            None => None,
        },
        None => None,
    }
}

/// A clamped budget is always accepted upstream: at least
/// [`MIN_THINKING_BUDGET`], strictly below `max_tokens`, and never above the
/// level's own budget.
pub proof fn law_clamped_budget_valid(effort: Seq<char>, max_tokens: u32)
    ensures
        clamped_budget(effort, max_tokens) matches Some(b) ==> MIN_THINKING_BUDGET <= b
            && b < max_tokens && b <= budget_for(effort),
{
}

/// Mapping a budget to a level and back never exceeds the budget (for budgets
/// of at least the lowest level), and every level's budget maps back to that
/// level.
pub proof fn law_effort_budget_roundtrip(budget: u32)
    ensures
        budget >= 1024 ==> budget_for(effort_for(budget)) <= budget,
        effort_for(budget_for(effort_for(budget))) == effort_for(budget),
{
    lemma_level_names();
}

/// The level names are ASCII-lowercase and pairwise different, so each matches
/// only itself case-insensitively.
pub(crate) proof fn lemma_level_names()
    ensures
        eq_ignore_case("minimal"@, "minimal"@),
        eq_ignore_case("low"@, "low"@),
        eq_ignore_case("medium"@, "medium"@),
        eq_ignore_case("high"@, "high"@),
        eq_ignore_case("xhigh"@, "xhigh"@),
        eq_ignore_case("max"@, "max"@),
        !eq_ignore_case("low"@, "minimal"@),
        !eq_ignore_case("medium"@, "minimal"@),
        !eq_ignore_case("medium"@, "low"@),
        !eq_ignore_case("high"@, "minimal"@),
        !eq_ignore_case("high"@, "low"@),
        !eq_ignore_case("high"@, "medium"@),
        !eq_ignore_case("xhigh"@, "minimal"@),
        !eq_ignore_case("xhigh"@, "low"@),
        !eq_ignore_case("xhigh"@, "medium"@),
        !eq_ignore_case("xhigh"@, "high"@),
        !eq_ignore_case("max"@, "minimal"@),
        !eq_ignore_case("max"@, "low"@),
        !eq_ignore_case("max"@, "medium"@),
        !eq_ignore_case("max"@, "high"@),
        !eq_ignore_case("max"@, "xhigh"@),
{
    reveal_strlit("minimal");
    reveal_strlit("low");
    reveal_strlit("medium");
    reveal_strlit("high");
    reveal_strlit("xhigh");
    reveal_strlit("max");
    assert(!eq_ignore_case("medium"@, "minimal"@) && true) by {
        assert(crate::text::lower("medium"@[1]) != crate::text::lower("minimal"@[1]));
    }
    assert(!eq_ignore_case("max"@, "low"@)) by {
        assert(crate::text::lower("max"@[0]) != crate::text::lower("low"@[0]));
    }
}

} // verus!
