//! How the hook chain of the plugin registry combines the answers of the
//! eligible plugins, in loading order. A plugin whose hook fails is skipped
//! (the failure is only logged) and never stops the chain. The host runs the
//! hooks one by one and asks these functions what to do after each answer.
use vstd::prelude::*;
use crate::protocol::ir::{Tool, ToolV, tool_view};
use crate::protocol::raw::{ChunkVerdict, RawVerdict};

verus! {

/// After one raw hook: `None` to go on to the next plugin (the plugin passed,
/// or its hook failed), else the verdict that ends the chain (a short circuit
/// or an abort takes effect at once).
pub fn raw_step(answer: Option<RawVerdict>) -> (r: Option<RawVerdict>)
    ensures
        match answer {
            Some(RawVerdict::Pass) => r is None,
            Some(v) => r == Some(v),
            None => r is None,
        },
{
    match answer {
        Some(RawVerdict::Pass) => None,
        Some(v) => Some(v),
        None => None,
    }
}

/// The verdict of a raw hook chain: the first verdict other than pass, else
/// pass.
pub open spec fn raw_chain(answers: Seq<Option<RawVerdict>>) -> RawVerdict
    decreases answers.len(),
{
    if answers.len() == 0 {
        RawVerdict::Pass
    } else {
        match answers[0] {
            Some(RawVerdict::Pass) => raw_chain(answers.drop_first()),
            Some(v) => v,
            None => raw_chain(answers.drop_first()),
        }
    }
}

/// After one chunk hook: whether the chunk is dropped (which ends the chain).
pub fn chunk_step(answer: Option<ChunkVerdict>) -> (r: bool)
    ensures
        r == (answer == Some(ChunkVerdict::Drop)),
{
    match answer {
        Some(ChunkVerdict::Drop) => true,
        _ => false,
    }
}

/// The verdict of a chunk hook chain: drop when some plugin drops the chunk.
pub open spec fn chunk_chain(answers: Seq<Option<ChunkVerdict>>) -> ChunkVerdict {
    if exists|i: int| 0 <= i < answers.len() && answers[i] == Some(ChunkVerdict::Drop) {
        ChunkVerdict::Drop
    } else {
        ChunkVerdict::Forward
    }
}

/// After one `on_stream_event` or `filter_content` hook: whether the event or
/// block is dropped (which ends the chain).
pub fn flag_step(answer: Option<bool>) -> (r: bool)
    ensures
        r == (answer == Some(true)),
{
    match answer {
        Some(true) => true,
        _ => false,
    }
}

/// After one `transform_error` hook: the message the next plugin sees (the
/// plugin's rewrite, or the message unchanged when its hook failed).
pub fn error_step(current: String, answer: Option<String>) -> (r: String)
    ensures
        r@ == match answer {
            Some(s) => s@,
            None => current@,
        },
{
    match answer {
        Some(s) => s,
        None => current,
    }
}

/// After one `inject_tools` hook: the tools gathered so far, followed by the
/// plugin's tools (none when its hook failed).
pub fn tools_step(gathered: &mut Vec<Tool>, answer: Option<Vec<Tool>>)
    ensures
        final(gathered)@.map_values(|t: Tool| tool_view(t)) == old(gathered)@.map_values(|t: Tool| tool_view(t))
            + match answer {
            Some(ts) => ts@.map_values(|t: Tool| tool_view(t)),
            None => Seq::empty(),
        },
{
    match answer {
        Some(mut ts) => {
            let ghost a = gathered@;
            let ghost b = ts@;
            gathered.append(&mut ts);
            proof {
                assert(gathered@ == a + b);
                assert(gathered@.map_values(|t: Tool| tool_view(t)) =~= a.map_values(|t: Tool| tool_view(t))
                    + b.map_values(|t: Tool| tool_view(t)));
            }
        },
        None => {
            proof {
                assert(gathered@.map_values(|t: Tool| tool_view(t)) + Seq::<ToolV>::empty() =~= gathered@.map_values(
                    |t: Tool| tool_view(t),
                ));
            }
        },
    }
}

/// Runs the raw chain over the answers the plugins would give, stopping at
/// the first decisive one (see [`raw_chain`]).
pub fn run_raw_chain(answers: Vec<Option<RawVerdict>>) -> (r: RawVerdict)
    ensures
        r == raw_chain(answers@),
{
    let ghost all = answers@;
    let mut rest = answers;
    let mut k: usize = 0;
    let n = rest.len();
    proof {
        assert(rest@ == all.skip(0));
    }
    while k < n
        invariant
            k <= n == all.len(),
            all == answers@,
            rest@ == all.skip(k as int),
            raw_chain(all) == raw_chain(all.skip(k as int)),
        decreases n - k,
    {
        let a = rest.remove(0);
        proof {
            assert(a == all[k as int]);
            assert(all.skip(k as int).drop_first() =~= all.skip(k + 1));
            assert(all.skip(k as int)[0] == a);
            assert(rest@ =~= all.skip(k + 1));
        }
        let ghost ga = a;
        match raw_step(a) {
            Some(v) => {
                proof {
                    let s = all.skip(k as int);
                    assert(s.len() > 0);
                    assert(s[0] == ga);
                    assert(ga == Some(v));
                    assert(raw_chain(s) == v);
                }
                return v;
            },
            None => {},
        }
        k = k + 1;
    }
    proof {
        assert(all.skip(n as int) =~= Seq::<Option<RawVerdict>>::empty());
    }
    RawVerdict::Pass
}

/// A failing plugin never decides a raw chain: removing a failed answer
/// leaves the verdict unchanged, and a chain whose answers all pass or fail
/// passes.
pub proof fn law_failures_never_decide(before: Seq<Option<RawVerdict>>, after: Seq<Option<RawVerdict>>)
    ensures
        raw_chain(before + seq![None] + after) == raw_chain(before + after),
        raw_chain(before + seq![Some(RawVerdict::Pass)] + after) == raw_chain(before + after),
    decreases before.len(),
{
    if before.len() == 0 {
        assert((before + seq![None::<RawVerdict>] + after).drop_first() =~= after);
        assert(before + after =~= after);
        assert((before + seq![Some(RawVerdict::Pass)] + after).drop_first() =~= after);
    } else {
        law_failures_never_decide(before.drop_first(), after);
        assert((before + seq![None::<RawVerdict>] + after).drop_first() =~= before.drop_first() + seq![None] + after);
        assert((before + seq![Some(RawVerdict::Pass)] + after).drop_first() =~= before.drop_first() + seq![
            Some(RawVerdict::Pass),
        ] + after);
        assert((before + after).drop_first() =~= before.drop_first() + after);
        assert((before + seq![None::<RawVerdict>] + after)[0] == before[0]);
        assert((before + seq![Some(RawVerdict::Pass)] + after)[0] == before[0]);
        assert((before + after)[0] == before[0]);
    }
}

/// The first decisive answer ends a raw chain: whatever the later plugins
/// would answer, the chain's verdict is that answer.
pub proof fn law_first_decisive_answer_wins(before: Seq<Option<RawVerdict>>, v: RawVerdict, after: Seq<Option<RawVerdict>>)
    requires
        v != RawVerdict::Pass,
        forall|i: int| 0 <= i < before.len() ==> before[i] is None || before[i] == Some(RawVerdict::Pass),
    ensures
        raw_chain(before + seq![Some(v)] + after) == v,
    decreases before.len(),
{
    if before.len() == 0 {
        assert((before + seq![Some(v)] + after)[0] == Some(v));
    } else {
        law_first_decisive_answer_wins(before.drop_first(), v, after);
        assert((before + seq![Some(v)] + after).drop_first() =~= before.drop_first() + seq![Some(v)] + after);
        assert((before + seq![Some(v)] + after)[0] == before[0]);
    }
}

/// Plugins initialise in loading order: positions `0, 1, ..., n - 1`.
pub open spec fn init_sequence(n: nat) -> Seq<usize> {
    Seq::new(n, |i: int| i as usize)
}

/// Plugins shut down in reverse loading order: the last loaded first.
pub open spec fn shutdown_sequence(n: nat) -> Seq<usize> {
    Seq::new(n, |i: int| (n - 1 - i) as usize)
}

/// The positions of `n` loaded plugins in the order their `init` runs: each
/// once, in loading order.
pub fn init_order(n: usize) -> (r: Vec<usize>)
    ensures
        r@ == init_sequence(n as nat),
{
    let mut r: Vec<usize> = Vec::new();
    let mut i: usize = 0;
    while i < n
        invariant
            i <= n,
            r@ == init_sequence(i as nat),
        decreases n - i,
    {
        r.push(i);
        i = i + 1;
        assert(r@ =~= init_sequence(i as nat));
    }
    r
}

/// The positions of `n` loaded plugins in the order their `shutdown` runs:
/// each once, the last loaded first.
pub fn shutdown_order(n: usize) -> (r: Vec<usize>)
    ensures
        r@ == shutdown_sequence(n as nat),
{
    let mut r: Vec<usize> = Vec::new();
    let mut i: usize = n;
    while i > 0
        invariant
            i <= n,
            r@ == Seq::new((n - i) as nat, |k: int| (n - 1 - k) as usize),
        decreases i,
    {
        i = i - 1;
        r.push(i);
        assert(r@ =~= Seq::new((n - i) as nat, |k: int| (n - 1 - k) as usize));
    }
    assert(r@ =~= shutdown_sequence(n as nat));
    r
}

/// Shutdown runs the plugins' hooks in exactly the reverse of the order init
/// ran them, each plugin once in both.
pub proof fn law_shutdown_reverses_init(n: nat)
    requires
        n <= usize::MAX,
    ensures
        shutdown_sequence(n) == init_sequence(n).reverse(),
        init_sequence(n).no_duplicates(),
        forall|i: int| 0 <= i < n ==> #[trigger] init_sequence(n).contains(i as usize),
{
    assert(shutdown_sequence(n) =~= init_sequence(n).reverse());
    let s = init_sequence(n);
    assert forall|x: int, y: int| 0 <= x < s.len() && 0 <= y < s.len() && x != y implies s[x] != s[y] by {
        assert(s[x] == x as usize && s[y] == y as usize);
    }
    assert forall|i: int| 0 <= i < n implies #[trigger] init_sequence(n).contains(i as usize) by {
        assert(init_sequence(n)[i] == i as usize);
    }
}

} // verus!
