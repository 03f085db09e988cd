//! Sandbox quotas for plugin calls: an instruction budget and a wall-clock
//! deadline per hook call, a memory ceiling, and the size above which a raw body
//! is not expanded into a Lua table.
use vstd::prelude::*;
use crate::text::{concat_str, dec, u64_to_dec};

verus! {

/// Quota ceilings of the plugin sandbox.
#[derive(Debug, Clone, Copy)]
pub struct SandboxLimits {
    /// Lua instructions one hook call may execute.
    pub max_instructions: u64,
    /// The instruction hook runs every this many instructions.
    pub instruction_step: u32,
    /// Memory ceiling of one Lua state, in bytes.
    pub max_memory_bytes: usize,
    /// Wall-clock limit of one hook call.
    pub call_timeout: std::time::Duration,
    /// Raw bodies larger than this many bytes are not expanded into Lua tables.
    pub max_body_bytes: usize,
}

/// Whole nanoseconds of a duration, truncated to 64 bits: what
/// `d.as_nanos() as u64` gives.
pub uninterp spec fn duration_nanos(d: std::time::Duration) -> u64;

/// Ten seconds (`Duration::from_secs(10)`): ten thousand million nanoseconds.
#[verifier::external_body]
fn ten_seconds() -> (r: std::time::Duration)
    ensures
        duration_nanos(r) == 10_000_000_000,
{
    std::time::Duration::from_secs(10)
}

impl SandboxLimits {
    /// The defaults: 200 million instructions checked every 2000, 1024 MiB of
    /// memory, a 10 s call timeout, and a 100 MiB body threshold.
    pub fn defaults() -> (r: SandboxLimits)
        ensures
            r.max_instructions == 200_000_000,
            r.instruction_step == 2000,
            r.max_memory_bytes == 1_073_741_824,
            duration_nanos(r.call_timeout) == 10_000_000_000,
            r.max_body_bytes == 104_857_600,
    {
        SandboxLimits {
            max_instructions: 200_000_000,
            instruction_step: 2000,
            max_memory_bytes: 1_073_741_824,
            call_timeout: ten_seconds(),
            max_body_bytes: 104_857_600,
        }
    }

    /// The instruction hook interval, never zero.
    pub fn step(&self) -> (r: u32)
        ensures
            r == if self.instruction_step == 0 {
                1
            } else {
                self.instruction_step
            },
    {
        if self.instruction_step == 0 {
            1
        } else {
            self.instruction_step
        }
    }
}

impl Default for SandboxLimits {
    fn default() -> (r: SandboxLimits)
        ensures
            r.max_instructions == 200_000_000,
            r.instruction_step == 2000,
            r.max_memory_bytes == 1_073_741_824,
            duration_nanos(r.call_timeout) == 10_000_000_000,
            r.max_body_bytes == 104_857_600,
    {
        SandboxLimits::defaults()
    }
}

#[verifier::external_type_specification]
#[verifier::external_body]
pub struct ExInstant(std::time::Instant);

/// The current instant (`Instant::now`).
#[verifier::external_body]
pub(crate) fn instant_now() -> std::time::Instant {
    std::time::Instant::now()
}

/// Whole nanoseconds elapsed since `origin`, truncated to 64 bits
/// (`origin.elapsed().as_nanos() as u64`). Monotonic, but depends on the clock:
/// nothing is stated of the value.
#[verifier::external_body]
pub(crate) fn now_ns(origin: &std::time::Instant) -> u64 {
    origin.elapsed().as_nanos() as u64
}

/// Whole nanoseconds of a duration, truncated to 64 bits (`as_nanos() as u64`).
#[verifier::external_body]
pub(crate) fn duration_ns(d: std::time::Duration) -> (r: u64)
    ensures
        r == duration_nanos(d),
{
    d.as_nanos() as u64
}

/// Why a hook call was stopped.
pub open spec fn instruction_limit_message(max: u64) -> Seq<char> {
    "插件指令数超过上限 "@ + dec(max as nat) + "（疑似死循环），已中止"@
}

pub open spec fn timeout_message() -> Seq<char> {
    "插件执行超时，已中止"@
}

/// The execution budget of one hook call: instructions executed so far and the
/// deadline, reset before every call and charged from the instruction hook.
#[derive(Debug)]
pub struct ExecutionBudget {
    count: u64,
    deadline_ns: u64,
    max_instructions: u64,
    /// Origin of the budget's clock.
    origin: std::time::Instant,
}

impl ExecutionBudget {
    /// Instructions charged since the last reset.
    pub closed spec fn spec_count(&self) -> u64 {
        self.count
    }

    /// Deadline, in nanoseconds since the budget was created.
    pub closed spec fn spec_deadline(&self) -> u64 {
        self.deadline_ns
    }

    pub closed spec fn spec_max(&self) -> u64 {
        self.max_instructions
    }

    /// A budget of `max_instructions` whose deadline lies infinitely far away,
    /// so that loading a script is bounded by instructions only.
    pub fn new(max_instructions: u64) -> (r: ExecutionBudget)
        ensures
            r.spec_count() == 0,
            r.spec_deadline() == u64::MAX,
            r.spec_max() == max_instructions,
    {
        ExecutionBudget { count: 0, deadline_ns: u64::MAX, max_instructions, origin: instant_now() }
    }

    /// Resets the count and sets the deadline `timeout_ns` after `now`
    /// (saturating).
    pub fn begin_at(&mut self, now: u64, timeout_ns: u64)
        ensures
            final(self).spec_count() == 0,
            final(self).spec_deadline() == if now + timeout_ns > u64::MAX {
                u64::MAX
            } else {
                (now + timeout_ns) as u64
            },
            final(self).spec_max() == old(self).spec_max(),
    {
        self.count = 0;
        self.deadline_ns = now.saturating_add(timeout_ns);
    }

    /// Resets the budget before a hook call: count zero, deadline `timeout`
    /// from now (saturating), for the instant the clock gave.
    pub fn begin(&mut self, timeout: std::time::Duration)
        ensures
            final(self).spec_count() == 0,
            final(self).spec_max() == old(self).spec_max(),
            exists|now: u64| #[trigger] saturating_sum(now, duration_nanos(timeout)) == final(self).spec_deadline() as int,
    {
        let now = now_ns(&self.origin);
        let t = duration_ns(timeout);
        self.begin_at(now, t);
        assert(saturating_sum(now, duration_nanos(timeout)) == self.spec_deadline() as int);
    }

    /// Charges `step` instructions at time `now`. The count grows by `step`
    /// (wrapping, as an atomic add does); the call fails when the count before
    /// plus `step` (saturating) exceeds the limit, or else when `now` is past
    /// the deadline.
    pub fn charge_at(&mut self, step: u64, now: u64) -> (r: Result<(), String>)
        ensures
            final(self).spec_count() == (old(self).spec_count() + step) % 0x1_0000_0000_0000_0000,
            final(self).spec_deadline() == old(self).spec_deadline(),
            final(self).spec_max() == old(self).spec_max(),
            outcome_view(r) == charge_outcome(
                old(self).spec_count(),
                step,
                old(self).spec_max(),
                now,
                old(self).spec_deadline(),
            ),
    {
        let prev = self.count;
        self.count = prev.wrapping_add(step);
        if prev.saturating_add(step) > self.max_instructions {
            let a = concat_str("插件指令数超过上限 ", u64_to_dec(self.max_instructions).as_str());
            let m = concat_str(a.as_str(), "（疑似死循环），已中止");
            return Err(m);
        }
        if now > self.deadline_ns {
            let m = "插件执行超时，已中止".to_string();
            return Err(m);
        }
        Ok(())
    }

    /// Charges `step` instructions now (see [`ExecutionBudget::charge_at`]): the
    /// outcome is that of `charge_at` at some instant the clock gave.
    pub fn charge(&mut self, step: u64) -> (r: Result<(), String>)
        ensures
            final(self).spec_count() == (old(self).spec_count() + step) % 0x1_0000_0000_0000_0000,
            final(self).spec_deadline() == old(self).spec_deadline(),
            final(self).spec_max() == old(self).spec_max(),
            exists|now: u64|
                outcome_view(r) == charge_outcome(
                    old(self).spec_count(),
                    step,
                    old(self).spec_max(),
                    now,
                    old(self).spec_deadline(),
                ),
            old(self).spec_deadline() == u64::MAX ==> outcome_view(r) == charge_outcome(
                old(self).spec_count(),
                step,
                old(self).spec_max(),
                0,
                old(self).spec_deadline(),
            ),
    {
        let now = now_ns(&self.origin);
        self.charge_at(step, now)
    }
}

/// `a + b`, saturating at `u64::MAX`.
pub open spec fn saturating_sum(a: u64, b: u64) -> int {
    if a + b > u64::MAX {
        u64::MAX as int
    } else {
        a + b
    }
}

/// Whether charging `step` from count `count` stays within `max` instructions
/// and deadline `deadline` at time `now`.
pub open spec fn charge_ok(count: u64, step: u64, max: u64, now: u64, deadline: u64) -> bool {
    saturating_sum(count, step) <= max && now <= deadline
}

/// What charging `step` from count `count` gives: the instruction error first,
/// then the timeout, else success.
pub open spec fn charge_outcome(count: u64, step: u64, max: u64, now: u64, deadline: u64) -> Result<
    (),
    Seq<char>,
> {
    if saturating_sum(count, step) > max {
        Err(instruction_limit_message(max))
    } else if now > deadline {
        Err(timeout_message())
    } else {
        Ok(())
    }
}

/// A charge's result with the message taken by its characters.
pub open spec fn outcome_view(r: Result<(), String>) -> Result<(), Seq<char>> {
    match r {
        Ok(()) => Ok(()),
        Err(m) => Err(m@),
    }
}

/// After a reset, charges succeed while the instructions charged in total stay
/// within the limit (reaching it exactly still passes) and the clock stays
/// within the deadline; the first charge that takes the total past the limit
/// fails.
pub proof fn law_charges_accumulate(max: u64, s1: u64, s2: u64, now: u64, deadline: u64)
    requires
        now <= deadline,
        s1 + s2 < 0x1_0000_0000_0000_0000,
    ensures
        charge_ok(0, s1, max, now, deadline) <==> s1 <= max,
        s1 <= max ==> (charge_ok(s1, s2, max, now, deadline) <==> s1 + s2 <= max),
{
}

} // verus!
