use moonbridge::plugin::quota::{ExecutionBudget, SandboxLimits};
use std::time::Duration;

#[test]
fn charge_aborts_after_instruction_limit() {
    let mut b = ExecutionBudget::new(10);
    b.begin(Duration::from_secs(60));
    assert!(b.charge(5).is_ok());
    assert!(b.charge(5).is_ok(), "恰好到上限仍放行");
    let err = b.charge(5).unwrap_err();
    assert!(err.contains("指令数超过上限"), "{err}");
}

#[test]
fn charge_aborts_after_deadline() {
    let mut b = ExecutionBudget::new(u64::MAX);
    // deadline in the past: nanosecond 1 after the budget's origin
    b.begin_at(0, 1);
    let mut spin = 0u64;
    for i in 0..10_000u64 {
        spin = spin.wrapping_add(i);
    }
    assert!(spin > 0);
    let err = b.charge(1).unwrap_err();
    assert!(err.contains("超时"), "{err}");
}

#[test]
fn begin_resets_budget() {
    let mut b = ExecutionBudget::new(10);
    b.begin(Duration::from_secs(60));
    assert!(b.charge(100).is_err());
    b.begin(Duration::from_secs(60));
    assert!(b.charge(5).is_ok(), "重置后应重新计数");
}

#[test]
fn charge_messages_are_exact() {
    let mut b = ExecutionBudget::new(7);
    b.begin_at(0, 100);
    assert_eq!(
        b.charge_at(8, 0).unwrap_err(),
        "插件指令数超过上限 7（疑似死循环），已中止"
    );
    let mut b = ExecutionBudget::new(7);
    b.begin_at(0, 100);
    assert_eq!(b.charge_at(1, 101).unwrap_err(), "插件执行超时，已中止");
    assert_eq!(b.charge_at(1, 100), Ok(()));
}

#[test]
fn charges_saturate_at_the_top() {
    let mut b = ExecutionBudget::new(u64::MAX);
    b.begin_at(0, u64::MAX);
    assert!(b.charge_at(u64::MAX, 0).is_ok());
    // the running count wraps, but the check saturates: u64::MAX + 1 is no overflow
    assert!(b.charge_at(1, 0).is_ok());
}

#[test]
fn default_limits() {
    let l = SandboxLimits::default();
    assert_eq!(l.max_instructions, 200_000_000);
    assert_eq!(l.instruction_step, 2000);
    assert_eq!(l.max_memory_bytes, 1024 * 1024 * 1024);
    assert_eq!(l.call_timeout, Duration::from_secs(10));
    assert_eq!(l.max_body_bytes, 100 * 1024 * 1024);
    assert_eq!(l.step(), 2000);
}
