use gpu_stats::scheduler::{sleep_budget_ms, DEFAULT_PERIOD_MS};

#[test]
fn fast_pass_sleeps_for_the_remainder() {
    assert_eq!(sleep_budget_ms(1000, 300), 700);
    assert_eq!(sleep_budget_ms(1000, 0), 1000);
    assert_eq!(sleep_budget_ms(1000, 999), 1);
}

#[test]
fn pass_at_or_over_the_period_sleeps_zero() {
    assert_eq!(sleep_budget_ms(1000, 1000), 0);
    assert_eq!(sleep_budget_ms(1000, 1500), 0);
    assert_eq!(sleep_budget_ms(1000, u64::MAX), 0);
}

#[test]
fn consecutive_starts_are_one_period_apart_when_fast() {
    let start: u64 = 5_000;
    let elapsed: u64 = 250;
    let next = start + elapsed + sleep_budget_ms(DEFAULT_PERIOD_MS, elapsed);
    assert_eq!(next - start, DEFAULT_PERIOD_MS);
}
