use rle_player::pump::{frame_interval_us, sleep_budget_us, TARGET_FPS};

#[test]
fn interval_for_target_rate() {
    assert_eq!(frame_interval_us(TARGET_FPS), 50_000);
}

#[test]
fn interval_for_other_rates() {
    assert_eq!(frame_interval_us(1), 1_000_000);
    assert_eq!(frame_interval_us(60), 16_666);
}

#[test]
fn sleep_budget_is_the_unused_interval() {
    assert_eq!(sleep_budget_us(50_000, 20_000), 30_000);
    assert_eq!(sleep_budget_us(50_000, 0), 50_000);
}

#[test]
fn overrun_cycle_gets_no_sleep() {
    assert_eq!(sleep_budget_us(50_000, 50_000), 0);
    assert_eq!(sleep_budget_us(50_000, 80_000), 0);
}
