use stm32f4_devices::timing::{delay_done, delay_ticks, elapsed_ticks};

#[test]
fn delay_ticks_at_168_mhz() {
    assert_eq!(delay_ticks(1200, 168_000_000), 201_600);
    assert_eq!(delay_ticks(40, 168_000_000), 6_720);
}

#[test]
fn delay_ticks_rounds_clock_down_to_whole_mhz() {
    assert_eq!(delay_ticks(10, 16_500_000), 160);
    assert_eq!(delay_ticks(5, 999_999), 0);
}

#[test]
fn elapsed_without_wrap() {
    assert_eq!(elapsed_ticks(1_000, 1_250), 250);
    assert_eq!(elapsed_ticks(7, 7), 0);
}

#[test]
fn elapsed_across_counter_wrap() {
    assert_eq!(elapsed_ticks(0xFFFF_FFF0, 0x10), 0x20);
    assert_eq!(elapsed_ticks(10, 5), u32::MAX - 4);
}

#[test]
fn delay_done_compares_elapsed_with_ticks() {
    assert!(!delay_done(100, 199, 100));
    assert!(delay_done(100, 200, 100));
    assert!(delay_done(0xFFFF_FF00, 0x0000_0100, 0x200));
    assert!(!delay_done(0xFFFF_FF00, 0x0000_00FF, 0x200));
}
