use stm32f4_devices::aht20::aht20_crc_matches;
use stm32f4_devices::display::{fill_rate_kib_per_s, DISPLAY_HEIGHT, DISPLAY_WIDTH, FRAME_BYTES};

#[test]
fn fill_rate_examples() {
    assert_eq!(fill_rate_kib_per_s(0), 0);
    assert_eq!(fill_rate_kib_per_s(1), 150_000);
    assert_eq!(fill_rate_kib_per_s(100), 1_500);
    assert_eq!(fill_rate_kib_per_s(7), 21_428);
    assert_eq!(fill_rate_kib_per_s(200_000), 0);
}

#[test]
fn frame_size() {
    assert_eq!(FRAME_BYTES, DISPLAY_WIDTH as u64 * DISPLAY_HEIGHT as u64 * 2);
}

#[test]
fn aht20_crc_check_value() {
    assert!(aht20_crc_matches(b"123456789", 0xF7));
    assert!(!aht20_crc_matches(b"123456789", 0x39));
}

#[test]
fn aht20_crc_of_empty_data_is_initial_value() {
    assert!(aht20_crc_matches(&[], 0xFF));
}

#[test]
fn aht20_crc_of_measurement_frame() {
    let data = [0x1C, 0x6B, 0x2A, 0x15, 0xD6, 0x4E];
    let mut crc: u8 = 0xFF;
    for byte in data {
        crc ^= byte;
        for _ in 0..8 {
            crc = if crc & 0x80 != 0 { (crc << 1) ^ 0x31 } else { crc << 1 };
        }
    }
    assert!(aht20_crc_matches(&data, crc));
    assert!(!aht20_crc_matches(&data, crc ^ 0x01));
}
