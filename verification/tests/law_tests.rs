use stm32f4_devices::dht21::{decode_frame, frame_from_pulses, read_dht21, Dht21Reading};
use stm32f4_devices::i2c_scan::{count_found, found_addresses};
use stm32f4_devices::lcd_bus::{pin_levels_u16, pin_levels_u8};
use stm32f4_devices::sx1278::{frequency_writes, frf_for_frequency};
use stm32f4_devices::timing::elapsed_ticks;

#[test]
fn every_byte_reads_back_from_its_pins() {
    for value in 0..=255u8 {
        let levels = pin_levels_u8(value);
        let back = levels.iter().enumerate().fold(0u8, |acc, (k, &high)| acc | ((high as u8) << k));
        assert_eq!(back, value);
    }
}

#[test]
fn words_read_back_from_their_pins() {
    for value in [0u16, 1, 0x00FF, 0xFF00, 0x8001, 0xF800, 0x07E0, 0x001F, 0xFFFF, 0x1234] {
        let levels = pin_levels_u16(value);
        let back = levels.iter().enumerate().fold(0u16, |acc, (k, &high)| acc | ((high as u16) << k));
        assert_eq!(back, value);
    }
}

#[test]
fn elapsed_is_the_advance_even_across_wrap() {
    for (start, advance) in [(0u32, 5u32), (u32::MAX, 1), (0xFFFF_0000, 0x0002_0000), (12345, u32::MAX)] {
        assert_eq!(elapsed_ticks(start, start.wrapping_add(advance)), advance);
    }
}

#[test]
fn frequency_bytes_reassemble_the_register_value() {
    for freq in [137_000_000u32, 433_200_000, 525_000_000, 868_000_000, 1_023_999_999] {
        let frf = frf_for_frequency(freq);
        let w = frequency_writes(freq);
        let back = ((w[0].1 as u64) << 16) | ((w[1].1 as u64) << 8) | w[2].1 as u64;
        assert_eq!(back, frf);
    }
}

#[test]
fn found_count_is_list_length() {
    let mut devices = [false; 128];
    for addr in [0x00, 0x08, 0x20, 0x3C, 0x50, 0x77, 0x78, 0x7F] {
        devices[addr] = true;
    }
    let found = found_addresses(&devices);
    assert_eq!(found, vec![0x08, 0x20, 0x3C, 0x50, 0x77]);
    assert_eq!(count_found(&devices), found.len());
    assert!(found.windows(2).all(|w| w[0] < w[1]));
}

fn sensor_frame(reading: Dht21Reading) -> [u8; 5] {
    let d0 = (reading.humidity_tenths >> 8) as u8;
    let d1 = reading.humidity_tenths as u8;
    let d2 = (reading.temperature_magnitude_tenths >> 8) as u8 | if reading.temperature_negative { 0x80 } else { 0 };
    let d3 = reading.temperature_magnitude_tenths as u8;
    [d0, d1, d2, d3, d0.wrapping_add(d1).wrapping_add(d2).wrapping_add(d3)]
}

#[test]
fn sensor_frames_decode_back() {
    for (h, t, neg) in [(0u16, 0u16, false), (0, 0, true), (1000, 800, false), (652, 101, true), (0xFFFF, 0x7FFF, true)] {
        let reading = Dht21Reading { humidity_tenths: h, temperature_magnitude_tenths: t, temperature_negative: neg };
        assert_eq!(decode_frame(&sensor_frame(reading)), Ok(reading));
    }
}

#[test]
fn pulses_spelling_a_frame_read_back() {
    let frame = sensor_frame(Dht21Reading { humidity_tenths: 987, temperature_magnitude_tenths: 254, temperature_negative: false });
    let mut pulses = [0u32; 40];
    for i in 0..40 {
        let set = frame[i / 8] & (0x80 >> (i % 8)) != 0;
        pulses[i] = if set { 8_401 } else { 8_400 };
    }
    assert_eq!(frame_from_pulses(&pulses, 168_000_000), frame);
    let reading = read_dht21(false, &pulses, 168_000_000).unwrap();
    assert_eq!(reading.humidity_tenths, 987);
    assert_eq!(reading.temperature_tenths(), 254);
}
