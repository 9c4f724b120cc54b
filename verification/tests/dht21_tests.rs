use stm32f4_devices::dht21::{
    checksum, decode_frame, frame_from_pulses, pulse_bit, read_dht21, Dht21Error, Dht21Reading,
};

const SYSCLK: u32 = 168_000_000;
const ONE_TICKS: u32 = 70 * 168;
const ZERO_TICKS: u32 = 26 * 168;

fn pulses_for(frame: [u8; 5]) -> [u32; 40] {
    let mut pulses = [0u32; 40];
    for (byte, value) in frame.iter().enumerate() {
        for bit in 0..8 {
            let set = value & (0x80 >> bit) != 0;
            pulses[byte * 8 + bit] = if set { ONE_TICKS } else { ZERO_TICKS };
        }
    }
    pulses
}

#[test]
fn pulse_threshold_is_fifty_microseconds() {
    assert_eq!(pulse_bit(8_400, SYSCLK), 0);
    assert_eq!(pulse_bit(8_401, SYSCLK), 1);
    assert_eq!(pulse_bit(0, SYSCLK), 0);
    assert_eq!(pulse_bit(u32::MAX, SYSCLK), 1);
}

#[test]
fn frame_is_read_most_significant_bit_first() {
    let frame = [0x02, 0x8C, 0x80, 0x65, 0x73];
    assert_eq!(frame_from_pulses(&pulses_for(frame), SYSCLK), frame);
    let mut pulses = [ZERO_TICKS; 40];
    pulses[0] = ONE_TICKS;
    pulses[15] = ONE_TICKS;
    assert_eq!(frame_from_pulses(&pulses, SYSCLK), [0x80, 0x01, 0, 0, 0]);
}

#[test]
fn checksum_wraps_modulo_256() {
    assert_eq!(checksum(&[0x02, 0x8C, 0x80, 0x65, 0x00]), 0x73);
    assert_eq!(checksum(&[0xFF, 0xFF, 0xFF, 0xFF, 0x00]), 0xFC);
}

#[test]
fn negative_temperature_is_decoded() {
    let reading = read_dht21(false, &pulses_for([0x02, 0x8C, 0x80, 0x65, 0x73]), SYSCLK).unwrap();
    assert_eq!(
        reading,
        Dht21Reading { humidity_tenths: 652, temperature_magnitude_tenths: 101, temperature_negative: true }
    );
    assert_eq!(reading.temperature_tenths(), -101);
}

#[test]
fn positive_temperature_is_decoded() {
    let reading = decode_frame(&[0x01, 0xF4, 0x00, 0xFA, 0xEF]).unwrap();
    assert_eq!(reading.humidity_tenths, 500);
    assert_eq!(reading.temperature_magnitude_tenths, 250);
    assert!(!reading.temperature_negative);
    assert_eq!(reading.temperature_tenths(), 250);
}

#[test]
fn sign_bit_is_not_part_of_the_magnitude() {
    let reading = decode_frame(&[0x00, 0x00, 0xFF, 0xFF, 0xFE]).unwrap();
    assert_eq!(reading.temperature_magnitude_tenths, 0x7FFF);
    assert_eq!(reading.temperature_tenths(), -0x7FFF);
}

#[test]
fn checksum_mismatch_is_an_error() {
    assert_eq!(decode_frame(&[0x02, 0x8C, 0x80, 0x65, 0x74]), Err(Dht21Error::ChecksumError));
    let result = read_dht21(false, &pulses_for([0x02, 0x8C, 0x80, 0x65, 0x00]), SYSCLK);
    assert_eq!(result, Err(Dht21Error::ChecksumError));
}

#[test]
fn line_high_at_response_is_no_response() {
    let result = read_dht21(true, &pulses_for([0x02, 0x8C, 0x80, 0x65, 0x73]), SYSCLK);
    assert_eq!(result, Err(Dht21Error::NoResponse));
}

#[test]
fn error_messages() {
    assert_eq!(Dht21Error::NoResponse.message(), "No response");
    assert_eq!(Dht21Error::ChecksumError.message(), "Checksum error");
}
