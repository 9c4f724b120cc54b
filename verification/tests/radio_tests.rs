use stm32f4_devices::sx1262::{tx_done, RF_FREQUENCY_868_MHZ};
use stm32f4_devices::sx1278::{
    continuous_wave_plan, frequency_writes, frf_for_frequency, is_expected_version, spi_read_frame,
    spi_read_value, spi_write_frame, RadioStep, REG_OP_MODE, REG_VERSION, SX1278_FREQ,
};

#[test]
fn write_frame_sets_the_write_bit() {
    assert_eq!(spi_write_frame(0x01, 0x80), [0x81, 0x80]);
    assert_eq!(spi_write_frame(0x4D, 0x87), [0xCD, 0x87]);
}

#[test]
fn read_frame_sends_address_then_dummy() {
    assert_eq!(spi_read_frame(0x42), [0x42, 0x00]);
    assert_eq!(spi_read_value(&[0xFF, 0x12]), 0x12);
}

#[test]
fn version_check() {
    assert!(is_expected_version(0x12));
    assert!(!is_expected_version(0x22));
}

#[test]
fn frequency_register_for_433_2_mhz() {
    assert_eq!(frf_for_frequency(SX1278_FREQ), 0x6C4CCC);
    assert_eq!(frequency_writes(SX1278_FREQ), [(0x06, 0x6C), (0x07, 0x4C), (0x08, 0xCC)]);
}

#[test]
fn frequency_register_for_868_mhz_and_extremes() {
    assert_eq!(frf_for_frequency(868_000_000), 0xD9_0000);
    assert_eq!(frf_for_frequency(0), 0);
    assert_eq!(frf_for_frequency(u32::MAX), 70_368_744);
    assert_eq!(frequency_writes(u32::MAX), [(0x06, 0x31), (0x07, 0xBD), (0x08, 0xE8)]);
}

#[test]
fn continuous_wave_plan_order() {
    let plan = continuous_wave_plan(SX1278_FREQ);
    assert_eq!(plan.len(), 26);
    assert_eq!(plan[0], RadioStep::SetReset(false));
    assert_eq!(plan[1], RadioStep::DelayCycles(10_000));
    assert_eq!(plan[2], RadioStep::SetReset(true));
    assert_eq!(plan[4], RadioStep::ReadRegister(REG_VERSION));
    assert_eq!(plan[5], RadioStep::WriteRegister(REG_OP_MODE, 0x80));
    assert_eq!(plan[16], RadioStep::WriteRegister(0x06, 0x6C));
    assert_eq!(plan[17], RadioStep::WriteRegister(0x07, 0x4C));
    assert_eq!(plan[18], RadioStep::WriteRegister(0x08, 0xCC));
    assert_eq!(plan[19], RadioStep::WriteRegister(0x4D, 0x87));
    assert_eq!(plan[20], RadioStep::WriteRegister(REG_OP_MODE, 0x81));
    assert_eq!(plan[25], RadioStep::WriteRegister(REG_OP_MODE, 0x83));
}

#[test]
fn tx_done_is_bit_zero() {
    assert!(tx_done(0x0001));
    assert!(tx_done(0xFFFF));
    assert!(!tx_done(0x0202));
    assert!(!tx_done(0));
    assert_eq!(RF_FREQUENCY_868_MHZ, 910_163_968);
}
