use stm32f4_devices::lcd_bus::{
    bit_level_u16, bit_level_u8, data_command_level, pin_levels_u16, pin_levels_u8, plan_transfer,
    BusError, BusWord, Payload, TransferKind,
};

#[test]
fn bit_level_follows_mask() {
    assert!(bit_level_u8(0x29, 1 << 3));
    assert!(!bit_level_u8(0x29, 1 << 1));
    assert!(bit_level_u16(0x8000, 1 << 15));
    assert!(!bit_level_u16(0x7FFF, 1 << 15));
}

#[test]
fn byte_levels_put_bit_k_on_pin_k() {
    assert_eq!(pin_levels_u8(0xA5), [true, false, true, false, false, true, false, true]);
    assert_eq!(pin_levels_u8(0x00), [false; 8]);
    assert_eq!(pin_levels_u8(0xFF), [true; 8]);
}

#[test]
fn word_levels_put_bit_k_on_pin_k() {
    let levels = pin_levels_u16(0x8001);
    assert!(levels[0]);
    assert!(levels[15]);
    assert!(levels[1..15].iter().all(|l| !l));
    assert_eq!(pin_levels_u16(0xF800)[11..], [true; 5]);
}

#[test]
fn dc_low_for_commands_high_for_data() {
    assert!(!data_command_level(TransferKind::Command));
    assert!(data_command_level(TransferKind::Data));
}

#[test]
fn commands_are_sent_as_bytes() {
    let words = plan_transfer(TransferKind::Command, &Payload::U8(vec![0x2A, 0x01])).unwrap();
    assert_eq!(words.len(), 2);
    match words[0] {
        BusWord::Narrow(levels) => assert_eq!(levels, pin_levels_u8(0x2A)),
        BusWord::Wide(_) => panic!("a command byte is sent on eight pins"),
    }
    let words = plan_transfer(TransferKind::Command, &Payload::U8Iter(vec![0x29])).unwrap();
    assert_eq!(words.len(), 1);
}

#[test]
fn data_accepts_byte_iterators_and_word_iterators() {
    let words = plan_transfer(TransferKind::Data, &Payload::U8Iter(vec![0x00, 0x00, 0x01, 0x40])).unwrap();
    assert_eq!(words.len(), 4);
    let words = plan_transfer(TransferKind::Data, &Payload::U16BEIter(vec![0xF800, 0x07E0])).unwrap();
    match words[1] {
        BusWord::Wide(levels) => assert_eq!(levels, pin_levels_u16(0x07E0)),
        BusWord::Narrow(_) => panic!("a pixel word is sent on sixteen pins"),
    }
}

#[test]
fn refused_formats_are_bus_write_errors() {
    assert_eq!(
        plan_transfer(TransferKind::Data, &Payload::U8(vec![1])).unwrap_err(),
        BusError::BusWriteError
    );
    assert_eq!(
        plan_transfer(TransferKind::Command, &Payload::U16BEIter(vec![1])).unwrap_err(),
        BusError::BusWriteError
    );
    assert_eq!(
        plan_transfer(TransferKind::Command, &Payload::Unsupported).unwrap_err(),
        BusError::BusWriteError
    );
    assert_eq!(
        plan_transfer(TransferKind::Data, &Payload::Unsupported).unwrap_err(),
        BusError::BusWriteError
    );
}

#[test]
fn empty_transfer_has_no_strobes() {
    assert_eq!(plan_transfer(TransferKind::Command, &Payload::U8(vec![])).unwrap().len(), 0);
}

use stm32f4_devices::lcd_bus::{reset_steps, transfer_steps, LcdStep};

#[test]
fn reset_pulses_the_reset_line_low() {
    assert_eq!(
        reset_steps(),
        vec![
            LcdStep::DelayNs(300),
            LcdStep::Reset(false),
            LcdStep::DelayNs(300),
            LcdStep::Reset(true),
            LcdStep::DelayNs(300),
        ]
    );
}

#[test]
fn command_transfer_is_framed_by_chip_select() {
    let (steps, result) = transfer_steps(TransferKind::Command, &Payload::U8(vec![0x2A, 0x01]));
    assert_eq!(result, Ok(()));
    assert_eq!(steps.len(), 4 + 5 * 2);
    assert_eq!(steps[0], LcdStep::ChipSelect(false));
    assert_eq!(steps[1], LcdStep::ReadStrobe(true));
    assert_eq!(steps[2], LcdStep::DataCommand(false));
    assert_eq!(steps[3], LcdStep::PutWord(BusWord::Narrow(pin_levels_u8(0x2A))));
    assert_eq!(steps[4], LcdStep::WriteStrobe(false));
    assert_eq!(steps[5], LcdStep::DelayNs(15));
    assert_eq!(steps[6], LcdStep::WriteStrobe(true));
    assert_eq!(steps[7], LcdStep::DelayNs(10));
    assert_eq!(steps[8], LcdStep::PutWord(BusWord::Narrow(pin_levels_u8(0x01))));
    assert_eq!(steps[13], LcdStep::ChipSelect(true));
}

#[test]
fn data_transfer_sets_dc_high() {
    let (steps, result) = transfer_steps(TransferKind::Data, &Payload::U16BEIter(vec![0xF800]));
    assert_eq!(result, Ok(()));
    assert_eq!(steps[2], LcdStep::DataCommand(true));
    assert_eq!(steps[3], LcdStep::PutWord(BusWord::Wide(pin_levels_u16(0xF800))));
    assert_eq!(steps.len(), 9);
}

#[test]
fn refused_transfer_still_releases_chip_select() {
    let (steps, result) = transfer_steps(TransferKind::Data, &Payload::U8(vec![1, 2, 3]));
    assert_eq!(result, Err(BusError::BusWriteError));
    assert_eq!(
        steps,
        vec![
            LcdStep::ChipSelect(false),
            LcdStep::ReadStrobe(true),
            LcdStep::DataCommand(true),
            LcdStep::ChipSelect(true),
        ]
    );
}
