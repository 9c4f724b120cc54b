//! The SX1278 LoRa transceiver over SPI: register frames, the frequency
//! registers, and the sequence that puts the chip into continuous-wave
//! transmission.
use vstd::prelude::*;

verus! {

/// Carrier frequency of the continuous wave, in Hz.
pub const SX1278_FREQ: u32 = 433_200_000;

/// Frequency of the chip's crystal oscillator, in Hz.
pub const FXOSC_HZ: u64 = 32_000_000;

pub const REG_OP_MODE: u8 = 0x01;
pub const REG_FRF_MSB: u8 = 0x06;
pub const REG_FRF_MID: u8 = 0x07;
pub const REG_FRF_LSB: u8 = 0x08;
pub const REG_PA_CONFIG: u8 = 0x09;
pub const REG_PA_RAMP: u8 = 0x0A;
pub const REG_LNA: u8 = 0x0C;
pub const REG_FIFO_TX_BASE_ADDR: u8 = 0x0E;
pub const REG_FIFO_ADDR_PTR: u8 = 0x0D;
pub const REG_IRQ_FLAGS_MASK: u8 = 0x11;
pub const REG_IRQ_FLAGS: u8 = 0x12;
pub const REG_DETECT_OPTIMIZE: u8 = 0x31;
pub const REG_INVERT_IQ: u8 = 0x2E;
pub const REG_SYNC_CONFIG: u8 = 0x3E;
pub const REG_VERSION: u8 = 0x42;
pub const REG_DIO_MAPPING_1: u8 = 0x40;
pub const REG_PA_DAC: u8 = 0x4D;

pub const MODE_LONG_RANGE: u8 = 0x80;
pub const MODE_SLEEP: u8 = 0x00;
pub const MODE_STDBY: u8 = 0x01;
pub const MODE_TX: u8 = 0x03;

pub const PA_DAC_HIGH: u8 = 0x87;

/// The silicon version an SX1278 reports.
pub const EXPECTED_VERSION: u8 = 0x12;

/// Core cycles to wait after a reset edge or a mode change.
pub const SETTLE_CYCLES: u32 = 10_000;

/// The two bytes clocked out to write `value` to register `reg`: the
/// register address with the write bit (bit 7) set, then the value.
pub fn spi_write_frame(reg: u8, value: u8) -> (frame: [u8; 2])
    ensures
        frame@ == seq![reg | 0x80u8, value],
{
    let frame = [reg | 0x80, value];
    assert(frame@ =~= seq![reg | 0x80u8, value]);
    frame
}

/// The two bytes clocked out to read register `reg`: the address as given,
/// then a dummy byte during which the chip answers.
pub fn spi_read_frame(reg: u8) -> (frame: [u8; 2])
    ensures
        frame@ == seq![reg, 0u8],
{
    let frame = [reg, 0x00];
    assert(frame@ =~= seq![reg, 0u8]);
    frame
}

/// The register value in the bytes clocked in during a read: the second one.
pub fn spi_read_value(received: &[u8; 2]) -> (value: u8)
    ensures
        value == received@[1],
{
    received[1]
}

/// Whether the chip reported the SX1278 silicon version.
pub fn is_expected_version(version: u8) -> (expected: bool)
    ensures
        expected == (version == EXPECTED_VERSION),
{
    version == EXPECTED_VERSION
}

/// The frequency register value for a carrier of `freq` Hz: freq * 2^19 / FXOSC.
pub open spec fn spec_frf(freq: u32) -> int {
    (freq * 524288) / 32_000_000
}

/// The frequency register value for a carrier of `freq` Hz.
pub fn frf_for_frequency(freq: u32) -> (frf: u64)
    ensures
        frf == spec_frf(freq),
        frf == (freq as int * 524288) / 32_000_000,
{
    let wide = freq as u64;
    let shifted = wide << 19u64;
    assert(shifted == wide * 524288) by (bit_vector)
        requires
            wide < 0x1_0000_0000,
            shifted == wide << 19u64,
    ;
    shifted / FXOSC_HZ
}

/// The three register writes that set the carrier to `freq` Hz: bits 23..16,
/// 15..8 and 7..0 of the frequency register value.
pub open spec fn spec_frequency_writes(freq: u32) -> Seq<(u8, u8)> {
    let frf = spec_frf(freq);
    seq![
        (REG_FRF_MSB, ((frf / 65536) % 256) as u8),
        (REG_FRF_MID, ((frf / 256) % 256) as u8),
        (REG_FRF_LSB, (frf % 256) as u8),
    ]
}

/// The register writes that set the carrier to `freq` Hz, in order.
pub fn frequency_writes(freq: u32) -> (writes: [(u8, u8); 3])
    ensures
        writes@ == spec_frequency_writes(freq),
        writes@[0] == (REG_FRF_MSB, (((freq as int * 524288) / 32_000_000) / 65536 % 256) as u8),
        writes@[1] == (REG_FRF_MID, (((freq as int * 524288) / 32_000_000) / 256 % 256) as u8),
        writes@[2] == (REG_FRF_LSB, (((freq as int * 524288) / 32_000_000) % 256) as u8),
{
    let frf = frf_for_frequency(freq);
    let msb = ((frf >> 16u64) & 0xFF) as u8;
    let mid = ((frf >> 8u64) & 0xFF) as u8;
    let lsb = (frf & 0xFF) as u8;
    proof {
        assert(((frf >> 16u64) & 0xFF) == (frf / 65536) % 256) by (bit_vector);
        assert(((frf >> 8u64) & 0xFF) == (frf / 256) % 256) by (bit_vector);
        assert((frf & 0xFF) == frf % 256) by (bit_vector);
    }
    let writes = [(REG_FRF_MSB, msb), (REG_FRF_MID, mid), (REG_FRF_LSB, lsb)];
    assert(writes@ =~= spec_frequency_writes(freq));
    writes
}

/// The three frequency bytes are the low 24 bits of the frequency register
/// value, most significant first; below 1.024 GHz that is the whole value.
pub proof fn lemma_frequency_bytes(freq: u32)
    ensures
        spec_frequency_writes(freq)[0].1 * 65536 + spec_frequency_writes(freq)[1].1 * 256
            + spec_frequency_writes(freq)[2].1 == spec_frf(freq) % 0x100_0000,
        freq < 1_024_000_000 ==> spec_frf(freq) < 0x100_0000,
        freq < 1_024_000_000 ==> spec_frequency_writes(freq)[0].1 * 65536
            + spec_frequency_writes(freq)[1].1 * 256 + spec_frequency_writes(freq)[2].1
            == spec_frf(freq),
{
    let frf = spec_frf(freq);
    assert(frf >= 0) by (nonlinear_arith)
        requires
            frf == (freq * 524288) / 32_000_000,
            freq >= 0,
    ;
    assert(((frf / 65536) % 256) * 65536 + ((frf / 256) % 256) * 256 + frf % 256 == frf
        % 0x100_0000) by (nonlinear_arith)
        requires
            frf >= 0,
    ;
    if freq < 1_024_000_000 {
        assert(frf < 0x100_0000) by (nonlinear_arith)
            requires
                frf == (freq * 524288) / 32_000_000,
                0 <= freq < 1_024_000_000,
        ;
    }
}

/// One step of driving the chip: a level on its reset pin, a busy wait of
/// some core cycles, or a register read or write over SPI.
#[derive(Clone, Copy, Debug, PartialEq, Eq, Structural)]
pub enum RadioStep {
    SetReset(bool),
    DelayCycles(u32),
    ReadRegister(u8),
    WriteRegister(u8, u8),
}

/// The steps that put the chip into continuous-wave transmission at `freq`
/// Hz: a reset pulse, a version read, LoRa sleep mode, the modem and power
/// amplifier setup, the carrier frequency, standby, the interrupt setup and
/// finally transmit mode.
pub open spec fn spec_continuous_wave_plan(freq: u32) -> Seq<RadioStep> {
    let f = spec_frequency_writes(freq);
    seq![
        RadioStep::SetReset(false),
        RadioStep::DelayCycles(SETTLE_CYCLES),
        RadioStep::SetReset(true),
        RadioStep::DelayCycles(SETTLE_CYCLES),
        RadioStep::ReadRegister(REG_VERSION),
        RadioStep::WriteRegister(REG_OP_MODE, MODE_LONG_RANGE | MODE_SLEEP),
        RadioStep::DelayCycles(SETTLE_CYCLES),
        RadioStep::ReadRegister(REG_OP_MODE),
        RadioStep::WriteRegister(REG_DETECT_OPTIMIZE, 0x18),
        RadioStep::WriteRegister(REG_INVERT_IQ, 0x00),
        RadioStep::WriteRegister(REG_SYNC_CONFIG, 0x00),
        RadioStep::WriteRegister(REG_FIFO_TX_BASE_ADDR, 0),
        RadioStep::WriteRegister(REG_FIFO_ADDR_PTR, 0),
        RadioStep::WriteRegister(REG_LNA, 0x23),
        RadioStep::WriteRegister(REG_PA_RAMP, 0x09),
        RadioStep::WriteRegister(REG_PA_CONFIG, 0xFF),
        RadioStep::WriteRegister(f[0].0, f[0].1),
        RadioStep::WriteRegister(f[1].0, f[1].1),
        RadioStep::WriteRegister(f[2].0, f[2].1),
        RadioStep::WriteRegister(REG_PA_DAC, PA_DAC_HIGH),
        RadioStep::WriteRegister(REG_OP_MODE, MODE_LONG_RANGE | MODE_STDBY),
        RadioStep::DelayCycles(SETTLE_CYCLES),
        RadioStep::WriteRegister(REG_DIO_MAPPING_1, 0x40),
        RadioStep::WriteRegister(REG_IRQ_FLAGS_MASK, 0xF7),
        RadioStep::WriteRegister(REG_IRQ_FLAGS, 0xFF),
        RadioStep::WriteRegister(REG_OP_MODE, MODE_LONG_RANGE | MODE_TX),
    ]
}

/// The steps that put the chip into continuous-wave transmission at `freq` Hz.
pub fn continuous_wave_plan(freq: u32) -> (plan: Vec<RadioStep>)
    ensures
        plan@ == spec_continuous_wave_plan(freq),
{
    let f = frequency_writes(freq);
    let mut plan: Vec<RadioStep> = Vec::new();
    plan.push(RadioStep::SetReset(false));
    plan.push(RadioStep::DelayCycles(SETTLE_CYCLES));
    plan.push(RadioStep::SetReset(true));
    plan.push(RadioStep::DelayCycles(SETTLE_CYCLES));
    plan.push(RadioStep::ReadRegister(REG_VERSION));
    plan.push(RadioStep::WriteRegister(REG_OP_MODE, MODE_LONG_RANGE | MODE_SLEEP));
    plan.push(RadioStep::DelayCycles(SETTLE_CYCLES));
    plan.push(RadioStep::ReadRegister(REG_OP_MODE));
    plan.push(RadioStep::WriteRegister(REG_DETECT_OPTIMIZE, 0x18));
    plan.push(RadioStep::WriteRegister(REG_INVERT_IQ, 0x00));
    plan.push(RadioStep::WriteRegister(REG_SYNC_CONFIG, 0x00));
    plan.push(RadioStep::WriteRegister(REG_FIFO_TX_BASE_ADDR, 0));
    plan.push(RadioStep::WriteRegister(REG_FIFO_ADDR_PTR, 0));
    plan.push(RadioStep::WriteRegister(REG_LNA, 0x23));
    plan.push(RadioStep::WriteRegister(REG_PA_RAMP, 0x09));
    plan.push(RadioStep::WriteRegister(REG_PA_CONFIG, 0xFF));
    plan.push(RadioStep::WriteRegister(f[0].0, f[0].1));
    plan.push(RadioStep::WriteRegister(f[1].0, f[1].1));
    plan.push(RadioStep::WriteRegister(f[2].0, f[2].1));
    plan.push(RadioStep::WriteRegister(REG_PA_DAC, PA_DAC_HIGH));
    plan.push(RadioStep::WriteRegister(REG_OP_MODE, MODE_LONG_RANGE | MODE_STDBY));
    plan.push(RadioStep::DelayCycles(SETTLE_CYCLES));
    plan.push(RadioStep::WriteRegister(REG_DIO_MAPPING_1, 0x40));
    plan.push(RadioStep::WriteRegister(REG_IRQ_FLAGS_MASK, 0xF7));
    plan.push(RadioStep::WriteRegister(REG_IRQ_FLAGS, 0xFF));
    plan.push(RadioStep::WriteRegister(REG_OP_MODE, MODE_LONG_RANGE | MODE_TX));
    assert(plan@ =~= spec_continuous_wave_plan(freq));
    plan
}

/// The continuous-wave sequence resets the chip before any SPI transfer,
/// addresses only 7-bit registers (so the write bit never collides with an
/// address), keeps LoRa mode in every operating-mode write, writes the
/// carrier frequency of `freq`, and ends in transmit mode.
pub proof fn lemma_continuous_wave_plan(freq: u32)
    ensures
        spec_continuous_wave_plan(freq).len() == 26,
        spec_continuous_wave_plan(freq)[0] == RadioStep::SetReset(false),
        spec_continuous_wave_plan(freq)[2] == RadioStep::SetReset(true),
        forall|i: int|
            3 <= i < 26 ==> !(#[trigger] spec_continuous_wave_plan(freq)[i] is SetReset),
        forall|i: int|
            0 <= i < 26 ==> match #[trigger] spec_continuous_wave_plan(freq)[i] {
                RadioStep::WriteRegister(reg, value) => reg < 0x80 && (reg == REG_OP_MODE ==> value
                    & 0x80 != 0),
                RadioStep::ReadRegister(reg) => reg < 0x80,
                _ => true,
            },
        spec_continuous_wave_plan(freq).subrange(16, 19) == spec_frequency_writes(freq).map_values(
            |w: (u8, u8)| RadioStep::WriteRegister(w.0, w.1),
        ),
        spec_continuous_wave_plan(freq)[25] == RadioStep::WriteRegister(
            REG_OP_MODE,
            MODE_LONG_RANGE | MODE_TX,
        ),
        spec_continuous_wave_plan(freq)[4] == RadioStep::ReadRegister(0x42),
        spec_continuous_wave_plan(freq)[5] == RadioStep::WriteRegister(0x01, 0x80),
        spec_continuous_wave_plan(freq)[7] == RadioStep::ReadRegister(0x01),
        spec_continuous_wave_plan(freq)[20] == RadioStep::WriteRegister(0x01, 0x81),
        forall|i: int|
            0 <= i < 26 ==> (#[trigger] spec_continuous_wave_plan(freq)[i] is DelayCycles
                ==> spec_continuous_wave_plan(freq)[i] == RadioStep::DelayCycles(10_000)),
        forall|i: int|
            0 <= i < 26 && #[trigger] spec_continuous_wave_plan(freq)[i] is ReadRegister ==> (i
                == 4 || i == 7),
{
    let plan = spec_continuous_wave_plan(freq);
    assert(MODE_LONG_RANGE | MODE_SLEEP == 0x80u8) by (bit_vector);
    assert(MODE_LONG_RANGE | MODE_STDBY == 0x81u8) by (bit_vector);
    assert(MODE_LONG_RANGE | MODE_TX == 0x83u8) by (bit_vector);
    assert(0x80u8 & 0x80u8 != 0u8) by (bit_vector);
    assert(0x81u8 & 0x80u8 != 0u8) by (bit_vector);
    assert(0x83u8 & 0x80u8 != 0u8) by (bit_vector);
    assert(plan.subrange(16, 19) =~= spec_frequency_writes(freq).map_values(
        |w: (u8, u8)| RadioStep::WriteRegister(w.0, w.1),
    ));
}

/// The value the last write to register `reg` in `steps` put there, if any.
pub open spec fn spec_last_write(steps: Seq<RadioStep>, reg: u8) -> Option<u8>
    decreases steps.len(),
{
    if steps.len() == 0 {
        None
    } else {
        match steps.last() {
            RadioStep::WriteRegister(r, v) => if r == reg {
                Some(v)
            } else {
                spec_last_write(steps.drop_last(), reg)
            },
            _ => spec_last_write(steps.drop_last(), reg),
        }
    }
}

proof fn lemma_last_write_at(steps: Seq<RadioStep>, reg: u8, i: int, value: u8)
    requires
        0 <= i < steps.len(),
        steps[i] == RadioStep::WriteRegister(reg, value),
        forall|j: int|
            i < j < steps.len() ==> !(#[trigger] steps[j] matches RadioStep::WriteRegister(r, _)
                && r == reg),
    ensures
        spec_last_write(steps, reg) == Some(value),
    decreases steps.len(),
{
    if i < steps.len() - 1 {
        let prefix = steps.drop_last();
        assert forall|j: int| i < j < prefix.len() implies !(#[trigger] prefix[j] matches RadioStep::WriteRegister(r, _)
            && r == reg) by {
            assert(prefix[j] == steps[j]);
        }
        lemma_last_write_at(prefix, reg, i, value);
    }
}

/// After the continuous-wave sequence the chip's registers hold what the
/// transmitter needs: detection optimised for LoRa (0x18), no IQ inversion,
/// sync word 0, FIFO pointers at 0, LNA 0x23, PA ramp 0x09, PA_BOOST at
/// full power (PA_CONFIG 0xFF) with the +20 dBm DAC (PA_DAC 0x87) written
/// after it, DIO0 mapped to TxDone (0x40), every interrupt but TxDone
/// masked (0xF7), all flags cleared (0xFF), the carrier of `freq` Hz in
/// FRF (freq * 2^19 / 32 MHz, big-endian, low 24 bits) and LoRa transmit
/// mode (0x83).
pub proof fn lemma_continuous_wave_registers(freq: u32)
    ensures
        spec_last_write(spec_continuous_wave_plan(freq), REG_DETECT_OPTIMIZE) == Some(0x18u8),
        spec_last_write(spec_continuous_wave_plan(freq), REG_INVERT_IQ) == Some(0x00u8),
        spec_last_write(spec_continuous_wave_plan(freq), REG_SYNC_CONFIG) == Some(0x00u8),
        spec_last_write(spec_continuous_wave_plan(freq), REG_FIFO_TX_BASE_ADDR) == Some(0x00u8),
        spec_last_write(spec_continuous_wave_plan(freq), REG_FIFO_ADDR_PTR) == Some(0x00u8),
        spec_last_write(spec_continuous_wave_plan(freq), REG_LNA) == Some(0x23u8),
        spec_last_write(spec_continuous_wave_plan(freq), REG_PA_RAMP) == Some(0x09u8),
        spec_last_write(spec_continuous_wave_plan(freq), REG_PA_CONFIG) == Some(0xFFu8),
        spec_last_write(spec_continuous_wave_plan(freq), REG_PA_DAC) == Some(0x87u8),
        spec_last_write(spec_continuous_wave_plan(freq), REG_DIO_MAPPING_1) == Some(0x40u8),
        spec_last_write(spec_continuous_wave_plan(freq), REG_IRQ_FLAGS_MASK) == Some(0xF7u8),
        spec_last_write(spec_continuous_wave_plan(freq), REG_IRQ_FLAGS) == Some(0xFFu8),
        spec_last_write(spec_continuous_wave_plan(freq), REG_OP_MODE) == Some(0x83u8),
        spec_last_write(spec_continuous_wave_plan(freq), REG_FRF_MSB) == Some(
            (((freq as int * 524288) / 32_000_000) / 65536 % 256) as u8,
        ),
        spec_last_write(spec_continuous_wave_plan(freq), REG_FRF_MID) == Some(
            (((freq as int * 524288) / 32_000_000) / 256 % 256) as u8,
        ),
        spec_last_write(spec_continuous_wave_plan(freq), REG_FRF_LSB) == Some(
            (((freq as int * 524288) / 32_000_000) % 256) as u8,
        ),
        exists|i: int, j: int|
            0 <= i < j < spec_continuous_wave_plan(freq).len() && #[trigger] spec_continuous_wave_plan(
                freq,
            )[i] == RadioStep::WriteRegister(REG_PA_CONFIG, 0xFF) && #[trigger] spec_continuous_wave_plan(
                freq,
            )[j] == RadioStep::WriteRegister(REG_PA_DAC, 0x87),
{
    let plan = spec_continuous_wave_plan(freq);
    assert(MODE_LONG_RANGE | MODE_TX == 0x83u8) by (bit_vector);
    lemma_last_write_at(plan, REG_DETECT_OPTIMIZE, 8, 0x18u8);
    lemma_last_write_at(plan, REG_INVERT_IQ, 9, 0x00u8);
    lemma_last_write_at(plan, REG_SYNC_CONFIG, 10, 0x00u8);
    lemma_last_write_at(plan, REG_FIFO_TX_BASE_ADDR, 11, 0x00u8);
    lemma_last_write_at(plan, REG_FIFO_ADDR_PTR, 12, 0x00u8);
    lemma_last_write_at(plan, REG_LNA, 13, 0x23u8);
    lemma_last_write_at(plan, REG_PA_RAMP, 14, 0x09u8);
    lemma_last_write_at(plan, REG_PA_CONFIG, 15, 0xFFu8);
    lemma_last_write_at(plan, REG_PA_DAC, 19, 0x87u8);
    lemma_last_write_at(plan, REG_DIO_MAPPING_1, 22, 0x40u8);
    lemma_last_write_at(plan, REG_IRQ_FLAGS_MASK, 23, 0xF7u8);
    lemma_last_write_at(plan, REG_IRQ_FLAGS, 24, 0xFFu8);
    lemma_last_write_at(plan, REG_OP_MODE, 25, 0x83u8);
    let frf = (freq as int * 524288) / 32_000_000;
    lemma_last_write_at(plan, REG_FRF_MSB, 16, (frf / 65536 % 256) as u8);
    lemma_last_write_at(plan, REG_FRF_MID, 17, (frf / 256 % 256) as u8);
    lemma_last_write_at(plan, REG_FRF_LSB, 18, (frf % 256) as u8);
    assert(plan[15] == RadioStep::WriteRegister(REG_PA_CONFIG, 0xFF));
    assert(plan[19] == RadioStep::WriteRegister(REG_PA_DAC, 0x87));
}

} // verus!
