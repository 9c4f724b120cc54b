//! The 8080-style parallel bus of an ILI9341 panel driven pin by pin: each
//! byte or 16-bit word of a transfer is put on the data pins D0..D15, bit `k`
//! on pin `Dk`, and latched by one write strobe.
use vstd::prelude::*;

verus! {

/// Whether a transfer carries commands (D/C low) or data (D/C high).
#[derive(Clone, Copy, Debug, PartialEq, Eq, Structural)]
pub enum TransferKind {
    Command,
    Data,
}

/// What a display driver hands over for one transfer, one variant per
/// data format the bus distinguishes.
#[derive(Debug)]
pub enum Payload {
    /// A slice of bytes.
    U8(Vec<u8>),
    /// Bytes produced one by one.
    U8Iter(Vec<u8>),
    /// 16-bit words produced one by one, big-endian.
    U16BEIter(Vec<u16>),
    /// Any other format; the bus cannot send it.
    Unsupported,
}

/// A refused transfer.
#[derive(Clone, Copy, Debug, PartialEq, Eq, Structural)]
pub enum BusError {
    BusWriteError,
}

/// The levels of the data pins for one write strobe: D0..D7 for a byte,
/// D0..D15 for a word (`true` is high).
#[derive(Clone, Copy, Debug, PartialEq)]
pub enum BusWord {
    Narrow([bool; 8]),
    Wide([bool; 16]),
}

/// Level of data pin `pin` for a byte: high when its bit is set.
pub open spec fn spec_pin_level_u8(value: u8, pin: u8) -> bool {
    value & (1u8 << pin) > 0
}

/// Level of data pin `pin` for a 16-bit word: high when its bit is set.
pub open spec fn spec_pin_level_u16(value: u16, pin: u16) -> bool {
    value & (1u16 << pin) > 0
}

/// The levels of pins D0..D7 for a byte.
pub open spec fn spec_narrow_levels(value: u8) -> Seq<bool> {
    Seq::new(8, |k: int| spec_pin_level_u8(value, k as u8))
}

/// The levels of pins D0..D15 for a 16-bit word.
pub open spec fn spec_wide_levels(value: u16) -> Seq<bool> {
    Seq::new(16, |k: int| spec_pin_level_u16(value, k as u16))
}

/// The byte that the levels of pins D0..D7 stand for: bit `k` is set
/// when pin `Dk` is high.
#[verifier::opaque]
pub open spec fn spec_narrow_value(levels: Seq<bool>) -> u8 {
    (if levels[0] { 1u8 } else { 0u8 })
        | (if levels[1] { 2u8 } else { 0u8 })
        | (if levels[2] { 4u8 } else { 0u8 })
        | (if levels[3] { 8u8 } else { 0u8 })
        | (if levels[4] { 16u8 } else { 0u8 })
        | (if levels[5] { 32u8 } else { 0u8 })
        | (if levels[6] { 64u8 } else { 0u8 })
        | (if levels[7] { 128u8 } else { 0u8 })
}

/// The 16-bit word that the levels of pins D0..D15 stand for: pins D0..D7
/// carry its low byte and pins D8..D15 its high byte.
pub open spec fn spec_wide_value(levels: Seq<bool>) -> u16 {
    (spec_narrow_value(levels.subrange(0, 8)) + 256 * spec_narrow_value(levels.subrange(8, 16))) as u16
}

/// Whether the bus sends this format for this kind of transfer: commands as
/// bytes of either kind, data as produced bytes or produced 16-bit words.
pub open spec fn spec_accepts(kind: TransferKind, payload: Payload) -> bool {
    match payload {
        Payload::U8(_) => kind == TransferKind::Command,
        Payload::U8Iter(_) => true,
        Payload::U16BEIter(_) => kind == TransferKind::Data,
        Payload::Unsupported => false,
    }
}

/// Whether `words` puts the payload on the bus: one strobe per element, in
/// order, each with the levels of that element.
pub open spec fn spec_words_carry(words: Seq<BusWord>, payload: Payload) -> bool {
    match payload {
        Payload::U8(bytes) | Payload::U8Iter(bytes) => {
            &&& words.len() == bytes@.len()
            &&& forall|i: int|
                0 <= i < words.len() ==> (#[trigger] words[i] matches BusWord::Narrow(levels)
                    && levels@ == spec_narrow_levels(bytes@[i]))
        },
        Payload::U16BEIter(values) => {
            &&& words.len() == values@.len()
            &&& forall|i: int|
                0 <= i < words.len() ==> (#[trigger] words[i] matches BusWord::Wide(levels)
                    && levels@ == spec_wide_levels(values@[i]))
        },
        Payload::Unsupported => words.len() == 0,
    }
}

/// Level of the D/C pin for a transfer: low for commands, high for data.
pub fn data_command_level(kind: TransferKind) -> (high: bool)
    ensures
        high == (kind == TransferKind::Data),
{
    match kind {
        TransferKind::Command => false,
        TransferKind::Data => true,
    }
}

/// Level of the pin that `mask` selects for a byte.
pub fn bit_level_u8(value: u8, mask: u8) -> (high: bool)
    ensures
        high == (value & mask > 0),
{
    value & mask > 0
}

/// Level of the pin that `mask` selects for a 16-bit word.
pub fn bit_level_u16(value: u16, mask: u16) -> (high: bool)
    ensures
        high == (value & mask > 0),
{
    value & mask > 0
}

/// The levels of pins D0..D7 that put `value` on the bus.
pub fn pin_levels_u8(value: u8) -> (levels: [bool; 8])
    ensures
        levels@ == spec_narrow_levels(value),
        levels@[0] == (value & 0x1 != 0),
        levels@[1] == (value & 0x2 != 0),
        levels@[2] == (value & 0x4 != 0),
        levels@[3] == (value & 0x8 != 0),
        levels@[4] == (value & 0x10 != 0),
        levels@[5] == (value & 0x20 != 0),
        levels@[6] == (value & 0x40 != 0),
        levels@[7] == (value & 0x80 != 0),
{
    let mut levels = [false; 8];
    let mut pin: u8 = 0;
    while pin < 8
        invariant
            pin <= 8,
            forall|k: int| 0 <= k < pin ==> levels@[k] == spec_narrow_levels(value)[k],
        decreases 8 - pin,
    {
        levels[pin as usize] = bit_level_u8(value, 1u8 << pin);
        pin = pin + 1;
    }
    assert(levels@ =~= spec_narrow_levels(value));
    proof {
        assert((1u8 << 0u8) == 0x1u8) by (bit_vector);
        assert(levels@[0] == spec_pin_level_u8(value, 0u8));
        assert((1u8 << 1u8) == 0x2u8) by (bit_vector);
        assert(levels@[1] == spec_pin_level_u8(value, 1u8));
        assert((1u8 << 2u8) == 0x4u8) by (bit_vector);
        assert(levels@[2] == spec_pin_level_u8(value, 2u8));
        assert((1u8 << 3u8) == 0x8u8) by (bit_vector);
        assert(levels@[3] == spec_pin_level_u8(value, 3u8));
        assert((1u8 << 4u8) == 0x10u8) by (bit_vector);
        assert(levels@[4] == spec_pin_level_u8(value, 4u8));
        assert((1u8 << 5u8) == 0x20u8) by (bit_vector);
        assert(levels@[5] == spec_pin_level_u8(value, 5u8));
        assert((1u8 << 6u8) == 0x40u8) by (bit_vector);
        assert(levels@[6] == spec_pin_level_u8(value, 6u8));
        assert((1u8 << 7u8) == 0x80u8) by (bit_vector);
        assert(levels@[7] == spec_pin_level_u8(value, 7u8));
    }
    levels
}

/// The levels of pins D0..D15 that put `value` on the bus.
pub fn pin_levels_u16(value: u16) -> (levels: [bool; 16])
    ensures
        levels@ == spec_wide_levels(value),
        levels@[0] == (value & 0x1 != 0),
        levels@[1] == (value & 0x2 != 0),
        levels@[2] == (value & 0x4 != 0),
        levels@[3] == (value & 0x8 != 0),
        levels@[4] == (value & 0x10 != 0),
        levels@[5] == (value & 0x20 != 0),
        levels@[6] == (value & 0x40 != 0),
        levels@[7] == (value & 0x80 != 0),
        levels@[8] == (value & 0x100 != 0),
        levels@[9] == (value & 0x200 != 0),
        levels@[10] == (value & 0x400 != 0),
        levels@[11] == (value & 0x800 != 0),
        levels@[12] == (value & 0x1000 != 0),
        levels@[13] == (value & 0x2000 != 0),
        levels@[14] == (value & 0x4000 != 0),
        levels@[15] == (value & 0x8000 != 0),
{
    let mut levels = [false; 16];
    let mut pin: u16 = 0;
    while pin < 16
        invariant
            pin <= 16,
            forall|k: int| 0 <= k < pin ==> levels@[k] == spec_wide_levels(value)[k],
        decreases 16 - pin,
    {
        levels[pin as usize] = bit_level_u16(value, 1u16 << pin);
        pin = pin + 1;
    }
    assert(levels@ =~= spec_wide_levels(value));
    proof {
        assert((1u16 << 0u16) == 0x1u16) by (bit_vector);
        assert(levels@[0] == spec_pin_level_u16(value, 0u16));
        assert((1u16 << 1u16) == 0x2u16) by (bit_vector);
        assert(levels@[1] == spec_pin_level_u16(value, 1u16));
        assert((1u16 << 2u16) == 0x4u16) by (bit_vector);
        assert(levels@[2] == spec_pin_level_u16(value, 2u16));
        assert((1u16 << 3u16) == 0x8u16) by (bit_vector);
        assert(levels@[3] == spec_pin_level_u16(value, 3u16));
        assert((1u16 << 4u16) == 0x10u16) by (bit_vector);
        assert(levels@[4] == spec_pin_level_u16(value, 4u16));
        assert((1u16 << 5u16) == 0x20u16) by (bit_vector);
        assert(levels@[5] == spec_pin_level_u16(value, 5u16));
        assert((1u16 << 6u16) == 0x40u16) by (bit_vector);
        assert(levels@[6] == spec_pin_level_u16(value, 6u16));
        assert((1u16 << 7u16) == 0x80u16) by (bit_vector);
        assert(levels@[7] == spec_pin_level_u16(value, 7u16));
        assert((1u16 << 8u16) == 0x100u16) by (bit_vector);
        assert(levels@[8] == spec_pin_level_u16(value, 8u16));
        assert((1u16 << 9u16) == 0x200u16) by (bit_vector);
        assert(levels@[9] == spec_pin_level_u16(value, 9u16));
        assert((1u16 << 10u16) == 0x400u16) by (bit_vector);
        assert(levels@[10] == spec_pin_level_u16(value, 10u16));
        assert((1u16 << 11u16) == 0x800u16) by (bit_vector);
        assert(levels@[11] == spec_pin_level_u16(value, 11u16));
        assert((1u16 << 12u16) == 0x1000u16) by (bit_vector);
        assert(levels@[12] == spec_pin_level_u16(value, 12u16));
        assert((1u16 << 13u16) == 0x2000u16) by (bit_vector);
        assert(levels@[13] == spec_pin_level_u16(value, 13u16));
        assert((1u16 << 14u16) == 0x4000u16) by (bit_vector);
        assert(levels@[14] == spec_pin_level_u16(value, 14u16));
        assert((1u16 << 15u16) == 0x8000u16) by (bit_vector);
        assert(levels@[15] == spec_pin_level_u16(value, 15u16));
    }
    levels
}

fn narrow_words(bytes: &Vec<u8>) -> (words: Vec<BusWord>)
    ensures
        words@.len() == bytes@.len(),
        forall|i: int|
            0 <= i < words@.len() ==> (#[trigger] words@[i] matches BusWord::Narrow(levels)
                && levels@ == spec_narrow_levels(bytes@[i])),
{
    let mut words: Vec<BusWord> = Vec::new();
    let mut i: usize = 0;
    while i < bytes.len()
        invariant
            i <= bytes@.len(),
            words@.len() == i,
            forall|j: int|
                0 <= j < i ==> (#[trigger] words@[j] matches BusWord::Narrow(levels) && levels@
                    == spec_narrow_levels(bytes@[j])),
        decreases bytes@.len() - i,
    {
        words.push(BusWord::Narrow(pin_levels_u8(bytes[i])));
        i = i + 1;
    }
    words
}

fn wide_words(values: &Vec<u16>) -> (words: Vec<BusWord>)
    ensures
        words@.len() == values@.len(),
        forall|i: int|
            0 <= i < words@.len() ==> (#[trigger] words@[i] matches BusWord::Wide(levels)
                && levels@ == spec_wide_levels(values@[i])),
{
    let mut words: Vec<BusWord> = Vec::new();
    let mut i: usize = 0;
    while i < values.len()
        invariant
            i <= values@.len(),
            words@.len() == i,
            forall|j: int|
                0 <= j < i ==> (#[trigger] words@[j] matches BusWord::Wide(levels) && levels@
                    == spec_wide_levels(values@[j])),
        decreases values@.len() - i,
    {
        words.push(BusWord::Wide(pin_levels_u16(values[i])));
        i = i + 1;
    }
    words
}

/// The strobes of one transfer: the pin levels of each element in order when
/// the bus sends this format for this kind of transfer, else a bus write error.
pub fn plan_transfer(kind: TransferKind, payload: &Payload) -> (words: Result<Vec<BusWord>, BusError>)
    ensures
        match words {
            Ok(words) => spec_accepts(kind, *payload) && spec_words_carry(words@, *payload),
            Err(error) => !spec_accepts(kind, *payload) && error == BusError::BusWriteError,
        },
        words matches Ok(words) ==> words@.len() == spec_payload_len(*payload) && forall|i: int|
            0 <= i < words@.len() ==> spec_reads_back_as(#[trigger] words@[i], *payload, i),
        words is Ok <==> ({
            ||| kind == TransferKind::Command && (*payload is U8 || *payload is U8Iter)
            ||| kind == TransferKind::Data && (*payload is U8Iter || *payload is U16BEIter)
        }),
{
    let planned = match payload {
        Payload::U8(bytes) => match kind {
            TransferKind::Command => Ok(narrow_words(bytes)),
            TransferKind::Data => Err(BusError::BusWriteError),
        },
        Payload::U8Iter(bytes) => Ok(narrow_words(bytes)),
        Payload::U16BEIter(values) => match kind {
            TransferKind::Command => Err(BusError::BusWriteError),
            TransferKind::Data => Ok(wide_words(values)),
        },
        Payload::Unsupported => Err(BusError::BusWriteError),
    };
    proof {
        if let Ok(words) = &planned {
            assert forall|i: int| 0 <= i < words@.len() implies spec_reads_back_as(
                #[trigger] words@[i],
                *payload,
                i,
            ) by {
                lemma_transfer_reads_back(*payload, words@, i);
            }
        }
    }
    planned
}

/// One action on the panel's pins: a level on chip select (CSX), the read
/// strobe (RDX), data/command (D/C), reset (RESX) or the write strobe (WRX),
/// levels on the data pins, or a wait in nanoseconds.
#[derive(Clone, Copy, Debug, PartialEq)]
pub enum LcdStep {
    ChipSelect(bool),
    ReadStrobe(bool),
    DataCommand(bool),
    Reset(bool),
    PutWord(BusWord),
    WriteStrobe(bool),
    DelayNs(u32),
}

/// One write cycle: the word on the data pins, then the write strobe held
/// low for 15 ns and released for 10 ns.
pub open spec fn spec_write_cycle(word: BusWord) -> Seq<LcdStep> {
    seq![
        LcdStep::PutWord(word),
        LcdStep::WriteStrobe(false),
        LcdStep::DelayNs(15),
        LcdStep::WriteStrobe(true),
        LcdStep::DelayNs(10),
    ]
}

/// The write cycles of `words`, in order.
pub open spec fn spec_write_cycles(words: Seq<BusWord>) -> Seq<LcdStep>
    decreases words.len(),
{
    if words.len() == 0 {
        Seq::empty()
    } else {
        spec_write_cycles(words.drop_last()) + spec_write_cycle(words.last())
    }
}

/// A whole transfer: chip select low, read strobe high, D/C at the level of
/// the transfer kind, the write cycles, and chip select released.
pub open spec fn spec_framed_transfer(kind: TransferKind, words: Seq<BusWord>) -> Seq<LcdStep> {
    seq![
        LcdStep::ChipSelect(false),
        LcdStep::ReadStrobe(true),
        LcdStep::DataCommand(kind == TransferKind::Data),
    ] + spec_write_cycles(words) + seq![LcdStep::ChipSelect(true)]
}

/// The reset pulse: 300 ns, reset low for 300 ns, reset high, 300 ns.
pub open spec fn spec_reset_steps() -> Seq<LcdStep> {
    seq![
        LcdStep::DelayNs(300),
        LcdStep::Reset(false),
        LcdStep::DelayNs(300),
        LcdStep::Reset(true),
        LcdStep::DelayNs(300),
    ]
}

/// The steps that reset the panel.
pub fn reset_steps() -> (steps: Vec<LcdStep>)
    ensures
        steps@ == spec_reset_steps(),
{
    let mut steps: Vec<LcdStep> = Vec::new();
    steps.push(LcdStep::DelayNs(300));
    steps.push(LcdStep::Reset(false));
    steps.push(LcdStep::DelayNs(300));
    steps.push(LcdStep::Reset(true));
    steps.push(LcdStep::DelayNs(300));
    assert(steps@ =~= spec_reset_steps());
    steps
}

fn push_write_cycles(steps: &mut Vec<LcdStep>, words: &Vec<BusWord>)
    ensures
        final(steps)@ == old(steps)@ + spec_write_cycles(words@),
{
    let ghost start = steps@;
    let mut i: usize = 0;
    assert(words@.take(0) =~= Seq::<BusWord>::empty());
    assert(start + spec_write_cycles(words@.take(0)) =~= start);
    while i < words.len()
        invariant
            i <= words@.len(),
            steps@ == start + spec_write_cycles(words@.take(i as int)),
        decreases words@.len() - i,
    {
        let word = words[i];
        steps.push(LcdStep::PutWord(word));
        steps.push(LcdStep::WriteStrobe(false));
        steps.push(LcdStep::DelayNs(15));
        steps.push(LcdStep::WriteStrobe(true));
        steps.push(LcdStep::DelayNs(10));
        proof {
            let next = words@.take(i + 1);
            assert(next.drop_last() =~= words@.take(i as int));
            assert(next.last() == word);
            assert(steps@ =~= start + spec_write_cycles(next));
        }
        i = i + 1;
    }
    assert(words@.take(words@.len() as int) =~= words@);
}

/// Each word gets exactly one write cycle, in order: the cycles take five
/// steps per word, and cycle `i` puts word `i` on the pins, then pulses the
/// write strobe low and high.
pub proof fn lemma_write_cycle_positions(words: Seq<BusWord>)
    ensures
        spec_write_cycles(words).len() == 5 * words.len(),
        forall|i: int, j: int|
            0 <= i < words.len() && 0 <= j < 5 ==> #[trigger] spec_write_cycles(words)[5 * i + j]
                == spec_write_cycle(words[i])[j],
    decreases words.len(),
{
    if words.len() > 0 {
        let prefix = words.drop_last();
        lemma_write_cycle_positions(prefix);
        assert forall|i: int, j: int| 0 <= i < words.len() && 0 <= j < 5 implies #[trigger] spec_write_cycles(
            words,
        )[5 * i + j] == spec_write_cycle(words[i])[j] by {
            if i < prefix.len() {
                assert(spec_write_cycles(prefix)[5 * i + j] == spec_write_cycle(prefix[i])[j]);
            }
        }
    }
}

/// Words that carry the same payload are the same words.
pub proof fn lemma_carried_words_unique(first: Seq<BusWord>, second: Seq<BusWord>, payload: Payload)
    requires
        spec_words_carry(first, payload),
        spec_words_carry(second, payload),
    ensures
        first == second,
{
    broadcast use vstd::array::axiom_array_ext_equal;

    assert forall|i: int| 0 <= i < first.len() implies first[i] == second[i] by {
        match (first[i], second[i]) {
            (BusWord::Narrow(a), BusWord::Narrow(b)) => {
                assert(a =~= b);
            },
            (BusWord::Wide(a), BusWord::Wide(b)) => {
                assert(a =~= b);
            },
            _ => {},
        }
    }
    assert(first =~= second);
}

/// The number of elements a payload holds (none for an unsupported format).
pub open spec fn spec_payload_len(payload: Payload) -> nat {
    match payload {
        Payload::U8(bytes) | Payload::U8Iter(bytes) => bytes@.len(),
        Payload::U16BEIter(values) => values@.len(),
        Payload::Unsupported => 0,
    }
}

/// Whether `word`, read back from the data pins, is element `i` of `payload`.
pub open spec fn spec_reads_back_as(word: BusWord, payload: Payload, i: int) -> bool {
    match payload {
        Payload::U8(bytes) | Payload::U8Iter(bytes) => word matches BusWord::Narrow(levels)
            && spec_narrow_value(levels@) == bytes@[i],
        Payload::U16BEIter(values) => word matches BusWord::Wide(levels) && spec_wide_value(
            levels@,
        ) == values@[i],
        Payload::Unsupported => false,
    }
}

/// Step `k` of write cycle `i` of a transfer (the cycles follow the three
/// framing steps, five steps each).
pub open spec fn spec_cycle_step(steps: Seq<LcdStep>, i: int, k: int) -> LcdStep {
    steps[3 + 5 * i + k]
}

/// The pin steps of one transfer and its outcome. Chip select, the read
/// strobe and D/C are set and chip select is released whether or not the
/// bus sends the format; when it does, one write cycle per element of the
/// payload stands between, with that element's pin levels.
pub fn transfer_steps(kind: TransferKind, payload: &Payload) -> (transfer: (
    Vec<LcdStep>,
    Result<(), BusError>,
))
    ensures
        transfer.1 is Ok <==> spec_accepts(kind, *payload),
        transfer.1 is Ok <==> ({
            ||| kind == TransferKind::Command && (*payload is U8 || *payload is U8Iter)
            ||| kind == TransferKind::Data && (*payload is U8Iter || *payload is U16BEIter)
        }),
        transfer.1 is Err ==> transfer.1 == Err::<(), BusError>(BusError::BusWriteError)
            && transfer.0@ == spec_framed_transfer(kind, Seq::empty()),
        transfer.1 is Ok ==> exists|words: Seq<BusWord>|
            spec_words_carry(words, *payload) && #[trigger] spec_framed_transfer(kind, words)
                == transfer.0@,
        transfer.0@.len() >= 4,
        transfer.0@[0] == LcdStep::ChipSelect(false),
        transfer.0@[1] == LcdStep::ReadStrobe(true),
        transfer.0@[2] == LcdStep::DataCommand(kind == TransferKind::Data),
        transfer.0@.last() == LcdStep::ChipSelect(true),
        transfer.1 is Err ==> transfer.0@.len() == 4,
        transfer.1 is Ok ==> transfer.0@.len() == 4 + 5 * spec_payload_len(*payload),
        transfer.1 is Ok ==> forall|i: int|
            0 <= i < spec_payload_len(*payload) ==> {
                &&& #[trigger] spec_cycle_step(transfer.0@, i, 0) matches LcdStep::PutWord(word)
                    && spec_reads_back_as(word, *payload, i)
                &&& spec_cycle_step(transfer.0@, i, 1) == LcdStep::WriteStrobe(false)
                &&& spec_cycle_step(transfer.0@, i, 2) == LcdStep::DelayNs(15)
                &&& spec_cycle_step(transfer.0@, i, 3) == LcdStep::WriteStrobe(true)
                &&& spec_cycle_step(transfer.0@, i, 4) == LcdStep::DelayNs(10)
            },
{
    let mut steps: Vec<LcdStep> = Vec::new();
    steps.push(LcdStep::ChipSelect(false));
    steps.push(LcdStep::ReadStrobe(true));
    steps.push(LcdStep::DataCommand(data_command_level(kind)));
    let ghost header = steps@;
    let result = match plan_transfer(kind, payload) {
        Ok(words) => {
            push_write_cycles(&mut steps, &words);
            steps.push(LcdStep::ChipSelect(true));
            assert(steps@ =~= spec_framed_transfer(kind, words@));
            proof {
                lemma_write_cycle_positions(words@);
                let cycles = spec_write_cycles(words@);
                assert(words@.len() == spec_payload_len(*payload));
                assert forall|i: int| 0 <= i < spec_payload_len(*payload) implies {
                    &&& #[trigger] spec_cycle_step(steps@, i, 0) matches LcdStep::PutWord(word)
                        && spec_reads_back_as(word, *payload, i)
                    &&& spec_cycle_step(steps@, i, 1) == LcdStep::WriteStrobe(false)
                    &&& spec_cycle_step(steps@, i, 2) == LcdStep::DelayNs(15)
                    &&& spec_cycle_step(steps@, i, 3) == LcdStep::WriteStrobe(true)
                    &&& spec_cycle_step(steps@, i, 4) == LcdStep::DelayNs(10)
                } by {
                    assert forall|k: int| 0 <= k < 5 implies spec_cycle_step(steps@, i, k)
                        == spec_write_cycle(words@[i])[k] by {
                        assert(steps@[3 + 5 * i + k] == cycles[5 * i + k]);
                        assert(cycles[5 * i + k] == spec_write_cycle(words@[i])[k]);
                    }
                    assert(spec_cycle_step(steps@, i, 0) == spec_write_cycle(words@[i])[0]);
                    assert(spec_cycle_step(steps@, i, 1) == spec_write_cycle(words@[i])[1]);
                    assert(spec_cycle_step(steps@, i, 2) == spec_write_cycle(words@[i])[2]);
                    assert(spec_cycle_step(steps@, i, 3) == spec_write_cycle(words@[i])[3]);
                    assert(spec_cycle_step(steps@, i, 4) == spec_write_cycle(words@[i])[4]);
                    lemma_transfer_reads_back(*payload, words@, i);
                }
            }
            Ok(())
        },
        Err(error) => {
            steps.push(LcdStep::ChipSelect(true));
            assert(spec_write_cycles(Seq::<BusWord>::empty()) =~= Seq::<LcdStep>::empty());
            assert(steps@ =~= spec_framed_transfer(kind, Seq::empty()));
            Err(error)
        },
    };
    (steps, result)
}

proof fn lemma_u8_value_of_levels(v: u8)
    by (bit_vector)
    ensures
        v == (if (v & (1u8 << 0u8)) > 0 { 1u8 } else { 0u8 })
            | (if (v & (1u8 << 1u8)) > 0 { 2u8 } else { 0u8 })
            | (if (v & (1u8 << 2u8)) > 0 { 4u8 } else { 0u8 })
            | (if (v & (1u8 << 3u8)) > 0 { 8u8 } else { 0u8 })
            | (if (v & (1u8 << 4u8)) > 0 { 16u8 } else { 0u8 })
            | (if (v & (1u8 << 5u8)) > 0 { 32u8 } else { 0u8 })
            | (if (v & (1u8 << 6u8)) > 0 { 64u8 } else { 0u8 })
            | (if (v & (1u8 << 7u8)) > 0 { 128u8 } else { 0u8 }),
{
}

/// The data pins for a byte carry exactly that byte: reading the
/// pins back gives the value that was put on them.
pub proof fn lemma_u8_levels_carry_value(v: u8)
    ensures
        spec_narrow_value(spec_narrow_levels(v)) == v,
{
    let l = spec_narrow_levels(v);
    assert(l[0] == ((v & (1u8 << 0u8)) > 0));
    assert(l[1] == ((v & (1u8 << 1u8)) > 0));
    assert(l[2] == ((v & (1u8 << 2u8)) > 0));
    assert(l[3] == ((v & (1u8 << 3u8)) > 0));
    assert(l[4] == ((v & (1u8 << 4u8)) > 0));
    assert(l[5] == ((v & (1u8 << 5u8)) > 0));
    assert(l[6] == ((v & (1u8 << 6u8)) > 0));
    assert(l[7] == ((v & (1u8 << 7u8)) > 0));
    lemma_u8_value_of_levels(v);
    reveal(spec_narrow_value);
}

proof fn lemma_u8_bits_of_value(
    w: u8,
    b0: bool,
    b1: bool,
    b2: bool,
    b3: bool,
    b4: bool,
    b5: bool,
    b6: bool,
    b7: bool,
)
    by (bit_vector)
    requires
        w == (if b0 { 1u8 } else { 0u8 })
            | (if b1 { 2u8 } else { 0u8 })
            | (if b2 { 4u8 } else { 0u8 })
            | (if b3 { 8u8 } else { 0u8 })
            | (if b4 { 16u8 } else { 0u8 })
            | (if b5 { 32u8 } else { 0u8 })
            | (if b6 { 64u8 } else { 0u8 })
            | (if b7 { 128u8 } else { 0u8 }),
    ensures
        ((w & (1u8 << 0u8)) > 0) == b0,
        ((w & (1u8 << 1u8)) > 0) == b1,
        ((w & (1u8 << 2u8)) > 0) == b2,
        ((w & (1u8 << 3u8)) > 0) == b3,
        ((w & (1u8 << 4u8)) > 0) == b4,
        ((w & (1u8 << 5u8)) > 0) == b5,
        ((w & (1u8 << 6u8)) > 0) == b6,
        ((w & (1u8 << 7u8)) > 0) == b7,
{
}

/// Pin levels and values correspond one to one: any levels of pins
/// D0..D7 are the levels of the byte they stand for.
pub proof fn lemma_u8_value_determines_levels(l: Seq<bool>)
    requires
        l.len() == 8,
    ensures
        spec_narrow_levels(spec_narrow_value(l)) == l,
{
    let b0 = l[0];
    let b1 = l[1];
    let b2 = l[2];
    let b3 = l[3];
    let b4 = l[4];
    let b5 = l[5];
    let b6 = l[6];
    let b7 = l[7];
    let w = spec_narrow_value(l);
    assert(w == (if b0 { 1u8 } else { 0u8 })
        | (if b1 { 2u8 } else { 0u8 })
        | (if b2 { 4u8 } else { 0u8 })
        | (if b3 { 8u8 } else { 0u8 })
        | (if b4 { 16u8 } else { 0u8 })
        | (if b5 { 32u8 } else { 0u8 })
        | (if b6 { 64u8 } else { 0u8 })
        | (if b7 { 128u8 } else { 0u8 })) by {
        reveal(spec_narrow_value);
    }
    lemma_u8_bits_of_value(w, b0, b1, b2, b3, b4, b5, b6, b7);
    assert(spec_narrow_levels(w)[0] == b0);
    assert(spec_narrow_levels(w)[1] == b1);
    assert(spec_narrow_levels(w)[2] == b2);
    assert(spec_narrow_levels(w)[3] == b3);
    assert(spec_narrow_levels(w)[4] == b4);
    assert(spec_narrow_levels(w)[5] == b5);
    assert(spec_narrow_levels(w)[6] == b6);
    assert(spec_narrow_levels(w)[7] == b7);
    assert(spec_narrow_levels(w) =~= l);
}

proof fn lemma_u16_halves(v: u16, lo: u8, hi: u8)
    by (bit_vector)
    requires
        v == lo + 256 * hi,
    ensures
        ((v & (1u16 << 0u16)) > 0) == ((lo & (1u8 << 0u8)) > 0),
        ((v & (1u16 << 8u16)) > 0) == ((hi & (1u8 << 0u8)) > 0),
        ((v & (1u16 << 1u16)) > 0) == ((lo & (1u8 << 1u8)) > 0),
        ((v & (1u16 << 9u16)) > 0) == ((hi & (1u8 << 1u8)) > 0),
        ((v & (1u16 << 2u16)) > 0) == ((lo & (1u8 << 2u8)) > 0),
        ((v & (1u16 << 10u16)) > 0) == ((hi & (1u8 << 2u8)) > 0),
        ((v & (1u16 << 3u16)) > 0) == ((lo & (1u8 << 3u8)) > 0),
        ((v & (1u16 << 11u16)) > 0) == ((hi & (1u8 << 3u8)) > 0),
        ((v & (1u16 << 4u16)) > 0) == ((lo & (1u8 << 4u8)) > 0),
        ((v & (1u16 << 12u16)) > 0) == ((hi & (1u8 << 4u8)) > 0),
        ((v & (1u16 << 5u16)) > 0) == ((lo & (1u8 << 5u8)) > 0),
        ((v & (1u16 << 13u16)) > 0) == ((hi & (1u8 << 5u8)) > 0),
        ((v & (1u16 << 6u16)) > 0) == ((lo & (1u8 << 6u8)) > 0),
        ((v & (1u16 << 14u16)) > 0) == ((hi & (1u8 << 6u8)) > 0),
        ((v & (1u16 << 7u16)) > 0) == ((lo & (1u8 << 7u8)) > 0),
        ((v & (1u16 << 15u16)) > 0) == ((hi & (1u8 << 7u8)) > 0),
{
}

/// The data pins for a 16-bit word carry exactly that word: reading the
/// pins back gives the value that was put on them.
pub proof fn lemma_u16_levels_carry_value(v: u16)
    ensures
        spec_wide_value(spec_wide_levels(v)) == v,
{
    let l = spec_wide_levels(v);
    let lo = (v % 256) as u8;
    let hi = (v / 256) as u8;
    lemma_u16_halves(v, lo, hi);
    assert(l[0] == spec_narrow_levels(lo)[0]);
    assert(l[8] == spec_narrow_levels(hi)[0]);
    assert(l[1] == spec_narrow_levels(lo)[1]);
    assert(l[9] == spec_narrow_levels(hi)[1]);
    assert(l[2] == spec_narrow_levels(lo)[2]);
    assert(l[10] == spec_narrow_levels(hi)[2]);
    assert(l[3] == spec_narrow_levels(lo)[3]);
    assert(l[11] == spec_narrow_levels(hi)[3]);
    assert(l[4] == spec_narrow_levels(lo)[4]);
    assert(l[12] == spec_narrow_levels(hi)[4]);
    assert(l[5] == spec_narrow_levels(lo)[5]);
    assert(l[13] == spec_narrow_levels(hi)[5]);
    assert(l[6] == spec_narrow_levels(lo)[6]);
    assert(l[14] == spec_narrow_levels(hi)[6]);
    assert(l[7] == spec_narrow_levels(lo)[7]);
    assert(l[15] == spec_narrow_levels(hi)[7]);
    assert(l.subrange(0, 8) =~= spec_narrow_levels(lo));
    assert(l.subrange(8, 16) =~= spec_narrow_levels(hi));
    lemma_u8_levels_carry_value(lo);
    lemma_u8_levels_carry_value(hi);
}

/// Pin levels and values correspond one to one: any levels of pins
/// D0..D15 are the levels of the 16-bit word they stand for.
pub proof fn lemma_u16_value_determines_levels(l: Seq<bool>)
    requires
        l.len() == 16,
    ensures
        spec_wide_levels(spec_wide_value(l)) == l,
{
    let lo_levels = l.subrange(0, 8);
    let hi_levels = l.subrange(8, 16);
    let lo = spec_narrow_value(lo_levels);
    let hi = spec_narrow_value(hi_levels);
    lemma_u8_value_determines_levels(lo_levels);
    lemma_u8_value_determines_levels(hi_levels);
    let w = spec_wide_value(l);
    assert(w == lo + 256 * hi);
    lemma_u16_halves(w, lo, hi);
    assert(spec_wide_levels(w)[0] == lo_levels[0]);
    assert(spec_wide_levels(w)[8] == hi_levels[0]);
    assert(spec_wide_levels(w)[1] == lo_levels[1]);
    assert(spec_wide_levels(w)[9] == hi_levels[1]);
    assert(spec_wide_levels(w)[2] == lo_levels[2]);
    assert(spec_wide_levels(w)[10] == hi_levels[2]);
    assert(spec_wide_levels(w)[3] == lo_levels[3]);
    assert(spec_wide_levels(w)[11] == hi_levels[3]);
    assert(spec_wide_levels(w)[4] == lo_levels[4]);
    assert(spec_wide_levels(w)[12] == hi_levels[4]);
    assert(spec_wide_levels(w)[5] == lo_levels[5]);
    assert(spec_wide_levels(w)[13] == hi_levels[5]);
    assert(spec_wide_levels(w)[6] == lo_levels[6]);
    assert(spec_wide_levels(w)[14] == hi_levels[6]);
    assert(spec_wide_levels(w)[7] == lo_levels[7]);
    assert(spec_wide_levels(w)[15] == hi_levels[7]);
    assert(spec_wide_levels(w) =~= l);
}

/// Every strobe of a planned transfer reads back as its element of the
/// payload: the display latches the bytes or words it was handed, in order.
pub proof fn lemma_transfer_reads_back(payload: Payload, words: Seq<BusWord>, i: int)
    requires
        spec_words_carry(words, payload),
        0 <= i < words.len(),
    ensures
        match payload {
            Payload::U8(bytes) | Payload::U8Iter(bytes) => words[i] matches BusWord::Narrow(levels)
                && spec_narrow_value(levels@) == bytes@[i],
            Payload::U16BEIter(values) => words[i] matches BusWord::Wide(levels)
                && spec_wide_value(levels@) == values@[i],
            Payload::Unsupported => false,
        },
{
    match payload {
        Payload::U8(bytes) | Payload::U8Iter(bytes) => {
            lemma_u8_levels_carry_value(bytes@[i]);
        },
        Payload::U16BEIter(values) => {
            lemma_u16_levels_carry_value(values@[i]);
        },
        Payload::Unsupported => {},
    }
}

} // verus!
