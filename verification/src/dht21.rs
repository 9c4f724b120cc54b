//! The DHT21 (AM2301) single-wire protocol: forty high pulses, read most
//! significant bit first, form five bytes: humidity, temperature and a
//! checksum. A pulse longer than 50 us is a one.
use vstd::prelude::*;

verus! {

/// Number of data pulses the sensor sends after its response.
pub const DHT21_FRAME_BITS: usize = 40;

/// Number of bytes those pulses form.
pub const DHT21_FRAME_BYTES: usize = 5;

/// How long the host holds the line low to start a measurement, in us.
pub const START_SIGNAL_US: u32 = 1200;

/// How long after releasing the line the sensor must have pulled it low, in us.
pub const RESPONSE_WAIT_US: u32 = 40;

/// Why a DHT21 read failed.
#[derive(Clone, Copy, Debug, PartialEq, Eq, Structural)]
pub enum Dht21Error {
    /// The line was still high when the sensor should have pulled it low.
    NoResponse,
    /// The fifth byte is not the sum of the first four.
    ChecksumError,
}

impl Dht21Error {
    /// The text the driver reports for this error.
    pub fn message(&self) -> (text: &'static str)
        ensures
            *self == Dht21Error::NoResponse ==> text@ == "No response"@,
            *self == Dht21Error::ChecksumError ==> text@ == "Checksum error"@,
    {
        match self {
            Dht21Error::NoResponse => "No response",
            Dht21Error::ChecksumError => "Checksum error",
        }
    }
}

/// A decoded DHT21 measurement, in tenths of a percent and of a degree.
#[derive(Clone, Copy, Debug, PartialEq, Eq, Structural)]
pub struct Dht21Reading {
    /// Relative humidity, in tenths of a percent.
    pub humidity_tenths: u16,
    /// Magnitude of the temperature, in tenths of a degree Celsius.
    pub temperature_magnitude_tenths: u16,
    /// Whether the sign bit of the temperature was set.
    pub temperature_negative: bool,
}

impl Dht21Reading {
    /// The signed temperature in tenths of a degree.
    pub open spec fn spec_temperature_tenths(self) -> int {
        if self.temperature_negative {
            -(self.temperature_magnitude_tenths as int)
        } else {
            self.temperature_magnitude_tenths as int
        }
    }

    /// The signed temperature in tenths of a degree Celsius.
    pub fn temperature_tenths(&self) -> (tenths: i32)
        ensures
            tenths == self.spec_temperature_tenths(),
            !self.temperature_negative ==> tenths == self.temperature_magnitude_tenths,
            self.temperature_negative ==> tenths == -(self.temperature_magnitude_tenths as int),
    {
        if self.temperature_negative {
            -(self.temperature_magnitude_tenths as i32)
        } else {
            self.temperature_magnitude_tenths as i32
        }
    }
}

/// Pulse length, in cycles, above which a pulse is a one: 50 us.
pub open spec fn spec_bit_threshold(sysclk_hz: u32) -> int {
    (sysclk_hz as int / 1_000_000) * 50
}

/// The bit a high pulse of `high_ticks` cycles stands for.
pub open spec fn spec_pulse_bit(high_ticks: u32, sysclk_hz: u32) -> u8 {
    if high_ticks > spec_bit_threshold(sysclk_hz) {
        1
    } else {
        0
    }
}

/// The number that `bits` spell, most significant first.
pub open spec fn spec_bits_value(bits: Seq<u8>) -> int
    decreases bits.len(),
{
    if bits.len() == 0 {
        0
    } else {
        2 * spec_bits_value(bits.drop_last()) + bits.last()
    }
}

/// The bits that a run of pulses stands for, in arrival order.
pub open spec fn spec_frame_bits(high_pulse_ticks: Seq<u32>, sysclk_hz: u32) -> Seq<u8> {
    high_pulse_ticks.map_values(|t: u32| spec_pulse_bit(t, sysclk_hz))
}

/// The five bytes that forty pulses form: byte `k` is spelled by bits `8k` to `8k + 7`.
pub open spec fn spec_frame(high_pulse_ticks: Seq<u32>, sysclk_hz: u32) -> Seq<u8> {
    let bits = spec_frame_bits(high_pulse_ticks, sysclk_hz);
    Seq::new(5, |k: int| spec_bits_value(bits.subrange(8 * k, 8 * k + 8)) as u8)
}

/// The checksum of a frame: the sum of its first four bytes, modulo 256.
pub open spec fn spec_checksum(frame: Seq<u8>) -> u8 {
    ((frame[0] + frame[1] + frame[2] + frame[3]) % 256) as u8
}

/// The measurement a frame with a good checksum holds.
pub open spec fn spec_decode(frame: Seq<u8>) -> Dht21Reading {
    Dht21Reading {
        humidity_tenths: (frame[0] * 256 + frame[1]) as u16,
        temperature_magnitude_tenths: ((frame[2] % 128) * 256 + frame[3]) as u16,
        temperature_negative: frame[2] >= 128,
    }
}

/// What a frame decodes to: the measurement, or a checksum error.
pub open spec fn spec_decode_frame(frame: Seq<u8>) -> Result<Dht21Reading, Dht21Error> {
    if frame[4] == spec_checksum(frame) {
        Ok(spec_decode(frame))
    } else {
        Err(Dht21Error::ChecksumError)
    }
}

/// What a whole read gives: no response when the line stayed high, else the
/// decoded frame of the forty pulses.
pub open spec fn spec_read_dht21(
    response_line_high: bool,
    high_pulse_ticks: Seq<u32>,
    sysclk_hz: u32,
) -> Result<Dht21Reading, Dht21Error> {
    if response_line_high {
        Err(Dht21Error::NoResponse)
    } else {
        spec_decode_frame(spec_frame(high_pulse_ticks, sysclk_hz))
    }
}

/// The bit a high pulse of `high_ticks` cycles stands for at `sysclk_hz`.
pub fn pulse_bit(high_ticks: u32, sysclk_hz: u32) -> (bit: u8)
    ensures
        bit == spec_pulse_bit(high_ticks, sysclk_hz),
        bit == 1 <==> high_ticks > (sysclk_hz / 1_000_000) * 50,
        bit == 0 <==> high_ticks <= (sysclk_hz / 1_000_000) * 50,
{
    if high_ticks > sysclk_hz / 1_000_000 * 50 {
        1
    } else {
        0
    }
}

proof fn lemma_shift_in(acc: u8, bit: u8, k: u8, next: u8)
    by (bit_vector)
    requires
        acc >> k == 0u8,
        k < 8,
        next == k + 1,
        bit <= 1,
    ensures
        ((acc << 1u8) | bit) == 2 * acc + bit,
        ((acc << 1u8) | bit) >> next == 0u8,
{
}

/// Shifts the bit of each of the forty pulses into five bytes, most
/// significant bit first.
pub fn frame_from_pulses(high_pulse_ticks: &[u32; 40], sysclk_hz: u32) -> (frame: [u8; 5])
    ensures
        frame@ == spec_frame(high_pulse_ticks@, sysclk_hz),
{
    let ghost bits = spec_frame_bits(high_pulse_ticks@, sysclk_hz);
    let mut data = [0u8; 5];
    let mut byte: usize = 0;
    while byte < 5
        invariant
            byte <= 5,
            high_pulse_ticks@.len() == 40,
            bits == spec_frame_bits(high_pulse_ticks@, sysclk_hz),
            forall|k: int| 0 <= k < byte ==> data@[k] == spec_frame(high_pulse_ticks@, sysclk_hz)[k],
            forall|k: int| byte <= k < 5 ==> data@[k] == 0,
        decreases 5 - byte,
    {
        let mut bit: usize = 0;
        proof {
            assert(0u8 >> 0u8 == 0u8) by (bit_vector);
            assert(bits.subrange(8 * byte, 8 * byte) =~= Seq::<u8>::empty());
        }
        while bit < 8
            invariant
                byte < 5,
                bit <= 8,
                high_pulse_ticks@.len() == 40,
                bits == spec_frame_bits(high_pulse_ticks@, sysclk_hz),
                forall|k: int| 0 <= k < byte ==> data@[k] == spec_frame(high_pulse_ticks@, sysclk_hz)[k],
                forall|k: int| byte < k < 5 ==> data@[k] == 0,
                data@[byte as int] == spec_bits_value(bits.subrange(8 * byte, 8 * byte + bit)),
                data@[byte as int] >> (bit as u8) == 0u8,
            decreases 8 - bit,
        {
            let b = pulse_bit(high_pulse_ticks[byte * 8 + bit], sysclk_hz);
            let acc = data[byte];
            proof {
                lemma_shift_in(acc, b, bit as u8, (bit + 1) as u8);
                let prefix = bits.subrange(8 * byte, 8 * byte + bit + 1);
                assert(prefix.drop_last() =~= bits.subrange(8 * byte, 8 * byte + bit));
                assert(prefix.last() == b);
            }
            data[byte] = (acc << 1u8) | b;
            bit = bit + 1;
        }
        byte = byte + 1;
    }
    proof {
        assert(data@ =~= spec_frame(high_pulse_ticks@, sysclk_hz));
    }
    data
}

/// The checksum of a frame: the wrapping sum of its first four bytes.
pub fn checksum(frame: &[u8; 5]) -> (sum: u8)
    ensures
        sum == spec_checksum(frame@),
        sum == (frame@[0] + frame@[1] + frame@[2] + frame@[3]) % 256,
{
    frame[0].wrapping_add(frame[1]).wrapping_add(frame[2]).wrapping_add(frame[3])
}

/// Decodes a frame: a measurement when the checksum byte matches, else a
/// checksum error.
pub fn decode_frame(frame: &[u8; 5]) -> (reading: Result<Dht21Reading, Dht21Error>)
    ensures
        reading == spec_decode_frame(frame@),
        reading is Ok <==> frame@[4] == (frame@[0] + frame@[1] + frame@[2] + frame@[3]) % 256,
        reading is Err ==> reading == Err::<Dht21Reading, Dht21Error>(Dht21Error::ChecksumError),
        reading matches Ok(r) ==> {
            &&& r.humidity_tenths == frame@[0] * 256 + frame@[1]
            &&& r.temperature_magnitude_tenths == (frame@[2] % 128) * 256 + frame@[3]
            &&& r.temperature_negative == (frame@[2] >= 128)
        },
{
    if frame[4] != checksum(frame) {
        return Err(Dht21Error::ChecksumError);
    }
    let d0 = frame[0];
    let d1 = frame[1];
    let d2 = frame[2];
    let d3 = frame[3];
    let humidity = (d0 as u16) << 8u16 | d1 as u16;
    let magnitude = ((d2 as u16) & 0x7F) << 8u16 | d3 as u16;
    let negative = d2 & 0x80 != 0;
    proof {
        assert(((d0 as u16) << 8u16 | d1 as u16) == d0 * 256 + d1) by (bit_vector);
        assert((((d2 as u16) & 0x7F) << 8u16 | d3 as u16) == (d2 % 128) * 256 + d3) by (bit_vector);
        assert((d2 & 0x80 != 0) == (d2 >= 128)) by (bit_vector);
    }
    Ok(Dht21Reading {
        humidity_tenths: humidity,
        temperature_magnitude_tenths: magnitude,
        temperature_negative: negative,
    })
}

/// Reads a DHT21 measurement from what the line showed: whether it was still
/// high when the sensor should have answered, and the length in cycles of
/// each of the forty high pulses that followed.
pub fn read_dht21(response_line_high: bool, high_pulse_ticks: &[u32; 40], sysclk_hz: u32) -> (reading:
    Result<Dht21Reading, Dht21Error>)
    ensures
        reading == spec_read_dht21(response_line_high, high_pulse_ticks@, sysclk_hz),
        response_line_high ==> reading == Err::<Dht21Reading, Dht21Error>(Dht21Error::NoResponse),
        !response_line_high ==> reading == spec_decode_frame(spec_frame(high_pulse_ticks@, sysclk_hz)),
{
    if response_line_high {
        return Err(Dht21Error::NoResponse);
    }
    let frame = frame_from_pulses(high_pulse_ticks, sysclk_hz);
    decode_frame(&frame)
}

/// The eight bits of a byte, most significant first.
pub open spec fn spec_byte_bits(b: u8) -> Seq<u8> {
    Seq::new(8, |j: int| (b >> ((7 - j) as u8)) & 1u8)
}

proof fn lemma_bits_value_eight(s: Seq<u8>)
    requires
        s.len() == 8,
    ensures
        spec_bits_value(s) == 128 * s[0] + 64 * s[1] + 32 * s[2] + 16 * s[3] + 8 * s[4] + 4 * s[5]
            + 2 * s[6] + s[7],
{
    let s7 = s.drop_last();
    let s6 = s7.drop_last();
    let s5 = s6.drop_last();
    let s4 = s5.drop_last();
    let s3 = s4.drop_last();
    let s2 = s3.drop_last();
    let s1 = s2.drop_last();
    let s0 = s1.drop_last();
    assert(spec_bits_value(s0) == 0);
    assert(spec_bits_value(s1) == s[0]);
    assert(spec_bits_value(s2) == 2 * s[0] + s[1]);
    assert(spec_bits_value(s3) == 4 * s[0] + 2 * s[1] + s[2]);
    assert(spec_bits_value(s4) == 8 * s[0] + 4 * s[1] + 2 * s[2] + s[3]);
    assert(spec_bits_value(s5) == 16 * s[0] + 8 * s[1] + 4 * s[2] + 2 * s[3] + s[4]);
    assert(spec_bits_value(s6) == 32 * s[0] + 16 * s[1] + 8 * s[2] + 4 * s[3] + 2 * s[4] + s[5]);
    assert(spec_bits_value(s7) == 64 * s[0] + 32 * s[1] + 16 * s[2] + 8 * s[3] + 4 * s[4] + 2
        * s[5] + s[6]);
}

/// Spelling a byte's bits, most significant first, gives the byte back.
pub proof fn lemma_byte_bits_value(b: u8)
    ensures
        spec_bits_value(spec_byte_bits(b)) == b,
{
    let s = spec_byte_bits(b);
    lemma_bits_value_eight(s);
    assert(128 * ((b >> 7u8) & 1u8) + 64 * ((b >> 6u8) & 1u8) + 32 * ((b >> 5u8) & 1u8) + 16 * ((b
        >> 4u8) & 1u8) + 8 * ((b >> 3u8) & 1u8) + 4 * ((b >> 2u8) & 1u8) + 2 * ((b >> 1u8) & 1u8)
        + ((b >> 0u8) & 1u8) == b) by (bit_vector);
}

proof fn lemma_value_bits(s: Seq<u8>)
    requires
        s.len() == 8,
        forall|j: int| 0 <= j < 8 ==> s[j] <= 1,
    ensures
        0 <= spec_bits_value(s) < 256,
        spec_byte_bits(spec_bits_value(s) as u8) == s,
{
    lemma_bits_value_eight(s);
    let (x0, x1, x2, x3, x4, x5, x6, x7) = (s[0], s[1], s[2], s[3], s[4], s[5], s[6], s[7]);
    let v = spec_bits_value(s);
    assert(x0 <= 1 && x1 <= 1 && x2 <= 1 && x3 <= 1 && x4 <= 1 && x5 <= 1 && x6 <= 1 && x7 <= 1);
    let b = v as u8;
    assert(b == 128 * x0 + 64 * x1 + 32 * x2 + 16 * x3 + 8 * x4 + 4 * x5 + 2 * x6 + x7);
    assert({
        &&& (b >> 7u8) & 1u8 == x0
        &&& (b >> 6u8) & 1u8 == x1
        &&& (b >> 5u8) & 1u8 == x2
        &&& (b >> 4u8) & 1u8 == x3
        &&& (b >> 3u8) & 1u8 == x4
        &&& (b >> 2u8) & 1u8 == x5
        &&& (b >> 1u8) & 1u8 == x6
        &&& (b >> 0u8) & 1u8 == x7
    }) by (bit_vector)
        requires
            x0 <= 1 && x1 <= 1 && x2 <= 1 && x3 <= 1 && x4 <= 1 && x5 <= 1 && x6 <= 1 && x7 <= 1,
            b == 128 * x0 + 64 * x1 + 32 * x2 + 16 * x3 + 8 * x4 + 4 * x5 + 2 * x6 + x7,
    ;
    assert(spec_byte_bits(b) =~= s);
}

/// The pulses are read most significant bit first: the bits of frame byte
/// `k`, from bit 7 down to bit 0, are the bits of pulses `8k` to `8k + 7`.
pub proof fn lemma_frame_msb_first(high_pulse_ticks: Seq<u32>, sysclk_hz: u32, k: int)
    requires
        high_pulse_ticks.len() == 40,
        0 <= k < 5,
    ensures
        spec_byte_bits(spec_frame(high_pulse_ticks, sysclk_hz)[k]) == spec_frame_bits(
            high_pulse_ticks,
            sysclk_hz,
        ).subrange(8 * k, 8 * k + 8),
{
    let bits = spec_frame_bits(high_pulse_ticks, sysclk_hz);
    let s = bits.subrange(8 * k, 8 * k + 8);
    assert forall|j: int| 0 <= j < 8 implies s[j] <= 1 by {
        assert(s[j] == spec_pulse_bit(high_pulse_ticks[8 * k + j], sysclk_hz));
    }
    lemma_value_bits(s);
}

/// The frame a sensor sends for a measurement: humidity high and low byte,
/// temperature magnitude high byte with the sign in bit 7, low byte, and
/// the checksum.
pub open spec fn spec_sensor_frame(reading: Dht21Reading) -> Seq<u8> {
    let h = reading.humidity_tenths as int;
    let t = reading.temperature_magnitude_tenths as int;
    let d0 = (h / 256) as u8;
    let d1 = (h % 256) as u8;
    let d2 = (t / 256 + if reading.temperature_negative {
        128int
    } else {
        0int
    }) as u8;
    let d3 = (t % 256) as u8;
    seq![d0, d1, d2, d3, ((d0 + d1 + d2 + d3) % 256) as u8]
}

/// A frame whose pulses spell its bytes, most significant bit first, is
/// read back exactly.
pub proof fn lemma_pulses_spell_frame(high_pulse_ticks: Seq<u32>, sysclk_hz: u32, frame: Seq<u8>)
    requires
        high_pulse_ticks.len() == 40,
        frame.len() == 5,
        forall|i: int|
            0 <= i < 40 ==> spec_pulse_bit(#[trigger] high_pulse_ticks[i], sysclk_hz)
                == spec_byte_bits(frame[i / 8])[i % 8],
    ensures
        spec_frame(high_pulse_ticks, sysclk_hz) == frame,
{
    let bits = spec_frame_bits(high_pulse_ticks, sysclk_hz);
    assert forall|k: int| 0 <= k < 5 implies spec_frame(high_pulse_ticks, sysclk_hz)[k] == frame[k] by {
        let sub = bits.subrange(8 * k, 8 * k + 8);
        assert forall|j: int| 0 <= j < 8 implies sub[j] == spec_byte_bits(frame[k])[j] by {
            let i = 8 * k + j;
            assert(high_pulse_ticks[i] == high_pulse_ticks[8 * k + j]);
            assert(i / 8 == k && i % 8 == j);
        }
        assert(sub =~= spec_byte_bits(frame[k]));
        lemma_byte_bits_value(frame[k]);
    }
    assert(spec_frame(high_pulse_ticks, sysclk_hz) =~= frame);
}

/// Every measurement whose temperature magnitude fits in 15 bits decodes
/// back from the frame the sensor sends for it, sign included.
pub proof fn lemma_decode_sensor_frame(reading: Dht21Reading)
    requires
        reading.temperature_magnitude_tenths < 0x8000,
    ensures
        spec_decode_frame(spec_sensor_frame(reading)) == Ok::<Dht21Reading, Dht21Error>(reading),
{
    let frame = spec_sensor_frame(reading);
    let h = reading.humidity_tenths as int;
    let t = reading.temperature_magnitude_tenths as int;
    assert(frame[0] * 256 + frame[1] == h);
    assert(t / 256 < 128);
    assert(frame[2] % 128 == t / 256);
    assert((frame[2] % 128) * 256 + frame[3] == t);
    assert((frame[2] >= 128) == reading.temperature_negative);
}

/// A pulse is a one exactly when it lasts longer than 50 us at the given
/// clock: on a whole-megahertz clock, a pulse of `us` microseconds (that many
/// microseconds of cycles) reads as one if and only if `us > 50`, whatever
/// the clock.
pub proof fn lemma_pulse_bit_is_fifty_us(us: u32, mhz: u32)
    requires
        1 <= mhz <= 4294,
        us * mhz <= u32::MAX,
    ensures
        spec_pulse_bit((us * mhz) as u32, (mhz * 1_000_000) as u32) == 1 <==> us > 50,
        spec_pulse_bit((us * mhz) as u32, (mhz * 1_000_000) as u32) == 0 <==> us <= 50,
{
    let sysclk = (mhz * 1_000_000) as u32;
    assert(sysclk as int / 1_000_000 == mhz);
    assert((us * mhz > mhz * 50) <==> us > 50) by (nonlinear_arith)
        requires
            mhz >= 1,
    ;
}

/// A pulse reads as one exactly when it is longer than the 50 us threshold
/// of the clock it was timed with, for every clock and every length.
pub proof fn lemma_pulse_bit_threshold(high_ticks: u32, sysclk_hz: u32)
    ensures
        spec_pulse_bit(high_ticks, sysclk_hz) == 1 <==> high_ticks > (sysclk_hz / 1_000_000) * 50,
        spec_pulse_bit(high_ticks, sysclk_hz) == 0 <==> high_ticks <= (sysclk_hz / 1_000_000) * 50,
{
}

/// The signed temperature of a reading is its magnitude, negated exactly
/// when the sign flag is set; a sensor frame carrying humidity `h`,
/// magnitude `t < 0x8000` and sign `negative` decodes to a temperature of
/// `t` or `-t` accordingly and a humidity of `h`.
pub proof fn lemma_signed_temperature(h: u16, t: u16, negative: bool)
    requires
        t < 0x8000,
    ensures
        ({
            let reading = Dht21Reading {
                humidity_tenths: h,
                temperature_magnitude_tenths: t,
                temperature_negative: negative,
            };
            let decoded = spec_decode_frame(spec_sensor_frame(reading));
            &&& decoded is Ok
            &&& decoded->Ok_0.humidity_tenths == h
            &&& decoded->Ok_0.spec_temperature_tenths() == if negative {
                -(t as int)
            } else {
                t as int
            }
        }),
{
    let reading = Dht21Reading { humidity_tenths: h, temperature_magnitude_tenths: t, temperature_negative: negative };
    lemma_decode_sensor_frame(reading);
}

} // verus!
