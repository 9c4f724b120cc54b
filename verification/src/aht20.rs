//! The AHT20 temperature and humidity sensor protects each measurement with
//! a CRC-8/NRSC-5 (polynomial 0x31, initial value 0xFF, no reflection, no
//! final XOR); this module checks it with the `crc` crate.
use vstd::prelude::*;

verus! {

/// The CRC-8 generator polynomial x^8 + x^5 + x^4 + 1, without its top bit.
pub const CRC8_POLY: u8 = 0x31;

/// The register value before the first byte.
pub const CRC8_INIT: u8 = 0xFF;

/// One bit step of the CRC register: shift left, and when the bit shifted
/// out was set, XOR in the polynomial.
pub open spec fn spec_crc8_bit(crc: u8) -> u8 {
    if crc & 0x80 != 0 {
        (crc << 1u8) ^ CRC8_POLY
    } else {
        crc << 1u8
    }
}

/// The register after `n` bit steps.
pub open spec fn spec_crc8_bits(crc: u8, n: nat) -> u8
    decreases n,
{
    if n == 0 {
        crc
    } else {
        spec_crc8_bits(spec_crc8_bit(crc), (n - 1) as nat)
    }
}

/// The register after taking in one byte, most significant bit first.
pub open spec fn spec_crc8_byte(crc: u8, byte: u8) -> u8 {
    spec_crc8_bits(crc ^ byte, 8)
}

/// The CRC-8/NRSC-5 of `data`: the register, started at 0xFF, after every
/// byte in order; there is no reflection and no final XOR.
pub open spec fn crc8_nrsc5(data: Seq<u8>) -> u8
    decreases data.len(),
{
    if data.len() == 0 {
        CRC8_INIT
    } else {
        spec_crc8_byte(crc8_nrsc5(data.drop_last()), data.last())
    }
}

/// Calls `crc::Crc::<u8>::new(&crc::CRC_8_NRSC_5)`, then `digest`, `update`
/// with all of `data` and `finalize`. Trusted: the crate computes the
/// CRC-8/NRSC-5 of exactly these bytes, as its algorithm constant (width 8,
/// polynomial 0x31, initial value 0xFF, no reflection, XOR out 0) defines it.
#[verifier::external_body]
fn crc8_nrsc5_checksum(data: &[u8]) -> (crc: u8)
    ensures
        crc == crc8_nrsc5(data@),
{
    let algorithm = crc::Crc::<u8>::new(&crc::CRC_8_NRSC_5);
    let mut digest = algorithm.digest();
    digest.update(data);
    digest.finalize()
}

/// Whether the CRC byte that came with a measurement matches the checksum of
/// its data bytes.
pub fn aht20_crc_matches(data: &[u8], crc: u8) -> (matches: bool)
    ensures
        matches == (crc8_nrsc5(data@) == crc),
{
    crc8_nrsc5_checksum(data) == crc
}

/// The checksum of no bytes is the initial value 0xFF, and the register has
/// residue zero: appending a message's checksum to it gives checksum 0.
pub proof fn lemma_crc8_init_and_residue(data: Seq<u8>)
    ensures
        crc8_nrsc5(Seq::<u8>::empty()) == 0xFF,
        crc8_nrsc5(data.push(crc8_nrsc5(data))) == 0,
{
    let c = crc8_nrsc5(data);
    assert(data.push(c).drop_last() =~= data);
    assert(c ^ c == 0u8) by (bit_vector);
    assert(spec_crc8_bit(0) == 0) by {
        assert(0u8 & 0x80u8 == 0u8) by (bit_vector);
        assert(0u8 << 1u8 == 0u8) by (bit_vector);
    }
    reveal_with_fuel(spec_crc8_bits, 9);
}

} // verus!
