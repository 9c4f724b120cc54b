//! The SX1262 transceiver: the carrier setting used and the transmit-done
//! interrupt flag.
use vstd::prelude::*;

verus! {

/// RF frequency register value for 868 MHz: 868e6 * 2^25 / 32 MHz.
pub const RF_FREQUENCY_868_MHZ: u32 = 0x3640_0000;

/// Bit of the interrupt status word that reports a finished transmission.
pub const IRQ_TX_DONE: u16 = 0x0001;

/// Whether an interrupt status word reports a finished transmission.
pub fn tx_done(irq_status: u16) -> (done: bool)
    ensures
        done == (irq_status & IRQ_TX_DONE != 0),
{
    irq_status & IRQ_TX_DONE != 0
}

/// The transmit-done flag is the lowest bit of the status word: it is set
/// exactly for odd status words, whatever the other flags.
pub proof fn lemma_tx_done_is_low_bit(irq_status: u16)
    ensures
        (irq_status & IRQ_TX_DONE != 0) == (irq_status % 2 == 1),
{
    assert((irq_status & 0x0001u16 != 0) == (irq_status % 2 == 1)) by (bit_vector);
}

} // verus!
