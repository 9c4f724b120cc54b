//! Scanning an I2C bus: every 7-bit address from 0x08 to 0x77 is probed with
//! an empty write, and an address that acknowledges holds a device. The scan
//! is a state machine: it names the next address to probe and takes the
//! outcome of that probe back.
use vstd::prelude::*;

verus! {

/// First address probed.
pub const I2C_ADDRESS_RANGE_START: u8 = 0x08;

/// Last address probed.
pub const I2C_ADDRESS_RANGE_END: u8 = 0x77;

/// Number of 7-bit addresses.
pub const I2C_ADDRESS_COUNT: usize = 128;

/// Number of addresses a scan probes.
pub open spec fn spec_probe_count() -> int {
    I2C_ADDRESS_RANGE_END - I2C_ADDRESS_RANGE_START + 1
}

/// Whether a scan whose probes were answered by `acks`, in order from
/// the first address, found a device at `addr`.
pub open spec fn spec_scan_found(acks: Seq<bool>, addr: int) -> bool {
    &&& I2C_ADDRESS_RANGE_START <= addr < I2C_ADDRESS_RANGE_START + acks.len()
    &&& acks[addr - I2C_ADDRESS_RANGE_START]
}

/// The address a scan probes after `acks`, or none when the range is done.
pub open spec fn spec_next_probe(acks: Seq<bool>) -> Option<u8> {
    if acks.len() < spec_probe_count() {
        Some((I2C_ADDRESS_RANGE_START + acks.len()) as u8)
    } else {
        None
    }
}

/// A scan in progress: the next address to probe and the devices found so far.
pub struct I2cScan {
    next: u8,
    devices: [bool; 128],
    acks: Ghost<Seq<bool>>,
}

impl I2cScan {
    /// The answers to the probes made so far, in order.
    pub closed spec fn acks(self) -> Seq<bool> {
        self.acks@
    }

    #[verifier::type_invariant]
    spec fn wf(self) -> bool {
        &&& self.acks@.len() <= spec_probe_count()
        &&& self.next == I2C_ADDRESS_RANGE_START + self.acks@.len()
        &&& forall|a: int| 0 <= a < 128 ==> self.devices@[a] == spec_scan_found(self.acks@, a)
    }

    /// A scan that has probed nothing yet.
    pub fn new() -> (scan: Self)
        ensures
            scan.acks() == Seq::<bool>::empty(),
    {
        let scan = I2cScan { next: I2C_ADDRESS_RANGE_START, devices: [false; 128], acks: Ghost(Seq::empty()) };
        scan
    }

    /// The address to probe next, or none once the whole range is probed.
    pub fn next_probe(&self) -> (addr: Option<u8>)
        ensures
            addr == spec_next_probe(self.acks()),
    {
        proof {
            use_type_invariant(self);
        }
        if self.next <= I2C_ADDRESS_RANGE_END {
            Some(self.next)
        } else {
            None
        }
    }

    /// Takes the outcome of probing the address that `next_probe` named: a
    /// device is recorded there when it acknowledged. Once the range is done
    /// the scan does not change.
    pub fn record(&mut self, acked: bool)
        ensures
            old(self).acks().len() < spec_probe_count() ==> final(self).acks() == old(self).acks().push(acked),
            old(self).acks().len() >= spec_probe_count() ==> final(self).acks() == old(self).acks(),
    {
        proof {
            use_type_invariant(&*self);
        }
        if self.next > I2C_ADDRESS_RANGE_END {
            return;
        }
        let addr = self.next;
        let mut devices = self.devices;
        if acked {
            devices[addr as usize] = true;
        }
        let ghost acks = self.acks@.push(acked);
        proof {
            assert forall|a: int| 0 <= a < 128 implies devices@[a] == spec_scan_found(acks, a) by {
                assert(self.devices@[a] == spec_scan_found(self.acks@, a));
                if a != addr {
                    assert(devices@[a] == self.devices@[a]);
                    if I2C_ADDRESS_RANGE_START <= a < addr {
                        assert(acks[a - I2C_ADDRESS_RANGE_START] == self.acks@[a - I2C_ADDRESS_RANGE_START]);
                    }
                } else {
                    assert(acks[a - I2C_ADDRESS_RANGE_START] == acked);
                    assert(!spec_scan_found(self.acks@, a));
                }
            }
        }
        *self = I2cScan { next: addr + 1, devices, acks: Ghost(acks) };
    }

    /// Which addresses hold a device, as found so far.
    pub fn devices(&self) -> (devices: [bool; 128])
        ensures
            forall|a: int| 0 <= a < 128 ==> devices@[a] == spec_scan_found(self.acks(), a),
    {
        proof {
            use_type_invariant(self);
        }
        self.devices
    }
}

/// A scan probes each address of the range once, in ascending order, and
/// ends after the last: after `k` probes it names address `0x08 + k`, and
/// after all of them it names none and its findings are the answers.
pub proof fn lemma_scan_order(acks: Seq<bool>)
    requires
        acks.len() <= spec_probe_count(),
    ensures
        acks.len() < spec_probe_count() ==> spec_next_probe(acks) == Some(
            (I2C_ADDRESS_RANGE_START + acks.len()) as u8,
        ),
        acks.len() == spec_probe_count() ==> spec_next_probe(acks) is None,
        acks.len() == spec_probe_count() ==> forall|a: int|
            0 <= a < 128 ==> (spec_scan_found(acks, a) <==> (I2C_ADDRESS_RANGE_START <= a
                <= I2C_ADDRESS_RANGE_END && acks[a - I2C_ADDRESS_RANGE_START])),
{
}

/// The device addresses in `[0x08, end)`, ascending.
pub open spec fn spec_found_upto(devices: Seq<bool>, end: int) -> Seq<u8>
    decreases end - I2C_ADDRESS_RANGE_START,
{
    if end <= I2C_ADDRESS_RANGE_START {
        Seq::empty()
    } else if devices[end - 1] {
        spec_found_upto(devices, end - 1).push((end - 1) as u8)
    } else {
        spec_found_upto(devices, end - 1)
    }
}

/// The number of addresses in `[0x08, end)` that hold a device.
pub open spec fn spec_count_upto(devices: Seq<bool>, end: int) -> nat
    decreases end - I2C_ADDRESS_RANGE_START,
{
    if end <= I2C_ADDRESS_RANGE_START {
        0
    } else if devices[end - 1] {
        spec_count_upto(devices, end - 1) + 1
    } else {
        spec_count_upto(devices, end - 1)
    }
}

/// The addresses of the scanned range that hold a device, ascending.
pub open spec fn spec_found_addresses(devices: Seq<bool>) -> Seq<u8> {
    spec_found_upto(devices, I2C_ADDRESS_RANGE_END + 1)
}

/// The number of addresses of the scanned range that hold a device.
pub open spec fn spec_found_count(devices: Seq<bool>) -> nat {
    spec_count_upto(devices, I2C_ADDRESS_RANGE_END + 1)
}

/// The first address of table row `row` (addresses `16 * row` to
/// `16 * row + 15`) that holds a device, if any.
pub fn first_device_in_row(devices: &[bool; 128], row: u8) -> (found: Option<u8>)
    requires
        row < 8,
    ensures
        match found {
            Some(addr) => {
                &&& row * 16 <= addr < row * 16 + 16
                &&& devices@[addr as int]
                &&& forall|b: int| row * 16 <= b < addr ==> !devices@[b]
            },
            None => forall|b: int| row * 16 <= b < row * 16 + 16 ==> !devices@[b],
        },
{
    let start_addr: u8 = row * 16;
    let mut col: u8 = 0;
    while col < 16
        invariant
            row < 8,
            start_addr == row * 16,
            col <= 16,
            forall|b: int| start_addr <= b < start_addr + col ==> !devices@[b],
        decreases 16 - col,
    {
        let addr = start_addr + col;
        if devices[addr as usize] {
            return Some(addr);
        }
        col = col + 1;
    }
    None
}

/// The addresses of the scanned range that hold a device, ascending.
pub fn found_addresses(devices: &[bool; 128]) -> (found: Vec<u8>)
    ensures
        found@ == spec_found_addresses(devices@),
{
    let mut found: Vec<u8> = Vec::new();
    let mut addr: u8 = I2C_ADDRESS_RANGE_START;
    while addr <= I2C_ADDRESS_RANGE_END
        invariant
            I2C_ADDRESS_RANGE_START <= addr <= I2C_ADDRESS_RANGE_END + 1,
            found@ == spec_found_upto(devices@, addr as int),
        decreases I2C_ADDRESS_RANGE_END + 1 - addr,
    {
        if devices[addr as usize] {
            found.push(addr);
        }
        addr = addr + 1;
    }
    found
}

/// The number of addresses of the scanned range that hold a device.
pub fn count_found(devices: &[bool; 128]) -> (count: usize)
    ensures
        count == spec_found_count(devices@),
{
    let mut count: usize = 0;
    let mut addr: u8 = I2C_ADDRESS_RANGE_START;
    while addr <= I2C_ADDRESS_RANGE_END
        invariant
            I2C_ADDRESS_RANGE_START <= addr <= I2C_ADDRESS_RANGE_END + 1,
            count == spec_count_upto(devices@, addr as int),
            count <= addr,
        decreases I2C_ADDRESS_RANGE_END + 1 - addr,
    {
        if devices[addr as usize] {
            count = count + 1;
        }
        addr = addr + 1;
    }
    count
}

proof fn lemma_found_upto(devices: Seq<bool>, end: int)
    requires
        I2C_ADDRESS_RANGE_START <= end <= 128,
        devices.len() == 128,
    ensures
        spec_count_upto(devices, end) == spec_found_upto(devices, end).len(),
        forall|i: int|
            0 <= i < spec_found_upto(devices, end).len() ==> I2C_ADDRESS_RANGE_START
                <= #[trigger] spec_found_upto(devices, end)[i] < end,
        forall|i: int, j: int|
            0 <= i < j < spec_found_upto(devices, end).len() ==> #[trigger] spec_found_upto(
                devices,
                end,
            )[i] < #[trigger] spec_found_upto(devices, end)[j],
        forall|a: u8|
            #[trigger] spec_found_upto(devices, end).contains(a) <==> (I2C_ADDRESS_RANGE_START <= a < end
                && devices[a as int]),
    decreases end - I2C_ADDRESS_RANGE_START,
{
    if end > I2C_ADDRESS_RANGE_START {
        lemma_found_upto(devices, end - 1);
        let prev = spec_found_upto(devices, end - 1);
        let cur = spec_found_upto(devices, end);
        let last = (end - 1) as u8;
        if devices[end - 1] {
            assert(cur == prev.push(last));
            assert forall|a: u8| #[trigger] cur.contains(a) <==> (I2C_ADDRESS_RANGE_START <= a < end
                && devices[a as int]) by {
                if cur.contains(a) {
                    let k = choose|k: int| 0 <= k < cur.len() && cur[k] == a;
                    if k < prev.len() {
                        assert(prev.contains(a));
                    }
                }
                if a == last {
                    assert(cur[prev.len() as int] == a);
                }
                if I2C_ADDRESS_RANGE_START <= a < end - 1 && devices[a as int] {
                    assert(prev.contains(a));
                    let k = choose|k: int| 0 <= k < prev.len() && prev[k] == a;
                    assert(cur[k] == a);
                }
            }
            assert forall|i: int| 0 <= i < cur.len() implies I2C_ADDRESS_RANGE_START <= #[trigger] cur[i]
                < end by {
                if i < prev.len() {
                    assert(cur[i] == prev[i]);
                }
            }
            assert forall|i: int, j: int| 0 <= i < j < cur.len() implies cur[i] < cur[j] by {
                assert(cur[i] == prev[i]);
                if j < prev.len() {
                    assert(cur[j] == prev[j]);
                }
            }
        } else {
            assert(cur == prev);
            assert forall|a: u8| #[trigger] cur.contains(a) <==> (I2C_ADDRESS_RANGE_START <= a < end
                && devices[a as int]) by {
                if a == last {
                    assert(!prev.contains(a));
                }
            }
        }
    }
}

/// The report of a scan is sound and complete: the found addresses are
/// ascending, each holds a device in the scanned range, every device of
/// the range is listed, and the count is the length of the list.
pub proof fn lemma_found_report(devices: Seq<bool>)
    requires
        devices.len() == 128,
    ensures
        spec_found_count(devices) == spec_found_addresses(devices).len(),
        forall|i: int, j: int|
            0 <= i < j < spec_found_addresses(devices).len() ==> #[trigger] spec_found_addresses(
                devices,
            )[i] < #[trigger] spec_found_addresses(devices)[j],
        forall|a: u8|
            #[trigger] spec_found_addresses(devices).contains(a) <==> (I2C_ADDRESS_RANGE_START <= a
                <= I2C_ADDRESS_RANGE_END && devices[a as int]),
{
    lemma_found_upto(devices, I2C_ADDRESS_RANGE_END + 1);
}

} // verus!
