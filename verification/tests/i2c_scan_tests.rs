use stm32f4_devices::i2c_scan::{
    count_found, first_device_in_row, found_addresses, I2cScan, I2C_ADDRESS_RANGE_END,
    I2C_ADDRESS_RANGE_START,
};

fn run_scan(present: &[u8]) -> (Vec<u8>, [bool; 128]) {
    let mut scan = I2cScan::new();
    let mut probed = Vec::new();
    while let Some(addr) = scan.next_probe() {
        probed.push(addr);
        scan.record(present.contains(&addr));
    }
    (probed, scan.devices())
}

#[test]
fn scan_probes_the_range_once_in_order() {
    let (probed, _) = run_scan(&[]);
    let expected: Vec<u8> = (I2C_ADDRESS_RANGE_START..=I2C_ADDRESS_RANGE_END).collect();
    assert_eq!(probed, expected);
    assert_eq!(probed.len(), 112);
}

#[test]
fn scan_records_acknowledging_addresses() {
    let (_, devices) = run_scan(&[0x38, 0x68]);
    for addr in 0..128usize {
        assert_eq!(devices[addr], addr == 0x38 || addr == 0x68, "address {:#04x}", addr);
    }
}

#[test]
fn scan_range_edges() {
    let (_, devices) = run_scan(&[0x08, 0x77]);
    assert!(devices[0x08]);
    assert!(devices[0x77]);
    assert_eq!(count_found(&devices), 2);
}

#[test]
fn record_after_the_range_changes_nothing() {
    let mut scan = I2cScan::new();
    while scan.next_probe().is_some() {
        scan.record(false);
    }
    scan.record(true);
    assert_eq!(scan.next_probe(), None);
    assert_eq!(scan.devices(), [false; 128]);
}

#[test]
fn first_device_in_each_row() {
    let mut devices = [false; 128];
    devices[0x3C] = true;
    devices[0x38] = true;
    devices[0x03] = true;
    assert_eq!(first_device_in_row(&devices, 3), Some(0x38));
    assert_eq!(first_device_in_row(&devices, 0), Some(0x03));
    assert_eq!(first_device_in_row(&devices, 1), None);
    assert_eq!(first_device_in_row(&devices, 7), None);
}

#[test]
fn found_list_and_count_cover_the_scanned_range_only() {
    let mut devices = [false; 128];
    devices[0x03] = true;
    devices[0x68] = true;
    devices[0x38] = true;
    devices[0x7F] = true;
    assert_eq!(found_addresses(&devices), vec![0x38, 0x68]);
    assert_eq!(count_found(&devices), 2);
    assert_eq!(found_addresses(&[false; 128]), Vec::<u8>::new());
    assert_eq!(count_found(&[false; 128]), 0);
}
