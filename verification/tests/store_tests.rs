use modbus_bridge::{AddressError, RegisterBank};

#[test]
fn round_trip_bool_bank() {
    let mut bank: RegisterBank<bool> = RegisterBank::new();
    bank.provision(10, false);
    bank.provision(11, false);
    bank.provision(12, true);
    let values = vec![true, false, true];
    assert!(bank.write(10, &values).is_ok());
    let read = bank.read(10, 3).unwrap();
    assert_eq!(read, vec![true, false, true]);
}

#[test]
fn round_trip_word_bank() {
    let mut bank: RegisterBank<u16> = RegisterBank::new();
    bank.provision(0x0100, 0);
    bank.provision(0x0101, 0);
    let values = vec![42, 65535];
    assert!(bank.write(0x0100, &values).is_ok());
    let read = bank.read(0x0100, 2).unwrap();
    assert_eq!(read, vec![42, 65535]);
}

#[test]
fn read_unprovisioned_range_fails() {
    let mut bank: RegisterBank<u16> = RegisterBank::new();
    bank.provision(5, 7);
    bank.provision(6, 8);
    // address 7 is not provisioned: the whole range is refused
    assert_eq!(bank.read(5, 3), Err(AddressError::IllegalDataAddress));
    // the provisioned prefix alone still reads
    assert_eq!(bank.read(5, 2).unwrap(), vec![7, 8]);
}

#[test]
fn failed_write_leaves_store_unchanged() {
    let mut bank: RegisterBank<u16> = RegisterBank::new();
    bank.provision(5, 7);
    bank.provision(6, 8);
    let values = vec![100, 200, 300];
    // address 7 is not provisioned: nothing at all is written
    assert_eq!(bank.write(5, &values), Err(AddressError::IllegalDataAddress));
    assert_eq!(bank.read(5, 2).unwrap(), vec![7, 8]);
}

#[test]
fn write_single_unprovisioned_fails() {
    let mut bank: RegisterBank<bool> = RegisterBank::new();
    bank.provision(0, false);
    assert_eq!(bank.write_single(1, true), Err(AddressError::IllegalDataAddress));
    assert!(bank.write_single(0, true).is_ok());
    assert_eq!(bank.read(0, 1).unwrap(), vec![true]);
}

#[test]
fn read_past_address_space_fails() {
    let mut bank: RegisterBank<bool> = RegisterBank::new();
    bank.provision(0xFFFF, true);
    assert_eq!(bank.read(0xFFFF, 1).unwrap(), vec![true]);
    // a two-element range starting at the top address leaves the space
    assert_eq!(bank.read(0xFFFF, 2), Err(AddressError::IllegalDataAddress));
}

#[test]
fn empty_range_reads_empty() {
    let bank: RegisterBank<u16> = RegisterBank::new();
    assert_eq!(bank.read(0, 0).unwrap(), Vec::<u16>::new());
}

#[test]
fn get_and_contains_reflect_provisioning() {
    let mut bank: RegisterBank<u16> = RegisterBank::new();
    assert!(!bank.contains_addr(3));
    assert_eq!(bank.get(3), None);
    bank.provision(3, 99);
    assert!(bank.contains_addr(3));
    assert_eq!(bank.get(3), Some(99));
}

#[test]
fn set_if_provisioned_skips_missing_address() {
    let mut bank: RegisterBank<bool> = RegisterBank::new();
    bank.provision(1, false);
    bank.set_if_provisioned(1, true);
    bank.set_if_provisioned(2, true);
    assert_eq!(bank.get(1), Some(true));
    assert_eq!(bank.get(2), None);
    assert!(!bank.contains_addr(2));
}
