use rdma_daq::pcie40_device::{PCIe40DeviceIdError, PCIe40Id, PCIe40IdError};

#[test]
fn board_existence_follows_the_driver_code() {
    assert!(matches!(PCIe40Id::id_exists(0), Ok(true)));
    assert!(matches!(PCIe40Id::id_exists(3), Ok(false)));
    assert!(matches!(PCIe40Id::id_exists(-1), Err(PCIe40IdError::DriverReadError)));
}

#[test]
fn lookup_by_name_reports_missing_and_invalid_names() {
    assert!(matches!(PCIe40Id::find_id_by_name("tdtel203_0", 4), Ok(4)));
    match PCIe40Id::find_id_by_name("tdtel203_0", -1) {
        Err(PCIe40IdError::DeviceNotFoundByName(n)) => assert_eq!(n, "tdtel203_0"),
        _ => panic!("expected DeviceNotFoundByName"),
    }
    match PCIe40Id::find_id_by_name("bad\0name", 2) {
        Err(PCIe40IdError::InvalidDeviceName(n)) => assert_eq!(n, "bad\0name"),
        _ => panic!("expected InvalidDeviceName"),
    }
}

#[test]
fn all_ids_come_from_the_mask_bits() {
    let ids = PCIe40Id::find_all_ids_by_name("tdtel203", 0b1010_0001).unwrap();
    assert_eq!(ids, vec![0, 5, 7]);
    let top = PCIe40Id::find_all_ids_by_name("tdtel203", i32::MIN).unwrap();
    assert_eq!(top, vec![31]);
    assert!(PCIe40Id::find_all_ids_by_name("tdtel203", 0).unwrap().is_empty());
    assert!(matches!(
        PCIe40Id::find_all_ids_by_name("a\0b", 1),
        Err(PCIe40IdError::InvalidDeviceName(_))
    ));
}

#[test]
fn opening_by_name_keeps_the_name() {
    let dev = PCIe40Id::open_by_device_name("tdtel203_0", 2, 9).unwrap();
    assert_eq!(dev.device_id(), 2);
    assert_eq!(dev.id_fd(), 9);
    match PCIe40Id::open_by_device_name("tdtel203_0", 2, -1) {
        Err(PCIe40IdError::DeviceOpenFail { device_name, device_id }) => {
            assert_eq!(device_name, "tdtel203_0");
            assert_eq!(device_id, 2);
        }
        _ => panic!("expected DeviceOpenFail"),
    }
    assert!(matches!(
        PCIe40Id::open_by_device_name("tdtel203_0", -1, 9),
        Err(PCIe40IdError::DeviceNotFoundByName(_))
    ));
    assert!(matches!(
        PCIe40Id::open_by_device_name("x\0y", 2, 9),
        Err(PCIe40IdError::DeviceNotFoundByName(_))
    ));
}

#[test]
fn opening_by_id_then_asking_the_name() {
    assert!(matches!(
        PCIe40Id::open_by_device_id(4, 1, 9),
        Err(PCIe40IdError::DeviceNotFoundById(4))
    ));
    match PCIe40Id::open_by_device_id(4, 0, -1) {
        Err(PCIe40IdError::DeviceOpenFail { device_name, device_id }) => {
            assert_eq!(device_name, "Unknown");
            assert_eq!(device_id, 4);
        }
        _ => panic!("expected DeviceOpenFail"),
    }
    let mut dev = PCIe40Id::open_by_device_id(4, 0, 9).unwrap();
    let buffer = [b't', b'd', b'0', 0, b'z', 0, 0, 0, 0];
    assert_eq!(dev.device_name(0, &buffer).unwrap(), "td0");
    // A failed query keeps the name it had and reports it.
    match dev.device_name(-1, &buffer) {
        Err(PCIe40DeviceIdError::DeviceReadError { device_name, device_id }) => {
            assert_eq!(device_name, "td0");
            assert_eq!(device_id, 4);
        }
        _ => panic!("expected DeviceReadError"),
    }
    // A buffer without a terminating zero is a read error.
    assert!(matches!(
        dev.device_name(0, &[b'a'; 9]),
        Err(PCIe40DeviceIdError::DeviceReadError { .. })
    ));
}

#[test]
fn renaming_updates_the_known_name() {
    let mut dev = PCIe40Id::open_by_device_name("old", 1, 3).unwrap();
    assert!(dev.check_new_name("TEST_DEV").is_ok());
    match dev.check_new_name("Test\0Name") {
        Err(PCIe40DeviceIdError::InvalidDeviceName(n)) => assert_eq!(n, "Test\0Name"),
        _ => panic!("expected InvalidDeviceName"),
    }
    match dev.set_name("TEST_DEV", -2) {
        Err(PCIe40DeviceIdError::DeviceWriteError { device_name, .. }) => {
            assert_eq!(device_name, "old")
        }
        _ => panic!("expected DeviceWriteError"),
    }
    assert!(dev.set_name("TEST_DEV", 0).is_ok());
    match dev.fpga_serial_number(-5) {
        Err(PCIe40DeviceIdError::DeviceReadError { device_name, device_id }) => {
            assert_eq!(device_name, "TEST_DEV");
            assert_eq!(device_id, 1);
        }
        _ => panic!("expected DeviceReadError"),
    }
    assert!(matches!(dev.fpga_serial_number(77), Ok(77)));
    let unique = [b'u', b'1', 0, 0];
    assert_eq!(dev.unique_device_name(0, &unique).unwrap(), "u1");
    assert!(dev.unique_device_name(-1, &unique).is_err());
}
