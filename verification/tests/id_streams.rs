use rdma_daq::pcie40_id_stream::{PCIe40Id, PCIe40IdError, PCIe40IdStreamError};

#[test]
fn id_stream_lookup_follows_the_driver() {
    assert!(matches!(PCIe40Id::device_exists(0), Ok(true)));
    assert!(matches!(PCIe40Id::device_exists(1), Ok(false)));
    assert!(matches!(PCIe40Id::device_exists(-4), Err(PCIe40IdError::DriverReadError)));
    assert!(matches!(PCIe40Id::find_id_by_name("tdtel203_0", 0), Ok(0)));
    match PCIe40Id::find_id_by_name("tdtel203_0", -1) {
        Err(PCIe40IdError::DeviceNotFoundByName { device_name }) => {
            assert_eq!(device_name, "tdtel203_0")
        }
        _ => panic!("expected DeviceNotFoundByName"),
    }
    assert!(matches!(
        PCIe40Id::find_id_by_name("a\0b", 0),
        Err(PCIe40IdError::InvalidDeviceName { .. })
    ));
    assert_eq!(PCIe40Id::find_all_ids_by_name("x", 0b110).unwrap(), vec![1, 2]);
}

#[test]
fn id_stream_opening() {
    let s = PCIe40Id::open_by_device_id(3, 0, 11).unwrap();
    assert_eq!((s.device_id(), s.id_fd()), (3, 11));
    assert!(matches!(
        PCIe40Id::open_by_device_id(3, 2, 11),
        Err(PCIe40IdError::DeviceNotFoundById { device_id: 3 })
    ));
    assert!(matches!(
        PCIe40Id::open_by_device_id(3, 0, -1),
        Err(PCIe40IdError::DeviceOpenFail { device_id: 3 })
    ));
    let s = PCIe40Id::open_by_device_name("board", 5, 0, 12).unwrap();
    assert_eq!(s.device_id(), 5);
    assert!(matches!(
        PCIe40Id::open_by_device_name("board", -1, 0, 12),
        Err(PCIe40IdError::DeviceNotFoundByName { .. })
    ));
    assert!(matches!(
        PCIe40Id::open_by_device_name("board", 5, 1, 12),
        Err(PCIe40IdError::DeviceNotFoundById { device_id: 5 })
    ));
}

#[test]
fn id_stream_queries() {
    let s = PCIe40Id::open_by_device_id(7, 0, 1).unwrap();
    assert!(matches!(s.fpga_serial_number(42), Ok(42)));
    assert!(matches!(
        s.fpga_serial_number(-1),
        Err(PCIe40IdStreamError::DeviceReadError { device_id: 7 })
    ));
    let buffer = [b'p', b'4', b'0', 0, 0, 0, 0, 0, 0];
    assert_eq!(s.device_name(0, &buffer).unwrap(), "p40");
    assert_eq!(s.unique_device_name(1, &buffer).unwrap(), "p40");
    assert!(matches!(
        s.device_name(-1, &buffer),
        Err(PCIe40IdStreamError::DeviceReadError { device_id: 7 })
    ));
    assert!(s.unique_device_name(0, &[b'x'; 9]).is_err());
    assert!(s.check_new_name("TEST_DEV").is_ok());
    assert!(matches!(
        s.check_new_name("Test\0Name"),
        Err(PCIe40IdStreamError::InvalidDeviceName { .. })
    ));
    assert!(s.set_name_result(0).is_ok());
    assert!(matches!(
        s.set_name_result(-1),
        Err(PCIe40IdStreamError::DeviceWriteError { device_id: 7 })
    ));
}
