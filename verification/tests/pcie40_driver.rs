use rdma_daq::pcie40::{PCIe40AdvanceError, PCIe40Reader, PCIe40ReaderInstanceError, PCIe40TypedReadError};
use rdma_daq::pcie40::{
    c_name_valid, PCIe40DAQStreamFormat, PCIe40DAQStreamType, PCIe40EnabledStream,
    PCIe40MappedBuffer, PCIe40Stream, PCIe40StreamError, PCIe40StreamHandleEnableStateActionOnClose,
    PCIe40StreamHandleEnableStateCloseMode, PCIe40StreamManager, PCIe40StreamManagerError,
    StreamOpenProgress, StreamOpenStep,
};
use rdma_daq::pcie40_id::{
    mask_device_ids, PCIe40ControllerError, PCIe40ControllerManager, PCIe40ControllerManagerError,
    PCIe40IdEndpointError, PCIe40IdManager, PCIe40IdManagerError,
};

fn stream(format: PCIe40DAQStreamFormat) -> PCIe40Stream {
    PCIe40Stream::new(2, 5, 6, PCIe40DAQStreamType::Odin1Stream, format)
}

#[test]
fn stream_labels() {
    assert_eq!(PCIe40DAQStreamType::MainStream.label(), "MAIN");
    assert_eq!(PCIe40DAQStreamType::Odin4Stream.label(), "ODIN4");
    assert_eq!(PCIe40DAQStreamFormat::MetaFormat.label(), "META");
    assert_eq!(PCIe40DAQStreamFormat::RawFormat.label(), "RAW");
}

#[test]
fn c_names_hold_no_zero_byte() {
    assert!(c_name_valid("tdtel203_0"));
    assert!(c_name_valid(""));
    assert!(!c_name_valid("bad\0name"));
}

#[test]
fn stream_existence_codes() {
    assert_eq!(PCIe40StreamManager::stream_exists(0).unwrap(), true);
    assert_eq!(PCIe40StreamManager::stream_exists(3).unwrap(), false);
    assert!(matches!(
        PCIe40StreamManager::stream_exists(-1),
        Err(PCIe40StreamManagerError::DriverReadError)
    ));
}

#[test]
fn stream_open_by_name() {
    assert_eq!(PCIe40StreamManager::open_by_device_name("dev", 4).unwrap(), 4);
    match PCIe40StreamManager::open_by_device_name("dev", -1) {
        Err(PCIe40StreamManagerError::DeviceNotFoundByName { device_name }) => {
            assert_eq!(device_name, "dev")
        }
        _ => panic!("expected DeviceNotFoundByName"),
    }
    assert!(matches!(
        PCIe40StreamManager::open_by_device_name("d\0v", 4),
        Err(PCIe40StreamManagerError::DeviceNotFoundByName { .. })
    ));
}

#[test]
fn stream_opening_steps() {
    let o = PCIe40StreamManager::open_by_device_id(
        1,
        PCIe40DAQStreamType::MainStream,
        PCIe40DAQStreamFormat::MetaFormat,
    );
    assert_eq!(o.step(), StreamOpenStep::QueryExists);
    let o = match o.advance(0) {
        StreamOpenProgress::Continue(o) => o,
        _ => panic!("expected to continue"),
    };
    assert_eq!(o.step(), StreamOpenStep::OpenStream);
    let o = match o.advance(7) {
        StreamOpenProgress::Continue(o) => o,
        _ => panic!("expected to continue"),
    };
    assert_eq!(o.step(), StreamOpenStep::OpenMetaStream);
    match o.advance(8) {
        StreamOpenProgress::Opened(s) => {
            assert_eq!(s.device_id(), 1);
            assert_eq!(s.stream_fd(), 7);
            assert_eq!(s.meta_stream_fd(), 8);
            assert_eq!(s.stream_type(), PCIe40DAQStreamType::MainStream);
            assert_eq!(s.stream_format(), PCIe40DAQStreamFormat::MetaFormat);
            assert_eq!(s.close_action(), PCIe40StreamHandleEnableStateActionOnClose::DisableOnClose);
        }
        _ => panic!("expected the stream"),
    }
}

#[test]
fn stream_opening_failures() {
    let start = || {
        PCIe40StreamManager::open_by_device_id(
            9,
            PCIe40DAQStreamType::Odin0Stream,
            PCIe40DAQStreamFormat::RawFormat,
        )
    };
    assert!(matches!(
        start().advance(-1),
        StreamOpenProgress::Failed(PCIe40StreamManagerError::DriverReadError)
    ));
    assert!(matches!(
        start().advance(1),
        StreamOpenProgress::Failed(PCIe40StreamManagerError::DeviceNotFoundById { device_id: 9 })
    ));
    let o = match start().advance(0) {
        StreamOpenProgress::Continue(o) => o,
        _ => panic!("expected to continue"),
    };
    assert!(matches!(
        o.advance(-2),
        StreamOpenProgress::Failed(PCIe40StreamManagerError::StreamOpenFail {
            device_id: 9,
            stream_type: PCIe40DAQStreamType::Odin0Stream
        })
    ));
}

#[test]
fn stream_enable_state_on_close() {
    let mut s = stream(PCIe40DAQStreamFormat::RawFormat);
    assert!(s.disables_on_close());
    s.set_raii_enable_state_close_mode(PCIe40StreamHandleEnableStateCloseMode::EnabledOnClose, -1)
        .unwrap();
    assert!(!s.disables_on_close());
    s.set_raii_enable_state_close_mode(PCIe40StreamHandleEnableStateCloseMode::PreserveEnableState, 0)
        .unwrap();
    assert_eq!(
        s.close_action(),
        PCIe40StreamHandleEnableStateActionOnClose::PreserveEnableState { enabled: false }
    );
    assert!(s.disables_on_close());
    s.set_raii_enable_state_close_mode(PCIe40StreamHandleEnableStateCloseMode::PreserveEnableState, 1)
        .unwrap();
    assert!(!s.disables_on_close());
    match s.set_raii_enable_state_close_mode(
        PCIe40StreamHandleEnableStateCloseMode::PreserveEnableState,
        -1,
    ) {
        Err(PCIe40StreamError::StreamReadError { device_id, info, .. }) => {
            assert_eq!(device_id, 2);
            assert_eq!(info, "Unable to read enabled status");
        }
        _ => panic!("expected a read error"),
    }
    // A failed read leaves the decision as it was.
    assert!(!s.disables_on_close());
    s.set_raii_enable_state_close_mode(PCIe40StreamHandleEnableStateCloseMode::DisabledOnClose, 1)
        .unwrap();
    assert_eq!(s.close_action(), PCIe40StreamHandleEnableStateActionOnClose::DisableOnClose);
}

#[test]
fn stream_state_answers() {
    let s = stream(PCIe40DAQStreamFormat::RawFormat);
    assert_eq!(s.enabled(0).unwrap(), false);
    assert_eq!(s.enabled(1).unwrap(), true);
    assert!(s.enabled(-1).is_err());
    assert_eq!(s.locking_process(0).unwrap(), None);
    assert_eq!(s.locking_process(1234).unwrap(), Some(1234));
    match s.locking_process(-1) {
        Err(PCIe40StreamError::StreamReadError { info, .. }) => {
            assert_eq!(info, "Unable to read locking process")
        }
        _ => panic!("expected a read error"),
    }
    assert_eq!(s.enable_needed(0).unwrap(), true);
    assert_eq!(s.enable_needed(1).unwrap(), false);
    assert!(s.enable_result(0).is_ok());
    assert!(matches!(s.enable_result(1), Err(PCIe40StreamError::FailedToEnableStream { .. })));
    assert_eq!(s.disable_needed(1).unwrap(), true);
    assert!(matches!(s.disable_result(1), Err(PCIe40StreamError::FailedToDisableStream { .. })));
    assert!(s.disable_result(0).is_ok());
}

#[test]
fn stream_lock_map_and_unlock() {
    let s = stream(PCIe40DAQStreamFormat::MetaFormat);
    assert!(matches!(s.lock(99), Err(PCIe40StreamError::FailedToLockStream { .. })));
    match s.lock(-1) {
        Err(PCIe40StreamError::StreamWriteError { info, .. }) => assert_eq!(info, "Could not write lock"),
        _ => panic!("expected a write error"),
    }
    let guard = s.lock(0).unwrap();
    assert!(guard.meta_enabled_state());
    assert!(guard.set_meta_enabled_state(0).is_ok());
    match guard.set_meta_enabled_state(1) {
        Err(PCIe40StreamError::StreamWriteError { info, .. }) => {
            assert_eq!(info, "Unable to write meta bits")
        }
        _ => panic!("expected a write error"),
    }
    assert!(matches!(guard.map_buffer(true, 4096), Err(PCIe40StreamError::FailedToMapBuffer { .. })));
    assert!(matches!(guard.map_buffer(false, 0), Err(PCIe40StreamError::FailedToMapBuffer { .. })));
    assert_eq!(guard.map_buffer(false, 4096).unwrap(), 4096);
    let bytes = [1u8, 2, 3, 4];
    let mapped = PCIe40MappedBuffer::new(&guard, &bytes);
    assert_eq!(mapped.data(), &bytes);
    assert_eq!(mapped.get_read_offset(12).unwrap(), 12);
    assert_eq!(mapped.get_write_offset(20).unwrap(), 20);
    assert_eq!(mapped.available_bytes(8).unwrap(), 8);
    assert_eq!(mapped.move_read_offset(4).unwrap(), 4);
    match mapped.move_read_offset(-1) {
        Err(PCIe40StreamError::StreamWriteError { info, .. }) => {
            assert_eq!(info, "Unable to move buffer read offset")
        }
        _ => panic!("expected a write error"),
    }
    match mapped.get_read_offset(-1) {
        Err(PCIe40StreamError::StreamReadError { info, .. }) => {
            assert_eq!(info, "Unable to get buffer read offset")
        }
        _ => panic!("expected a read error"),
    }
    assert!(matches!(guard.ref_unlock(5), Err(PCIe40StreamError::FailedToUnlockStream { .. })));
    let back = guard.unlock(0).unwrap();
    assert_eq!(back.stream_fd(), 5);
}

#[test]
fn raw_streams_clear_the_meta_bits() {
    let guard = stream(PCIe40DAQStreamFormat::RawFormat).lock(0).unwrap();
    assert!(!guard.meta_enabled_state());
}

#[test]
fn enabled_stream_transitions() {
    let s = stream(PCIe40DAQStreamFormat::RawFormat);
    let enabled = PCIe40EnabledStream::enable(s, 1, -5).unwrap();
    assert_eq!(enabled.locking_process(0).unwrap(), None);
    let locked = enabled.lock(0).unwrap();
    let enabled = locked.unlock_enabled(0).unwrap();
    let s = enabled.close();
    assert_eq!(s.device_id(), 2);
    assert!(matches!(
        PCIe40EnabledStream::enable(s, 0, 1),
        Err(PCIe40StreamError::FailedToEnableStream { .. })
    ));
}

#[test]
fn device_mask_names_ids() {
    assert_eq!(mask_device_ids(0), Vec::<i32>::new());
    assert_eq!(mask_device_ids(0b1011), vec![0, 1, 3]);
    assert_eq!(mask_device_ids(i32::MIN), vec![31]);
    assert_eq!(mask_device_ids(-1), (0..32).collect::<Vec<i32>>());
}

#[test]
fn id_manager_lookups() {
    assert!(PCIe40IdManager::id_endpoint_exists(0));
    assert!(!PCIe40IdManager::id_endpoint_exists(1));
    assert_eq!(PCIe40IdManager::find_id_by_name("a", 2).unwrap(), 2);
    assert!(matches!(
        PCIe40IdManager::find_id_by_name("a\0", 2),
        Err(PCIe40IdManagerError::InvalidDeviceName { .. })
    ));
    assert!(matches!(
        PCIe40IdManager::find_id_by_name("a", -1),
        Err(PCIe40IdManagerError::DeviceNotFoundByName { .. })
    ));
    assert_eq!(PCIe40IdManager::find_all_ids_by_name("a", 0b110).unwrap(), vec![1, 2]);
    assert!(matches!(
        PCIe40IdManager::open_by_device_name("a\0", 2),
        Err(PCIe40IdManagerError::DeviceNotFoundByName { .. })
    ));
    assert!(matches!(
        PCIe40IdManager::open_by_device_id(3, 1, 4),
        Err(PCIe40IdManagerError::DeviceNotFoundById { device_id: 3 })
    ));
    assert!(matches!(
        PCIe40IdManager::open_by_device_id(3, 0, -1),
        Err(PCIe40IdManagerError::DeviceOpenFail { device_id: 3 })
    ));
    let e = PCIe40IdManager::open_by_device_id(3, 0, 4).unwrap();
    assert_eq!(e.device_id(), 3);
    assert_eq!(e.id_fd(), 4);
}

#[test]
fn id_endpoint_answers() {
    let e = PCIe40IdManager::open_by_device_id(3, 0, 4).unwrap();
    assert_eq!(e.fpga_serial_number(77).unwrap(), 77);
    assert!(matches!(
        e.fpga_serial_number(-1),
        Err(PCIe40IdEndpointError::DeviceReadError { device_id: 3 })
    ));
    assert_eq!(e.device_name(0, b"tdtel203\0").unwrap(), "tdtel203");
    assert!(matches!(
        e.device_name(0, b"no-zero!!"),
        Err(PCIe40IdEndpointError::DeviceReadError { .. })
    ));
    assert!(matches!(
        e.unique_device_name(-1, b"x\0"),
        Err(PCIe40IdEndpointError::DeviceReadError { .. })
    ));
    assert!(e.check_new_name("fine").is_ok());
    assert!(matches!(
        e.check_new_name("no\0"),
        Err(PCIe40IdEndpointError::InvalidDeviceName { .. })
    ));
    assert!(e.set_name(0).is_ok());
    assert!(matches!(e.set_name(-1), Err(PCIe40IdEndpointError::DeviceWriteError { device_id: 3 })));
}

#[test]
fn controller_answers() {
    assert_eq!(PCIe40ControllerManager::controller_exists(0).unwrap(), true);
    assert_eq!(PCIe40ControllerManager::controller_exists(2).unwrap(), false);
    assert!(matches!(
        PCIe40ControllerManager::controller_exists(-3),
        Err(PCIe40ControllerManagerError::DriverReadError)
    ));
    assert_eq!(PCIe40ControllerManager::open_by_device_name("x", 1).unwrap(), 1);
    assert!(matches!(
        PCIe40ControllerManager::open_by_device_id(1, -1),
        Err(PCIe40ControllerManagerError::DeviceNotFoundById { device_id: 1 })
    ));
    let c = PCIe40ControllerManager::open_by_device_id(1, 12).unwrap();
    assert_eq!(c.ctrl_fd(), 12);
    assert_eq!(c.meta_alignment(4096).unwrap(), 4096);
    assert!(matches!(
        c.meta_alignment(-1),
        Err(PCIe40ControllerError::DeviceReadError { device_id: 1 })
    ));
}


/// A packet of the current layout, without fragments, of `size` bytes.
fn mfp(size: u32, event_id: u64) -> Vec<u8> {
    let mut p = Vec::new();
    p.extend_from_slice(&0x40CEu16.to_le_bytes());
    p.extend_from_slice(&0u16.to_le_bytes());
    p.extend_from_slice(&size.to_le_bytes());
    p.extend_from_slice(&event_id.to_le_bytes());
    p.extend_from_slice(&1u16.to_le_bytes());
    p.push(2);
    p.push(1);
    p.resize(size as usize, 0);
    p
}

#[test]
fn stream_reader_checks_alignment() {
    let guard = stream(PCIe40DAQStreamFormat::MetaFormat).lock(0).unwrap();
    let bytes = vec![0u8; 60];
    let mapped = PCIe40MappedBuffer::new(&guard, &bytes);
    assert!(matches!(
        PCIe40Reader::new(mapped, 3, 0),
        Err(PCIe40ReaderInstanceError::BufferSizeNotAligned { buffer_size: 60, alignment: 8 })
    ));
    let bytes = vec![0u8; 64];
    assert!(matches!(
        PCIe40Reader::new(PCIe40MappedBuffer::new(&guard, &bytes), 3, 4),
        Err(PCIe40ReaderInstanceError::ReadOffsetNotAligned { read_offset: 4, alignment: 8 })
    ));
    assert!(matches!(
        PCIe40Reader::new(PCIe40MappedBuffer::new(&guard, &bytes), 3, -1),
        Err(PCIe40ReaderInstanceError::StreamError(_))
    ));
    let mut r = PCIe40Reader::new(PCIe40MappedBuffer::new(&guard, &bytes), 3, 8).unwrap();
    assert_eq!(r.alignment_pow2(), 3);
    assert_eq!(r.advance_read_pointer(4, 4), Err(PCIe40AdvanceError::NotAligned));
    assert_eq!(r.advance_read_pointer(8, -1), Err(PCIe40AdvanceError::OutOfBounds));
    assert_eq!(r.advance_read_pointer(8, 4), Err(PCIe40AdvanceError::OutOfBounds));
    assert_eq!(r.advance_read_pointer(56, 56), Ok(()));
    // The offset wrapped to the start of the 64-byte buffer.
    assert_eq!(r.readable_region(8).unwrap(), &bytes[0..8]);
}

#[test]
fn stream_reader_reads_packets_in_a_row() {
    let guard = stream(PCIe40DAQStreamFormat::MetaFormat).lock(0).unwrap();
    let mut bytes = [mfp(22, 1), vec![0, 0], mfp(24, 2)].concat();
    let used = bytes.len() as i64;
    bytes.resize(64, 0);
    let r = PCIe40Reader::new(PCIe40MappedBuffer::new(&guard, &bytes), 2, 0).unwrap();
    let (p, consumed) = r.read_element(used).unwrap();
    assert_eq!(p.event_id(), 1);
    assert_eq!(consumed, 24);
    let (v, consumed) = r.read_multiple(used, 2).unwrap();
    assert_eq!(v.iter().map(|p| p.event_id()).collect::<Vec<_>>(), vec![1, 2]);
    assert_eq!(consumed, 48);
    assert!(matches!(r.read_multiple(used, 3), Err(PCIe40TypedReadError::NotEnoughData)));
    assert!(matches!(r.read_element(10), Err(PCIe40TypedReadError::NotEnoughData)));
    assert!(matches!(r.read_element(-1), Err(PCIe40TypedReadError::StreamError(_))));
    let zeros = vec![0u8; 64];
    let z = PCIe40Reader::new(PCIe40MappedBuffer::new(&guard, &zeros), 2, 0).unwrap();
    assert!(matches!(z.read_element(32), Err(PCIe40TypedReadError::CorruptData)));
}

#[test]
fn all_board_ids_from_the_mask() {
    assert_eq!(PCIe40IdManager::find_all_ids(0b1001).unwrap(), vec![0, 3]);
    assert_eq!(PCIe40IdManager::find_all_ids(-1).unwrap(), (0..32).collect::<Vec<i32>>());
    assert!(PCIe40IdManager::find_all_ids(0).unwrap().is_empty());
}

#[test]
fn mapped_stream_moves_only_over_bytes_in_use() {
    let guard = stream(PCIe40DAQStreamFormat::RawFormat).lock(0).unwrap();
    let bytes = vec![0u8; 16];
    let mapped = PCIe40MappedBuffer::new(&guard, &bytes);
    assert!(mapped.check_move_read_offset(8, 8).is_ok());
    assert!(mapped.check_move_read_offset(0, 0).is_ok());
    match mapped.check_move_read_offset(8, 4) {
        Err(PCIe40StreamError::StreamReadError { info, .. }) => {
            assert_eq!(info, "Cannot move read offset. Requested to move it 8 bytes but only 4 available")
        }
        _ => panic!("expected a read error"),
    }
    match mapped.check_move_read_offset(1, -1) {
        Err(PCIe40StreamError::StreamReadError { info, .. }) => {
            assert_eq!(info, format!("Cannot move read offset. Requested to move it {} bytes but only {} available", 1, -1))
        }
        _ => panic!("expected a read error"),
    }
}
