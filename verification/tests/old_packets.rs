use rdma_daq::old_mfp::{
    c_buffer_name, PCIe40ReaderOpening, ReaderOpenProgress, MfpConfigRelease, MfpConfigStep, PCIe40Error, PCIe40Reader, ReaderOpenCleanup,
    ReaderOpenStep, MFP, MFP_END_RUN_MAGIC,
};

/// A packet of the first layout: `banks` as (type, data), padded to `2^align`.
fn packet(ev_id: u32, align: u8, banks: &[(u8, Vec<u8>)]) -> Vec<u8> {
    let n = banks.len();
    let mut body = Vec::new();
    for (t, _) in banks {
        body.push(*t);
    }
    for (_, d) in banks {
        body.extend_from_slice(&(d.len() as u32).to_le_bytes());
    }
    let alignment = 1usize << align;
    for (_, d) in banks {
        body.extend_from_slice(d);
        let pad = (alignment - d.len() % alignment) % alignment;
        body.extend(std::iter::repeat(0u8).take(pad));
    }
    let size = 16 + body.len();
    let mut out = Vec::new();
    out.extend_from_slice(&0x40CEu16.to_le_bytes());
    out.extend_from_slice(&(n as u16).to_le_bytes());
    out.extend_from_slice(&(size as u32).to_le_bytes());
    out.extend_from_slice(&ev_id.to_le_bytes());
    out.extend_from_slice(&7u16.to_le_bytes());
    out.push(align);
    out.push(1);
    out.extend_from_slice(&body);
    out
}

/// The packet followed by the padding that the reader skips after it.
fn padded(p: &[u8], align: u8) -> Vec<u8> {
    let alignment = 1usize << align;
    let mut v = p.to_vec();
    v.resize((p.len() + alignment - 1) / alignment * alignment, 0);
    v
}

#[test]
fn old_packet_header_and_banks() {
    let data = packet(5, 2, &[(10, vec![1, 2, 3]), (11, vec![4, 5, 6, 7, 8])]);
    let mfp = MFP::new(&data).unwrap();
    let h = mfp.header();
    assert_eq!(h.magic(), 0x40CE);
    assert_eq!(h.n_banks(), 2);
    assert_eq!(h.packet_size() as usize, data.len());
    assert_eq!(h.ev_id(), 5);
    assert_eq!(h.src_id(), 7);
    assert_eq!(h.align(), 2);
    assert_eq!(h.block_version(), 1);
    assert_eq!(mfp.data(), &data[..]);
    assert!(!mfp.is_end_run());
    assert_eq!(mfp.bank_types(), &[10, 11]);
    assert_eq!(mfp.bank_sizes(), vec![3, 5]);
}

#[test]
fn old_packet_fragments_follow_padding() {
    let data = packet(5, 2, &[(10, vec![1, 2, 3]), (11, vec![4, 5, 6, 7, 8]), (12, vec![9])]);
    let mfp = MFP::new(&data).unwrap();
    let mut it = mfp.fragments();
    assert_eq!(it.next(), Some((&[1u8, 2, 3][..], 10)));
    assert_eq!(it.next(), Some((&[4u8, 5, 6, 7, 8][..], 11)));
    assert_eq!(it.next(), Some((&[9u8][..], 12)));
    assert_eq!(it.next(), None);
    assert_eq!(it.next(), None);
}

#[test]
fn old_packet_end_of_run() {
    let data = packet(MFP_END_RUN_MAGIC, 0, &[]);
    let mfp = MFP::new(&data).unwrap();
    assert!(mfp.is_end_run());
}

#[test]
fn old_packet_rejections() {
    assert!(matches!(MFP::new(&[0xCE, 0x40, 0, 0]), Err(PCIe40Error::CorruptedData(_))));
    let mut bad_magic = packet(1, 0, &[(1, vec![1])]);
    bad_magic[0] = 0;
    assert!(matches!(MFP::new(&bad_magic), Err(PCIe40Error::CorruptedData(_))));
    let whole = packet(1, 0, &[(1, vec![1, 2, 3, 4])]);
    assert!(matches!(MFP::new(&whole[..whole.len() - 1]), Err(PCIe40Error::CorruptedData(_))));
    // A longer buffer than the packet is accepted; `data` is the packet only.
    let mut longer = whole.clone();
    longer.extend_from_slice(&[0xAA, 0xBB]);
    let mfp = MFP::new(&longer).unwrap();
    assert_eq!(mfp.data(), &whole[..]);
}

fn reader(buffer_size: usize) -> PCIe40Reader {
    PCIe40Reader::opened(3, 10, 11, buffer_size, 0, b"board\0junk")
}

#[test]
fn reader_opens_with_the_unique_name() {
    let r = reader(1024);
    assert_eq!(r.name(), "board");
    assert_eq!(r.buffer_size(), 1024);
    assert_eq!(r.requested_size(), 0);
    assert_eq!(r.stream_fd(), 11);
}

#[test]
fn reader_waits_for_whole_packets() {
    let p = packet(0, 2, &[(1, vec![1, 2, 3, 4])]);
    let mut buffer = p.clone();
    buffer.resize(256, 0);
    let mut r = reader(256);
    // Nothing in use, too little for a header, too little for the packet.
    assert!(matches!(r.try_read_mfp(&buffer, 0), Ok(None)));
    assert!(matches!(r.try_read_mfp(&buffer, 15), Ok(None)));
    assert!(matches!(r.try_read_mfp(&buffer, (p.len() - 1) as i64), Ok(None)));
    assert!(matches!(r.try_read_mfp(&buffer, -1), Err(PCIe40Error::BufferInfoError)));
    assert_eq!(r.requested_size(), 0);
    let mfp = r.try_read_mfp(&buffer, p.len() as i64).unwrap().unwrap();
    assert_eq!(mfp.data(), &p[..]);
    assert_eq!(r.requested_size(), padded(&p, 2).len());
}

#[test]
fn reader_checks_event_sequence() {
    let first = packet(0, 2, &[(1, vec![1, 2, 3, 4]), (2, vec![5, 6, 7, 8])]);
    let second = packet(2, 2, &[(1, vec![9, 9, 9, 9])]);
    let wrong = packet(7, 2, &[(1, vec![9, 9, 9, 9])]);
    let mut buffer = [padded(&first, 2), padded(&second, 2), padded(&wrong, 2)].concat();
    let used = buffer.len() as i64;
    let total = buffer.len();
    buffer.resize(1024, 0);
    let mut r = reader(1024);
    assert!(r.try_read_mfp(&buffer, used).unwrap().is_some());
    assert!(r.try_read_mfp(&buffer, used).unwrap().is_some());
    assert!(matches!(r.try_read_mfp(&buffer, used), Err(PCIe40Error::CorruptedData(_))));
    // The mismatching packet was still consumed.
    assert_eq!(r.requested_size(), total);
}

#[test]
fn reader_end_of_run_restarts_event_count() {
    let end = packet(MFP_END_RUN_MAGIC, 2, &[]);
    let next = packet(0, 2, &[(1, vec![1, 1, 1, 1])]);
    let mut buffer = [padded(&end, 2), padded(&next, 2)].concat();
    let used = buffer.len() as i64;
    buffer.resize(512, 0);
    let mut r = reader(512);
    assert!(r.try_read_mfp(&buffer, used).unwrap().unwrap().is_end_run());
    assert!(r.try_read_mfp(&buffer, used).unwrap().is_some());
}

#[test]
fn reader_rejects_bad_magic_without_moving() {
    let mut buffer = vec![0u8; 64];
    let mut r = reader(64);
    assert!(matches!(r.try_read_mfp(&buffer, 32), Err(PCIe40Error::CorruptedData(_))));
    assert_eq!(r.requested_size(), 0);
    buffer[0] = 0xCE;
    buffer[1] = 0x40;
    // A header that claims fewer bytes than a header is corrupted too.
    buffer[4] = 8;
    assert!(matches!(r.try_read_mfp(&buffer, 32), Err(PCIe40Error::CorruptedData(_))));
    assert_eq!(r.requested_size(), 0);
}

#[test]
fn reader_pads_and_wraps_the_read_offset() {
    // A 17-byte packet aligned to 8 bytes takes 24 bytes of a 32-byte ring.
    let p = packet(0, 3, &[]);
    let mut p17 = p.clone();
    p17.push(0);
    p17[4] = 17;
    let mut buffer = p17.clone();
    buffer.resize(64, 0);
    let mut r = PCIe40Reader::opened(0, 0, 0, 32, 16, b"\0");
    let mut ring = vec![0u8; 16];
    ring.extend_from_slice(&buffer);
    assert!(r.try_read_mfp(&ring, 17).unwrap().is_some());
    assert_eq!(r.requested_size(), 24);
    assert_eq!(r.acknowledge_read(24, 8).is_ok(), true);
    assert_eq!(r.requested_size(), 0);
}

#[test]
fn reader_acknowledge_and_reset() {
    let mut r = reader(64);
    // Nothing requested: nothing to acknowledge, whatever the driver says.
    assert!(r.acknowledge_read(-1, -1).is_ok());
    let p = packet(0, 0, &[(1, vec![1])]);
    let mut buffer = p.clone();
    buffer.resize(64, 0);
    r.try_read_mfp(&buffer, p.len() as i64).unwrap();
    assert!(matches!(r.acknowledge_read(-1, 0), Err(PCIe40Error::AcknowledgeError)));
    assert!(matches!(r.acknowledge_read(0, -1), Err(PCIe40Error::BufferInfoError)));
    assert!(r.acknowledge_read(0, 20).is_ok());
    assert_eq!(r.requested_size(), 0);
    assert!(matches!(r.reset(1, 0), Err(PCIe40Error::StreamOpenError)));
    assert!(matches!(r.reset(0, -1), Err(PCIe40Error::BufferInfoError)));
    assert!(r.reset(0, 0).is_ok());
    assert!(matches!(PCIe40Reader::buffer_occupancy(-1), Err(PCIe40Error::BufferInfoError)));
    assert_eq!(PCIe40Reader::buffer_occupancy(42).unwrap(), 42);
}

#[test]
fn reader_open_failures_release_what_was_taken() {
    assert!(PCIe40Reader::open_step_failed(ReaderOpenStep::OpenId, -1));
    assert!(!PCIe40Reader::open_step_failed(ReaderOpenStep::OpenId, 0));
    assert!(PCIe40Reader::open_step_failed(ReaderOpenStep::QueryEnabled, 0));
    assert!(!PCIe40Reader::open_step_failed(ReaderOpenStep::QueryEnabled, 1));
    assert!(PCIe40Reader::open_step_failed(ReaderOpenStep::MapBuffer, 0));
    assert!(PCIe40Reader::open_step_failed(ReaderOpenStep::QueryUniqueName, 1));

    let (e, c) = PCIe40Reader::open_failure(4, ReaderOpenStep::OpenId);
    match e {
        PCIe40Error::DeviceOpenError(m) => assert_eq!(m, "ID: 4"),
        other => panic!("unexpected {:?}", other),
    }
    assert_eq!(
        c,
        ReaderOpenCleanup {
            unlock_stream: false,
            close_stream: false,
            unmap_buffer: false,
            close_id: false
        }
    );
    let (e, c) = PCIe40Reader::open_failure(4, ReaderOpenStep::LockStream);
    assert!(matches!(e, PCIe40Error::StreamLockError));
    assert_eq!(
        c,
        ReaderOpenCleanup {
            unlock_stream: false,
            close_stream: true,
            unmap_buffer: false,
            close_id: true
        }
    );
    let (e, c) = PCIe40Reader::open_failure(4, ReaderOpenStep::QueryReadOffset);
    assert!(matches!(e, PCIe40Error::BufferInfoError));
    assert!(c.unlock_stream && c.close_stream && c.unmap_buffer && c.close_id);
    let (e, _) = PCIe40Reader::open_failure(4, ReaderOpenStep::QueryUniqueName);
    match e {
        PCIe40Error::DeviceOpenError(m) => assert_eq!(m, "Failed to get device name"),
        other => panic!("unexpected {:?}", other),
    }
}

#[test]
fn c_buffer_name_stops_at_the_first_zero() {
    assert_eq!(c_buffer_name(b"abc\0def"), "abc");
    assert_eq!(c_buffer_name(b"abc"), "abc");
    assert_eq!(c_buffer_name(b"\0"), "");
}

#[test]
fn packet_mode_configuration_closes_what_it_opened() {
    assert!(PCIe40Reader::config_step_failed(MfpConfigStep::OpenMetaStream, -1));
    assert!(!PCIe40Reader::config_step_failed(MfpConfigStep::OpenMetaStream, 3));
    assert!(PCIe40Reader::config_step_failed(MfpConfigStep::SetPacking, 1));
    assert!(!PCIe40Reader::config_step_failed(MfpConfigStep::SetTruncation, 0));
    assert!(!PCIe40Reader::config_step_failed(MfpConfigStep::OpenControl, 0));

    let (r, release) = PCIe40Reader::config_outcome(None);
    assert!(r.is_ok());
    assert_eq!(release, MfpConfigRelease { close_control: true, close_meta: true });

    let (r, release) = PCIe40Reader::config_outcome(Some(MfpConfigStep::OpenMetaStream));
    assert!(matches!(r, Err(PCIe40Error::StreamOpenError)));
    assert_eq!(release, MfpConfigRelease { close_control: false, close_meta: false });

    let (r, release) = PCIe40Reader::config_outcome(Some(MfpConfigStep::OpenControl));
    assert!(matches!(r, Err(PCIe40Error::StreamOpenError)));
    assert_eq!(release, MfpConfigRelease { close_control: false, close_meta: true });

    let (_, release) = PCIe40Reader::config_outcome(Some(MfpConfigStep::SetTruncation));
    assert_eq!(release, MfpConfigRelease { close_control: true, close_meta: true });
}

fn nothing_held() -> ReaderOpenCleanup {
    ReaderOpenCleanup { unlock_stream: false, close_stream: false, unmap_buffer: false, close_id: false }
}

#[test]
fn a_failed_open_releases_everything_it_acquired() {
    let o = PCIe40ReaderOpening::new(3);
    match o.advance(-1, &[]) {
        ReaderOpenProgress::Failed(PCIe40Error::DeviceOpenError(_), c) => assert_eq!(c, nothing_held()),
        _ => panic!("expected the id to fail"),
    }
    // Open id, stream, find it enabled, lock it, then the buffer size fails.
    let mut o = PCIe40ReaderOpening::new(3);
    for code in [10, 11, 1, 0] {
        o = match o.advance(code, &[]) {
            ReaderOpenProgress::Continue(next) => next,
            _ => panic!("expected the opening to go on"),
        };
    }
    assert_eq!(o.id_fd(), Some(10));
    assert_eq!(o.stream_fd(), Some(11));
    assert_eq!(o.step(), ReaderOpenStep::QueryBufferSize);
    match o.advance(-1, &[]) {
        ReaderOpenProgress::Failed(PCIe40Error::BufferInfoError, c) => assert_eq!(
            c,
            ReaderOpenCleanup { unlock_stream: true, close_stream: true, unmap_buffer: false, close_id: true }
        ),
        _ => panic!("expected the buffer size to fail"),
    }
}

#[test]
fn a_whole_open_yields_the_reader() {
    let mut o = PCIe40ReaderOpening::new(3);
    for code in [10, 11, 1, 0, 4096, 1, 64] {
        o = match o.advance(code, &[]) {
            ReaderOpenProgress::Continue(next) => next,
            _ => panic!("expected the opening to go on"),
        };
    }
    match o.advance(0, b"board\0") {
        ReaderOpenProgress::Opened(r) => {
            assert_eq!(r.name(), "board");
            assert_eq!(r.stream_fd(), 11);
            assert_eq!(r.buffer_size(), 4096);
            assert_eq!(r.id(), 3);
        }
        _ => panic!("expected the reader"),
    }
    // A failed name query still releases everything, the mapping too.
    let mut o = PCIe40ReaderOpening::new(3);
    for code in [10, 11, 1, 0, 4096, 1, 64] {
        o = match o.advance(code, &[]) {
            ReaderOpenProgress::Continue(next) => next,
            _ => panic!("expected the opening to go on"),
        };
    }
    match o.advance(-1, &[]) {
        ReaderOpenProgress::Failed(_, c) => assert_eq!(
            c,
            ReaderOpenCleanup { unlock_stream: true, close_stream: true, unmap_buffer: true, close_id: true }
        ),
        _ => panic!("expected the name query to fail"),
    }
}

#[test]
fn reading_is_tested_before_the_call() {
    let r = reader(64);
    let data = packet(0, 2, &[(1, vec![1, 2, 3])]);
    let mut ring = padded(&data, 2);
    ring.resize(128, 0);
    assert!(r.can_read(&ring, data.len() as i64));
    assert!(r.can_read(&ring, 0));
    assert!(!r.can_read(&ring, 200));
    let mut bad = ring.clone();
    bad[14] = 70;
    assert!(!r.can_read(&bad, data.len() as i64));
}

fn corrupted(r: Result<Option<MFP<'_>>, PCIe40Error>) -> String {
    match r {
        Err(PCIe40Error::CorruptedData(m)) => m,
        _ => panic!("expected corrupted data"),
    }
}

#[test]
fn corruption_messages_name_what_was_found() {
    match MFP::new(&[0xCE, 0x40, 0, 0]) {
        Err(PCIe40Error::CorruptedData(m)) => assert_eq!(m, "MFP data too short"),
        _ => panic!("expected corrupted data"),
    }
    let mut bad_magic = packet(1, 0, &[(1, vec![1])]);
    bad_magic[0] = 0x0a;
    bad_magic[1] = 0;
    match MFP::new(&bad_magic) {
        Err(PCIe40Error::CorruptedData(m)) => assert_eq!(m, format!("Invalid MFP magic: 0x{:04x}", 0x000a)),
        _ => panic!("expected corrupted data"),
    }
    let whole = packet(1, 0, &[(1, vec![1, 2, 3, 4])]);
    match MFP::new(&whole[..whole.len() - 1]) {
        Err(PCIe40Error::CorruptedData(m)) => assert_eq!(
            m,
            format!("MFP size mismatch: header says {} but buffer has {}", whole.len(), whole.len() - 1)
        ),
        _ => panic!("expected corrupted data"),
    }

    let mut buffer = vec![0u8; 64];
    buffer[16] = 0xBE;
    buffer[17] = 0xBA;
    let mut r = reader(64);
    assert_eq!(corrupted(r.try_read_mfp(&buffer, 32)), "Invalid MFP magic: 0x0000 at buffer offset 0");

    let first = packet(0, 2, &[(1, vec![1, 2, 3, 4])]);
    let wrong = packet(7, 2, &[(1, vec![9, 9, 9, 9])]);
    let mut buffer = [padded(&first, 2), padded(&wrong, 2)].concat();
    let used = buffer.len() as i64;
    buffer.resize(256, 0);
    let mut r = reader(256);
    assert!(r.try_read_mfp(&buffer, used).unwrap().is_some());
    assert_eq!(corrupted(r.try_read_mfp(&buffer, used)), format!("Event ID mismatch: expected {}, got {}", 1, 7));

    match PCIe40Reader::open_failure(-12, ReaderOpenStep::OpenId).0 {
        PCIe40Error::DeviceOpenError(m) => assert_eq!(m, format!("ID: {}", -12)),
        _ => panic!("expected a device open error"),
    }
}

#[test]
fn opening_by_id_releases_what_the_answered_calls_took() {
    // Every call answered: the reader.
    let r = match PCIe40Reader::open_by_id(3, &[10, 11, 1, 0, 4096, 1, 64, 0], b"board\0") {
        Ok(r) => r,
        Err(_) => panic!("expected the reader"),
    };
    assert_eq!((r.id(), r.stream_fd(), r.buffer_size(), r.name()), (3, 11, 4096, "board"));
    // The id cannot be opened: nothing to release.
    let (e, c) = PCIe40Reader::open_by_id(3, &[-1], b"").err().expect("expected a failed open");
    assert!(matches!(e, PCIe40Error::DeviceOpenError(_)));
    assert_eq!(c, nothing_held());
    // The stream is not enabled: close the stream and the id.
    let (e, c) = PCIe40Reader::open_by_id(3, &[10, 11, 0], b"").err().expect("expected a failed open");
    assert!(matches!(e, PCIe40Error::StreamNotEnabled));
    assert_eq!(c, ReaderOpenCleanup { unlock_stream: false, close_stream: true, unmap_buffer: false, close_id: true });
    // The lock fails: the stream was never locked.
    let (e, c) = PCIe40Reader::open_by_id(3, &[10, 11, 1, -1], b"").err().expect("expected a failed open");
    assert!(matches!(e, PCIe40Error::StreamLockError));
    assert!(!c.unlock_stream && c.close_stream && c.close_id);
    // The mapping fails: unlock, close, no unmap.
    let (e, c) = PCIe40Reader::open_by_id(3, &[10, 11, 1, 0, 4096, 0], b"").err().expect("expected a failed open");
    assert!(matches!(e, PCIe40Error::BufferMapError));
    assert_eq!(c, ReaderOpenCleanup { unlock_stream: true, close_stream: true, unmap_buffer: false, close_id: true });
    // The read offset fails: everything, the mapping too.
    let (e, c) = PCIe40Reader::open_by_id(3, &[10, 11, 1, 0, 4096, 1, -1], b"").err().expect("expected a failed open");
    assert!(matches!(e, PCIe40Error::BufferInfoError));
    assert_eq!(c, ReaderOpenCleanup { unlock_stream: true, close_stream: true, unmap_buffer: true, close_id: true });
    // The unique name query fails.
    let (e, _) = PCIe40Reader::open_by_id(3, &[10, 11, 1, 0, 4096, 1, 64, 2], b"").err().expect("expected a failed open");
    match e {
        PCIe40Error::DeviceOpenError(m) => assert_eq!(m, "Failed to get device name"),
        _ => panic!("expected DeviceOpenError"),
    }
}
