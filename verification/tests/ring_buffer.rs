use rdma_daq::mfp::MultiFragmentPacketRef;
use rdma_daq::ring_status::{
    store_read_status, store_write_status, CircularBufferStatus, PtrStatus, STATUS_HEADER_SIZE,
};
use rdma_daq::shm_buffer::{
    align_up_pow2, checked_align_up_pow2, checked_write_buffer_layout, initial_header, read_buffer_header, reader_lock_path, write_buffer_layout,
    writer_lock_path, SharedMemoryBufferNewError, SharedMemoryLayout,
};
use rdma_daq::shm_ring::{
    check_alignment_pow2, statuses_valid, SharedMemoryBufferAdvanceError, SharedMemoryBufferReader,
    SharedMemoryBufferWriter, SharedMemoryTypedReadError, SharedMemoryTypedWriteError,
};

const WRAP: u64 = 0x8000_0000_0000_0000;

/// A packet of `size` bytes without fragments, with the given event id.
fn packet(size: u32, event_id: u64) -> Vec<u8> {
    let mut p = Vec::new();
    p.extend_from_slice(&0x40CEu16.to_le_bytes());
    p.extend_from_slice(&0u16.to_le_bytes());
    p.extend_from_slice(&size.to_le_bytes());
    p.extend_from_slice(&event_id.to_le_bytes());
    p.extend_from_slice(&1u16.to_le_bytes());
    p.push(2);
    p.push(1);
    p.resize(size as usize, 0xEE);
    p
}

#[test]
fn status_word_pointer_and_wrap() {
    let mut s = PtrStatus::new(0);
    s.set_ptr(96);
    assert_eq!(s.ptr(), 96);
    assert!(!s.wrap());
    s.toggle_wrap();
    assert!(s.wrap());
    assert_eq!(s.status(), WRAP | 48);
    s.set_wrap(false);
    assert_eq!(s.status(), 48);
    s.set_wrap(true);
    assert!(s.wrap());
    assert_eq!(s.ptr(), 96);
}

#[test]
fn status_add_wraps_and_flips() {
    let s = PtrStatus::new(0);
    let t = s.add(100, 128);
    assert_eq!((t.ptr(), t.wrap()), (100, false));
    let u = t.add(40, 128);
    assert_eq!((u.ptr(), u.wrap()), (12, true));
    let v = u.add(256, 128);
    assert_eq!((v.ptr(), v.wrap()), (12, true));
    let mut w = v;
    w.add_assign(116, 128);
    assert_eq!((w.ptr(), w.wrap()), (0, false));
}

#[test]
fn empty_and_full_rings() {
    let mut c = CircularBufferStatus::new(128, 3, 0);
    assert!(c.is_empty());
    assert!(!c.is_full());
    assert_eq!(c.available_to_read(), 0);
    assert_eq!(c.available_to_write(), 128);
    c.set_write_status(PtrStatus::new(WRAP));
    assert!(c.is_full());
    assert_eq!(c.available_to_write(), 0);
    assert_eq!(c.available_to_read(), 128);
}

#[test]
fn read_and_write_space_add_up_to_the_size() {
    let mut c = CircularBufferStatus::new(128, 3, 0);
    c.set_write_status(PtrStatus::new(40));
    c.set_read_status(PtrStatus::new(8));
    assert_eq!(c.available_to_read(), 64);
    assert_eq!(c.available_to_write(), 64);
    assert_eq!(c.tail_free_space(), 48);
    assert_eq!(c.head_free_space(), 16);
    assert_eq!(c.size(), 128);
    assert_eq!(c.alignment_pow2(), 3);
}

#[test]
fn status_header_round_trip() {
    let mut c = CircularBufferStatus::new(4096, 12, -3);
    c.set_write_status(PtrStatus::new(WRAP | 7));
    c.set_read_status(PtrStatus::new(5));
    let bytes = c.to_bytes();
    assert_eq!(bytes.len(), STATUS_HEADER_SIZE);
    assert_eq!(&bytes[0..8], &(WRAP | 7).to_le_bytes());
    assert_eq!(&bytes[16..24], &4096u64.to_le_bytes());
    assert_eq!(&bytes[32..36], &(-3i32).to_le_bytes());
    let back = CircularBufferStatus::from_bytes(&bytes).unwrap();
    assert_eq!(back.write_status().status(), WRAP | 7);
    assert_eq!(back.read_status().status(), 5);
    assert_eq!(back.size(), 4096);
    assert_eq!(back.alignment_pow2(), 12);
    assert!(CircularBufferStatus::from_bytes(&bytes[..35]).is_none());
}

#[test]
fn alignment_checks() {
    assert!(check_alignment_pow2(64, 6));
    assert!(!check_alignment_pow2(65, 6));
    assert!(check_alignment_pow2(0, 70));
    assert!(!check_alignment_pow2(1 << 20, 70));
    assert_eq!(align_up_pow2(36, 6), 64);
    assert_eq!(align_up_pow2(64, 6), 64);
    assert_eq!(align_up_pow2(0, 3), 0);
}

#[test]
fn shared_memory_layout_and_header() {
    let l = write_buffer_layout(1000, 12);
    assert_eq!(l, SharedMemoryLayout { data_offset: 4096, data_size: 4096, total_size: 8192 });
    let header = initial_header(1000, 12);
    let (size, align) = read_buffer_header(&header).unwrap();
    assert_eq!((size, align), (4096, 12));
    let status = CircularBufferStatus::from_bytes(&header).unwrap();
    assert!(status.is_empty());
    match read_buffer_header(&header[..10]) {
        Err(SharedMemoryBufferNewError::MemoryNotBigEnough { size, minimum_size }) => {
            assert_eq!((size, minimum_size), (10, STATUS_HEADER_SIZE))
        }
        _ => panic!("expected MemoryNotBigEnough"),
    }
}

#[test]
fn lock_paths() {
    assert_eq!(reader_lock_path("ring"), "/tmp/ring_reader.lock");
    assert_eq!(writer_lock_path("ring"), "/tmp/ring_writer.lock");
}

#[test]
fn writer_then_reader_round_trip() {
    let mut ring = vec![0u8; 128];
    let mut writer = SharedMemoryBufferWriter::new(128, 2, PtrStatus::new(0));
    let mut reader = SharedMemoryBufferReader::new(128, 2, PtrStatus::new(0));
    let data = packet(30, 1);
    let p = MultiFragmentPacketRef::from_raw_bytes(&data).unwrap();
    writer.write_element(&p, &mut ring, reader.read_status()).unwrap();
    assert_eq!(writer.write_status().ptr(), 32);
    let (got, consumed) = reader.read_element(&ring, writer.write_status()).unwrap();
    assert_eq!(got.event_id(), 1);
    assert_eq!(got.raw_packet_data(), &data[..]);
    assert_eq!(consumed, 32);
    reader.advance_read_pointer(consumed, writer.write_status()).unwrap();
    assert_eq!(reader.read_status().ptr(), 32);
}

#[test]
fn writer_wraps_to_the_start_of_the_ring() {
    let mut ring = vec![0u8; 128];
    // The writer is at 96 and the reader at 64: 32 bytes at the end, 64 at the start.
    let mut writer = SharedMemoryBufferWriter::new(128, 2, PtrStatus::new(48));
    let read = PtrStatus::new(32);
    let data = packet(40, 9);
    let p = MultiFragmentPacketRef::from_raw_bytes(&data).unwrap();
    writer.write_element(&p, &mut ring, read).unwrap();
    assert_eq!(&ring[96..98], &[0x55, 0x55]);
    assert_eq!(&ring[0..40], &data[..]);
    assert_eq!(writer.write_status().ptr(), 40);
    assert!(writer.write_status().wrap());
    // The reader skips the marker and reads at the start.
    let reader = SharedMemoryBufferReader::new(128, 2, PtrStatus::new(48));
    let (got, consumed) = reader.read_element(&ring, writer.write_status()).unwrap();
    assert_eq!(got.event_id(), 9);
    assert_eq!(consumed, 32 + 40);
}

#[test]
fn writer_refuses_what_does_not_fit() {
    let mut ring = vec![0u8; 64];
    let mut writer = SharedMemoryBufferWriter::new(64, 2, PtrStatus::new(0));
    let data = packet(80, 1);
    let p = MultiFragmentPacketRef::from_raw_bytes(&data).unwrap();
    assert_eq!(
        writer.write_element(&p, &mut ring, PtrStatus::new(0)),
        Err(SharedMemoryTypedWriteError::NotEnoughSpace)
    );
    assert_eq!(writer.write_status().ptr(), 0);
}

#[test]
fn advance_errors() {
    let mut reader = SharedMemoryBufferReader::new(128, 3, PtrStatus::new(0));
    let write = PtrStatus::new(32);
    assert_eq!(
        reader.advance_read_pointer(3, write),
        Err(SharedMemoryBufferAdvanceError::Not2ByteAligned)
    );
    assert_eq!(reader.advance_read_pointer(4, write), Err(SharedMemoryBufferAdvanceError::NotAligned));
    assert_eq!(
        reader.advance_read_pointer(72, write),
        Err(SharedMemoryBufferAdvanceError::OutOfBounds)
    );
    assert_eq!(reader.read_status().ptr(), 0);
    assert_eq!(reader.advance_read_pointer(64, write), Ok(()));
    assert_eq!(reader.read_status().ptr(), 64);
    let mut writer = SharedMemoryBufferWriter::new(128, 3, PtrStatus::new(32));
    assert_eq!(
        writer.advance_write_pointer(136, PtrStatus::new(0)),
        Err(SharedMemoryBufferAdvanceError::OutOfBounds)
    );
    assert_eq!(writer.advance_write_pointer(64, PtrStatus::new(0)), Ok(()));
    assert_eq!(writer.write_status().ptr(), 0);
    assert!(writer.write_status().wrap());
}

#[test]
fn reader_reports_empty_or_corrupt_regions() {
    let ring = vec![0u8; 64];
    let reader = SharedMemoryBufferReader::new(64, 2, PtrStatus::new(0));
    assert!(matches!(
        reader.read_element(&ring, PtrStatus::new(0)),
        Err(SharedMemoryTypedReadError::NotEnoughData)
    ));
    assert!(matches!(
        reader.read_element(&ring, PtrStatus::new(16)),
        Err(SharedMemoryTypedReadError::CorruptData)
    ));
}

#[test]
fn read_multiple_reads_in_order_across_the_wrap() {
    let mut ring = vec![0u8; 128];
    // Writer and reader at 64: room for 64 bytes at the end, 64 at the start.
    let mut writer = SharedMemoryBufferWriter::new(128, 2, PtrStatus::new(32));
    let reader = SharedMemoryBufferReader::new(128, 2, PtrStatus::new(32));
    let first = packet(40, 1);
    let second = packet(32, 2);
    let p1 = MultiFragmentPacketRef::from_raw_bytes(&first).unwrap();
    writer.write_element(&p1, &mut ring, reader.read_status()).unwrap();
    let p2 = MultiFragmentPacketRef::from_raw_bytes(&second).unwrap();
    writer.write_element(&p2, &mut ring, reader.read_status()).unwrap();
    // The second packet did not fit the 24 bytes left at the end.
    assert_eq!(&ring[104..106], &[0x55, 0x55]);
    let (packets, consumed) = reader.read_multiple(&ring, writer.write_status(), 2).unwrap();
    assert_eq!(packets.len(), 2);
    assert_eq!(packets[0].event_id(), 1);
    assert_eq!(packets[1].event_id(), 2);
    assert_eq!(consumed, 64 + 32);
    assert_eq!(
        reader.read_multiple(&ring, writer.write_status(), 3).err(),
        Some(SharedMemoryTypedReadError::NotEnoughData)
    );
    let (none, nothing) = reader.read_multiple(&ring, writer.write_status(), 0).unwrap();
    assert!(none.is_empty());
    assert_eq!(nothing, 0);
}

#[test]
fn two_moves_make_one() {
    let s = PtrStatus::new(0).add(12, 8);
    assert_eq!((s.ptr(), s.wrap()), (4, true));
    for (start, a, b) in [(0u64, 6usize, 10usize), (6, 2, 2), (WRAP | 2, 14, 30), (3, 0, 16)] {
        let s = PtrStatus::new(start);
        let twice = s.add(a, 8).add(b, 8);
        let once = s.add(a + b, 8);
        assert_eq!((twice.ptr(), twice.wrap()), (once.ptr(), once.wrap()));
    }
}

#[test]
fn shared_statuses_are_tested_before_use() {
    let w = PtrStatus::new(20);
    let r = PtrStatus::new(8);
    assert!(statuses_valid(w, r, 64));
    assert!(!statuses_valid(r, w, 64));
    assert!(statuses_valid(PtrStatus::new(WRAP | 4), PtrStatus::new(8), 64));
    assert!(!statuses_valid(PtrStatus::new(WRAP | 20), PtrStatus::new(8), 64));
    assert!(!statuses_valid(PtrStatus::new(40), r, 64));
}

#[test]
fn checked_layout_refuses_what_cannot_be_addressed() {
    assert_eq!(checked_align_up_pow2(13, 3), Some(16));
    assert_eq!(checked_align_up_pow2(16, 3), Some(16));
    assert_eq!(checked_align_up_pow2(1, 64), None);
    assert_eq!(checked_align_up_pow2(usize::MAX, 1), None);
    assert_eq!(checked_align_up_pow2(usize::MAX - 1, 1), Some(usize::MAX - 1));
    let l = checked_write_buffer_layout(100, 4).unwrap();
    assert_eq!((l.data_offset, l.data_size, l.total_size), (48, 112, 160));
    assert_eq!(checked_write_buffer_layout(100, 70), None);
    assert_eq!(checked_write_buffer_layout(usize::MAX - 8, 3), None);
}

#[test]
fn statuses_are_stored_in_place() {
    let mut header = CircularBufferStatus::new(64, 3, 7).to_bytes();
    store_write_status(&mut header, PtrStatus::new(WRAP | 12));
    store_read_status(&mut header, PtrStatus::new(5));
    let s = CircularBufferStatus::from_bytes(&header).unwrap();
    assert_eq!(s.write_status().status(), WRAP | 12);
    assert_eq!(s.read_status().status(), 5);
    assert_eq!(s.size(), 64);
}

#[test]
fn reader_needs_the_whole_padded_packet() {
    let data = packet(30, 1);
    let mut ring = vec![0u8; 64];
    ring[..data.len()].copy_from_slice(&data);
    let reader = SharedMemoryBufferReader::new(64, 2, PtrStatus::new(0));
    // 24 bytes written: the header is there, the 32 padded bytes are not.
    assert!(matches!(
        reader.read_element(&ring, PtrStatus::new(12)),
        Err(SharedMemoryTypedReadError::NotEnoughData)
    ));
    let (got, consumed) = reader.read_element(&ring, PtrStatus::new(16)).unwrap();
    assert_eq!((got.event_id(), consumed), (1, 32));
    // Two bytes left before the end, no wrap marker: too short for a header.
    let reader = SharedMemoryBufferReader::new(64, 2, PtrStatus::new(31));
    assert!(matches!(
        reader.read_element(&ring, PtrStatus::new(WRAP)),
        Err(SharedMemoryTypedReadError::NotEnoughData)
    ));
}
