use rdma_daq::mfp::{
    align_up, packet_extent, Fragment, MultiFragmentPacketFromRawBytesError, MultiFragmentPacketRef,
    ZeroCopyRingBufferReadableError,
};

fn demo_multi_fragment_packet_data() -> Vec<u8> {
    [
        vec![0xCE, 0x40],
        vec![5, 0],
        vec![64, 0, 0, 0],
        vec![1, 0, 0, 0, 0, 0, 0, 0],
        vec![1, 0],
        vec![3],
        vec![1],
        vec![0, 1, 2, 3, 4],
        vec![0, 0, 0],
        vec![4, 0, 5, 0, 8, 0, 9, 0, 12, 0],
        vec![0, 0],
        vec![0, 1, 2, 3],
        vec![0, 0, 0, 0],
        vec![0, 1, 2, 3, 4],
        vec![0, 0, 0],
        vec![0, 1, 2, 3, 4, 5, 6, 7],
        vec![],
        vec![0, 1, 2, 3, 4, 5, 6, 7, 8],
        vec![0, 0, 0, 0, 0, 0, 0],
        vec![0, 1, 2, 3, 4, 5, 6, 7, 8, 9, 10, 11],
        vec![0, 0, 0, 0],
    ]
    .concat()
}

#[test]
fn test_mfp_magic_packet_getter() {
    let data = demo_multi_fragment_packet_data();
    let mfp = MultiFragmentPacketRef::from_raw_bytes(&data).unwrap();
    assert_eq!(mfp.magic(), 0x40CE);
}

#[test]
fn test_mfp_fragment_count_getter() {
    let data = demo_multi_fragment_packet_data();
    let mfp = MultiFragmentPacketRef::from_raw_bytes(&data).unwrap();
    assert_eq!(mfp.fragment_count(), 5);
}

#[test]
fn test_mfp_packet_size_getter() {
    let data = demo_multi_fragment_packet_data();
    let mfp = MultiFragmentPacketRef::from_raw_bytes(&data).unwrap();
    assert_eq!(mfp.packet_size(), 64);
}

#[test]
fn test_mfp_event_id_getter() {
    let data = demo_multi_fragment_packet_data();
    let mfp = MultiFragmentPacketRef::from_raw_bytes(&data).unwrap();
    assert_eq!(mfp.event_id(), 1);
}

#[test]
fn test_mfp_source_id_getter() {
    let data = demo_multi_fragment_packet_data();
    let mfp = MultiFragmentPacketRef::from_raw_bytes(&data).unwrap();
    assert_eq!(mfp.source_id(), 1);
}

#[test]
fn test_mfp_align_getter() {
    let data = demo_multi_fragment_packet_data();
    let mfp = MultiFragmentPacketRef::from_raw_bytes(&data).unwrap();
    assert_eq!(mfp.align(), 3);
}

#[test]
fn test_mfp_fragment_version_getter() {
    let data = demo_multi_fragment_packet_data();
    let mfp = MultiFragmentPacketRef::from_raw_bytes(&data).unwrap();
    assert_eq!(mfp.fragment_version(), 1);
}

#[test]
fn test_mfp_fragment_type_getter() {
    let data = demo_multi_fragment_packet_data();
    let mfp = MultiFragmentPacketRef::from_raw_bytes(&data).unwrap();
    assert_eq!(mfp.fragment_type(0), Some(0));
    assert_eq!(mfp.fragment_type(1), Some(1));
    assert_eq!(mfp.fragment_type(2), Some(2));
    assert_eq!(mfp.fragment_type(3), Some(3));
    assert_eq!(mfp.fragment_type(4), Some(4));
    assert_eq!(mfp.fragment_type(5), None);
}

#[test]
fn test_mfp_fragment_size_getter() {
    let data = demo_multi_fragment_packet_data();
    let mfp = MultiFragmentPacketRef::from_raw_bytes(&data).unwrap();
    assert_eq!(mfp.fragment_size(0), Some(4));
    assert_eq!(mfp.fragment_size(1), Some(5));
    assert_eq!(mfp.fragment_size(2), Some(8));
    assert_eq!(mfp.fragment_size(3), Some(9));
    assert_eq!(mfp.fragment_size(4), Some(12));
    assert_eq!(mfp.fragment_size(5), None);
}

#[test]
fn test_mfp_fragment_data_getter() {
    let data = demo_multi_fragment_packet_data();
    let mfp = MultiFragmentPacketRef::from_raw_bytes(&data).unwrap();
    assert_eq!(mfp.fragment_data(0), Some(&[0, 1, 2, 3][..]));
    assert_eq!(mfp.fragment_data(1), Some(&[0, 1, 2, 3, 4][..]));
    assert_eq!(mfp.fragment_data(2), Some(&[0, 1, 2, 3, 4, 5, 6, 7][..]));
    assert_eq!(mfp.fragment_data(3), Some(&[0, 1, 2, 3, 4, 5, 6, 7, 8][..]));
    assert_eq!(
        mfp.fragment_data(4),
        Some(&[0, 1, 2, 3, 4, 5, 6, 7, 8, 9, 10, 11][..])
    );
    assert_eq!(mfp.fragment_data(5), None);
}

#[test]
fn test_mfp_fragment_getter() {
    let data = demo_multi_fragment_packet_data();
    let mfp = MultiFragmentPacketRef::from_raw_bytes(&data).unwrap();
    let expected_fragment0 = Fragment {
        fragment_type: 0,
        fragment_size: 4,
        data: &[0, 1, 2, 3][..],
    };
    assert_eq!(mfp.fragment(0).unwrap(), expected_fragment0);
    let expected_fragment4 = Fragment {
        fragment_type: 4,
        fragment_size: 12,
        data: &[0, 1, 2, 3, 4, 5, 6, 7, 8, 9, 10, 11][..],
    };
    assert_eq!(mfp.fragment(4).unwrap(), expected_fragment4);
    assert_eq!(mfp.fragment(5), None);
}

#[test]
fn test_mfp_iter() {
    let data = demo_multi_fragment_packet_data();
    let mfp = MultiFragmentPacketRef::from_raw_bytes(&data).unwrap();
    let expected_fragments = vec![
        Fragment { fragment_type: 0, fragment_size: 4, data: &[0, 1, 2, 3][..] },
        Fragment { fragment_type: 1, fragment_size: 5, data: &[0, 1, 2, 3, 4][..] },
        Fragment { fragment_type: 2, fragment_size: 8, data: &[0, 1, 2, 3, 4, 5, 6, 7][..] },
        Fragment { fragment_type: 3, fragment_size: 9, data: &[0, 1, 2, 3, 4, 5, 6, 7, 8][..] },
        Fragment {
            fragment_type: 4,
            fragment_size: 12,
            data: &[0, 1, 2, 3, 4, 5, 6, 7, 8, 9, 10, 11][..],
        },
    ];
    let mut fragments: Vec<Fragment> = Vec::new();
    let mut iter = mfp.iter();
    while let Some(f) = iter.next() {
        fragments.push(f);
    }
    assert_eq!(fragments, expected_fragments);
}

#[test]
fn test_exact_size_iterator() {
    let data = demo_multi_fragment_packet_data();
    let mfp = MultiFragmentPacketRef::from_raw_bytes(&data).unwrap();
    let iter = mfp.iter();
    assert_eq!(iter.len(), 5);
    let mut iter = mfp.iter();
    iter.next();
    iter.next();
    assert_eq!(iter.len(), 5);
    let mut count = 0;
    let mut iter = mfp.iter();
    while let Some(_) = iter.next() {
        count += 1;
    }
    assert_eq!(count, 5);
}

#[test]
fn test_mfp_raw_packet_data() {
    let data = demo_multi_fragment_packet_data();
    let mfp = MultiFragmentPacketRef::from_raw_bytes(&data).unwrap();
    let raw_data = mfp.raw_packet_data();
    assert_eq!(raw_data.len(), 64);
    assert_eq!(raw_data, &data[0..64]);
}

#[test]
fn short_buffer_is_rejected() {
    let data = demo_multi_fragment_packet_data();
    let err = MultiFragmentPacketRef::from_raw_bytes(&data[..10]).err().unwrap();
    assert_eq!(
        err,
        MultiFragmentPacketFromRawBytesError::NotEnoughDataAvailable {
            available_data: 10,
            required_data: 20
        }
    );
}

#[test]
fn corrupted_magic_is_rejected() {
    let mut data = demo_multi_fragment_packet_data();
    data[0] = 0xFF;
    let err = MultiFragmentPacketRef::from_raw_bytes(&data).err().unwrap();
    assert_eq!(
        err,
        MultiFragmentPacketFromRawBytesError::CorruptedMagic {
            read_magic: 0x40FF,
            expected_magic: 0x40CE
        }
    );
}

#[test]
fn truncated_packet_is_rejected() {
    let data = demo_multi_fragment_packet_data();
    let err = MultiFragmentPacketRef::from_raw_bytes(&data[..40]).err().unwrap();
    assert_eq!(
        err,
        MultiFragmentPacketFromRawBytesError::NotEnoughDataAvailable {
            available_data: 40,
            required_data: 64
        }
    );
}

#[test]
fn fragment_outside_buffer_is_none() {
    let data = demo_multi_fragment_packet_data();
    let mfp = MultiFragmentPacketRef::from_raw_bytes(&data[..64]).unwrap();
    assert!(mfp.fragment(2).is_some());
    assert!(mfp.fragment(4).is_none());
}

#[test]
fn zero_copy_cast_reports_short_and_corrupted_data() {
    let data = demo_multi_fragment_packet_data();
    let mfp = MultiFragmentPacketRef::cast(&data).unwrap();
    assert_eq!(mfp.fragment_count(), 5);
    match MultiFragmentPacketRef::cast(&data[..10]) {
        Err(ZeroCopyRingBufferReadableError::NotEnoughDataAvailable { required_data, available_data }) => {
            assert_eq!((required_data, available_data), (20, 10));
        }
        _ => panic!("expected NotEnoughDataAvailable"),
    }
    match MultiFragmentPacketRef::cast(&data[..40]) {
        Err(ZeroCopyRingBufferReadableError::NotEnoughDataAvailable { required_data, available_data }) => {
            assert_eq!((required_data, available_data), (64, 40));
        }
        _ => panic!("expected NotEnoughDataAvailable"),
    }
    let mut corrupted = data.clone();
    corrupted[0] = 0xFF;
    corrupted[1] = 0xFF;
    match MultiFragmentPacketRef::cast(&corrupted) {
        Err(ZeroCopyRingBufferReadableError::ImproperlyFormattedData { message }) => {
            assert_eq!(message, format!("Expected magic bytes {:x?} but found {:x?}", 0x40CEu16, 0xFFFFu16));
        }
        _ => panic!("expected ImproperlyFormattedData"),
    }
}

#[test]
fn packet_extent_pads_to_the_reader_alignment() {
    let data = demo_multi_fragment_packet_data();
    assert_eq!(packet_extent(&data, 0, None), (64, 64));
    assert_eq!(packet_extent(&data, 8, None), (64, 72));
    assert_eq!(packet_extent(&data, 8, Some(16)), (64, 80));
    assert_eq!(packet_extent(&data, 3, Some(48)), (96, 96));
    assert_eq!(align_up(0, 4), 0);
    assert_eq!(align_up(13, 4), 16);
    assert_eq!(align_up(12, 4), 12);
    assert_eq!(align_up(7, 3), 9);
}
