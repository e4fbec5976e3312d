use rdma_daq::old_pcie40_reader::PCIe40Reader as WriteOffsetReader;
use rdma_daq::pcie40::{
    PCIe40DAQStreamFormat, PCIe40DAQStreamType, PCIe40MappedBuffer, PCIe40Stream, PCIe40StreamError,
};
use rdma_daq::pcie40_reader::{PCIe40Reader as LoadingReader, ZeroCopyRingBufferReaderError};

fn stream() -> PCIe40Stream {
    PCIe40Stream::new(1, 5, 6, PCIe40DAQStreamType::MainStream, PCIe40DAQStreamFormat::RawFormat)
}

#[test]
fn loading_reader_loads_what_the_device_wrote() {
    let bytes: Vec<u8> = (0u8..64).collect();
    let guard = stream().lock(0).unwrap();
    let mut reader = LoadingReader::new(PCIe40MappedBuffer::new(&guard, &bytes), 8, 16).unwrap();
    assert_eq!(reader.read_offset(), 16);
    assert_eq!(reader.loaded_data_offset(), 16);
    assert!(reader.loaded_data().is_empty());
    assert_eq!(reader.alignment(), Some(8));

    // At most what was asked for, at most what is there.
    assert_eq!(reader.load_data(4, 10).unwrap(), 4);
    assert_eq!(reader.load_data(20, 6).unwrap(), 6);
    assert_eq!(reader.loaded_data(), &bytes[16..26]);
    assert_eq!(reader.load_all_data(3).unwrap(), 3);
    assert_eq!(reader.loaded_data_offset(), 29);

    // The driver's failure leaves the loaded data as it was.
    match reader.load_all_data(-1) {
        Err(ZeroCopyRingBufferReaderError::ConnectionError(PCIe40StreamError::StreamReadError {
            info, ..
        })) => assert_eq!(info, "Unable to get available bytes on buffer"),
        _ => panic!("expected a read error"),
    }
    assert_eq!(reader.loaded_data_offset(), 29);
}

#[test]
fn loading_reader_discards_to_the_device_read_offset() {
    let bytes = vec![0u8; 64];
    let guard = stream().lock(0).unwrap();
    let mut reader = LoadingReader::new(PCIe40MappedBuffer::new(&guard, &bytes), 8, 0).unwrap();
    reader.load_all_data(24).unwrap();
    assert_eq!(reader.discard_data(8, 8).unwrap(), 8);
    assert_eq!(reader.read_offset(), 8);
    assert_eq!(reader.loaded_data_offset(), 24);
    // A read offset past what was loaded drags the loaded offset along.
    assert_eq!(reader.discard_data(32, 40).unwrap(), 32);
    assert_eq!(reader.loaded_data_offset(), 40);
    assert!(matches!(
        reader.discard_data(-1, 0),
        Err(ZeroCopyRingBufferReaderError::ConnectionError(PCIe40StreamError::StreamWriteError { .. }))
    ));
    assert!(matches!(
        reader.discard_data(4, -1),
        Err(ZeroCopyRingBufferReaderError::ConnectionError(PCIe40StreamError::StreamReadError { .. }))
    ));
    assert_eq!(reader.read_offset(), 40);
    assert_eq!(reader.discard_all_amount(12).unwrap(), 12);
    assert!(LoadingReader::new(PCIe40MappedBuffer::new(&guard, &bytes), 8, -3).is_err());
}

#[test]
fn write_offset_reader_follows_the_device() {
    let bytes: Vec<u8> = (0u8..32).collect();
    let guard = stream().lock(0).unwrap();
    let mut reader =
        WriteOffsetReader::new(PCIe40MappedBuffer::new(&guard, &bytes), 4, 4, 8).unwrap();
    assert_eq!(reader.loaded_data(), &bytes[4..8]);
    assert_eq!(reader.load_all_data(20).unwrap(), 12);
    assert_eq!(reader.write_offset(), 20);
    assert_eq!(reader.discard_all_amount(), 16);
    assert_eq!(reader.discard_data(6).unwrap(), 6);
    assert_eq!(reader.read_offset(), 10);
    assert_eq!(reader.loaded_data(), &bytes[10..20]);
    assert!(reader.discard_data(-1).is_err());
    assert!(reader.load_all_data(-1).is_err());
    assert_eq!(reader.read_offset(), 10);
    assert_eq!(reader.write_offset(), 20);
    assert_eq!(reader.alignment(), Some(4));
    assert!(WriteOffsetReader::new(PCIe40MappedBuffer::new(&guard, &bytes), 4, 0, -1).is_err());
    assert!(WriteOffsetReader::new(PCIe40MappedBuffer::new(&guard, &bytes), 4, -1, 0).is_err());
}
