//! A zero-copy reader over a mapped PCIe40 stream buffer that loads data in
//! steps: the bytes between the read offset and the loaded offset are the
//! data handed out; loading moves the loaded offset on by what the device
//! has written, discarding frees bytes on the device and moves the read
//! offset to where the device says it now is.
use crate::pcie40::{is_read_error, is_write_error, PCIe40MappedBuffer, PCIe40StreamError};
use vstd::prelude::*;

verus! {

/// Why the reader could not talk to the stream.
#[derive(Debug)]
pub enum ZeroCopyRingBufferReaderError {
    /// The driver reported an error; the stream's error says which.
    ConnectionError(PCIe40StreamError),
}

/// A loading reader over a mapped stream buffer.
pub struct PCIe40Reader<'b> {
    mapped_buffer: PCIe40MappedBuffer<'b>,
    loaded_data_offset: usize,
    read_offset: usize,
    alignment: usize,
}

/// Whether `r` is the connection error for a failed read query `info`.
pub open spec fn is_read_failure(
    r: ZeroCopyRingBufferReaderError,
    m: PCIe40MappedBuffer,
    info: Seq<char>,
) -> bool {
    r matches ZeroCopyRingBufferReaderError::ConnectionError(e) && is_read_error(
        e,
        m.spec_device_id(),
        m.spec_stream_type(),
        info,
    )
}

/// Whether `r` is the connection error for a failed write request `info`.
pub open spec fn is_write_failure(
    r: ZeroCopyRingBufferReaderError,
    m: PCIe40MappedBuffer,
    info: Seq<char>,
) -> bool {
    r matches ZeroCopyRingBufferReaderError::ConnectionError(e) && is_write_error(
        e,
        m.spec_device_id(),
        m.spec_stream_type(),
        info,
    )
}

impl<'b> PCIe40Reader<'b> {
    pub closed spec fn spec_mapped(&self) -> PCIe40MappedBuffer<'b> {
        self.mapped_buffer
    }

    pub closed spec fn spec_read_offset(&self) -> usize {
        self.read_offset
    }

    pub closed spec fn spec_loaded_offset(&self) -> usize {
        self.loaded_data_offset
    }

    pub closed spec fn spec_alignment(&self) -> usize {
        self.alignment
    }

    /// The loaded data never starts after it ends.
    pub closed spec fn well_formed(&self) -> bool {
        self.read_offset <= self.loaded_data_offset
    }

    /// A reader starting at the device's read offset, `read_offset_code`
    /// being the driver's answer for it; nothing is loaded yet.
    pub fn new(mapped_buffer: PCIe40MappedBuffer<'b>, alignment: usize, read_offset_code: i64) -> (r:
        Result<Self, PCIe40StreamError>)
        requires
            read_offset_code <= usize::MAX,
        ensures
            read_offset_code >= 0 ==> (r matches Ok(reader) && reader.well_formed()
                && reader.spec_read_offset() == read_offset_code
                && reader.spec_loaded_offset() == read_offset_code
                && reader.spec_alignment() == alignment && reader.spec_mapped() == mapped_buffer),
            read_offset_code < 0 ==> (r matches Err(e) && is_read_error(
                e,
                mapped_buffer.spec_device_id(),
                mapped_buffer.spec_stream_type(),
                "Unable to get buffer read offset"@,
            )),
    {
        let read_offset = match mapped_buffer.get_read_offset(read_offset_code) {
            Ok(o) => o,
            Err(e) => return Err(e),
        };
        Ok(PCIe40Reader { mapped_buffer, loaded_data_offset: read_offset, read_offset, alignment })
    }

    /// The read offset.
    pub fn read_offset(&self) -> (r: usize)
        ensures
            r == self.spec_read_offset(),
    {
        self.read_offset
    }

    /// The offset where the loaded data ends.
    pub fn loaded_data_offset(&self) -> (r: usize)
        ensures
            r == self.spec_loaded_offset(),
    {
        self.loaded_data_offset
    }

    /// The loaded data: the mapped bytes from the read offset to the loaded
    /// offset, which must lie inside the mapping.
    pub fn loaded_data(&self) -> (r: &'b [u8])
        requires
            self.well_formed(),
            self.spec_loaded_offset() <= self.spec_mapped().spec_data().len(),
        ensures
            r@ == self.spec_mapped().spec_data().subrange(
                self.spec_read_offset() as int,
                self.spec_loaded_offset() as int,
            ),
    {
        vstd::slice::slice_subrange(self.mapped_buffer.data(), self.read_offset, self.loaded_data_offset)
    }

    fn available_bytes(&self, used_code: i64) -> (r: Result<usize, ZeroCopyRingBufferReaderError>)
        requires
            used_code <= usize::MAX,
        ensures
            used_code >= 0 ==> r == Ok::<usize, ZeroCopyRingBufferReaderError>(used_code as usize),
            used_code < 0 ==> (r matches Err(e) && is_read_failure(
                e,
                self.spec_mapped(),
                "Unable to get available bytes on buffer"@,
            )),
    {
        match self.mapped_buffer.available_bytes(used_code) {
            Ok(n) => Ok(n),
            Err(e) => Err(ZeroCopyRingBufferReaderError::ConnectionError(e)),
        }
    }

    /// Loads up to `num_bytes` more, as many as the device has written:
    /// `used_code` is the driver's answer for the bytes in use. Returns how
    /// many were loaded.
    pub fn load_data(&mut self, num_bytes: usize, used_code: i64) -> (r: Result<
        usize,
        ZeroCopyRingBufferReaderError,
    >)
        requires
            old(self).well_formed(),
            used_code <= usize::MAX,
            used_code >= 0 ==> old(self).spec_loaded_offset() + (if used_code < num_bytes {
                used_code as int
            } else {
                num_bytes as int
            }) <= usize::MAX,
        ensures
            final(self).well_formed(),
            final(self).spec_read_offset() == old(self).spec_read_offset(),
            final(self).spec_alignment() == old(self).spec_alignment(),
            final(self).spec_mapped() == old(self).spec_mapped(),
            used_code < 0 ==> (r matches Err(e) && is_read_failure(
                e,
                old(self).spec_mapped(),
                "Unable to get available bytes on buffer"@,
            )) && final(self).spec_loaded_offset() == old(self).spec_loaded_offset(),
            used_code >= 0 ==> (r matches Ok(n) && n == (if used_code < num_bytes {
                used_code as int
            } else {
                num_bytes as int
            }) && final(self).spec_loaded_offset() == old(self).spec_loaded_offset() + n),
    {
        let available = match self.available_bytes(used_code) {
            Ok(n) => n,
            Err(e) => return Err(e),
        };
        let loaded = if available < num_bytes {
            available
        } else {
            num_bytes
        };
        self.loaded_data_offset = self.loaded_data_offset + loaded;
        Ok(loaded)
    }

    /// Loads everything the device has written, `used_code` being the
    /// driver's answer for the bytes in use. Returns how many were loaded.
    pub fn load_all_data(&mut self, used_code: i64) -> (r: Result<
        usize,
        ZeroCopyRingBufferReaderError,
    >)
        requires
            old(self).well_formed(),
            used_code <= usize::MAX,
            used_code >= 0 ==> old(self).spec_loaded_offset() + used_code <= usize::MAX,
        ensures
            final(self).well_formed(),
            final(self).spec_read_offset() == old(self).spec_read_offset(),
            final(self).spec_alignment() == old(self).spec_alignment(),
            final(self).spec_mapped() == old(self).spec_mapped(),
            used_code < 0 ==> (r matches Err(e) && is_read_failure(
                e,
                old(self).spec_mapped(),
                "Unable to get available bytes on buffer"@,
            )) && final(self).spec_loaded_offset() == old(self).spec_loaded_offset(),
            used_code >= 0 ==> (r matches Ok(n) && n == used_code
                && final(self).spec_loaded_offset() == old(self).spec_loaded_offset() + n),
    {
        let available = match self.available_bytes(used_code) {
            Ok(n) => n,
            Err(e) => return Err(e),
        };
        self.loaded_data_offset = self.loaded_data_offset + available;
        Ok(available)
    }

    /// How many bytes discarding everything frees: the bytes in use, by the
    /// driver's answer `used_code`.
    pub fn discard_all_amount(&self, used_code: i64) -> (r: Result<
        usize,
        ZeroCopyRingBufferReaderError,
    >)
        requires
            used_code <= usize::MAX,
        ensures
            used_code >= 0 ==> r == Ok::<usize, ZeroCopyRingBufferReaderError>(used_code as usize),
            used_code < 0 ==> (r matches Err(e) && is_read_failure(
                e,
                self.spec_mapped(),
                "Unable to get available bytes on buffer"@,
            )),
    {
        self.available_bytes(used_code)
    }

    /// Discards data once the device was asked to free it: `freed_code` is
    /// the driver's answer to freeing (how many bytes it freed) and
    /// `read_offset_code` its answer for the new read offset, asked only when
    /// freeing worked. The loaded offset never falls behind the read offset.
    /// Returns how many bytes were freed.
    pub fn discard_data(&mut self, freed_code: i64, read_offset_code: i64) -> (r: Result<
        usize,
        ZeroCopyRingBufferReaderError,
    >)
        requires
            old(self).well_formed(),
            freed_code <= usize::MAX,
            read_offset_code <= usize::MAX,
        ensures
            final(self).well_formed(),
            final(self).spec_alignment() == old(self).spec_alignment(),
            final(self).spec_mapped() == old(self).spec_mapped(),
            freed_code < 0 ==> (r matches Err(e) && is_write_failure(
                e,
                old(self).spec_mapped(),
                "Unable to move buffer read offset"@,
            )) && *final(self) == *old(self),
            freed_code >= 0 && read_offset_code < 0 ==> (r matches Err(e) && is_read_failure(
                e,
                old(self).spec_mapped(),
                "Unable to get buffer read offset"@,
            )) && *final(self) == *old(self),
            freed_code >= 0 && read_offset_code >= 0 ==> (r matches Ok(n) && n == freed_code
                && final(self).spec_read_offset() == read_offset_code
                && final(self).spec_loaded_offset() == (if read_offset_code
                > old(self).spec_loaded_offset() {
                read_offset_code as int
            } else {
                old(self).spec_loaded_offset() as int
            })),
    {
        let discarded = match self.mapped_buffer.move_read_offset(freed_code) {
            Ok(n) => n,
            Err(e) => return Err(ZeroCopyRingBufferReaderError::ConnectionError(e)),
        };
        let read_offset = match self.mapped_buffer.get_read_offset(read_offset_code) {
            Ok(o) => o,
            Err(e) => return Err(ZeroCopyRingBufferReaderError::ConnectionError(e)),
        };
        self.read_offset = read_offset;
        if read_offset > self.loaded_data_offset {
            self.loaded_data_offset = read_offset;
        }
        Ok(discarded)
    }

    /// The alignment the reader was made with.
    pub fn alignment(&self) -> (r: Option<usize>)
        ensures
            r == Some(self.spec_alignment()),
    {
        Some(self.alignment)
    }
}

} // verus!
