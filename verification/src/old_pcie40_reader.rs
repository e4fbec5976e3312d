//! A zero-copy reader over a mapped PCIe40 stream that follows the device's
//! write offset: the data handed out runs from the read offset to the last
//! write offset seen; loading takes the device's new write offset, and
//! discarding moves the read offset on by what the device freed.
use crate::pcie40::{is_read_error, PCIe40MappedBuffer, PCIe40StreamError};
use crate::pcie40_reader::{is_read_failure, is_write_failure, ZeroCopyRingBufferReaderError};
use vstd::prelude::*;

verus! {

/// A reader that follows the device's write offset.
pub struct PCIe40Reader<'b> {
    mapped_buffer: PCIe40MappedBuffer<'b>,
    read_offset: usize,
    write_offset: usize,
    alignment: usize,
}

impl<'b> PCIe40Reader<'b> {
    pub closed spec fn spec_mapped(&self) -> PCIe40MappedBuffer<'b> {
        self.mapped_buffer
    }

    pub closed spec fn spec_read_offset(&self) -> usize {
        self.read_offset
    }

    pub closed spec fn spec_write_offset(&self) -> usize {
        self.write_offset
    }

    pub closed spec fn spec_alignment(&self) -> usize {
        self.alignment
    }

    /// A reader at the device's read and write offsets, given the driver's
    /// answers for them (the write offset is asked only when the read offset
    /// was given).
    pub fn new(
        mapped_buffer: PCIe40MappedBuffer<'b>,
        alignment: usize,
        read_offset_code: i64,
        write_offset_code: i64,
    ) -> (r: Result<Self, PCIe40StreamError>)
        requires
            read_offset_code <= usize::MAX,
            write_offset_code <= usize::MAX,
        ensures
            read_offset_code < 0 ==> (r matches Err(e) && is_read_error(
                e,
                mapped_buffer.spec_device_id(),
                mapped_buffer.spec_stream_type(),
                "Unable to get buffer read offset"@,
            )),
            read_offset_code >= 0 && write_offset_code < 0 ==> (r matches Err(e) && is_read_error(
                e,
                mapped_buffer.spec_device_id(),
                mapped_buffer.spec_stream_type(),
                "Unable to get buffer write offset"@,
            )),
            read_offset_code >= 0 && write_offset_code >= 0 ==> (r matches Ok(reader)
                && reader.spec_read_offset() == read_offset_code
                && reader.spec_write_offset() == write_offset_code
                && reader.spec_alignment() == alignment && reader.spec_mapped() == mapped_buffer),
    {
        let read_offset = match mapped_buffer.get_read_offset(read_offset_code) {
            Ok(o) => o,
            Err(e) => return Err(e),
        };
        let write_offset = match mapped_buffer.get_write_offset(write_offset_code) {
            Ok(o) => o,
            Err(e) => return Err(e),
        };
        Ok(PCIe40Reader { mapped_buffer, read_offset, write_offset, alignment })
    }

    /// The read offset.
    pub fn read_offset(&self) -> (r: usize)
        ensures
            r == self.spec_read_offset(),
    {
        self.read_offset
    }

    /// The last write offset seen.
    pub fn write_offset(&self) -> (r: usize)
        ensures
            r == self.spec_write_offset(),
    {
        self.write_offset
    }

    /// The loaded data: the mapped bytes from the read offset to the write
    /// offset, which must lie inside the mapping in that order.
    pub fn loaded_data(&self) -> (r: &'b [u8])
        requires
            self.spec_read_offset() <= self.spec_write_offset(),
            self.spec_write_offset() <= self.spec_mapped().spec_data().len(),
        ensures
            r@ == self.spec_mapped().spec_data().subrange(
                self.spec_read_offset() as int,
                self.spec_write_offset() as int,
            ),
    {
        vstd::slice::slice_subrange(self.mapped_buffer.data(), self.read_offset, self.write_offset)
    }

    /// Loads everything written since the last look, `write_offset_code`
    /// being the driver's answer for the write offset, which does not go
    /// back. Returns how many bytes came in.
    pub fn load_all_data(&mut self, write_offset_code: i64) -> (r: Result<
        usize,
        ZeroCopyRingBufferReaderError,
    >)
        requires
            write_offset_code <= usize::MAX,
            write_offset_code >= 0 ==> write_offset_code >= old(self).spec_write_offset(),
        ensures
            final(self).spec_read_offset() == old(self).spec_read_offset(),
            final(self).spec_alignment() == old(self).spec_alignment(),
            final(self).spec_mapped() == old(self).spec_mapped(),
            write_offset_code < 0 ==> (r matches Err(e) && is_read_failure(
                e,
                old(self).spec_mapped(),
                "Unable to get buffer write offset"@,
            )) && final(self).spec_write_offset() == old(self).spec_write_offset(),
            write_offset_code >= 0 ==> (r matches Ok(n) && n == write_offset_code
                - old(self).spec_write_offset() && final(self).spec_write_offset()
                == write_offset_code),
    {
        let new_write_offset = match self.mapped_buffer.get_write_offset(write_offset_code) {
            Ok(o) => o,
            Err(e) => return Err(ZeroCopyRingBufferReaderError::ConnectionError(e)),
        };
        let loaded = new_write_offset - self.write_offset;
        self.write_offset = new_write_offset;
        Ok(loaded)
    }

    /// How many bytes discarding everything loaded frees.
    pub fn discard_all_amount(&self) -> (r: usize)
        requires
            self.spec_read_offset() <= self.spec_write_offset(),
        ensures
            r == self.spec_write_offset() - self.spec_read_offset(),
    {
        self.write_offset - self.read_offset
    }

    /// Discards data once the device was asked to free it, `freed_code`
    /// being the driver's answer (how many bytes it freed): the read offset
    /// moves on by that many. Returns how many bytes were freed.
    pub fn discard_data(&mut self, freed_code: i64) -> (r: Result<
        usize,
        ZeroCopyRingBufferReaderError,
    >)
        requires
            freed_code <= usize::MAX,
            freed_code >= 0 ==> old(self).spec_read_offset() + freed_code <= usize::MAX,
        ensures
            final(self).spec_write_offset() == old(self).spec_write_offset(),
            final(self).spec_alignment() == old(self).spec_alignment(),
            final(self).spec_mapped() == old(self).spec_mapped(),
            freed_code < 0 ==> (r matches Err(e) && is_write_failure(
                e,
                old(self).spec_mapped(),
                "Unable to move buffer read offset"@,
            )) && final(self).spec_read_offset() == old(self).spec_read_offset(),
            freed_code >= 0 ==> (r matches Ok(n) && n == freed_code && final(self).spec_read_offset()
                == old(self).spec_read_offset() + n),
    {
        let discarded = match self.mapped_buffer.move_read_offset(freed_code) {
            Ok(n) => n,
            Err(e) => return Err(ZeroCopyRingBufferReaderError::ConnectionError(e)),
        };
        self.read_offset = self.read_offset + discarded;
        Ok(discarded)
    }

    /// The alignment the reader was made with.
    pub fn alignment(&self) -> (r: Option<usize>)
        ensures
            r == Some(self.spec_alignment()),
    {
        Some(self.alignment)
    }
}

} // verus!
