//! The shared memory that holds a ring buffer: the status header at its
//! start, padding up to the buffer's alignment, then the data region; and the
//! lock files that keep to one reader and one writer per buffer.
use crate::mfp::{align_pow2, le64};
use crate::old_mfp::{lemma_padding, pad_to_alignment};
use vstd::arithmetic::power2::pow2;
use crate::ring_status::{header_holds, CircularBufferStatus, STATUS_HEADER_SIZE};
use vstd::prelude::*;
use vstd::string::StringExecFns;

verus! {

/// Why a shared memory buffer could not be set up.
#[derive(Debug)]
pub enum SharedMemoryBufferNewError {
    UnableToAcquireSharedMemory { shared_memory_path: String },
    UnableToMapSharedMemory { shared_memory_path: String },
    UnableToLockSharedMemory { read_lock_path: String },
    MemoryNotBigEnough { size: usize, minimum_size: usize },
}

/// `x` rounded up to a multiple of `2^p`.
pub fn align_up_pow2(x: usize, p: u8) -> (r: usize)
    requires
        p < usize::BITS,
        align_pow2(x as int, p as nat) <= usize::MAX,
    ensures
        r == align_pow2(x as int, p as nat),
{
    pad_to_alignment(x, p)
}

/// The lock file that the reader of buffer `name` holds.
pub fn reader_lock_path(name: &str) -> (r: String)
    ensures
        r@ == "/tmp/"@ + name@ + "_reader.lock"@,
{
    "/tmp/".to_owned().concat(name).concat("_reader.lock")
}

/// The lock file that the writer of buffer `name` holds.
pub fn writer_lock_path(name: &str) -> (r: String)
    ensures
        r@ == "/tmp/"@ + name@ + "_writer.lock"@,
{
    "/tmp/".to_owned().concat(name).concat("_writer.lock")
}

/// Where things lie in the shared memory of a buffer.
#[derive(Debug, Clone, Copy, PartialEq, Eq, Structural)]
pub struct SharedMemoryLayout {
    /// Offset of the data region: the header's size, aligned.
    pub data_offset: usize,
    /// Size of the data region: the requested size, aligned.
    pub data_size: usize,
    /// Size of the whole shared memory.
    pub total_size: usize,
}

/// The layout of a new buffer of `size` bytes aligned to `2^alignment_pow2`:
/// the header and the data region are each padded to the alignment.
pub fn write_buffer_layout(size: usize, alignment_pow2: u8) -> (r: SharedMemoryLayout)
    requires
        alignment_pow2 < usize::BITS,
        align_pow2(STATUS_HEADER_SIZE as int, alignment_pow2 as nat) + align_pow2(
            size as int,
            alignment_pow2 as nat,
        ) <= usize::MAX,
    ensures
        r.data_offset == align_pow2(STATUS_HEADER_SIZE as int, alignment_pow2 as nat),
        r.data_size == align_pow2(size as int, alignment_pow2 as nat),
        r.total_size == r.data_offset + r.data_size,
{
    proof {
        crate::mfp::lemma_align_pow2_bounds(STATUS_HEADER_SIZE as int, alignment_pow2 as nat);
        crate::mfp::lemma_align_pow2_bounds(size as int, alignment_pow2 as nat);
    }
    let data_offset = align_up_pow2(STATUS_HEADER_SIZE, alignment_pow2);
    let data_size = align_up_pow2(size, alignment_pow2);
    SharedMemoryLayout { data_offset, data_size, total_size: data_offset + data_size }
}

/// `x` rounded up to a multiple of `2^p`, or `None` when the exponent is not
/// below the word size or the result cannot be addressed.
pub fn checked_align_up_pow2(x: usize, p: u8) -> (r: Option<usize>)
    ensures
        r matches Some(v) ==> p < usize::BITS && v == align_pow2(x as int, p as nat),
        r is None ==> p >= usize::BITS || align_pow2(x as int, p as nat) > usize::MAX,
{
    if (p as u32) >= usize::BITS {
        return None;
    }
    let a: usize = 1usize << (p as usize);
    proof {
        vstd::bits::lemma_usize_pow2_no_overflow(p as nat);
        vstd::bits::lemma_usize_shl_is_mul(1, p as usize);
        lemma_padding(x as int, pow2(p as nat) as int);
    }
    let pad = (a - (x % a)) % a;
    if pad > usize::MAX - x {
        return None;
    }
    Some(pad_to_alignment(x, p))
}

/// The layout of a new buffer of `size` bytes aligned to `2^alignment_pow2`,
/// or `None` when the exponent is not below the word size or the whole
/// shared memory cannot be addressed.
pub fn checked_write_buffer_layout(size: usize, alignment_pow2: u8) -> (r: Option<SharedMemoryLayout>)
    ensures
        r matches Some(l) ==> alignment_pow2 < usize::BITS && l.data_offset == align_pow2(
            STATUS_HEADER_SIZE as int,
            alignment_pow2 as nat,
        ) && l.data_size == align_pow2(size as int, alignment_pow2 as nat) && l.total_size
            == l.data_offset + l.data_size,
        r is None ==> alignment_pow2 >= usize::BITS || align_pow2(
            STATUS_HEADER_SIZE as int,
            alignment_pow2 as nat,
        ) + align_pow2(size as int, alignment_pow2 as nat) > usize::MAX,
{
    let header = match checked_align_up_pow2(STATUS_HEADER_SIZE, alignment_pow2) {
        Some(h) => h,
        None => {
            proof {
                crate::mfp::lemma_align_pow2_bounds(size as int, alignment_pow2 as nat);
            }
            return None;
        },
    };
    let data = match checked_align_up_pow2(size, alignment_pow2) {
        Some(d) => d,
        None => {
            proof {
                crate::mfp::lemma_align_pow2_bounds(STATUS_HEADER_SIZE as int, alignment_pow2 as nat);
            }
            return None;
        },
    };
    if data > usize::MAX - header {
        return None;
    }
    Some(write_buffer_layout(size, alignment_pow2))
}

/// The header a new buffer of `size` bytes starts with: an empty ring over
/// the aligned size, with id 0.
pub fn initial_header(size: usize, alignment_pow2: u8) -> (r: Vec<u8>)
    requires
        alignment_pow2 < usize::BITS,
        align_pow2(size as int, alignment_pow2 as nat) <= usize::MAX,
    ensures
        r@.len() == STATUS_HEADER_SIZE,
        ({
            let s = CircularBufferStatus::from_spec(
                align_pow2(size as int, alignment_pow2 as nat) as usize,
                alignment_pow2 as usize,
                0,
            );
            header_holds(r@, s)
        }),
{
    let status = CircularBufferStatus::new(
        align_up_pow2(size, alignment_pow2),
        alignment_pow2 as usize,
        0,
    );
    status.to_bytes()
}

/// What the reader of a buffer takes from its shared memory's header: the
/// data region's size and the alignment exponent (its low byte). The memory
/// must be large enough for the header.
pub fn read_buffer_header(shared_memory: &[u8]) -> (r: Result<
    (usize, u8),
    SharedMemoryBufferNewError,
>)
    ensures
        shared_memory@.len() < STATUS_HEADER_SIZE ==> (r matches Err(
            SharedMemoryBufferNewError::MemoryNotBigEnough { size: s, minimum_size: m },
        ) && s == shared_memory@.len() && m == STATUS_HEADER_SIZE),
        shared_memory@.len() >= STATUS_HEADER_SIZE ==> (r matches Ok((size, align)) && size
            == le64(shared_memory@, 16) as usize && align == (le64(shared_memory@, 24) as usize) as u8),
{
    match CircularBufferStatus::from_bytes(shared_memory) {
        None => Err(
            SharedMemoryBufferNewError::MemoryNotBigEnough {
                size: shared_memory.len(),
                minimum_size: STATUS_HEADER_SIZE,
            },
        ),
        Some(status) => Ok((status.size(), status.alignment_pow2() as u8)),
    }
}

} // verus!
