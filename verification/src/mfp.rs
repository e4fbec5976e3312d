//! The multi-fragment packet (MFP) format, read from raw bytes.
//!
//! Layout, little endian and packed: magic `u16` (0x40CE), fragment count
//! `u16`, packet size `u32`, event id `u64`, source id `u16`, alignment
//! exponent `u8`, fragment version `u8` (20 bytes); then one type byte per
//! fragment, padded to 4 bytes; then one `u16` size per fragment, padded to 4
//! bytes; then the fragments, each padded to `2^align` bytes.
use vstd::arithmetic::power2::pow2;
use crate::pcie40_reader::ZeroCopyRingBufferReaderError;
use crate::shm_ring::{SharedMemoryTypedReadError, SharedMemoryTypedWriteError};
use crate::text::{hex, push_hex};
use vstd::prelude::*;
use vstd::string::StringExecFns;
use vstd::slice::SliceAdditionalExecFns;

verus! {

/// Size of the fixed packet header.
pub const HEADER_SIZE: usize = 20;

/// Magic value that opens every packet.
pub const MAGIC_BYTES: u16 = 0x40CE;

/// Magic value written over a packet slot to tell the reader that the packet
/// continues at the start of the ring.
pub const WRAP_MAGIC: u16 = 0x5555;

/// Little-endian `u16` at offset `o`.
pub open spec fn le16(s: Seq<u8>, o: int) -> int {
    s[o] + 256 * s[o + 1]
}

/// Little-endian `u32` at offset `o`.
pub open spec fn le32(s: Seq<u8>, o: int) -> int {
    le16(s, o) + 65536 * le16(s, o + 2)
}

/// Little-endian `u64` at offset `o`.
pub open spec fn le64(s: Seq<u8>, o: int) -> int {
    le32(s, o) + 4294967296 * le32(s, o + 4)
}

/// `n` rounded up to a multiple of 4.
pub open spec fn align4(n: int) -> int {
    (n + 3) / 4 * 4
}

/// `n` rounded up to a multiple of `2^p`.
pub open spec fn align_pow2(n: int, p: nat) -> int {
    (n + pow2(p) - 1) / (pow2(p) as int) * pow2(p)
}

pub open spec fn mfp_magic(s: Seq<u8>) -> int {
    le16(s, 0)
}

pub open spec fn mfp_count(s: Seq<u8>) -> int {
    le16(s, 2)
}

pub open spec fn mfp_packet_size(s: Seq<u8>) -> int {
    le32(s, 4)
}

pub open spec fn mfp_event_id(s: Seq<u8>) -> int {
    le64(s, 8)
}

pub open spec fn mfp_source_id(s: Seq<u8>) -> int {
    le16(s, 16)
}

pub open spec fn mfp_align(s: Seq<u8>) -> u8 {
    s[18]
}

pub open spec fn mfp_version(s: Seq<u8>) -> u8 {
    s[19]
}

/// Offset of the fragment size array.
pub open spec fn sizes_offset(s: Seq<u8>) -> int {
    20 + align4(mfp_count(s))
}

/// Offset of the first fragment.
pub open spec fn data_offset(s: Seq<u8>) -> int {
    sizes_offset(s) + align4(2 * mfp_count(s))
}

/// Type of fragment `i`.
pub open spec fn frag_type(s: Seq<u8>, i: int) -> u8 {
    s[20 + i]
}

/// Size of fragment `i`.
pub open spec fn frag_size(s: Seq<u8>, i: int) -> int {
    le16(s, sizes_offset(s) + 2 * i)
}

/// Offset of fragment `i`: each earlier fragment occupies its size rounded up
/// to the packet alignment.
pub open spec fn frag_start(s: Seq<u8>, i: nat) -> int
    decreases i,
{
    if i == 0 {
        data_offset(s)
    } else {
        frag_start(s, (i - 1) as nat) + align_pow2(frag_size(s, i - 1), mfp_align(s) as nat)
    }
}

/// Fragment `i` exists and lies inside the given bytes.
pub open spec fn fragment_readable(s: Seq<u8>, i: int) -> bool {
    &&& 0 <= i < mfp_count(s)
    &&& sizes_offset(s) + 2 * i + 2 <= s.len()
    &&& frag_start(s, i as nat) + frag_size(s, i) <= s.len()
}

/// Errors when reading a packet from raw bytes.
#[derive(Debug, Clone, Copy, PartialEq, Eq, Structural)]
pub enum MultiFragmentPacketFromRawBytesError {
    /// The buffer holds `available_data` bytes; `required_data` are needed.
    NotEnoughDataAvailable { available_data: usize, required_data: usize },
    /// The header does not start with the expected magic value.
    CorruptedMagic { read_magic: u16, expected_magic: u16 },
}

/// Why a packet could not be taken from a zero-copy reader.
#[derive(Debug)]
pub enum ZeroCopyRingBufferReadableError {
    /// The loaded data holds `available_data` bytes; `required_data` are needed.
    NotEnoughDataAvailable { required_data: usize, available_data: usize },
    /// The data is not a packet; the message says why.
    ImproperlyFormattedData { message: String },
    /// The reader could not talk to its device.
    ZeroCopyRingBufferReaderError(ZeroCopyRingBufferReaderError),
}

/// `x` rounded up to the next multiple of `a`.
pub open spec fn round_up(x: int, a: int) -> int {
    if x % a == 0 {
        x
    } else {
        x - x % a + a
    }
}

/// `x` rounded up to the next multiple of `a`, which is not 0.
pub fn align_up(x: usize, a: usize) -> (r: usize)
    requires
        a > 0,
        round_up(x as int, a as int) <= usize::MAX,
    ensures
        r == round_up(x as int, a as int),
{
    let rem = x % a;
    proof {
        assert(rem <= x) by (nonlinear_arith)
            requires
                a > 0,
                rem == x % a,
        {
            assert(x == a * (x / a) + x % a);
            assert(x / a >= 0);
        }
    }
    if rem == 0 {
        x
    } else {
        x - rem + a
    }
}

/// The message for a header that does not open with the magic value.
pub open spec fn magic_mismatch_text(expected_magic: u16, read_magic: u16) -> Seq<char> {
    "Expected magic bytes "@ + hex(expected_magic as nat) + " but found "@ + hex(read_magic as nat)
}

fn magic_mismatch_message(expected_magic: u16, read_magic: u16) -> (r: String)
    ensures
        r@ == magic_mismatch_text(expected_magic, read_magic),
{
    let m = push_hex("Expected magic bytes ".to_owned(), expected_magic as u64, 0);
    push_hex(m.concat(" but found "), read_magic as u64, 0)
}

/// What loading the packet whose header `header` starts at `offset` of the
/// loaded data needs: the bytes the packet takes, padded to the reader's
/// alignment if it has one, and how far the loaded data must then reach.
pub fn packet_extent(header: &[u8], offset: usize, alignment: Option<usize>) -> (r: (usize, usize))
    requires
        header@.len() >= HEADER_SIZE,
        match alignment {
            None => offset + mfp_packet_size(header@) <= usize::MAX,
            Some(a) => a > 0 && round_up(offset + mfp_packet_size(header@), a as int) <= usize::MAX,
        },
    ensures
        ({
            let ps = mfp_packet_size(header@);
            match alignment {
                None => r.0 == ps && r.1 == offset + ps,
                Some(a) => r.0 == round_up(ps, a as int) && r.1 == round_up(offset + ps, a as int),
            }
        }),
{
    let packet_size = read_le32(header, 4) as usize;
    match alignment {
        None => (packet_size, offset + packet_size),
        Some(a) => {
            proof {
                let ps = packet_size as int;
                let o = offset as int;
                let ai = a as int;
                assert(round_up(ps, ai) <= round_up(o + ps, ai)) by (nonlinear_arith)
                    requires
                        ai > 0,
                        o >= 0,
                        ps >= 0,
                        round_up(ps, ai) == (if ps % ai == 0 { ps } else { ps - ps % ai + ai }),
                        round_up(o + ps, ai) == (if (o + ps) % ai == 0 {
                            o + ps
                        } else {
                            o + ps - (o + ps) % ai + ai
                        }),
                {
                    assert(ps == ai * (ps / ai) + ps % ai);
                    assert(o + ps == ai * ((o + ps) / ai) + (o + ps) % ai);
                    assert((ps / ai) <= ((o + ps) / ai));
                }
            }
            (align_up(packet_size, a), align_up(offset + packet_size, a))
        },
    }
}

/// A packet read in place from a byte buffer.
#[derive(Clone, Copy)]
pub struct MultiFragmentPacketRef<'a> {
    data: &'a [u8],
}

/// One fragment of a packet.
#[derive(Debug, PartialEq, Eq)]
pub struct Fragment<'a> {
    pub fragment_type: u8,
    pub fragment_size: u16,
    pub data: &'a [u8],
}

/// The decoding of a packet's bytes into its fragments, in order.
pub struct MultiFragmentPacketRefIter<'a> {
    packet: MultiFragmentPacketRef<'a>,
    index: usize,
}

pub(crate) fn read_le16(d: &[u8], o: usize) -> (r: u16)
    requires
        o + 2 <= d@.len(),
    ensures
        r == le16(d@, o as int),
{
    (d[o] as u16) + (d[o + 1] as u16) * 256
}

pub(crate) fn read_le32(d: &[u8], o: usize) -> (r: u32)
    requires
        o + 4 <= d@.len(),
    ensures
        r == le32(d@, o as int),
{
    let _n = d.len();
    (read_le16(d, o) as u32) + (read_le16(d, o + 2) as u32) * 65536
}

pub(crate) fn read_le64(d: &[u8], o: usize) -> (r: u64)
    requires
        o + 8 <= d@.len(),
    ensures
        r == le64(d@, o as int),
{
    let _n = d.len();
    (read_le32(d, o) as u64) + (read_le32(d, o + 4) as u64) * 4294967296
}

pub(crate) proof fn lemma_align_pow2_bounds(n: int, p: nat)
    requires
        n >= 0,
    ensures
        n <= align_pow2(n, p) <= n + pow2(p) - 1,
        n > 0 ==> align_pow2(n, p) >= pow2(p),
        n == 0 ==> align_pow2(n, p) == 0,
{
    vstd::arithmetic::power2::lemma_pow2_pos(p);
    let a = pow2(p) as int;
    let q = (n + a - 1) / a;
    vstd::arithmetic::div_mod::lemma_fundamental_div_mod(n + a - 1, a);
    vstd::arithmetic::div_mod::lemma_mod_bound(n + a - 1, a);
    assert(q * a <= n + a - 1) by (nonlinear_arith)
        requires
            n + a - 1 == a * q + (n + a - 1) % a,
            0 <= (n + a - 1) % a,
    ;
    assert(q * a > n - 1) by (nonlinear_arith)
        requires
            n + a - 1 == a * q + (n + a - 1) % a,
            (n + a - 1) % a < a,
    ;
    if n > 0 {
        assert(q >= 1) by (nonlinear_arith)
            requires
                q * a > n - 1,
                n > 0,
                a > 0,
        ;
        assert(q * a >= a) by (nonlinear_arith)
            requires
                q >= 1,
                a > 0,
        ;
    } else {
        assert(q == 0) by {
            vstd::arithmetic::div_mod::lemma_basic_div(a - 1, a);
        }
        assert(q * a == 0) by (nonlinear_arith)
            requires
                q == 0,
        ;
    }
}

proof fn lemma_frag_start_monotonic(s: Seq<u8>, i: nat, j: nat)
    requires
        i <= j,
        forall|k: int| 0 <= k < j ==> frag_size(s, k) >= 0,
    ensures
        frag_start(s, i) <= frag_start(s, j),
    decreases j,
{
    if i < j {
        lemma_frag_start_monotonic(s, i, (j - 1) as nat);
        lemma_align_pow2_bounds(frag_size(s, j - 1), mfp_align(s) as nat);
    }
}

/// Rounds a size up to `2^align`, or answers `None` when the result exceeds
/// `limit`.
pub(crate) fn aligned_size_within(size: u32, align: u8, limit: u64) -> (r: Option<u64>)
    requires
        limit < 0x8000_0000_0000_0000,
    ensures
        match r {
            Some(v) => v == align_pow2(size as int, align as nat) && v <= limit,
            None => align_pow2(size as int, align as nat) > limit,
        },
{
    proof {
        lemma_align_pow2_bounds(size as int, align as nat);
    }
    if size == 0 {
        return Some(0);
    }
    if align >= 63 {
        proof {
            vstd::arithmetic::power2::lemma2_to64();
            vstd::arithmetic::power2::lemma2_to64_rest();
            if align > 63 {
                vstd::arithmetic::power2::lemma_pow2_strictly_increases(63, align as nat);
            }
        }
        return None;
    }
    let a: u64 = 1u64 << (align as u64);
    proof {
        vstd::arithmetic::power2::lemma2_to64();
        vstd::arithmetic::power2::lemma2_to64_rest();
        vstd::arithmetic::power2::lemma_pow2_strictly_increases(align as nat, 63);
        vstd::bits::lemma_u64_shl_is_mul(1, align as u64);
    }
    let v = (size as u64 + a - 1) / a * a;
    if v > limit {
        return None;
    }
    Some(v)
}

impl<'a> MultiFragmentPacketRef<'a> {
    /// The bytes the packet was read from.
    pub closed spec fn bytes(&self) -> Seq<u8> {
        self.data@
    }

    /// Well formed: a full header with the right magic, in a buffer no larger
    /// than any Rust slice can be.
    #[verifier::type_invariant]
    closed spec fn well_formed(&self) -> bool {
        &&& self.data@.len() >= HEADER_SIZE
        &&& mfp_magic(self.data@) == MAGIC_BYTES
        &&& self.data@.len() <= isize::MAX
    }

    /// The buffer holds the whole packet.
    pub open spec fn complete(&self) -> bool {
        mfp_packet_size(self.bytes()) <= self.bytes().len()
    }

    /// Reads a packet from `data`: the buffer must hold the whole header, the
    /// header must open with the magic value, and the buffer must hold the
    /// whole packet.
    pub fn from_raw_bytes(data: &'a [u8]) -> (r: Result<
        MultiFragmentPacketRef<'a>,
        MultiFragmentPacketFromRawBytesError,
    >)
        requires
            data@.len() <= isize::MAX,
        ensures
            data@.len() < HEADER_SIZE ==> r == Err::<MultiFragmentPacketRef<'a>, _>(
                MultiFragmentPacketFromRawBytesError::NotEnoughDataAvailable {
                    available_data: data@.len() as usize,
                    required_data: HEADER_SIZE,
                },
            ),
            data@.len() >= HEADER_SIZE && mfp_magic(data@) != MAGIC_BYTES ==> r == Err::<
                MultiFragmentPacketRef<'a>,
                _,
            >(
                MultiFragmentPacketFromRawBytesError::CorruptedMagic {
                    read_magic: mfp_magic(data@) as u16,
                    expected_magic: MAGIC_BYTES,
                },
            ),
            data@.len() >= HEADER_SIZE && mfp_magic(data@) == MAGIC_BYTES && data@.len()
                < mfp_packet_size(data@) ==> r == Err::<MultiFragmentPacketRef<'a>, _>(
                MultiFragmentPacketFromRawBytesError::NotEnoughDataAvailable {
                    available_data: data@.len() as usize,
                    required_data: mfp_packet_size(data@) as usize,
                },
            ),
            data@.len() >= HEADER_SIZE && mfp_magic(data@) == MAGIC_BYTES && data@.len()
                >= mfp_packet_size(data@) ==> (r matches Ok(p) && p.bytes() == data@ && p.complete()),
    {
        if data.len() < HEADER_SIZE {
            return Err(
                MultiFragmentPacketFromRawBytesError::NotEnoughDataAvailable {
                    available_data: data.len(),
                    required_data: HEADER_SIZE,
                },
            );
        }
        let magic = read_le16(data, 0);
        if magic != MAGIC_BYTES {
            return Err(
                MultiFragmentPacketFromRawBytesError::CorruptedMagic {
                    read_magic: magic,
                    expected_magic: MAGIC_BYTES,
                },
            );
        }
        let packet_size = read_le32(data, 4) as usize;
        if data.len() < packet_size {
            return Err(
                MultiFragmentPacketFromRawBytesError::NotEnoughDataAvailable {
                    available_data: data.len(),
                    required_data: packet_size,
                },
            );
        }
        Ok(MultiFragmentPacketRef { data })
    }

    /// The magic value.
    pub fn magic(&self) -> (r: u16)
        ensures
            r == mfp_magic(self.bytes()),
    {
        proof {
            use_type_invariant(self);
        }
        read_le16(self.data, 0)
    }

    /// The number of fragments.
    pub fn fragment_count(&self) -> (r: u16)
        ensures
            r == mfp_count(self.bytes()),
    {
        proof {
            use_type_invariant(self);
        }
        read_le16(self.data, 2)
    }

    /// The packet size in bytes.
    pub fn packet_size(&self) -> (r: u32)
        ensures
            r == mfp_packet_size(self.bytes()),
    {
        proof {
            use_type_invariant(self);
        }
        read_le32(self.data, 4)
    }

    /// The event id.
    pub fn event_id(&self) -> (r: u64)
        ensures
            r == mfp_event_id(self.bytes()),
    {
        proof {
            use_type_invariant(self);
        }
        read_le64(self.data, 8)
    }

    /// The source id.
    pub fn source_id(&self) -> (r: u16)
        ensures
            r == mfp_source_id(self.bytes()),
    {
        proof {
            use_type_invariant(self);
        }
        read_le16(self.data, 16)
    }

    /// The alignment of the fragments, as a power of two.
    pub fn align(&self) -> (r: u8)
        ensures
            r == mfp_align(self.bytes()),
    {
        proof {
            use_type_invariant(self);
        }
        self.data[18]
    }

    /// The fragment format version.
    pub fn fragment_version(&self) -> (r: u8)
        ensures
            r == mfp_version(self.bytes()),
    {
        proof {
            use_type_invariant(self);
        }
        self.data[19]
    }

    /// The type of fragment `index`, if the packet has that fragment and the
    /// buffer holds its type byte.
    pub fn fragment_type(&self, index: usize) -> (r: Option<u8>)
        ensures
            r == if index < mfp_count(self.bytes()) && 20 + index < self.bytes().len() {
                Some(frag_type(self.bytes(), index as int))
            } else {
                None::<u8>
            },
    {
        proof {
            use_type_invariant(self);
        }
        let count = self.fragment_count() as usize;
        if index < count && index < self.data.len() - HEADER_SIZE {
            Some(self.data[HEADER_SIZE + index])
        } else {
            None
        }
    }

    fn sizes_offset(&self) -> (r: usize)
        ensures
            r == sizes_offset(self.bytes()),
    {
        let count = self.fragment_count() as usize;
        HEADER_SIZE + (count + 3) / 4 * 4
    }

    fn data_offset(&self) -> (r: usize)
        ensures
            r == data_offset(self.bytes()),
    {
        let count = self.fragment_count() as usize;
        self.sizes_offset() + (2 * count + 3) / 4 * 4
    }

    /// The size of fragment `index`, if the packet has that fragment and the
    /// buffer holds its size entry.
    pub fn fragment_size(&self, index: usize) -> (r: Option<u16>)
        ensures
            r == if index < mfp_count(self.bytes()) && sizes_offset(self.bytes()) + 2 * index + 2
                <= self.bytes().len() {
                Some(frag_size(self.bytes(), index as int) as u16)
            } else {
                None::<u16>
            },
    {
        proof {
            use_type_invariant(self);
        }
        let count = self.fragment_count() as usize;
        if index >= count {
            return None;
        }
        let off = self.sizes_offset();
        if off + 2 * index + 2 > self.data.len() {
            return None;
        }
        Some(read_le16(self.data, off + 2 * index))
    }

    /// Fragment `index`, if it lies inside the buffer.
    pub fn fragment(&self, index: usize) -> (r: Option<Fragment<'a>>)
        ensures
            fragment_readable(self.bytes(), index as int) ==> (r matches Some(f) && f.fragment_type
                == frag_type(self.bytes(), index as int) && f.fragment_size == frag_size(
                self.bytes(),
                index as int,
            ) && f.data@ == self.bytes().subrange(
                frag_start(self.bytes(), index as nat),
                frag_start(self.bytes(), index as nat) + frag_size(self.bytes(), index as int),
            )),
            !fragment_readable(self.bytes(), index as int) ==> r is None,
    {
        proof {
            use_type_invariant(self);
        }
        let ghost s = self.data@;
        let count = self.fragment_count() as usize;
        if index >= count {
            return None;
        }
        let soff = self.sizes_offset();
        let len = self.data.len();
        if soff + 2 * index + 2 > len {
            return None;
        }
        let align = self.align();
        let doff = self.data_offset();
        if doff > len {
            proof {
                assert forall|k: int| 0 <= k < index implies frag_size(s, k) >= 0 by {}
                lemma_frag_start_monotonic(s, 0, index as nat);
            }
            return None;
        }
        let mut start: u64 = doff as u64;
        let mut j: usize = 0;
        while j < index
            invariant
                s == self.data@,
                s.len() == len,
                len <= isize::MAX,
                j <= index,
                index < count,
                count == mfp_count(s),
                soff == sizes_offset(s),
                soff + 2 * index + 2 <= len,
                align == mfp_align(s),
                start == frag_start(s, j as nat),
                start <= len,
            decreases index - j,
        {
            let size = read_le16(self.data, soff + 2 * j);
            let remaining = len as u64 - start;
            match aligned_size_within(size as u32, align, remaining) {
                None => {
                    proof {
                        assert forall|k: int| 0 <= k < index implies frag_size(s, k) >= 0 by {}
                        lemma_frag_start_monotonic(s, (j + 1) as nat, index as nat);
                    }
                    return None;
                },
                Some(a) => {
                    start = start + a;
                },
            }
            j = j + 1;
        }
        let size = read_le16(self.data, soff + 2 * index);
        if start + size as u64 > len as u64 {
            return None;
        }
        let st = start as usize;
        let t = self.data[HEADER_SIZE + index];
        Some(Fragment { fragment_type: t, fragment_size: size, data: vstd::slice::slice_subrange(self.data, st, st + size as usize) })
    }

    /// The data of fragment `index`, if it lies inside the buffer.
    pub fn fragment_data(&self, index: usize) -> (r: Option<&'a [u8]>)
        ensures
            fragment_readable(self.bytes(), index as int) ==> (r matches Some(d) && d@
                == self.bytes().subrange(
                frag_start(self.bytes(), index as nat),
                frag_start(self.bytes(), index as nat) + frag_size(self.bytes(), index as int),
            )),
            !fragment_readable(self.bytes(), index as int) ==> r is None,
    {
        match self.fragment(index) {
            Some(f) => Some(f.data),
            None => None,
        }
    }

    /// Takes the packet from loaded zero-copy data, as `from_raw_bytes`
    /// does; a wrong magic value is reported as improperly formatted data.
    pub fn cast(data: &'a [u8]) -> (r: Result<MultiFragmentPacketRef<'a>, ZeroCopyRingBufferReadableError>)
        requires
            data@.len() <= isize::MAX,
        ensures
            data@.len() < HEADER_SIZE ==> (r matches Err(
                ZeroCopyRingBufferReadableError::NotEnoughDataAvailable {
                    required_data: q,
                    available_data: v,
                },
            ) && q == HEADER_SIZE && v == data@.len()),
            data@.len() >= HEADER_SIZE && mfp_magic(data@) != MAGIC_BYTES ==> (r matches Err(
                ZeroCopyRingBufferReadableError::ImproperlyFormattedData { message },
            ) && message@ == magic_mismatch_text(MAGIC_BYTES, mfp_magic(data@) as u16)),
            data@.len() >= HEADER_SIZE && mfp_magic(data@) == MAGIC_BYTES && data@.len()
                < mfp_packet_size(data@) ==> (r matches Err(
                ZeroCopyRingBufferReadableError::NotEnoughDataAvailable {
                    required_data: q,
                    available_data: v,
                },
            ) && q == mfp_packet_size(data@) && v == data@.len()),
            data@.len() >= HEADER_SIZE && mfp_magic(data@) == MAGIC_BYTES && data@.len()
                >= mfp_packet_size(data@) ==> (r matches Ok(p) && p.bytes() == data@ && p.complete()),
    {
        match Self::from_raw_bytes(data) {
            Ok(p) => Ok(p),
            Err(MultiFragmentPacketFromRawBytesError::NotEnoughDataAvailable {
                available_data,
                required_data,
            }) => Err(
                ZeroCopyRingBufferReadableError::NotEnoughDataAvailable {
                    required_data,
                    available_data,
                },
            ),
            Err(MultiFragmentPacketFromRawBytesError::CorruptedMagic { read_magic, expected_magic }) => {
                Err(
                    ZeroCopyRingBufferReadableError::ImproperlyFormattedData {
                        message: magic_mismatch_message(expected_magic, read_magic),
                    },
                )
            },
        }
    }

    /// Whether the buffer holds the whole packet its header describes.
    pub fn is_complete(&self) -> (r: bool)
        ensures
            r == self.complete(),
    {
        (self.packet_size() as usize) <= self.data.len()
    }

    /// The size of the packet in a ring buffer: its packet size.
    pub fn length_in_bytes(&self) -> (r: usize)
        ensures
            r == mfp_packet_size(self.bytes()),
    {
        self.packet_size() as usize
    }

    /// Reads a packet at the start of a ring-buffer region: the region must
    /// hold the header and the header must open with the magic value. Whether
    /// the region holds the whole packet is checked by the reader.
    pub fn cast_to_element(data: &'a [u8]) -> (r: Result<
        MultiFragmentPacketRef<'a>,
        SharedMemoryTypedReadError,
    >)
        requires
            data@.len() <= isize::MAX,
        ensures
            data@.len() < HEADER_SIZE ==> r == Err::<MultiFragmentPacketRef<'a>, _>(
                SharedMemoryTypedReadError::NotEnoughData,
            ),
            data@.len() >= HEADER_SIZE && mfp_magic(data@) != MAGIC_BYTES ==> r == Err::<
                MultiFragmentPacketRef<'a>,
                _,
            >(SharedMemoryTypedReadError::CorruptData),
            data@.len() >= HEADER_SIZE && mfp_magic(data@) == MAGIC_BYTES ==> (r matches Ok(p)
                && p.bytes() == data@),
    {
        if data.len() < HEADER_SIZE {
            return Err(SharedMemoryTypedReadError::NotEnoughData);
        }
        if read_le16(data, 0) != MAGIC_BYTES {
            return Err(SharedMemoryTypedReadError::CorruptData);
        }
        Ok(MultiFragmentPacketRef { data })
    }

    /// Whether the region starts with the wrap marker instead of a packet.
    pub fn check_wrap_flag(bytes: &[u8]) -> (r: Result<bool, SharedMemoryTypedReadError>)
        ensures
            bytes@.len() < 2 ==> r == Err::<bool, _>(SharedMemoryTypedReadError::NotEnoughData),
            bytes@.len() >= 2 ==> r == Ok::<bool, SharedMemoryTypedReadError>(
                le16(bytes@, 0) == WRAP_MAGIC,
            ),
    {
        if bytes.len() < 2 {
            return Err(SharedMemoryTypedReadError::NotEnoughData);
        }
        Ok(read_le16(bytes, 0) == WRAP_MAGIC)
    }

    /// Writes the wrap marker over the magic field at the start of the region.
    pub fn set_wrap_flag(bytes: &mut [u8]) -> (r: Result<(), SharedMemoryTypedWriteError>)
        ensures
            old(bytes)@.len() < 2 ==> r == Err::<(), _>(SharedMemoryTypedWriteError::NotEnoughSpace)
                && final(bytes)@ == old(bytes)@,
            old(bytes)@.len() >= 2 ==> r is Ok && final(bytes)@ == old(bytes)@.update(0, 0x55u8).update(
                1,
                0x55u8,
            ) && le16(final(bytes)@, 0) == WRAP_MAGIC,
    {
        if bytes.len() < 2 {
            return Err(SharedMemoryTypedWriteError::NotEnoughSpace);
        }
        bytes.set(0, 0x55);
        bytes.set(1, 0x55);
        Ok(())
    }

    /// Copies the packet to the start of `buffer`, if it fits.
    pub fn write_to_buffer(&self, buffer: &mut [u8]) -> (r: Result<(), SharedMemoryTypedWriteError>)
        requires
            self.complete(),
        ensures
            old(buffer)@.len() < mfp_packet_size(self.bytes()) ==> r == Err::<(), _>(
                SharedMemoryTypedWriteError::NotEnoughSpace,
            ) && final(buffer)@ == old(buffer)@,
            old(buffer)@.len() >= mfp_packet_size(self.bytes()) ==> r is Ok && final(buffer)@
                == self.bytes().subrange(0, mfp_packet_size(self.bytes())) + old(buffer)@.subrange(
                mfp_packet_size(self.bytes()),
                old(buffer)@.len() as int,
            ),
    {
        let src = self.raw_packet_data();
        let n = src.len();
        if buffer.len() < n {
            return Err(SharedMemoryTypedWriteError::NotEnoughSpace);
        }
        let ghost orig = buffer@;
        let mut i: usize = 0;
        while i < n
            invariant
                n == src@.len(),
                n <= buffer@.len(),
                buffer@.len() == orig.len(),
                i <= n,
                forall|j: int| 0 <= j < i ==> buffer@[j] == src@[j],
                forall|j: int| i <= j < orig.len() ==> buffer@[j] == orig[j],
            decreases n - i,
        {
            buffer.set(i, src[i]);
            i = i + 1;
        }
        proof {
            assert(buffer@ =~= src@ + orig.subrange(n as int, orig.len() as int));
        }
        Ok(())
    }

    /// The fragments in order, stopping at the first one that does not lie
    /// inside the buffer.
    pub fn iter(&self) -> (r: MultiFragmentPacketRefIter<'a>)
        ensures
            r.spec_index() == 0,
            r.spec_packet().bytes() == self.bytes(),
    {
        MultiFragmentPacketRefIter { packet: *self, index: 0 }
    }

    /// The packet's own bytes: the first `packet_size` bytes of the buffer.
    pub fn raw_packet_data(&self) -> (r: &'a [u8])
        requires
            self.complete(),
        ensures
            r@ == self.bytes().subrange(0, mfp_packet_size(self.bytes())),
    {
        proof {
            use_type_invariant(self);
        }
        let n = self.packet_size() as usize;
        vstd::slice::slice_subrange(self.data, 0, n)
    }
}

impl<'a> MultiFragmentPacketRefIter<'a> {
    pub closed spec fn spec_index(&self) -> nat {
        self.index as nat
    }

    pub closed spec fn spec_packet(&self) -> MultiFragmentPacketRef<'a> {
        self.packet
    }

    /// The number of fragments of the packet, however many have been taken.
    pub fn len(&self) -> (r: usize)
        ensures
            r == mfp_count(self.spec_packet().bytes()),
    {
        self.packet.fragment_count() as usize
    }

    /// The next fragment, or `None` once every fragment has been taken or the
    /// next one does not lie inside the buffer.
    pub fn next(&mut self) -> (r: Option<Fragment<'a>>)
        ensures
            final(self).spec_packet() == old(self).spec_packet(),
            fragment_readable(old(self).spec_packet().bytes(), old(self).spec_index() as int) ==> {
                let b = old(self).spec_packet().bytes();
                let i = old(self).spec_index();
                &&& (r matches Some(f) && f.fragment_type == frag_type(b, i as int) && f.fragment_size
                    == frag_size(b, i as int) && f.data@ == b.subrange(
                    frag_start(b, i),
                    frag_start(b, i) + frag_size(b, i as int),
                ))
                &&& final(self).spec_index() == i + 1
            },
            !fragment_readable(old(self).spec_packet().bytes(), old(self).spec_index() as int) ==> (r is None
                && final(self).spec_index() == old(self).spec_index()),
    {
        let r = self.packet.fragment(self.index);
        if r.is_some() {
            self.index = self.index + 1;
        }
        r
    }
}

/// Builder state: the magic value is still the default one.
pub struct MagicDefault;
/// Builder state: the magic value was set.
pub struct MagicSet;
/// Builder state: no event id yet.
pub struct EventIdNotSet;
/// Builder state: the event id was set.
pub struct EventIdSet;
/// Builder state: no source id yet.
pub struct SourceIdNotSet;
/// Builder state: the source id was set.
pub struct SourceIdSet;
/// Builder state: no alignment yet.
pub struct AlignNotSet;
/// Builder state: the alignment was set.
pub struct AlignSet;
/// Builder state: no fragment version yet.
pub struct FragmentVersionNotSet;
/// Builder state: the fragment version was set.
pub struct FragmentVersionSet;
/// Builder state: the header can still change.
pub struct HeaderUnlocked;
/// Builder state: the header is complete and locked.
pub struct HeaderLocked;

/// Type-state builder of a packet header: each field is set at most once, and
/// the header can only be locked once event id, source id, alignment and
/// fragment version are all set.
pub struct MultiFragmentPacketBuilder<
    MagicStatus,
    EventIdStatus,
    SourceIdStatus,
    AlignStatus,
    FragmentVersionStatus,
    HeaderLockStatus,
> {
    magic: u16,
    event_id: u64,
    source_id: u16,
    align: u8,
    fragment_version: u8,
    _typestate_phantom: core::marker::PhantomData<
        (MagicStatus, EventIdStatus, SourceIdStatus, AlignStatus, FragmentVersionStatus, HeaderLockStatus),
    >,
}

impl<M, E, S, A, F, H> MultiFragmentPacketBuilder<M, E, S, A, F, H> {
    /// The header fields chosen so far: magic, event id, source id, alignment
    /// and fragment version.
    pub closed spec fn fields(&self) -> (u16, u64, u16, u8, u8) {
        (self.magic, self.event_id, self.source_id, self.align, self.fragment_version)
    }
}

impl MultiFragmentPacketBuilder<
    MagicDefault,
    EventIdNotSet,
    SourceIdNotSet,
    AlignNotSet,
    FragmentVersionNotSet,
    HeaderUnlocked,
> {
    /// A builder with the default magic value and every other field zero.
    pub fn new() -> (b: Self)
        ensures
            b.fields() == (MAGIC_BYTES, 0u64, 0u16, 0u8, 0u8),
    {
        Self {
            magic: MAGIC_BYTES,
            event_id: 0,
            source_id: 0,
            align: 0,
            fragment_version: 0,
            _typestate_phantom: core::marker::PhantomData,
        }
    }
}

impl<E, S, A, F> MultiFragmentPacketBuilder<MagicDefault, E, S, A, F, HeaderUnlocked> {
    /// Replaces the default magic value.
    pub fn with_magic(self, magic: u16) -> (b: MultiFragmentPacketBuilder<
        MagicSet,
        E,
        S,
        A,
        F,
        HeaderUnlocked,
    >)
        ensures
            b.fields() == (magic, self.fields().1, self.fields().2, self.fields().3, self.fields().4),
    {
        MultiFragmentPacketBuilder {
            magic,
            event_id: self.event_id,
            source_id: self.source_id,
            align: self.align,
            fragment_version: self.fragment_version,
            _typestate_phantom: core::marker::PhantomData,
        }
    }
}

impl<M, S, A, F> MultiFragmentPacketBuilder<M, EventIdNotSet, S, A, F, HeaderUnlocked> {
    /// Sets the event id.
    pub fn with_event_id(self, event_id: u64) -> (b: MultiFragmentPacketBuilder<
        M,
        EventIdSet,
        S,
        A,
        F,
        HeaderUnlocked,
    >)
        ensures
            b.fields() == (self.fields().0, event_id, self.fields().2, self.fields().3, self.fields().4),
    {
        MultiFragmentPacketBuilder {
            magic: self.magic,
            event_id,
            source_id: self.source_id,
            align: self.align,
            fragment_version: self.fragment_version,
            _typestate_phantom: core::marker::PhantomData,
        }
    }
}

impl<M, E, A, F> MultiFragmentPacketBuilder<M, E, SourceIdNotSet, A, F, HeaderUnlocked> {
    /// Sets the source id.
    pub fn with_source_id(self, source_id: u16) -> (b: MultiFragmentPacketBuilder<
        M,
        E,
        SourceIdSet,
        A,
        F,
        HeaderUnlocked,
    >)
        ensures
            b.fields() == (self.fields().0, self.fields().1, source_id, self.fields().3, self.fields().4),
    {
        MultiFragmentPacketBuilder {
            magic: self.magic,
            event_id: self.event_id,
            source_id,
            align: self.align,
            fragment_version: self.fragment_version,
            _typestate_phantom: core::marker::PhantomData,
        }
    }
}

impl<M, E, S, F> MultiFragmentPacketBuilder<M, E, S, AlignNotSet, F, HeaderUnlocked> {
    /// Sets the fragment alignment exponent.
    pub fn with_align(self, align: u8) -> (b: MultiFragmentPacketBuilder<
        M,
        E,
        S,
        AlignSet,
        F,
        HeaderUnlocked,
    >)
        ensures
            b.fields() == (self.fields().0, self.fields().1, self.fields().2, align, self.fields().4),
    {
        MultiFragmentPacketBuilder {
            magic: self.magic,
            event_id: self.event_id,
            source_id: self.source_id,
            align,
            fragment_version: self.fragment_version,
            _typestate_phantom: core::marker::PhantomData,
        }
    }
}

impl<M, E, S, A> MultiFragmentPacketBuilder<M, E, S, A, FragmentVersionNotSet, HeaderUnlocked> {
    /// Sets the fragment version.
    pub fn with_fragment_version(self, fragment_version: u8) -> (b: MultiFragmentPacketBuilder<
        M,
        E,
        S,
        A,
        FragmentVersionSet,
        HeaderUnlocked,
    >)
        ensures
            b.fields() == (self.fields().0, self.fields().1, self.fields().2, self.fields().3, fragment_version),
    {
        MultiFragmentPacketBuilder {
            magic: self.magic,
            event_id: self.event_id,
            source_id: self.source_id,
            align: self.align,
            fragment_version,
            _typestate_phantom: core::marker::PhantomData,
        }
    }
}

impl<M> MultiFragmentPacketBuilder<
    M,
    EventIdSet,
    SourceIdSet,
    AlignSet,
    FragmentVersionSet,
    HeaderUnlocked,
> {
    /// Locks the complete header.
    pub fn lock_header(self) -> (b: MultiFragmentPacketBuilder<
        M,
        EventIdSet,
        SourceIdSet,
        AlignSet,
        FragmentVersionSet,
        HeaderLocked,
    >)
        ensures
            b.fields() == self.fields(),
    {
        MultiFragmentPacketBuilder {
            magic: self.magic,
            event_id: self.event_id,
            source_id: self.source_id,
            align: self.align,
            fragment_version: self.fragment_version,
            _typestate_phantom: core::marker::PhantomData,
        }
    }
}

impl<M, E, S, A, F, H> MultiFragmentPacketBuilder<M, E, S, A, F, H> {
    /// The header fields chosen so far: magic, event id, source id, alignment
    /// and fragment version.
    pub fn header_fields(&self) -> (r: (u16, u64, u16, u8, u8))
        ensures
            r == self.fields(),
    {
        (self.magic, self.event_id, self.source_id, self.align, self.fragment_version)
    }
}

} // verus!
