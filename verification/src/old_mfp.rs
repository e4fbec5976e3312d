//! The first multi-fragment packet layout, read straight out of a PCIe40
//! stream buffer, and the bookkeeping of the reader that consumed it.
//!
//! Layout, little endian and packed: magic `u16` (0x40CE), bank count `u16`,
//! packet size `u32`, event id `u32`, source id `u16`, alignment exponent
//! `u8`, block version `u8` (16 bytes); then one type byte per bank; then one
//! `u32` size per bank; then the banks, each padded to `2^align` bytes.
use crate::mfp::{align_pow2, le16, le32, read_le16, read_le32};
use vstd::arithmetic::power2::pow2;
use crate::text::{dec, hex, push_dec, push_hex, push_signed_dec, signed_dec, zero_pad};
use vstd::prelude::*;
use vstd::string::StringExecFns;
use vstd::slice::SliceAdditionalExecFns;

verus! {

/// Magic value that opens every packet.
pub const MFP_MAGIC: u16 = 0x40CE;

/// Event id that marks the packet closing a run.
pub const MFP_END_RUN_MAGIC: u32 = 0xFFFF_FFFF;

/// Size of the fixed packet header.
pub const MFP_HEADER_SIZE: usize = 16;

/// Errors of the PCIe40 device and of the packets read from it.
#[derive(Debug)]
pub enum PCIe40Error {
    DeviceNotFound(String),
    DeviceOpenError(String),
    StreamOpenError,
    StreamNotEnabled,
    StreamLockError,
    BufferMapError,
    BufferInfoError,
    CorruptedData(String),
    AcknowledgeError,
    /// An I/O error, by its description.
    IoError(String),
}

/// The fixed header of a packet.
#[derive(Debug, Clone, Copy, PartialEq, Eq, Structural)]
pub struct MFPHeader {
    pub magic: u16,
    pub n_banks: u16,
    pub packet_size: u32,
    pub ev_id: u32,
    pub src_id: u16,
    pub align: u8,
    pub block_version: u8,
}

impl MFPHeader {
    pub fn magic(&self) -> (r: u16)
        ensures
            r == self.magic,
    {
        self.magic
    }

    pub fn n_banks(&self) -> (r: u16)
        ensures
            r == self.n_banks,
    {
        self.n_banks
    }

    pub fn packet_size(&self) -> (r: u32)
        ensures
            r == self.packet_size,
    {
        self.packet_size
    }

    pub fn ev_id(&self) -> (r: u32)
        ensures
            r == self.ev_id,
    {
        self.ev_id
    }

    pub fn src_id(&self) -> (r: u16)
        ensures
            r == self.src_id,
    {
        self.src_id
    }

    pub fn align(&self) -> (r: u8)
        ensures
            r == self.align,
    {
        self.align
    }

    pub fn block_version(&self) -> (r: u8)
        ensures
            r == self.block_version,
    {
        self.block_version
    }
}

/// The header that the first 16 bytes of `s` hold.
pub open spec fn header_of(s: Seq<u8>) -> MFPHeader {
    MFPHeader {
        magic: le16(s, 0) as u16,
        n_banks: le16(s, 2) as u16,
        packet_size: le32(s, 4) as u32,
        ev_id: le32(s, 8) as u32,
        src_id: le16(s, 12) as u16,
        align: s[14],
        block_version: s[15],
    }
}

/// Whether bytes `s` open with a header that `MFP::new` accepts.
pub open spec fn packet_accepted(s: Seq<u8>) -> bool {
    &&& s.len() >= MFP_HEADER_SIZE
    &&& le16(s, 0) == MFP_MAGIC
    &&& le32(s, 4) <= s.len()
}

/// Offset of bank `i`'s type byte.
pub open spec fn bank_type_offset(n: int, i: int) -> int {
    MFP_HEADER_SIZE + i
}

/// Offset of bank `i`'s size.
pub open spec fn bank_size_offset(n: int, i: int) -> int {
    MFP_HEADER_SIZE + n + 4 * i
}

/// Offset of bank `i`'s data.
pub open spec fn bank_start(s: Seq<u8>, i: nat) -> int
    decreases i,
{
    let n = le16(s, 2);
    if i == 0 {
        MFP_HEADER_SIZE + 5 * n
    } else {
        bank_start(s, (i - 1) as nat) + align_pow2(
            le32(s, bank_size_offset(n, i - 1)),
            s[14] as nat,
        )
    }
}

/// Bank `i` can be read without leaving the bytes or overflowing an offset.
pub open spec fn bank_readable(s: Seq<u8>, i: int) -> bool {
    let n = le16(s, 2);
    &&& 0 <= i < n
    &&& MFP_HEADER_SIZE + 5 * n <= s.len()
    &&& s[14] < usize::BITS
    &&& bank_start(s, i as nat) + le32(s, bank_size_offset(n, i)) <= s.len()
    &&& bank_start(s, i as nat) + align_pow2(le32(s, bank_size_offset(n, i)), s[14] as nat)
        <= usize::MAX
}

pub(crate) fn read_header(d: &[u8]) -> (h: MFPHeader)
    requires
        d@.len() >= MFP_HEADER_SIZE,
    ensures
        h == header_of(d@),
{
    MFPHeader {
        magic: read_le16(d, 0),
        n_banks: read_le16(d, 2),
        packet_size: read_le32(d, 4),
        ev_id: read_le32(d, 8),
        src_id: read_le16(d, 12),
        align: d[14],
        block_version: d[15],
    }
}

pub(crate) proof fn lemma_padding(size: int, a: int)
    requires
        size >= 0,
        a > 0,
    ensures
        size + (a - size % a) % a == (size + a - 1) / a * a,
        0 <= (a - size % a) % a < a,
{
    let q = size / a;
    let r = size % a;
    vstd::arithmetic::div_mod::lemma_fundamental_div_mod(size, a);
    assert(size == a * q + r);
    assert(0 <= r < a);
    if r == 0 {
        vstd::arithmetic::div_mod::lemma_mod_self_0(a);
        vstd::arithmetic::div_mod::lemma_div_multiples_vanish_fancy(q, a - 1, a);
        assert((size + a - 1) / a == q);
        assert(q * a == a * q) by (nonlinear_arith);
    } else {
        vstd::arithmetic::div_mod::lemma_small_mod((a - r) as nat, a as nat);
        vstd::arithmetic::div_mod::lemma_div_multiples_vanish_fancy(q + 1, r - 1, a);
        assert(a * (q + 1) + (r - 1) == size + a - 1) by (nonlinear_arith)
            requires
                size == a * q + r,
        ;
        assert((q + 1) * a == a * q + a) by (nonlinear_arith);
    }
}

/// `size` padded to a multiple of `2^align`, as the packet layout pads.
pub(crate) fn pad_to_alignment(size: usize, align: u8) -> (r: usize)
    requires
        align < usize::BITS,
        align_pow2(size as int, align as nat) <= usize::MAX,
    ensures
        r == align_pow2(size as int, align as nat),
{
    let alignment: usize = 1usize << (align as usize);
    proof {
        vstd::bits::lemma_usize_pow2_no_overflow(align as nat);
        vstd::bits::lemma_usize_shl_is_mul(1, align as usize);
        lemma_padding(size as int, pow2(align as nat) as int);
    }
    let padding = (alignment - (size % alignment)) % alignment;
    size + padding
}

/// `size` rounded up to a multiple of `2^align`, for an exponent below 64.
fn align_u128(size: u32, align: u8) -> (r: u128)
    requires
        align < 64,
    ensures
        r == align_pow2(size as int, align as nat),
        r <= u64::MAX as int + u32::MAX as int,
{
    proof {
        vstd::bits::lemma_u64_pow2_no_overflow(align as nat);
        vstd::bits::lemma_u64_shl_is_mul(1, align as u64);
    }
    let p: u64 = 1u64 << (align as u64);
    let x: u128 = (size as u128) + (p as u128) - 1;
    let q: u128 = x / (p as u128);
    proof {
        assert(q * p <= x) by (nonlinear_arith)
            requires
                p > 0,
                q as int == (x as int) / (p as int),
        ;
    }
    q * (p as u128)
}

/// A packet read in place from the stream buffer.
#[derive(Clone, Copy)]
pub struct MFP<'a> {
    data: &'a [u8],
    header: MFPHeader,
}

impl<'a> MFP<'a> {
    /// The bytes the packet was read from.
    pub closed spec fn bytes(&self) -> Seq<u8> {
        self.data@
    }

    #[verifier::type_invariant]
    closed spec fn well_formed(&self) -> bool {
        &&& packet_accepted(self.data@)
        &&& self.header == header_of(self.data@)
    }

    /// Reads a packet from `data`: the bytes must hold a whole header that
    /// opens with the magic value and a packet size no larger than the bytes.
    pub fn new(data: &'a [u8]) -> (r: Result<Self, PCIe40Error>)
        ensures
            r is Ok <==> packet_accepted(data@),
            r matches Ok(m) ==> m.bytes() == data@,
            data@.len() < MFP_HEADER_SIZE ==> (r matches Err(PCIe40Error::CorruptedData(m)) && m@
                == "MFP data too short"@),
            data@.len() >= MFP_HEADER_SIZE && le16(data@, 0) != MFP_MAGIC ==> (r matches Err(
                PCIe40Error::CorruptedData(m),
            ) && m@ == bad_magic_text(le16(data@, 0) as u16)),
            data@.len() >= MFP_HEADER_SIZE && le16(data@, 0) == MFP_MAGIC && le32(data@, 4)
                > data@.len() ==> (r matches Err(PCIe40Error::CorruptedData(m)) && m@
                == size_mismatch_text(le32(data@, 4) as u32, data@.len() as usize)),
    {
        if data.len() < MFP_HEADER_SIZE {
            return Err(PCIe40Error::CorruptedData("MFP data too short".to_owned()));
        }
        let header = read_header(data);
        if header.magic != MFP_MAGIC {
            return Err(PCIe40Error::CorruptedData(bad_magic_message(header.magic)));
        }
        if header.packet_size as usize > data.len() {
            return Err(
                PCIe40Error::CorruptedData(size_mismatch_message(header.packet_size, data.len())),
            );
        }
        Ok(MFP { data, header })
    }

    /// The packet's header.
    pub fn header(&self) -> (r: &MFPHeader)
        ensures
            *r == header_of(self.bytes()),
    {
        proof {
            use_type_invariant(self);
        }
        &self.header
    }

    /// The packet's bytes, up to its packet size.
    pub fn data(&self) -> (r: &'a [u8])
        ensures
            r@ == self.bytes().subrange(0, le32(self.bytes(), 4)),
    {
        proof {
            use_type_invariant(self);
        }
        vstd::slice::slice_subrange(self.data, 0, self.header.packet_size as usize)
    }

    /// Whether this packet closes a run.
    pub fn is_end_run(&self) -> (r: bool)
        ensures
            r == (le32(self.bytes(), 8) == MFP_END_RUN_MAGIC),
    {
        proof {
            use_type_invariant(self);
        }
        self.header.ev_id == MFP_END_RUN_MAGIC
    }

    /// The banks' type bytes.
    pub fn bank_types(&self) -> (r: &'a [u8])
        requires
            MFP_HEADER_SIZE + le16(self.bytes(), 2) <= self.bytes().len(),
        ensures
            r@ == self.bytes().subrange(
                MFP_HEADER_SIZE as int,
                MFP_HEADER_SIZE + le16(self.bytes(), 2),
            ),
    {
        proof {
            use_type_invariant(self);
        }
        let start = MFP_HEADER_SIZE;
        let end = start + self.header.n_banks as usize;
        vstd::slice::slice_subrange(self.data, start, end)
    }

    /// The banks' sizes.
    pub fn bank_sizes(&self) -> (r: Vec<u32>)
        requires
            MFP_HEADER_SIZE + 5 * le16(self.bytes(), 2) <= self.bytes().len(),
        ensures
            r@.len() == le16(self.bytes(), 2),
            forall|i: int|
                0 <= i < r@.len() ==> r@[i] == le32(
                    self.bytes(),
                    bank_size_offset(le16(self.bytes(), 2), i),
                ),
    {
        proof {
            use_type_invariant(self);
        }
        let n = self.header.n_banks as usize;
        let start = MFP_HEADER_SIZE + n;
        let mut sizes: Vec<u32> = Vec::new();
        let mut i: usize = 0;
        while i < n
            invariant
                self.header == header_of(self.data@),
                n == le16(self.data@, 2),
                start == MFP_HEADER_SIZE + n,
                MFP_HEADER_SIZE + 5 * n <= self.data@.len(),
                i <= n,
                sizes@.len() == i,
                forall|j: int|
                    0 <= j < i ==> sizes@[j] == le32(self.data@, bank_size_offset(n as int, j)),
            decreases n - i,
        {
            sizes.push(read_le32(self.data, start + 4 * i));
            i = i + 1;
        }
        sizes
    }

    /// The banks of the packet, in order.
    pub fn fragments(&self) -> (r: FragmentIterator<'a>)
        ensures
            r.spec_bytes() == self.bytes(),
            r.spec_index() == 0,
    {
        FragmentIterator::new(*self)
    }
}

/// The banks of a packet, one at a time: each as its data and type byte.
pub struct FragmentIterator<'a> {
    mfp: MFP<'a>,
    current_index: usize,
    current_offset: usize,
}

impl<'a> FragmentIterator<'a> {
    pub closed spec fn spec_bytes(&self) -> Seq<u8> {
        self.mfp.bytes()
    }

    /// How many banks were handed out.
    pub closed spec fn spec_index(&self) -> nat {
        self.current_index as nat
    }

    #[verifier::type_invariant]
    closed spec fn well_formed(&self) -> bool {
        &&& self.current_index <= le16(self.mfp.data@, 2)
        &&& self.current_offset == bank_start(self.mfp.data@, self.current_index as nat)
    }

    fn new(mfp: MFP<'a>) -> (r: Self)
        ensures
            r.spec_bytes() == mfp.bytes(),
            r.spec_index() == 0,
    {
        proof {
            use_type_invariant(&mfp);
        }
        let n = mfp.header.n_banks as usize;
        FragmentIterator { mfp, current_index: 0, current_offset: MFP_HEADER_SIZE + n + 4 * n }
    }

    /// The next bank's data and type, or `None` after the last bank.
    pub fn next(&mut self) -> (r: Option<(&'a [u8], u8)>)
        requires
            old(self).spec_index() < le16(old(self).spec_bytes(), 2) ==> bank_readable(
                old(self).spec_bytes(),
                old(self).spec_index() as int,
            ),
        ensures
            final(self).spec_bytes() == old(self).spec_bytes(),
            ({
                let s = old(self).spec_bytes();
                let i = old(self).spec_index();
                let n = le16(s, 2);
                if i >= n {
                    r is None && final(self).spec_index() == i
                } else {
                    let start = bank_start(s, i);
                    let size = le32(s, bank_size_offset(n, i as int));
                    &&& r matches Some((d, t)) && d@ == s.subrange(start, start + size) && t == s[
                        bank_type_offset(n, i as int)]
                    &&& final(self).spec_index() == i + 1
                }
            }),
    {
        proof {
            use_type_invariant(&*self);
            use_type_invariant(&self.mfp);
        }
        let n_banks = self.mfp.header.n_banks as usize;
        if self.current_index >= n_banks {
            return None;
        }
        let i = self.current_index;
        let fragment_type = self.mfp.data[MFP_HEADER_SIZE + i];
        let fragment_size = read_le32(self.mfp.data, MFP_HEADER_SIZE + n_banks + 4 * i) as usize;
        let fragment_data = vstd::slice::slice_subrange(
            self.mfp.data,
            self.current_offset,
            self.current_offset + fragment_size,
        );
        let advance = pad_to_alignment(fragment_size, self.mfp.header.align);
        let next_offset = self.current_offset + advance;
        *self = FragmentIterator { mfp: self.mfp, current_index: i + 1, current_offset: next_offset };
        Some((fragment_data, fragment_type))
    }
}

/// The message of a packet that does not open with the magic value.
pub open spec fn bad_magic_text(magic: u16) -> Seq<char> {
    "Invalid MFP magic: 0x"@ + zero_pad(hex(magic as nat), 4)
}

fn bad_magic_message(magic: u16) -> (r: String)
    ensures
        r@ == bad_magic_text(magic),
{
    push_hex("Invalid MFP magic: 0x".to_owned(), magic as u64, 4)
}

/// The message of a packet whose header claims more bytes than it has.
pub open spec fn size_mismatch_text(packet_size: u32, available: usize) -> Seq<char> {
    "MFP size mismatch: header says "@ + dec(packet_size as nat) + " but buffer has "@ + dec(
        available as nat,
    )
}

fn size_mismatch_message(packet_size: u32, available: usize) -> (r: String)
    ensures
        r@ == size_mismatch_text(packet_size, available),
{
    let m = push_dec("MFP size mismatch: header says ".to_owned(), packet_size as u64);
    push_dec(m.concat(" but buffer has "), available as u64)
}

/// How far reading the packet at `off` moves the reader: its size padded to
/// its alignment.
pub open spec fn packet_advance(s: Seq<u8>, off: int) -> int {
    align_pow2(le32(s, off + 4), s[off + 14] as nat)
}

/// The reader state after the packet at its read offset was taken.
pub open spec fn offset_after(off: int, advance: int, buffer_size: int) -> int {
    if off + advance >= buffer_size {
        off + advance - buffer_size
    } else {
        off + advance
    }
}

/// Taking the packet at offset `off`, with `requested` bytes already taken
/// and `next` the expected event id, keeps the shift and the counters within
/// the machine's integers.
pub open spec fn read_step_in_range(s: Seq<u8>, off: int, requested: int, next: u32) -> bool {
    let adv = packet_advance(s, off);
    let ev = le32(s, off + 8);
    &&& s[off + 14] < usize::BITS
    &&& off + adv <= usize::MAX
    &&& requested + adv <= usize::MAX
    &&& (ev != MFP_END_RUN_MAGIC && ev == next) ==> next + le16(s, off + 2) <= u32::MAX
}

/// The driver calls that opening a reader makes, in order.
#[derive(Debug, Clone, Copy, PartialEq, Eq, Structural)]
pub enum ReaderOpenStep {
    OpenId,
    OpenStream,
    QueryEnabled,
    LockStream,
    QueryBufferSize,
    MapBuffer,
    QueryReadOffset,
    QueryUniqueName,
}

/// What to release when opening a reader stops.
#[derive(Debug, Clone, Copy, PartialEq, Eq, Structural)]
pub struct ReaderOpenCleanup {
    pub unlock_stream: bool,
    /// Close the stream; `unmap_buffer` says whether the mapping goes with it.
    pub close_stream: bool,
    pub unmap_buffer: bool,
    pub close_id: bool,
}

/// Whether the driver's answer `code` at `step` stops the opening: a
/// negative descriptor, size or offset; a stream that is not enabled; a
/// failed lock; a null mapping (`code == 0`); a non-zero name query.
pub open spec fn open_step_fails(step: ReaderOpenStep, code: i64) -> bool {
    match step {
        ReaderOpenStep::QueryEnabled => code <= 0,
        ReaderOpenStep::MapBuffer => code == 0,
        ReaderOpenStep::QueryUniqueName => code != 0,
        _ => code < 0,
    }
}

/// What opening releases when it stops at `step`.
pub open spec fn open_cleanup(step: ReaderOpenStep) -> ReaderOpenCleanup {
    let after_lock = match step {
        ReaderOpenStep::QueryBufferSize | ReaderOpenStep::MapBuffer | ReaderOpenStep::QueryReadOffset
        | ReaderOpenStep::QueryUniqueName => true,
        _ => false,
    };
    let after_map = match step {
        ReaderOpenStep::QueryReadOffset | ReaderOpenStep::QueryUniqueName => true,
        _ => false,
    };
    ReaderOpenCleanup {
        unlock_stream: after_lock,
        close_stream: step != ReaderOpenStep::OpenId && step != ReaderOpenStep::OpenStream,
        unmap_buffer: after_map,
        close_id: step != ReaderOpenStep::OpenId,
    }
}

/// The driver calls that switching a stream to packet mode makes, in order:
/// open the meta stream, enable the stream's bit in its mask, set the
/// packing factor, open the control interface, set the truncation threshold
/// to the spill buffer's size.
#[derive(Debug, Clone, Copy, PartialEq, Eq, Structural)]
pub enum MfpConfigStep {
    OpenMetaStream,
    EnableMetaMask,
    SetPacking,
    OpenControl,
    SetTruncation,
}

/// What configuring releases when it ends.
#[derive(Debug, Clone, Copy, PartialEq, Eq, Structural)]
pub struct MfpConfigRelease {
    pub close_control: bool,
    pub close_meta: bool,
}

/// Whether the driver's answer `code` at `step` stops the configuring: a
/// negative descriptor when opening, a non-zero status when setting.
pub open spec fn config_step_fails(step: MfpConfigStep, code: i64) -> bool {
    match step {
        MfpConfigStep::OpenMetaStream | MfpConfigStep::OpenControl => code < 0,
        _ => code != 0,
    }
}

/// What is released when configuring stops at `stopped_at`, or ends after
/// the last step (`None`): whatever was opened by then.
pub open spec fn config_release(stopped_at: Option<MfpConfigStep>) -> MfpConfigRelease {
    match stopped_at {
        None => MfpConfigRelease { close_control: true, close_meta: true },
        Some(step) => MfpConfigRelease {
            close_control: step == MfpConfigStep::SetTruncation,
            close_meta: step != MfpConfigStep::OpenMetaStream,
        },
    }
}

/// Index of the first zero byte of `s`, or its length.
pub open spec fn c_string_end(s: Seq<u8>) -> int {
    if exists|i: int| 0 <= i < s.len() && s[i] == 0 {
        choose|i: int| 0 <= i < s.len() && s[i] == 0 && forall|j: int| 0 <= j < i ==> s[j] != 0
    } else {
        s.len() as int
    }
}

/// What `String::from_utf8_lossy` makes of the given bytes.
pub uninterp spec fn utf8_lossy(bytes: Seq<u8>) -> Seq<char>;

/// Calls `String::from_utf8_lossy` and takes the owned string. Its result is
/// named `utf8_lossy` of the bytes; of it the contract states only what std's
/// documentation plainly gives: valid UTF-8, and so ASCII, is decoded as is.
#[verifier::external_body]
pub(crate) fn lossy_string(bytes: &[u8]) -> (r: String)
    ensures
        r@ == utf8_lossy(bytes@),
        (forall|i: int| 0 <= i < bytes@.len() ==> bytes@[i] < 128) ==> r@ == Seq::new(
            bytes@.len(),
            |i: int| bytes@[i] as char,
        ),
{
    String::from_utf8_lossy(bytes).to_string()
}

/// Where the C string at the start of `buffer` ends: the index of its
/// first zero byte, or the buffer's length when it holds none.
pub fn c_string_len(buffer: &[u8]) -> (n: usize)
    ensures
        n == c_string_end(buffer@),
        n <= buffer@.len(),
{
    let n = buffer.len();
    let mut end: usize = 0;
    while end < n && buffer[end] != 0
        invariant
            n == buffer@.len(),
            end <= n,
            forall|j: int| 0 <= j < end ==> buffer@[j] != 0,
        decreases n - end,
    {
        end = end + 1;
    }
    proof {
        let c = c_string_end(buffer@);
        if end < n {
            assert(buffer@[end as int] == 0);
            assert(exists|i: int| 0 <= i < buffer@.len() && buffer@[i] == 0);
            if c < end {
                assert(buffer@[c] == 0);
            }
            if c > end {
                assert(buffer@[end as int] != 0);
            }
        } else {
            if exists|i: int| 0 <= i < buffer@.len() && buffer@[i] == 0 {
                let i = choose|i: int| 0 <= i < buffer@.len() && buffer@[i] == 0;
                assert(buffer@[i] != 0);
            }
        }
    }
    end
}

/// The text before the first zero byte of `buffer`, decoded leniently;
/// `None` when the buffer holds no zero byte.
pub(crate) fn c_terminated_string(buffer: &[u8]) -> (r: Option<String>)
    ensures
        c_string_end(buffer@) == buffer@.len() ==> r is None,
        c_string_end(buffer@) < buffer@.len() ==> (r matches Some(s) && s@ == utf8_lossy(
            buffer@.subrange(0, c_string_end(buffer@)),
        )),
{
    let end = c_string_len(buffer);
    if end == buffer.len() {
        return None;
    }
    Some(lossy_string(vstd::slice::slice_subrange(buffer, 0, end)))
}

/// The name a driver wrote into `buffer`: the text before its first zero
/// byte (all of it when it holds none), decoded leniently.
pub fn c_buffer_name(buffer: &[u8]) -> (r: String)
    ensures
        r@ == utf8_lossy(buffer@.subrange(0, c_string_end(buffer@))),
{
    let end = c_string_len(buffer);
    lossy_string(vstd::slice::slice_subrange(buffer, 0, end))
}

/// The device label of an id, as errors name it.
pub open spec fn device_id_text(id: i32) -> Seq<char> {
    "ID: "@ + signed_dec(id as int)
}

fn device_id_label(id: i32) -> (r: String)
    ensures
        r@ == device_id_text(id),
{
    push_signed_dec("ID: ".to_owned(), id as i64)
}

/// The message of a packet that does not open with the magic value, at an offset.
pub open spec fn bad_magic_at_text(magic: u16, offset: usize) -> Seq<char> {
    "Invalid MFP magic: 0x"@ + zero_pad(hex(magic as nat), 4) + " at buffer offset "@ + dec(
        offset as nat,
    )
}

fn bad_magic_at_message(magic: u16, offset: usize) -> (r: String)
    ensures
        r@ == bad_magic_at_text(magic, offset),
{
    let m = push_hex("Invalid MFP magic: 0x".to_owned(), magic as u64, 4);
    push_dec(m.concat(" at buffer offset "), offset as u64)
}

/// The message of a packet out of event order.
pub open spec fn event_mismatch_text(expected: u32, got: u32) -> Seq<char> {
    "Event ID mismatch: expected "@ + dec(expected as nat) + ", got "@ + dec(got as nat)
}

fn event_mismatch_message(expected: u32, got: u32) -> (r: String)
    ensures
        r@ == event_mismatch_text(expected, got),
{
    let m = push_dec("Event ID mismatch: expected ".to_owned(), expected as u64);
    push_dec(m.concat(", got "), got as u64)
}

/// A reader being opened: the device, the next driver call to make, and
/// what the calls made so far have acquired.
pub struct PCIe40ReaderOpening {
    id: i32,
    step: ReaderOpenStep,
    id_fd: Option<i32>,
    stream_fd: Option<i32>,
    locked: bool,
    mapped: bool,
    buffer_size: usize,
    read_offset: usize,
}

/// Where opening a reader stands after a driver call.
pub enum ReaderOpenProgress {
    /// The call succeeded; the opening goes on with its next call.
    Continue(PCIe40ReaderOpening),
    /// The call failed: the error to answer and what to release.
    Failed(PCIe40Error, ReaderOpenCleanup),
    /// Every call succeeded: the reader.
    Opened(PCIe40Reader),
}

/// The call that follows `step` in opening a reader.
pub open spec fn next_open_step(step: ReaderOpenStep) -> ReaderOpenStep {
    match step {
        ReaderOpenStep::OpenId => ReaderOpenStep::OpenStream,
        ReaderOpenStep::OpenStream => ReaderOpenStep::QueryEnabled,
        ReaderOpenStep::QueryEnabled => ReaderOpenStep::LockStream,
        ReaderOpenStep::LockStream => ReaderOpenStep::QueryBufferSize,
        ReaderOpenStep::QueryBufferSize => ReaderOpenStep::MapBuffer,
        ReaderOpenStep::MapBuffer => ReaderOpenStep::QueryReadOffset,
        _ => ReaderOpenStep::QueryUniqueName,
    }
}

/// What a successful `step` acquires, added to what was held before.
pub open spec fn held_after(held: ReaderOpenCleanup, step: ReaderOpenStep) -> ReaderOpenCleanup {
    ReaderOpenCleanup {
        close_id: held.close_id || step == ReaderOpenStep::OpenId,
        close_stream: held.close_stream || step == ReaderOpenStep::OpenStream,
        unlock_stream: held.unlock_stream || step == ReaderOpenStep::LockStream,
        unmap_buffer: held.unmap_buffer || step == ReaderOpenStep::MapBuffer,
    }
}

impl PCIe40ReaderOpening {
    pub closed spec fn spec_id(&self) -> i32 {
        self.id
    }

    pub closed spec fn spec_step(&self) -> ReaderOpenStep {
        self.step
    }

    pub closed spec fn spec_id_fd(&self) -> Option<i32> {
        self.id_fd
    }

    pub closed spec fn spec_stream_fd(&self) -> Option<i32> {
        self.stream_fd
    }

    pub closed spec fn spec_buffer_size(&self) -> usize {
        self.buffer_size
    }

    pub closed spec fn spec_read_offset(&self) -> usize {
        self.read_offset
    }

    /// Opening device `id`: nothing acquired yet, the id is opened first.
    pub fn new(id: i32) -> (r: Self)
        ensures
            r.well_formed(),
            r.spec_id() == id,
            r.spec_step() == ReaderOpenStep::OpenId,
            r.spec_held() == (ReaderOpenCleanup {
                unlock_stream: false,
                close_stream: false,
                unmap_buffer: false,
                close_id: false,
            }),
    {
        PCIe40ReaderOpening {
            id,
            step: ReaderOpenStep::OpenId,
            id_fd: None,
            stream_fd: None,
            locked: false,
            mapped: false,
            buffer_size: 0,
            read_offset: 0,
        }
    }

    /// Everything the calls made so far have acquired, as the release of it.
    pub closed spec fn spec_held(&self) -> ReaderOpenCleanup {
        ReaderOpenCleanup {
            unlock_stream: self.locked,
            close_stream: self.stream_fd is Some,
            unmap_buffer: self.mapped,
            close_id: self.id_fd is Some,
        }
    }

    /// What is held is what the calls before the next one acquire.
    pub closed spec fn well_formed(&self) -> bool {
        &&& self.spec_held() == open_cleanup(self.step)
        &&& (self.id_fd matches Some(fd) ==> fd >= 0)
        &&& (self.stream_fd matches Some(fd) ==> fd >= 0)
    }

    /// The descriptor of the device's id, once opened.
    pub fn id_fd(&self) -> (r: Option<i32>)
        ensures
            r is Some == self.spec_held().close_id,
    {
        self.id_fd
    }

    /// The descriptor of the stream, once opened.
    pub fn stream_fd(&self) -> (r: Option<i32>)
        ensures
            r is Some == self.spec_held().close_stream,
    {
        self.stream_fd
    }

    /// The next driver call to make.
    pub fn step(&self) -> (r: ReaderOpenStep)
        ensures
            r == self.spec_step(),
    {
        self.step
    }

    /// Takes the driver's answer `code` to the next call (for the unique
    /// name, with the buffer it filled). A failure answers the step's error
    /// and everything acquired so far, to be released; a success acquires
    /// what the call gives and moves to the next call, and after the last
    /// one yields the reader.
    pub fn advance(self, code: i64, name_buffer: &[u8]) -> (r: ReaderOpenProgress)
        requires
            self.well_formed(),
            (self.spec_step() == ReaderOpenStep::OpenId || self.spec_step()
                == ReaderOpenStep::OpenStream) ==> code <= i32::MAX,
            code <= usize::MAX,
        ensures
            open_step_fails(self.spec_step(), code) ==> (r matches ReaderOpenProgress::Failed(
                e,
                cleanup,
            ) && cleanup == self.spec_held() && cleanup == open_cleanup(self.spec_step())
                && open_failure_matches(e, self.spec_id(), self.spec_step())),
            !open_step_fails(self.spec_step(), code) && self.spec_step()
                != ReaderOpenStep::QueryUniqueName ==> (r matches ReaderOpenProgress::Continue(o)
                && o.well_formed() && o.spec_id() == self.spec_id() && o.spec_step()
                == next_open_step(self.spec_step()) && o.spec_held() == held_after(
                self.spec_held(),
                self.spec_step(),
            ) && o.spec_id_fd() == (if self.spec_step() == ReaderOpenStep::OpenId {
                Some(code as i32)
            } else {
                self.spec_id_fd()
            }) && o.spec_stream_fd() == (if self.spec_step() == ReaderOpenStep::OpenStream {
                Some(code as i32)
            } else {
                self.spec_stream_fd()
            }) && o.spec_buffer_size() == (if self.spec_step() == ReaderOpenStep::QueryBufferSize {
                code as usize
            } else {
                self.spec_buffer_size()
            }) && o.spec_read_offset() == (if self.spec_step() == ReaderOpenStep::QueryReadOffset {
                code as usize
            } else {
                self.spec_read_offset()
            })),
            !open_step_fails(self.spec_step(), code) && self.spec_step()
                == ReaderOpenStep::QueryUniqueName ==> (r matches ReaderOpenProgress::Opened(reader)
                && reader.spec_id() == self.spec_id() && Some(reader.spec_id_fd())
                == self.spec_id_fd() && Some(reader.spec_stream_fd()) == self.spec_stream_fd()
                && reader.spec_buffer_size() == self.spec_buffer_size()
                && reader.spec_device_read_offset() == self.spec_read_offset()
                && reader.spec_read_offset() == self.spec_read_offset() && reader.spec_requested() == 0
                && reader.spec_next_ev_id() == 0 && reader.spec_name() == utf8_lossy(
                name_buffer@.subrange(0, c_string_end(name_buffer@)),
            )),
    {
        if PCIe40Reader::open_step_failed(self.step, code) {
            let (error, cleanup) = PCIe40Reader::open_failure(self.id, self.step);
            return ReaderOpenProgress::Failed(error, cleanup);
        }
        match self.step {
            ReaderOpenStep::OpenId => ReaderOpenProgress::Continue(
                PCIe40ReaderOpening {
                    step: ReaderOpenStep::OpenStream,
                    id_fd: Some(code as i32),
                    ..self
                },
            ),
            ReaderOpenStep::OpenStream => ReaderOpenProgress::Continue(
                PCIe40ReaderOpening {
                    step: ReaderOpenStep::QueryEnabled,
                    stream_fd: Some(code as i32),
                    ..self
                },
            ),
            ReaderOpenStep::QueryEnabled => ReaderOpenProgress::Continue(
                PCIe40ReaderOpening { step: ReaderOpenStep::LockStream, ..self },
            ),
            ReaderOpenStep::LockStream => ReaderOpenProgress::Continue(
                PCIe40ReaderOpening { step: ReaderOpenStep::QueryBufferSize, locked: true, ..self },
            ),
            ReaderOpenStep::QueryBufferSize => ReaderOpenProgress::Continue(
                PCIe40ReaderOpening {
                    step: ReaderOpenStep::MapBuffer,
                    buffer_size: code as usize,
                    ..self
                },
            ),
            ReaderOpenStep::MapBuffer => ReaderOpenProgress::Continue(
                PCIe40ReaderOpening { step: ReaderOpenStep::QueryReadOffset, mapped: true, ..self },
            ),
            ReaderOpenStep::QueryReadOffset => ReaderOpenProgress::Continue(
                PCIe40ReaderOpening {
                    step: ReaderOpenStep::QueryUniqueName,
                    read_offset: code as usize,
                    ..self
                },
            ),
            ReaderOpenStep::QueryUniqueName => {
                let id_fd = match self.id_fd {
                    Some(fd) => fd,
                    None => -1,
                };
                let stream_fd = match self.stream_fd {
                    Some(fd) => fd,
                    None => -1,
                };
                ReaderOpenProgress::Opened(
                    PCIe40Reader::opened(
                        self.id,
                        id_fd,
                        stream_fd,
                        self.buffer_size,
                        self.read_offset,
                        name_buffer,
                    ),
                )
            },
        }
    }
}

/// The `k`-th driver call of opening a reader.
pub open spec fn open_step_at(k: int) -> ReaderOpenStep {
    if k <= 0 {
        ReaderOpenStep::OpenId
    } else if k == 1 {
        ReaderOpenStep::OpenStream
    } else if k == 2 {
        ReaderOpenStep::QueryEnabled
    } else if k == 3 {
        ReaderOpenStep::LockStream
    } else if k == 4 {
        ReaderOpenStep::QueryBufferSize
    } else if k == 5 {
        ReaderOpenStep::MapBuffer
    } else if k == 6 {
        ReaderOpenStep::QueryReadOffset
    } else {
        ReaderOpenStep::QueryUniqueName
    }
}

/// Whether the driver's answer to the `k`-th call of an opening fails it.
pub open spec fn open_fails_at(answers: Seq<i64>, k: int) -> bool {
    open_step_fails(open_step_at(k), answers[k])
}

/// Whether none of the first `k` answers fails the opening.
pub open spec fn open_passes_until(answers: Seq<i64>, k: int) -> bool {
    forall|j: int| 0 <= j < k ==> !#[trigger] open_fails_at(answers, j)
}

/// Whether `e` is the error that opening ends with when `step` fails.
pub open spec fn open_failure_matches(e: PCIe40Error, id: i32, step: ReaderOpenStep) -> bool {
    match step {
        ReaderOpenStep::OpenId => e matches PCIe40Error::DeviceOpenError(m) && m@ == device_id_text(
            id,
        ),
        ReaderOpenStep::OpenStream => e is StreamOpenError,
        ReaderOpenStep::QueryEnabled => e is StreamNotEnabled,
        ReaderOpenStep::LockStream => e is StreamLockError,
        ReaderOpenStep::QueryBufferSize => e is BufferInfoError,
        ReaderOpenStep::MapBuffer => e is BufferMapError,
        ReaderOpenStep::QueryReadOffset => e is BufferInfoError,
        ReaderOpenStep::QueryUniqueName => e matches PCIe40Error::DeviceOpenError(m) && m@
            == "Failed to get device name"@,
    }
}

/// Opening a reader releases, on any failure, exactly what its earlier calls
/// acquired: what each successful call acquires is held from then on, and
/// what is held before a call is what the calls before it acquire.
pub proof fn law_failed_open_releases_what_was_acquired(step: ReaderOpenStep)
    ensures
        step != ReaderOpenStep::QueryUniqueName ==> held_after(open_cleanup(step), step)
            == open_cleanup(next_open_step(step)),
        open_cleanup(ReaderOpenStep::OpenId) == (ReaderOpenCleanup {
            unlock_stream: false,
            close_stream: false,
            unmap_buffer: false,
            close_id: false,
        }),
{
}



/// The state of a reader of packets from a locked and mapped PCIe40 stream:
/// where the device's read pointer is, how far this reader has read past it,
/// and which event id comes next.
pub struct PCIe40Reader {
    id: i32,
    id_fd: i32,
    stream_fd: i32,
    buffer_size: usize,
    device_read_offset: usize,
    internal_read_offset: usize,
    requested_size: usize,
    next_ev_id: u32,
    name: String,
}

impl PCIe40Reader {
    pub closed spec fn spec_id(&self) -> i32 {
        self.id
    }

    pub closed spec fn spec_id_fd(&self) -> i32 {
        self.id_fd
    }

    pub closed spec fn spec_stream_fd(&self) -> i32 {
        self.stream_fd
    }

    pub closed spec fn spec_buffer_size(&self) -> usize {
        self.buffer_size
    }

    pub closed spec fn spec_device_read_offset(&self) -> usize {
        self.device_read_offset
    }

    pub closed spec fn spec_read_offset(&self) -> usize {
        self.internal_read_offset
    }

    pub closed spec fn spec_requested(&self) -> usize {
        self.requested_size
    }

    pub closed spec fn spec_next_ev_id(&self) -> u32 {
        self.next_ev_id
    }

    pub closed spec fn spec_name(&self) -> Seq<char> {
        self.name@
    }

    /// Whether the driver's answer `code` at `step` of opening stops it.
    pub fn open_step_failed(step: ReaderOpenStep, code: i64) -> (r: bool)
        ensures
            r == open_step_fails(step, code),
    {
        match step {
            ReaderOpenStep::QueryEnabled => code <= 0,
            ReaderOpenStep::MapBuffer => code == 0,
            ReaderOpenStep::QueryUniqueName => code != 0,
            _ => code < 0,
        }
    }

    /// The error that opening device `id` ends with when `step` fails, and
    /// what has to be released: everything acquired before `step`.
    pub fn open_failure(id: i32, step: ReaderOpenStep) -> (r: (PCIe40Error, ReaderOpenCleanup))
        ensures
            r.1 == open_cleanup(step),
            open_failure_matches(r.0, id, step),
    {
        let error = match step {
            ReaderOpenStep::OpenId => PCIe40Error::DeviceOpenError(device_id_label(id)),
            ReaderOpenStep::OpenStream => PCIe40Error::StreamOpenError,
            ReaderOpenStep::QueryEnabled => PCIe40Error::StreamNotEnabled,
            ReaderOpenStep::LockStream => PCIe40Error::StreamLockError,
            ReaderOpenStep::QueryBufferSize => PCIe40Error::BufferInfoError,
            ReaderOpenStep::MapBuffer => PCIe40Error::BufferMapError,
            ReaderOpenStep::QueryReadOffset => PCIe40Error::BufferInfoError,
            ReaderOpenStep::QueryUniqueName => PCIe40Error::DeviceOpenError(
                "Failed to get device name".to_owned(),
            ),
        };
        let after_lock = match step {
            ReaderOpenStep::QueryBufferSize | ReaderOpenStep::MapBuffer
            | ReaderOpenStep::QueryReadOffset | ReaderOpenStep::QueryUniqueName => true,
            _ => false,
        };
        let after_map = match step {
            ReaderOpenStep::QueryReadOffset | ReaderOpenStep::QueryUniqueName => true,
            _ => false,
        };
        let cleanup = ReaderOpenCleanup {
            unlock_stream: after_lock,
            close_stream: step != ReaderOpenStep::OpenId && step != ReaderOpenStep::OpenStream,
            unmap_buffer: after_map,
            close_id: step != ReaderOpenStep::OpenId,
        };
        (error, cleanup)
    }

    /// Whether the driver's answer `code` at `step` of configuring stops it.
    pub fn config_step_failed(step: MfpConfigStep, code: i64) -> (r: bool)
        ensures
            r == config_step_fails(step, code),
    {
        match step {
            MfpConfigStep::OpenMetaStream | MfpConfigStep::OpenControl => code < 0,
            _ => code != 0,
        }
    }

    /// How configuring packet mode ends when it stopped at `stopped_at`, or
    /// ran through (`None`): any failed step is a stream open error; the
    /// meta stream and control interface opened on the way are closed.
    pub fn config_outcome(stopped_at: Option<MfpConfigStep>) -> (r: (
        Result<(), PCIe40Error>,
        MfpConfigRelease,
    ))
        ensures
            r.1 == config_release(stopped_at),
            stopped_at is None ==> r.0 is Ok,
            stopped_at is Some ==> (r.0 matches Err(PCIe40Error::StreamOpenError)),
    {
        match stopped_at {
            None => (Ok(()), MfpConfigRelease { close_control: true, close_meta: true }),
            Some(step) => (
                Err(PCIe40Error::StreamOpenError),
                MfpConfigRelease {
                    close_control: step == MfpConfigStep::SetTruncation,
                    close_meta: step != MfpConfigStep::OpenMetaStream,
                },
            ),
        }
    }

    /// Opens a reader of device `id`, given the driver's answers to the
    /// opening calls in their order (open the id, open the stream, ask
    /// whether it is enabled, lock it, ask the buffer's size, map it, ask the
    /// read offset, ask the unique name into `name_buffer`), made up to the
    /// first that failed. A failed call gives its error and what to release:
    /// exactly what the calls before it acquired, that is the id, the stream,
    /// the lock and the mapping as far as they were taken. When every call
    /// succeeded, the reader reads from the read offset on.
    pub fn open_by_id(id: i32, answers: &[i64], name_buffer: &[u8]) -> (r: Result<
        PCIe40Reader,
        (PCIe40Error, ReaderOpenCleanup),
    >)
        requires
            answers@.len() <= 8,
            answers@.len() == 8 || (exists|k: int|
                0 <= k < answers@.len() && #[trigger] open_fails_at(answers@, k)),
            answers@.len() > 0 ==> answers@[0] <= i32::MAX,
            answers@.len() > 1 ==> answers@[1] <= i32::MAX,
            forall|k: int| 0 <= k < answers@.len() ==> #[trigger] answers@[k] <= usize::MAX,
        ensures
            forall|k: int|
                0 <= k < answers@.len() && #[trigger] open_fails_at(answers@, k) && open_passes_until(
                    answers@,
                    k,
                ) ==> (r matches Err((e, cleanup)) && open_failure_matches(e, id, open_step_at(k))
                    && cleanup == open_cleanup(open_step_at(k))),
            open_passes_until(answers@, answers@.len() as int) ==> (r matches Ok(reader)
                && reader.spec_id() == id && reader.spec_id_fd() == answers@[0] as i32
                && reader.spec_stream_fd() == answers@[1] as i32 && reader.spec_buffer_size()
                == answers@[4] as usize && reader.spec_device_read_offset() == answers@[6] as usize
                && reader.spec_read_offset() == answers@[6] as usize && reader.spec_requested() == 0
                && reader.spec_next_ev_id() == 0 && reader.spec_name() == utf8_lossy(
                name_buffer@.subrange(0, c_string_end(name_buffer@)),
            )),
    {
        let mut opening = PCIe40ReaderOpening::new(id);
        let mut i: usize = 0;
        while i < answers.len()
            invariant
                i <= 7,
                i <= answers@.len() <= 8,
                opening.well_formed(),
                opening.spec_id() == id,
                opening.spec_step() == open_step_at(i as int),
                open_passes_until(answers@, i as int),
                answers@.len() == 8 || (exists|k: int|
                    0 <= k < answers@.len() && #[trigger] open_fails_at(answers@, k)),
                answers@.len() > 0 ==> answers@[0] <= i32::MAX,
                answers@.len() > 1 ==> answers@[1] <= i32::MAX,
                forall|k: int| 0 <= k < answers@.len() ==> #[trigger] answers@[k] <= usize::MAX,
                i > 0 ==> opening.spec_id_fd() == Some(answers@[0] as i32),
                i > 1 ==> opening.spec_stream_fd() == Some(answers@[1] as i32),
                i > 4 ==> opening.spec_buffer_size() == answers@[4] as usize,
                i > 6 ==> opening.spec_read_offset() == answers@[6] as usize,
            decreases answers@.len() - i,
        {
            let code = answers[i];
            let ghost before = opening;
            match opening.advance(code, name_buffer) {
                ReaderOpenProgress::Continue(next) => {
                    opening = next;
                },
                ReaderOpenProgress::Failed(e, cleanup) => {
                    proof {
                        assert(open_fails_at(answers@, i as int));
                        assert forall|k: int|
                            0 <= k < answers@.len() && #[trigger] open_fails_at(answers@, k)
                                && open_passes_until(answers@, k) implies k == i by {
                            if k < i {
                                assert(!open_fails_at(answers@, k));
                            }
                            if k > i {
                                assert(!open_fails_at(answers@, i as int));
                            }
                        }
                    }
                    return Err((e, cleanup));
                },
                ReaderOpenProgress::Opened(reader) => {
                    proof {
                        assert(!open_fails_at(answers@, i as int));
                        assert(open_passes_until(answers@, i + 1));
                        assert forall|k: int|
                            0 <= k < answers@.len() && #[trigger] open_fails_at(answers@, k)
                                && open_passes_until(answers@, k) implies false by {
                            assert(!open_fails_at(answers@, k));
                        }
                    }
                    return Ok(reader);
                },
            }
            proof {
                assert(!open_fails_at(answers@, i as int));
            }
            i = i + 1;
        }
        proof {
            let k = choose|k: int| 0 <= k < answers@.len() && #[trigger] open_fails_at(answers@, k);
            assert(!open_fails_at(answers@, k));
        }
        Err(PCIe40Reader::open_failure(id, ReaderOpenStep::OpenId))
    }

    /// The reader of device `id` once every opening step succeeded: its
    /// buffer of `buffer_size` bytes is read from `read_offset` on, and its
    /// name is what the unique-name query wrote into `name_buffer`.
    pub fn opened(
        id: i32,
        id_fd: i32,
        stream_fd: i32,
        buffer_size: usize,
        read_offset: usize,
        name_buffer: &[u8],
    ) -> (r: Self)
        ensures
            r.spec_id() == id,
            r.spec_id_fd() == id_fd,
            r.spec_stream_fd() == stream_fd,
            r.spec_buffer_size() == buffer_size,
            r.spec_device_read_offset() == read_offset,
            r.spec_read_offset() == read_offset,
            r.spec_requested() == 0,
            r.spec_next_ev_id() == 0,
            r.spec_name() == utf8_lossy(name_buffer@.subrange(0, c_string_end(name_buffer@))),
    {
        PCIe40Reader {
            id,
            id_fd,
            stream_fd,
            buffer_size,
            device_read_offset: read_offset,
            internal_read_offset: read_offset,
            requested_size: 0,
            next_ev_id: 0,
            name: c_buffer_name(name_buffer),
        }
    }

    /// Whether taking the next packet from `buffer`, with the driver's used
    /// count `used`, stays within the machine's integers and the buffer: the
    /// bytes in use past those already taken lie inside the buffer, and a
    /// whole packet found there can be skipped without overflow.
    pub open spec fn read_admissible(&self, buffer: Seq<u8>, used: i64) -> bool {
        let off = self.spec_read_offset() as int;
        let avail = used - self.spec_requested();
        &&& used <= usize::MAX
        &&& used > self.spec_requested() ==> off + avail <= buffer.len()
        &&& (avail >= MFP_HEADER_SIZE && le16(buffer, off) == MFP_MAGIC && le32(buffer, off + 4)
            <= avail) ==> read_step_in_range(
            buffer,
            off,
            self.spec_requested() as int,
            self.spec_next_ev_id(),
        )
    }

    /// Tests what [`try_read_mfp`](Self::try_read_mfp) needs of its arguments.
    pub fn can_read(&self, buffer: &[u8], used: i64) -> (r: bool)
        ensures
            r == self.read_admissible(buffer@, used),
    {
        let req = self.requested_size;
        let off = self.internal_read_offset;
        if (used as i128) > (usize::MAX as i128) {
            return false;
        }
        if (used as i128) <= (req as i128) {
            return true;
        }
        let avail = (used as i128) - (req as i128);
        if (off as i128) + avail > (buffer.len() as i128) {
            return false;
        }
        if avail < (MFP_HEADER_SIZE as i128) {
            return true;
        }
        if read_le16(buffer, off) != MFP_MAGIC {
            return true;
        }
        let size = read_le32(buffer, off + 4);
        if (size as i128) > avail {
            return true;
        }
        let align = buffer[off + 14];
        if (align as u32) >= usize::BITS {
            return false;
        }
        let v = align_u128(size, align);
        if (off as u128) + v > (usize::MAX as u128) || (req as u128) + v > (usize::MAX as u128) {
            return false;
        }
        let ev = read_le32(buffer, off + 8);
        if ev != MFP_END_RUN_MAGIC && ev == self.next_ev_id {
            let count = read_le16(buffer, off + 2);
            if (self.next_ev_id as u64) + (count as u64) > (u32::MAX as u64) {
                return false;
            }
        }
        true
    }

    /// Takes the next packet from the stream buffer, if a whole one is
    /// there. `used` is what the driver answered for the buffer's used bytes
    /// (negative on error); `buffer` is the mapped stream buffer, readable
    /// past its end where a packet wraps. The reader moves past the packet
    /// and its padding, wrapping at the buffer's size, and checks that event
    /// ids run on without gaps; an end-of-run packet starts the count anew.
    pub fn try_read_mfp<'b>(&mut self, buffer: &'b [u8], used: i64) -> (r: Result<
        Option<MFP<'b>>,
        PCIe40Error,
    >)
        requires
            old(self).read_admissible(buffer@, used),
        ensures
            ({
                let s = buffer@;
                let off = old(self).spec_read_offset() as int;
                let req = old(self).spec_requested() as int;
                let next = old(self).spec_next_ev_id();
                let avail = used - req;
                let size = le32(s, off + 4);
                let ev = le32(s, off + 8);
                let adv = packet_advance(s, off);
                if used < 0 {
                    (r matches Err(PCIe40Error::BufferInfoError)) && *final(self) == *old(self)
                } else if avail < MFP_HEADER_SIZE {
                    r matches Ok(None) && *final(self) == *old(self)
                } else if le16(s, off) != MFP_MAGIC {
                    (r matches Err(PCIe40Error::CorruptedData(m)) && m@ == bad_magic_at_text(
                        le16(s, off) as u16,
                        off as usize,
                    )) && *final(self) == *old(self)
                } else if size > avail {
                    r matches Ok(None) && *final(self) == *old(self)
                } else if size < MFP_HEADER_SIZE {
                    (r matches Err(PCIe40Error::CorruptedData(m)) && m@ == "MFP data too short"@)
                        && *final(self) == *old(self)
                } else {
                    &&& final(self).spec_read_offset() == offset_after(
                        off,
                        adv,
                        old(self).spec_buffer_size() as int,
                    )
                    &&& final(self).spec_requested() == req + adv
                    &&& final(self).spec_device_read_offset() == old(self).spec_device_read_offset()
                    &&& final(self).spec_buffer_size() == old(self).spec_buffer_size()
                    &&& final(self).spec_id() == old(self).spec_id()
                    &&& final(self).spec_stream_fd() == old(self).spec_stream_fd()
                    &&& final(self).spec_name() == old(self).spec_name()
                    &&& if ev == MFP_END_RUN_MAGIC {
                        &&& final(self).spec_next_ev_id() == 0
                        &&& r matches Ok(Some(m)) && m.bytes() == s.subrange(off, off + size)
                    } else if ev != next {
                        &&& final(self).spec_next_ev_id() == next
                        &&& r matches Err(PCIe40Error::CorruptedData(m)) && m@
                            == event_mismatch_text(next, ev as u32)
                    } else {
                        &&& final(self).spec_next_ev_id() == next + le16(s, off + 2)
                        &&& r matches Ok(Some(m)) && m.bytes() == s.subrange(off, off + size)
                    }
                }
            }),
    {
        if used < 0 {
            return Err(PCIe40Error::BufferInfoError);
        }
        let available = used as usize;
        if available <= self.requested_size {
            return Ok(None);
        }
        let available_new = available - self.requested_size;
        if available_new < MFP_HEADER_SIZE {
            return Ok(None);
        }
        let off = self.internal_read_offset;
        let buffer_len = buffer.len();
        assert(off + available_new <= buffer_len);
        let view = vstd::slice::slice_subrange(buffer, off, off + available_new);
        let header = read_header(view);
        if header.magic != MFP_MAGIC {
            return Err(PCIe40Error::CorruptedData(bad_magic_at_message(header.magic, off)));
        }
        let packet_size = header.packet_size as usize;
        if available_new < packet_size {
            return Ok(None);
        }
        let mfp_data = vstd::slice::slice_subrange(buffer, off, off + packet_size);
        let mfp = match MFP::new(mfp_data) {
            Ok(m) => m,
            Err(e) => return Err(e),
        };
        let total = pad_to_alignment(packet_size, header.align);
        let mut new_offset = off + total;
        if new_offset >= self.buffer_size {
            new_offset = new_offset - self.buffer_size;
        }
        self.internal_read_offset = new_offset;
        self.requested_size = self.requested_size + total;
        if mfp.is_end_run() {
            self.next_ev_id = 0;
        } else if header.ev_id != self.next_ev_id {
            return Err(
                PCIe40Error::CorruptedData(event_mismatch_message(self.next_ev_id, header.ev_id)),
            );
        } else {
            self.next_ev_id = self.next_ev_id + header.n_banks as u32;
        }
        Ok(Some(mfp))
    }

    /// The stream buffer's size.
    pub fn buffer_size(&self) -> (r: usize)
        ensures
            r == self.spec_buffer_size(),
    {
        self.buffer_size
    }

    /// Bytes taken from the buffer and not yet handed back to the device.
    pub fn requested_size(&self) -> (r: usize)
        ensures
            r == self.spec_requested(),
    {
        self.requested_size
    }

    /// The device's id.
    pub fn id(&self) -> (r: i32)
        ensures
            r == self.spec_id(),
    {
        self.id
    }

    /// The stream's descriptor, for the driver calls.
    pub fn stream_fd(&self) -> (r: i32)
        ensures
            r == self.spec_stream_fd(),
    {
        self.stream_fd
    }

    /// The device's name.
    pub fn name(&self) -> (r: &str)
        ensures
            r@ == self.spec_name(),
    {
        self.name.as_str()
    }

    /// The buffer's occupancy, from what the driver answered (negative on error).
    pub fn buffer_occupancy(used: i64) -> (r: Result<usize, PCIe40Error>)
        requires
            used <= usize::MAX,
        ensures
            used < 0 ==> r is Err && r->Err_0 is BufferInfoError,
            used >= 0 ==> r == Ok::<usize, PCIe40Error>(used as usize),
    {
        if used < 0 {
            Err(PCIe40Error::BufferInfoError)
        } else {
            Ok(used as usize)
        }
    }

    /// Hands the bytes taken so far back to the device. `freed` is what
    /// freeing `requested_size()` bytes answered (the call is made only when
    /// that is not zero) and `read_offset` what reading the device's read
    /// offset answered afterwards.
    pub fn acknowledge_read(&mut self, freed: i64, read_offset: i64) -> (r: Result<(), PCIe40Error>)
        requires
            read_offset <= usize::MAX,
        ensures
            old(self).spec_requested() == 0 ==> r is Ok && *final(self) == *old(self),
            old(self).spec_requested() != 0 && freed < 0 ==> (r matches Err(PCIe40Error::AcknowledgeError)) && *final(self) == *old(self),
            old(self).spec_requested() != 0 && freed >= 0 && read_offset < 0 ==> (r matches Err(PCIe40Error::BufferInfoError)) && *final(self) == *old(self),
            old(self).spec_requested() != 0 && freed >= 0 && read_offset >= 0 ==> {
                &&& r is Ok
                &&& final(self).spec_device_read_offset() == read_offset
                &&& final(self).spec_read_offset() == read_offset
                &&& final(self).spec_requested() == 0
                &&& final(self).spec_next_ev_id() == old(self).spec_next_ev_id()
                &&& final(self).spec_buffer_size() == old(self).spec_buffer_size()
                &&& final(self).spec_name() == old(self).spec_name()
            },
    {
        if self.requested_size == 0 {
            return Ok(());
        }
        if freed < 0 {
            return Err(PCIe40Error::AcknowledgeError);
        }
        if read_offset < 0 {
            return Err(PCIe40Error::BufferInfoError);
        }
        self.device_read_offset = read_offset as usize;
        self.internal_read_offset = self.device_read_offset;
        self.requested_size = 0;
        Ok(())
    }

    /// Resets the reader after the stream logic was reset: `reset_code` is
    /// what the reset answered and `read_offset` what reading the device's
    /// read offset answered afterwards (made only when the reset succeeded).
    pub fn reset(&mut self, reset_code: i32, read_offset: i64) -> (r: Result<(), PCIe40Error>)
        requires
            read_offset <= usize::MAX,
        ensures
            reset_code != 0 ==> (r matches Err(PCIe40Error::StreamOpenError)) && *final(self)
                == *old(self),
            reset_code == 0 && read_offset < 0 ==> (r matches Err(PCIe40Error::BufferInfoError))
                && *final(self) == *old(self),
            reset_code == 0 && read_offset >= 0 ==> {
                &&& r is Ok
                &&& final(self).spec_device_read_offset() == read_offset
                &&& final(self).spec_read_offset() == read_offset
                &&& final(self).spec_requested() == 0
                &&& final(self).spec_next_ev_id() == 0
                &&& final(self).spec_buffer_size() == old(self).spec_buffer_size()
                &&& final(self).spec_name() == old(self).spec_name()
            },
    {
        if reset_code != 0 {
            return Err(PCIe40Error::StreamOpenError);
        }
        if read_offset < 0 {
            return Err(PCIe40Error::BufferInfoError);
        }
        self.device_read_offset = read_offset as usize;
        self.internal_read_offset = self.device_read_offset;
        self.requested_size = 0;
        self.next_ev_id = 0;
        Ok(())
    }
}

} // verus!
