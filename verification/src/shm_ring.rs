//! The single-reader, single-writer ring buffer protocol over shared memory.
//!
//! The readable region runs from the read pointer to the write pointer, the
//! writable region from the write pointer to the read pointer; either may wrap
//! around the end of the buffer, in which case it is a primary part at the
//! pointer and a secondary part at the start of the buffer. An entry that does
//! not fit the primary part of the writable region is written at the start of
//! the buffer, and the wrap marker left at the pointer tells the reader so.
use crate::mfp::{aligned_size_within, align_pow2, mfp_packet_size, MultiFragmentPacketRef};
use crate::ring_status::PtrStatus;
use vstd::arithmetic::power2::pow2;
use vstd::prelude::*;
use vstd::slice::SliceAdditionalExecFns;

verus! {

/// Why a pointer could not be advanced.
#[derive(Debug, Clone, Copy, PartialEq, Eq, Structural)]
pub enum SharedMemoryBufferAdvanceError {
    /// Not enough data (or space) available.
    OutOfBounds,
    /// The resulting address would break the buffer's alignment.
    NotAligned,
    /// The resulting address is not even, which the status words cannot hold.
    Not2ByteAligned,
}

/// Why an element could not be read from the buffer.
#[derive(Debug, Clone, Copy, PartialEq, Eq, Structural)]
pub enum SharedMemoryTypedReadError {
    /// No element of the requested type in the buffer.
    NotFound,
    /// Not enough data for the requested element.
    NotEnoughData,
    /// The data does not hold an element of the requested type.
    CorruptData,
}

/// Why an element could not be written to the buffer.
#[derive(Debug, Clone, Copy, PartialEq, Eq, Structural)]
pub enum SharedMemoryTypedWriteError {
    /// Not enough space for the element.
    NotEnoughSpace,
    /// The write pointer could not be advanced past the element.
    AdvanceWritePointerError(SharedMemoryBufferAdvanceError),
}

/// Whether `x` is a multiple of `2^p`.
pub fn check_alignment_pow2(x: usize, p: u8) -> (r: bool)
    ensures
        r == (x as int % pow2(p as nat) as int == 0),
{
    proof {
        vstd::arithmetic::power2::lemma_pow2_pos(p as nat);
        vstd::arithmetic::power2::lemma2_to64();
        vstd::arithmetic::power2::lemma2_to64_rest();
    }
    if p >= 64 {
        proof {
            if p > 64 {
                vstd::arithmetic::power2::lemma_pow2_strictly_increases(64, p as nat);
            }
            vstd::arithmetic::div_mod::lemma_small_mod(x as nat, pow2(p as nat));
        }
        return x == 0;
    }
    let a: u64 = 1u64 << (p as u64);
    proof {
        if p < 63 {
            vstd::arithmetic::power2::lemma_pow2_strictly_increases(p as nat, 63);
        }
        vstd::bits::lemma_u64_shl_is_mul(1, p as u64);
    }
    (x as u64) % a == 0
}

/// The parts of a region of the ring: `[primary_start, primary_end)` at the
/// pointer and `[0, secondary_end)` at the start of the buffer.
#[derive(Debug, Clone, Copy, PartialEq, Eq, Structural)]
pub struct Regions {
    pub primary_start: usize,
    pub primary_end: usize,
    pub secondary_end: usize,
}

impl Regions {
    /// Total bytes of both parts.
    pub open spec fn total(&self) -> int {
        (self.primary_end - self.primary_start) + self.secondary_end
    }
}

/// Readable region for a read status `(rp, rw)` and write status `(wp, ww)`.
pub open spec fn spec_readable(rp: nat, rw: bool, wp: nat, ww: bool, size: nat) -> (int, int, int) {
    if rw == ww {
        (rp as int, wp as int, 0)
    } else {
        (rp as int, size as int, wp as int)
    }
}

/// Writable region for a write status `(wp, ww)` and read status `(rp, rw)`.
pub open spec fn spec_writable(wp: nat, ww: bool, rp: nat, rw: bool, size: nat) -> (int, int, int) {
    if ww == rw {
        (wp as int, size as int, rp as int)
    } else {
        (wp as int, rp as int, 0)
    }
}

/// The pointers describe regions inside the buffer (what slicing needs).
pub open spec fn regions_valid(wp: nat, ww: bool, rp: nat, rw: bool, size: nat) -> bool {
    &&& ww == rw ==> rp <= wp <= size
    &&& ww != rw ==> wp <= rp <= size
}

/// Whether a write status and a read status, as read from the shared header
/// (another process writes them), bound regions of a ring of `size` bytes:
/// what the region functions and the reader and writer need of them.
pub fn statuses_valid(write_status: PtrStatus, read_status: PtrStatus, size: usize) -> (r: bool)
    ensures
        r == regions_valid(
            write_status.spec_ptr(),
            write_status.spec_wrap(),
            read_status.spec_ptr(),
            read_status.spec_wrap(),
            size as nat,
        ),
{
    let wp = write_status.ptr();
    let rp = read_status.ptr();
    let sz = size as u64;
    if write_status.wrap() == read_status.wrap() {
        rp <= wp && wp <= sz
    } else {
        wp <= rp && rp <= sz
    }
}

/// The readable region of the ring.
pub fn readable_region(read_status: PtrStatus, write_status: PtrStatus, size: usize) -> (r: Regions)
    requires
        regions_valid(
            write_status.spec_ptr(),
            write_status.spec_wrap(),
            read_status.spec_ptr(),
            read_status.spec_wrap(),
            size as nat,
        ),
    ensures
        (r.primary_start as int, r.primary_end as int, r.secondary_end as int) == spec_readable(
            read_status.spec_ptr(),
            read_status.spec_wrap(),
            write_status.spec_ptr(),
            write_status.spec_wrap(),
            size as nat,
        ),
{
    let r = read_status.ptr() as usize;
    let w = write_status.ptr() as usize;
    if write_status.wrap() == read_status.wrap() {
        Regions { primary_start: r, primary_end: w, secondary_end: 0 }
    } else {
        Regions { primary_start: r, primary_end: size, secondary_end: w }
    }
}

/// The writable region of the ring.
pub fn writable_region(write_status: PtrStatus, read_status: PtrStatus, size: usize) -> (r: Regions)
    requires
        regions_valid(
            write_status.spec_ptr(),
            write_status.spec_wrap(),
            read_status.spec_ptr(),
            read_status.spec_wrap(),
            size as nat,
        ),
    ensures
        (r.primary_start as int, r.primary_end as int, r.secondary_end as int) == spec_writable(
            write_status.spec_ptr(),
            write_status.spec_wrap(),
            read_status.spec_ptr(),
            read_status.spec_wrap(),
            size as nat,
        ),
{
    let r = read_status.ptr() as usize;
    let w = write_status.ptr() as usize;
    if write_status.wrap() == read_status.wrap() {
        Regions { primary_start: w, primary_end: size, secondary_end: r }
    } else {
        Regions { primary_start: w, primary_end: r, secondary_end: 0 }
    }
}

/// The outcome of advancing a pointer by `bytes` over a region of `available`
/// bytes on a ring aligned to `2^align`.
pub open spec fn spec_advance_check(bytes: usize, align: u8, available: int) -> Result<
    (),
    SharedMemoryBufferAdvanceError,
> {
    if bytes % 2 != 0 {
        Err(SharedMemoryBufferAdvanceError::Not2ByteAligned)
    } else if bytes as int % pow2(align as nat) as int != 0 {
        Err(SharedMemoryBufferAdvanceError::NotAligned)
    } else if bytes > available {
        Err(SharedMemoryBufferAdvanceError::OutOfBounds)
    } else {
        Ok(())
    }
}

fn advance_check(bytes: usize, align: u8, available: usize) -> (r: Result<
    (),
    SharedMemoryBufferAdvanceError,
>)
    ensures
        r == spec_advance_check(bytes, align, available as int),
{
    if !check_alignment_pow2(bytes, 1) {
        proof {
            vstd::arithmetic::power2::lemma2_to64();
        }
        return Err(SharedMemoryBufferAdvanceError::Not2ByteAligned);
    }
    proof {
        vstd::arithmetic::power2::lemma2_to64();
    }
    if !check_alignment_pow2(bytes, align) {
        return Err(SharedMemoryBufferAdvanceError::NotAligned);
    }
    if bytes > available {
        return Err(SharedMemoryBufferAdvanceError::OutOfBounds);
    }
    Ok(())
}

/// `s` with `src` written over it starting at `at`.
pub open spec fn splice(s: Seq<u8>, at: int, src: Seq<u8>) -> Seq<u8> {
    s.subrange(0, at) + src + s.subrange(at + src.len(), s.len() as int)
}

/// `s` with the wrap marker written at `at`.
pub open spec fn with_wrap_marker(s: Seq<u8>, at: int) -> Seq<u8> {
    s.update(at, 0x55u8).update(at + 1, 0x55u8)
}

fn copy_into(ring: &mut [u8], at: usize, src: &[u8])
    requires
        at + src@.len() <= old(ring)@.len(),
    ensures
        final(ring)@ == splice(old(ring)@, at as int, src@),
{
    let ghost orig = ring@;
    let n = src.len();
    let len = ring.len();
    let mut i: usize = 0;
    while i < n
        invariant
            n == src@.len(),
            len == orig.len(),
            at + n <= len,
            ring@.len() == orig.len(),
            i <= n,
            forall|j: int| 0 <= j < at ==> ring@[j] == orig[j],
            forall|j: int| 0 <= j < i ==> ring@[at + j] == src@[j],
            forall|j: int| at + i <= j < orig.len() ==> ring@[j] == orig[j],
        decreases n - i,
    {
        ring.set(at + i, src[i]);
        i = i + 1;
    }
    proof {
        assert(ring@ =~= splice(orig, at as int, src@));
    }
}

/// What writing an element of `n` bytes ends with, before the write pointer
/// moves: the bytes to advance the pointer by, or the error.
pub open spec fn spec_write_plan(n: int, align: u8, plen: int, se: int) -> Result<
    int,
    SharedMemoryTypedWriteError,
> {
    let a = align_pow2(n, align as nat);
    if a <= plen {
        Ok(a)
    } else if plen < 2 {
        Err(SharedMemoryTypedWriteError::NotEnoughSpace)
    } else if a > se {
        Err(SharedMemoryTypedWriteError::NotEnoughSpace)
    } else {
        Ok(a + plen)
    }
}

/// What reading one packet from the readable regions gives: the primary
/// region must hold the two bytes of a wrap marker; a marker sends the read
/// to the secondary region, counting the primary region as consumed. There
/// the region needs a whole header, the magic value, and the packet padded
/// to `2^align`. Gives the bytes from the packet on and the bytes consumed.
pub open spec fn read_single(primary: Seq<u8>, secondary: Seq<u8>, align: u8) -> Result<
    (Seq<u8>, int),
    SharedMemoryTypedReadError,
> {
    if primary.len() < 2 {
        Err(SharedMemoryTypedReadError::NotEnoughData)
    } else {
        let wrapped = crate::mfp::le16(primary, 0) == crate::mfp::WRAP_MAGIC;
        let region = if wrapped { secondary } else { primary };
        let offset = if wrapped { primary.len() as int } else { 0 };
        if region.len() < crate::mfp::HEADER_SIZE {
            Err(SharedMemoryTypedReadError::NotEnoughData)
        } else if crate::mfp::mfp_magic(region) != crate::mfp::MAGIC_BYTES {
            Err(SharedMemoryTypedReadError::CorruptData)
        } else {
            let a = align_pow2(mfp_packet_size(region), align as nat);
            if a > region.len() {
                Err(SharedMemoryTypedReadError::NotEnoughData)
            } else {
                Ok((region, offset + a))
            }
        }
    }
}

/// One read from the readable regions of the ring: `wrapped` says whether
/// the reader already moved to the secondary region and `adv` how far it
/// advanced. A wrap marker or the end of the primary region sends it to the
/// secondary region; there it needs a whole header with the magic value and
/// the whole packet padded to the alignment. Gives the new position and the
/// bytes from the packet on.
pub open spec fn read_one(primary: Seq<u8>, secondary: Seq<u8>, align: u8, wrapped: bool, adv: int) -> Result<
    (bool, int, Seq<u8>),
    SharedMemoryTypedReadError,
> {
    let plen = primary.len() as int;
    let at_end = adv == plen;
    let marker = plen - adv >= 2 && crate::mfp::le16(primary, adv) == crate::mfp::WRAP_MAGIC;
    if !wrapped && !at_end && plen - adv < 2 {
        Err(SharedMemoryTypedReadError::NotEnoughData)
    } else {
        let to_secondary = wrapped || at_end || marker;
        let region = if to_secondary { secondary } else { primary };
        let off = if !to_secondary { adv } else if wrapped { adv - plen } else { 0 };
        let base = if to_secondary && !wrapped { plen } else { adv };
        let rest = region.subrange(off, region.len() as int);
        if rest.len() < crate::mfp::HEADER_SIZE {
            Err(SharedMemoryTypedReadError::NotEnoughData)
        } else if crate::mfp::le16(rest, 0) != crate::mfp::MAGIC_BYTES {
            Err(SharedMemoryTypedReadError::CorruptData)
        } else {
            let a = align_pow2(mfp_packet_size(rest), align as nat);
            if region.len() < a + off {
                Err(SharedMemoryTypedReadError::NotEnoughData)
            } else {
                Ok((to_secondary, base + a, rest))
            }
        }
    }
}

/// `k` reads in a row, each as [`read_one`] does from where the one before
/// left off: whether the reader wrapped, how far it advanced, and the bytes
/// of each packet read; the first failing read's error otherwise.
pub open spec fn multi_read_state(primary: Seq<u8>, secondary: Seq<u8>, align: u8, k: nat) -> Result<
    (bool, int, Seq<Seq<u8>>),
    SharedMemoryTypedReadError,
>
    decreases k,
{
    if k == 0 {
        Ok((false, 0, Seq::empty()))
    } else {
        match multi_read_state(primary, secondary, align, (k - 1) as nat) {
            Err(e) => Err(e),
            Ok((wrapped, adv, els)) => match read_one(primary, secondary, align, wrapped, adv) {
                Err(e) => Err(e),
                Ok((w, next, el)) => Ok((w, next, els.push(el))),
            },
        }
    }
}

proof fn lemma_multi_read_err_persists(
    primary: Seq<u8>,
    secondary: Seq<u8>,
    align: u8,
    k: nat,
    n: nat,
)
    requires
        k <= n,
        multi_read_state(primary, secondary, align, k) is Err,
    ensures
        multi_read_state(primary, secondary, align, n) == multi_read_state(primary, secondary, align, k),
    decreases n - k,
{
    if k < n {
        lemma_multi_read_err_persists(primary, secondary, align, k, (n - 1) as nat);
    }
}

/// What is left to read after advancing `adv` bytes from the start of the
/// readable regions `primary` and `secondary`: the rest of the primary
/// region and the whole secondary region while `adv` stays inside the
/// primary region; once the primary region is used up, the rest of the
/// secondary region alone (the read pointer has moved to the start of the
/// ring, where the secondary region begins).
pub open spec fn rest_regions(primary: Seq<u8>, secondary: Seq<u8>, adv: int) -> (Seq<u8>, Seq<u8>) {
    if adv < primary.len() {
        (primary.subrange(adv, primary.len() as int), secondary)
    } else {
        (secondary.subrange(adv - primary.len(), secondary.len() as int), Seq::empty())
    }
}

proof fn lemma_multi_read_bounds(primary: Seq<u8>, secondary: Seq<u8>, align: u8, k: nat)
    requires
        multi_read_state(primary, secondary, align, k) is Ok,
    ensures
        ({
            let (w, adv, els) = multi_read_state(primary, secondary, align, k)->Ok_0;
            &&& els.len() == k
            &&& !w ==> 0 <= adv <= primary.len()
            &&& w ==> primary.len() <= adv <= primary.len() + secondary.len()
        }),
    decreases k,
{
    if k > 0 {
        lemma_multi_read_bounds(primary, secondary, align, (k - 1) as nat);
        let (w, adv, els) = multi_read_state(primary, secondary, align, (k - 1) as nat)->Ok_0;
        let plen = primary.len() as int;
        let at_end = adv == plen;
        let marker = plen - adv >= 2 && crate::mfp::le16(primary, adv) == crate::mfp::WRAP_MAGIC;
        let to_secondary = w || at_end || marker;
        let region = if to_secondary { secondary } else { primary };
        let off = if !to_secondary { adv } else if w { adv - plen } else { 0 };
        let rest = region.subrange(off, region.len() as int);
        if read_one(primary, secondary, align, w, adv) is Ok {
            crate::mfp::lemma_align_pow2_bounds(mfp_packet_size(rest), align as nat);
        }
    }
}

proof fn lemma_read_one_reads_rest(primary: Seq<u8>, secondary: Seq<u8>, align: u8, w: bool, adv: int)
    requires
        !w ==> 0 <= adv <= primary.len(),
        w ==> primary.len() <= adv <= primary.len() + secondary.len(),
    ensures
        ({
            let (p2, s2) = rest_regions(primary, secondary, adv);
            &&& read_one(primary, secondary, align, w, adv) is Ok <==> read_single(p2, s2, align) is Ok
            &&& read_single(p2, s2, align) is Ok ==> {
                let (e, c) = read_single(p2, s2, align)->Ok_0;
                let (w2, adv2, e2) = read_one(primary, secondary, align, w, adv)->Ok_0;
                adv2 == adv + c && e2 == e
            }
        }),
{
    let plen = primary.len() as int;
    let slen = secondary.len() as int;
    let (p2, s2) = rest_regions(primary, secondary, adv);
    if adv < plen {
        assert(!w);
        if plen - adv >= 2 {
            assert(p2[0] == primary[adv]);
            assert(p2[1] == primary[adv + 1]);
            assert(crate::mfp::le16(p2, 0) == crate::mfp::le16(primary, adv));
            if crate::mfp::le16(primary, adv) == crate::mfp::WRAP_MAGIC {
                assert(secondary.subrange(0, slen) =~= secondary);
            }
        }
    } else {
        assert(s2 =~= Seq::<u8>::empty());
        let off = adv - plen;
        assert(p2 =~= secondary.subrange(off, slen));
        if p2.len() >= 2 {
            if crate::mfp::le16(p2, 0) == crate::mfp::WRAP_MAGIC {
                assert(crate::mfp::le16(p2, 0) != crate::mfp::MAGIC_BYTES);
            }
        }
    }
}

/// Reading several packets in a row gives what reading them one at a time
/// gives, with the read pointer advanced past each before the next: after
/// `k` packets read with advance `adv`, the next one exists exactly when a
/// single read ([`read_single`], what `read_element` answers) of what is left
/// ([`rest_regions`]) succeeds, and then it is that packet and the advance
/// grows by what that read consumes. In particular a packet that ends exactly
/// at the end of the primary region is followed by the packet at the start
/// of the secondary region.
pub proof fn law_read_multiple_is_repeated_read(primary: Seq<u8>, secondary: Seq<u8>, align: u8, k: nat)
    requires
        multi_read_state(primary, secondary, align, k) is Ok,
    ensures
        ({
            let (w, adv, els) = multi_read_state(primary, secondary, align, k)->Ok_0;
            let (p2, s2) = rest_regions(primary, secondary, adv);
            let next = multi_read_state(primary, secondary, align, k + 1);
            &&& next is Ok <==> read_single(p2, s2, align) is Ok
            &&& read_single(p2, s2, align) is Ok ==> {
                let (e, c) = read_single(p2, s2, align)->Ok_0;
                &&& next->Ok_0.1 == adv + c
                &&& next->Ok_0.2 == els.push(e)
            }
        }),
{
    lemma_multi_read_bounds(primary, secondary, align, k);
    let (w, adv, els) = multi_read_state(primary, secondary, align, k)->Ok_0;
    lemma_read_one_reads_rest(primary, secondary, align, w, adv);
    assert(multi_read_state(primary, secondary, align, k + 1) == match read_one(
        primary,
        secondary,
        align,
        w,
        adv,
    ) {
        Err(e) => Err(e),
        Ok((w2, next, el)) => Ok::<(bool, int, Seq<Seq<u8>>), SharedMemoryTypedReadError>(
            (w2, next, els.push(el)),
        ),
    });
}

/// Advancing the read pointer past `c` of the readable bytes leaves readable
/// exactly what [`rest_regions`] says is left after `c` bytes: together with
/// [`law_read_multiple_is_repeated_read`], reading packets one at a time with
/// `read_element` and `advance_read_pointer` in between reads the same bytes
/// as `read_multiple`. The ring's size and the pointers are even, as the
/// status words hold them, and the write pointer lies inside the ring.
pub proof fn law_advance_leaves_rest_regions(ring: Seq<u8>, rp: nat, rw: bool, wp: nat, ww: bool, c: nat)
    requires
        ring.len() > 0,
        ring.len() % 2 == 0,
        rp % 2 == 0,
        c % 2 == 0,
        wp < ring.len(),
        regions_valid(wp, ww, rp, rw, ring.len()),
        ({
            let (ps, pe, se) = spec_readable(rp, rw, wp, ww, ring.len());
            c <= (pe - ps) + se
        }),
    ensures
        ({
            let n = ring.len();
            let (ps, pe, se) = spec_readable(rp, rw, wp, ww, n);
            let (ps2, pe2, se2) = spec_readable(
                crate::ring_status::moved_ptr(rp, c, n),
                crate::ring_status::moved_wrap(rp, rw, c, n),
                wp,
                ww,
                n,
            );
            (ring.subrange(ps2, pe2), ring.subrange(0, se2)) == rest_regions(
                ring.subrange(ps, pe),
                ring.subrange(0, se),
                c as int,
            )
        }),
{
    let n = ring.len() as int;
    let x = (rp + c) as int;
    if x < n {
        vstd::arithmetic::div_mod::lemma_fundamental_div_mod_converse(x, n, 0, x);
        assert(x % 2 == 0);
        assert(2 * (x / 2) == x);
    } else {
        vstd::arithmetic::div_mod::lemma_fundamental_div_mod_converse(x, n, 1, x - n);
        assert((x - n) % 2 == 0);
        assert(2 * ((x - n) / 2) == x - n);
    }
    let (ps, pe, se) = spec_readable(rp, rw, wp, ww, n as nat);
    let primary = ring.subrange(ps, pe);
    let secondary = ring.subrange(0, se);
    if c < primary.len() {
        assert(primary.subrange(c as int, primary.len() as int) =~= ring.subrange(ps + c, pe));
    } else {
        assert(secondary.subrange(c - primary.len(), secondary.len() as int) =~= ring.subrange(
            c - primary.len(),
            se,
        ));
        assert(ring.subrange(0, 0) =~= Seq::<u8>::empty());
        assert(ring.subrange(wp as int, wp as int) =~= Seq::<u8>::empty());
    }
}

/// The reading end of the ring: its size, alignment and local read status.
pub struct SharedMemoryBufferReader {
    size: usize,
    alignment_pow2: u8,
    read_status: PtrStatus,
}

/// The writing end of the ring: its size, alignment and local write status.
pub struct SharedMemoryBufferWriter {
    size: usize,
    alignment_pow2: u8,
    write_status: PtrStatus,
}

impl SharedMemoryBufferReader {
    pub closed spec fn spec_size(&self) -> usize {
        self.size
    }

    pub closed spec fn spec_alignment_pow2(&self) -> u8 {
        self.alignment_pow2
    }

    pub closed spec fn spec_read_status(&self) -> PtrStatus {
        self.read_status
    }

    /// A reader of a ring of `size` bytes starting at the published read status.
    pub fn new(size: usize, alignment_pow2: u8, read_status: PtrStatus) -> (r: Self)
        ensures
            r.spec_size() == size,
            r.spec_alignment_pow2() == alignment_pow2,
            r.spec_read_status() == read_status,
    {
        Self { size, alignment_pow2, read_status }
    }

    /// The ring's alignment exponent.
    pub fn alignment_pow2(&self) -> (r: u8)
        ensures
            r == self.spec_alignment_pow2(),
    {
        self.alignment_pow2
    }

    /// The local read status, to be published to the shared header.
    pub fn read_status(&self) -> (r: PtrStatus)
        ensures
            r == self.spec_read_status(),
    {
        self.read_status
    }

    /// Moves the read pointer `bytes` forward: `bytes` must be even, aligned to
    /// the ring and no more than what is readable.
    pub fn advance_read_pointer(&mut self, bytes: usize, write_status: PtrStatus) -> (r: Result<
        (),
        SharedMemoryBufferAdvanceError,
    >)
        requires
            old(self).spec_size() > 0,
            2 * old(self).spec_size() <= usize::MAX,
            regions_valid(
                write_status.spec_ptr(),
                write_status.spec_wrap(),
                old(self).spec_read_status().spec_ptr(),
                old(self).spec_read_status().spec_wrap(),
                old(self).spec_size() as nat,
            ),
        ensures
            final(self).spec_size() == old(self).spec_size(),
            final(self).spec_alignment_pow2() == old(self).spec_alignment_pow2(),
            ({
                let (ps, pe, se) = spec_readable(
                    old(self).spec_read_status().spec_ptr(),
                    old(self).spec_read_status().spec_wrap(),
                    write_status.spec_ptr(),
                    write_status.spec_wrap(),
                    old(self).spec_size() as nat,
                );
                let chk = spec_advance_check(bytes, old(self).spec_alignment_pow2(), (pe - ps) + se);
                &&& r == chk
                &&& r is Err ==> final(self).spec_read_status() == old(self).spec_read_status()
                &&& r is Ok ==> final(self).spec_read_status().spec_ptr() == 2 * (((old(
                    self,
                ).spec_read_status().spec_ptr() + bytes) % (old(self).spec_size() as int)) / 2)
                    && final(self).spec_read_status().spec_wrap() == (old(
                    self,
                ).spec_read_status().spec_wrap() != (((old(self).spec_read_status().spec_ptr()
                    + bytes) / (old(self).spec_size() as int)) % 2 == 1))
            }),
    {
        let reg = readable_region(self.read_status, write_status, self.size);
        let available = (reg.primary_end - reg.primary_start) + reg.secondary_end;
        match advance_check(bytes, self.alignment_pow2, available) {
            Err(e) => Err(e),
            Ok(()) => {
                self.read_status = self.read_status.add(bytes, self.size);
                Ok(())
            },
        }
    }

    /// Reads the next packet from the ring's bytes: from the primary part of
    /// the readable region, or from the start of the buffer when the primary
    /// part opens with the wrap marker. Answers the packet and how many bytes
    /// reading it consumes (the skipped primary part, if any, and the packet
    /// rounded up to the ring's alignment).
    pub fn read_element<'a>(&self, ring: &'a [u8], write_status: PtrStatus) -> (r: Result<
        (MultiFragmentPacketRef<'a>, usize),
        SharedMemoryTypedReadError,
    >)
        requires
            ring@.len() == self.spec_size(),
            ring@.len() <= isize::MAX,
            regions_valid(
                write_status.spec_ptr(),
                write_status.spec_wrap(),
                self.spec_read_status().spec_ptr(),
                self.spec_read_status().spec_wrap(),
                self.spec_size() as nat,
            ),
        ensures
            ({
                let (ps, pe, se) = spec_readable(
                    self.spec_read_status().spec_ptr(),
                    self.spec_read_status().spec_wrap(),
                    write_status.spec_ptr(),
                    write_status.spec_wrap(),
                    self.spec_size() as nat,
                );
                let primary = ring@.subrange(ps, pe);
                let secondary = ring@.subrange(0, se);
                match read_single(primary, secondary, self.spec_alignment_pow2()) {
                    Err(e) => r == Err::<(MultiFragmentPacketRef<'a>, usize), _>(e),
                    Ok((bytes, consumed)) => r matches Ok((p, c)) && p.bytes() == bytes && c
                        == consumed && p.complete(),
                }
            }),
    {
        let reg = readable_region(self.read_status, write_status, self.size);
        let primary = vstd::slice::slice_subrange(ring, reg.primary_start, reg.primary_end);
        let secondary = vstd::slice::slice_subrange(ring, 0, reg.secondary_end);
        let wrapped = match MultiFragmentPacketRef::check_wrap_flag(primary) {
            Err(e) => return Err(e),
            Ok(w) => w,
        };
        let (region, offset) = if wrapped {
            (secondary, primary.len())
        } else {
            (primary, 0)
        };
        let element = match MultiFragmentPacketRef::cast_to_element(region) {
            Err(e) => return Err(e),
            Ok(p) => p,
        };
        let size = element.packet_size();
        match aligned_size_within(size, self.alignment_pow2, region.len() as u64) {
            None => Err(SharedMemoryTypedReadError::NotEnoughData),
            Some(aligned) => {
                proof {
                    crate::mfp::lemma_align_pow2_bounds(size as int, self.alignment_pow2 as nat);
                }
                Ok((element, offset + aligned as usize))
            },
        }
    }

    /// Reads up to `num` packets in a row from the ring's bytes, moving on to
    /// the start of the buffer at the wrap marker or at the end of the
    /// primary part. Answers the packets and how many bytes reading them
    /// consumes; the first packet that cannot be read ends it with an error.
    pub fn read_multiple<'a>(&self, ring: &'a [u8], write_status: PtrStatus, num: usize) -> (r:
        Result<(Vec<MultiFragmentPacketRef<'a>>, usize), SharedMemoryTypedReadError>)
        requires
            ring@.len() == self.spec_size(),
            ring@.len() <= isize::MAX,
            regions_valid(
                write_status.spec_ptr(),
                write_status.spec_wrap(),
                self.spec_read_status().spec_ptr(),
                self.spec_read_status().spec_wrap(),
                self.spec_size() as nat,
            ),
        ensures
            ({
                let (ps, pe, se) = spec_readable(
                    self.spec_read_status().spec_ptr(),
                    self.spec_read_status().spec_wrap(),
                    write_status.spec_ptr(),
                    write_status.spec_wrap(),
                    self.spec_size() as nat,
                );
                let primary = ring@.subrange(ps, pe);
                let secondary = ring@.subrange(0, se);
                match multi_read_state(primary, secondary, self.spec_alignment_pow2(), num as nat) {
                    Err(e) => r == Err::<(Vec<MultiFragmentPacketRef<'a>>, usize), _>(e),
                    Ok((_, adv, els)) => r matches Ok((v, consumed)) && consumed == adv
                        && v@.len() == num && forall|i: int|
                        0 <= i < num ==> (#[trigger] v@[i]).bytes() == els[i],
                }
            }),
    {
        let reg = readable_region(self.read_status, write_status, self.size);
        let primary = vstd::slice::slice_subrange(ring, reg.primary_start, reg.primary_end);
        let secondary = vstd::slice::slice_subrange(ring, 0, reg.secondary_end);
        let plen = primary.len();
        let slen = secondary.len();
        let ghost align = self.alignment_pow2;
        let ghost regions = spec_readable(
            self.spec_read_status().spec_ptr(),
            self.spec_read_status().spec_wrap(),
            write_status.spec_ptr(),
            write_status.spec_wrap(),
            self.spec_size() as nat,
        );
        let mut read: Vec<MultiFragmentPacketRef<'a>> = Vec::new();
        let mut advance: usize = 0;
        let mut wrapped = false;
        let mut i: usize = 0;
        while i < num
            invariant
                regions == spec_readable(
                    self.spec_read_status().spec_ptr(),
                    self.spec_read_status().spec_wrap(),
                    write_status.spec_ptr(),
                    write_status.spec_wrap(),
                    self.spec_size() as nat,
                ),
                primary@ == ring@.subrange(regions.0, regions.1),
                secondary@ == ring@.subrange(0, regions.2),
                plen == primary@.len(),
                slen == secondary@.len(),
                primary@.len() <= isize::MAX,
                secondary@.len() <= isize::MAX,
                align == self.alignment_pow2,
                i <= num,
                multi_read_state(primary@, secondary@, align, i as nat) == Ok::<
                    (bool, int, Seq<Seq<u8>>),
                    SharedMemoryTypedReadError,
                >((wrapped, advance as int, multi_read_state(primary@, secondary@, align, i as nat)->Ok_0.2)),
                read@.len() == i,
                forall|j: int|
                    0 <= j < i ==> (#[trigger] read@[j]).bytes() == multi_read_state(
                        primary@,
                        secondary@,
                        align,
                        i as nat,
                    )->Ok_0.2[j],
                multi_read_state(primary@, secondary@, align, i as nat)->Ok_0.2.len() == i,
                !wrapped ==> advance <= plen,
                wrapped ==> plen <= advance <= plen + slen,
            decreases num - i,
        {
            let ghost els = multi_read_state(primary@, secondary@, align, i as nat)->Ok_0.2;
            let to_secondary: bool;
            if wrapped {
                to_secondary = true;
            } else if advance == plen {
                to_secondary = true;
            } else {
                let rest = vstd::slice::slice_subrange(primary, advance, plen);
                match MultiFragmentPacketRef::check_wrap_flag(rest) {
                    Err(e) => {
                        proof {
                            lemma_multi_read_err_persists(primary@, secondary@, align, (i + 1) as nat, num as nat);
                        }
                        return Err(e);
                    },
                    Ok(w) => {
                        to_secondary = w;
                    },
                }
            }
            let region = if to_secondary { secondary } else { primary };
            let off: usize = if !to_secondary {
                advance
            } else if wrapped {
                advance - plen
            } else {
                0
            };
            let base: usize = if to_secondary && !wrapped { plen } else { advance };
            let rlen = region.len();
            let rest = vstd::slice::slice_subrange(region, off, rlen);
            let element = match MultiFragmentPacketRef::cast_to_element(rest) {
                Err(e) => {
                    proof {
                        lemma_multi_read_err_persists(primary@, secondary@, align, (i + 1) as nat, num as nat);
                    }
                    return Err(e);
                },
                Ok(p) => p,
            };
            let size = element.packet_size();
            proof {
                crate::mfp::lemma_align_pow2_bounds(size as int, align as nat);
            }
            let room = (rlen - off) as u64;
            match aligned_size_within(size, self.alignment_pow2, room) {
                None => {
                    proof {
                        lemma_multi_read_err_persists(primary@, secondary@, align, (i + 1) as nat, num as nat);
                    }
                    return Err(SharedMemoryTypedReadError::NotEnoughData);
                },
                Some(a) => {
                    read.push(element);
                    advance = base + a as usize;
                    wrapped = to_secondary;
                    proof {
                        let next = multi_read_state(primary@, secondary@, align, (i + 1) as nat);
                        assert(next->Ok_0.2 == els.push(rest@));
                        assert forall|j: int| 0 <= j < i + 1 implies (#[trigger] read@[j]).bytes()
                            == next->Ok_0.2[j] by {
                            if j < i {
                                assert(next->Ok_0.2[j] == els[j]);
                            }
                        }
                    }
                },
            }
            i = i + 1;
        }
        Ok((read, advance))
    }
}

impl SharedMemoryBufferWriter {
    pub closed spec fn spec_size(&self) -> usize {
        self.size
    }

    pub closed spec fn spec_alignment_pow2(&self) -> u8 {
        self.alignment_pow2
    }

    pub closed spec fn spec_write_status(&self) -> PtrStatus {
        self.write_status
    }

    /// A writer of a ring of `size` bytes starting at the published write status.
    pub fn new(size: usize, alignment_pow2: u8, write_status: PtrStatus) -> (r: Self)
        ensures
            r.spec_size() == size,
            r.spec_alignment_pow2() == alignment_pow2,
            r.spec_write_status() == write_status,
    {
        Self { size, alignment_pow2, write_status }
    }

    /// The ring's alignment exponent.
    pub fn alignment_pow2(&self) -> (r: u8)
        ensures
            r == self.spec_alignment_pow2(),
    {
        self.alignment_pow2
    }

    /// The local write status, to be published to the shared header.
    pub fn write_status(&self) -> (r: PtrStatus)
        ensures
            r == self.spec_write_status(),
    {
        self.write_status
    }

    /// Writes a packet into the ring's bytes and commits it by advancing the
    /// write pointer. The packet goes to the primary part of the writable
    /// region when its aligned size fits there; otherwise the wrap marker is
    /// left at the write pointer and the packet goes to the start of the
    /// buffer, and the pointer advances past the skipped primary part too.
    pub fn write_element(
        &mut self,
        element: &MultiFragmentPacketRef,
        ring: &mut [u8],
        read_status: PtrStatus,
    ) -> (r: Result<(), SharedMemoryTypedWriteError>)
        requires
            element.complete(),
            old(ring)@.len() == old(self).spec_size(),
            old(self).spec_size() > 0,
            2 * old(self).spec_size() <= usize::MAX,
            regions_valid(
                old(self).spec_write_status().spec_ptr(),
                old(self).spec_write_status().spec_wrap(),
                read_status.spec_ptr(),
                read_status.spec_wrap(),
                old(self).spec_size() as nat,
            ),
        ensures
            final(self).spec_size() == old(self).spec_size(),
            final(self).spec_alignment_pow2() == old(self).spec_alignment_pow2(),
            ({
                let (ps, pe, se) = spec_writable(
                    old(self).spec_write_status().spec_ptr(),
                    old(self).spec_write_status().spec_wrap(),
                    read_status.spec_ptr(),
                    read_status.spec_wrap(),
                    old(self).spec_size() as nat,
                );
                let plen = pe - ps;
                let n = mfp_packet_size(element.bytes());
                let packet = element.bytes().subrange(0, n);
                let a = align_pow2(n, old(self).spec_alignment_pow2() as nat);
                let plan = spec_write_plan(n, old(self).spec_alignment_pow2(), plen, se);
                &&& a <= plen ==> final(ring)@ == splice(old(ring)@, ps, packet)
                &&& a > plen && plen < 2 ==> final(ring)@ == old(ring)@
                &&& a > plen && plen >= 2 && a > se ==> final(ring)@ == with_wrap_marker(
                    old(ring)@,
                    ps,
                )
                &&& a > plen && plen >= 2 && a <= se ==> final(ring)@ == splice(
                    with_wrap_marker(old(ring)@, ps),
                    0,
                    packet,
                )
                &&& match plan {
                    Err(e) => r == Err::<(), SharedMemoryTypedWriteError>(e)
                        && final(self).spec_write_status() == old(self).spec_write_status(),
                    Ok(adv) => match spec_advance_check(
                        adv as usize,
                        old(self).spec_alignment_pow2(),
                        plen + se,
                    ) {
                        Err(e) => r == Err::<(), SharedMemoryTypedWriteError>(
                            SharedMemoryTypedWriteError::AdvanceWritePointerError(e),
                        ) && final(self).spec_write_status() == old(self).spec_write_status(),
                        Ok(()) => r is Ok && final(self).spec_write_status().spec_ptr() == 2 * (((old(
                            self,
                        ).spec_write_status().spec_ptr() + adv) % (old(self).spec_size() as int))
                            / 2) && final(self).spec_write_status().spec_wrap() == (old(
                            self,
                        ).spec_write_status().spec_wrap() != (((old(
                            self,
                        ).spec_write_status().spec_ptr() + adv) / (old(self).spec_size() as int))
                            % 2 == 1)),
                    },
                }
            }),
    {
        let reg = writable_region(self.write_status, read_status, self.size);
        let plen = reg.primary_end - reg.primary_start;
        let packet = element.raw_packet_data();
        let n = packet.len();
        let len = ring.len();
        proof {
            crate::mfp::lemma_align_pow2_bounds(n as int, self.alignment_pow2 as nat);
        }
        let fits = aligned_size_within(n as u32, self.alignment_pow2, len as u64);
        let in_primary = match fits {
            Some(a) => (a as usize) <= plen,
            None => false,
        };
        let advance: usize;
        if in_primary {
            let a = fits.unwrap();
            copy_into(ring, reg.primary_start, packet);
            advance = a as usize;
        } else {
            if plen < 2 {
                return Err(SharedMemoryTypedWriteError::NotEnoughSpace);
            }
            ring.set(reg.primary_start, 0x55);
            ring.set(reg.primary_start + 1, 0x55);
            let in_secondary = match fits {
                Some(a) => (a as usize) <= reg.secondary_end,
                None => false,
            };
            if !in_secondary {
                return Err(SharedMemoryTypedWriteError::NotEnoughSpace);
            }
            let a = fits.unwrap();
            copy_into(ring, 0, packet);
            advance = a as usize + plen;
        }
        match self.advance_write_pointer(advance, read_status) {
            Err(e) => Err(SharedMemoryTypedWriteError::AdvanceWritePointerError(e)),
            Ok(()) => Ok(()),
        }
    }

    /// Moves the write pointer `bytes` forward: `bytes` must be even, aligned
    /// to the ring and no more than what is writable.
    pub fn advance_write_pointer(&mut self, bytes: usize, read_status: PtrStatus) -> (r: Result<
        (),
        SharedMemoryBufferAdvanceError,
    >)
        requires
            old(self).spec_size() > 0,
            2 * old(self).spec_size() <= usize::MAX,
            regions_valid(
                old(self).spec_write_status().spec_ptr(),
                old(self).spec_write_status().spec_wrap(),
                read_status.spec_ptr(),
                read_status.spec_wrap(),
                old(self).spec_size() as nat,
            ),
        ensures
            final(self).spec_size() == old(self).spec_size(),
            final(self).spec_alignment_pow2() == old(self).spec_alignment_pow2(),
            ({
                let (ps, pe, se) = spec_writable(
                    old(self).spec_write_status().spec_ptr(),
                    old(self).spec_write_status().spec_wrap(),
                    read_status.spec_ptr(),
                    read_status.spec_wrap(),
                    old(self).spec_size() as nat,
                );
                let chk = spec_advance_check(bytes, old(self).spec_alignment_pow2(), (pe - ps) + se);
                &&& r == chk
                &&& r is Err ==> final(self).spec_write_status() == old(self).spec_write_status()
                &&& r is Ok ==> final(self).spec_write_status().spec_ptr() == 2 * (((old(
                    self,
                ).spec_write_status().spec_ptr() + bytes) % (old(self).spec_size() as int)) / 2)
                    && final(self).spec_write_status().spec_wrap() == (old(
                    self,
                ).spec_write_status().spec_wrap() != (((old(self).spec_write_status().spec_ptr()
                    + bytes) / (old(self).spec_size() as int)) % 2 == 1))
            }),
    {
        let reg = writable_region(self.write_status, read_status, self.size);
        let available = (reg.primary_end - reg.primary_start) + reg.secondary_end;
        match advance_check(bytes, self.alignment_pow2, available) {
            Err(e) => Err(e),
            Ok(()) => {
                self.write_status = self.write_status.add(bytes, self.size);
                Ok(())
            },
        }
    }
}

proof fn lemma_move_within(p: int, adv: int, size: int)
    requires
        0 <= p,
        0 < size,
        0 <= p + adv < size,
        (p + adv) % 2 == 0,
    ensures
        2 * (((p + adv) % size) / 2) == p + adv,
        ((p + adv) / size) % 2 == 0,
{
    vstd::arithmetic::div_mod::lemma_small_mod((p + adv) as nat, size as nat);
    vstd::arithmetic::div_mod::lemma_basic_div(p + adv, size);
}

proof fn lemma_move_once_around(q: int, size: int)
    requires
        0 <= q < size,
        q % 2 == 0,
    ensures
        2 * (((size + q) % size) / 2) == q,
        ((size + q) / size) % 2 == 1,
{
    vstd::arithmetic::div_mod::lemma_div_multiples_vanish_fancy(1, q, size);
    vstd::arithmetic::div_mod::lemma_mod_multiples_vanish(1, q, size);
    vstd::arithmetic::div_mod::lemma_small_mod(q as nat, size as nat);
}

/// On an empty ring (the reader at the writer's position), what a write
/// commits is what the reader finds next: a packet that fits before the end
/// of the buffer opens the readable region, which is exactly its aligned
/// size; a packet written at the start of the buffer, after the wrap marker,
/// is the readable region's secondary part, behind a primary part that opens
/// with the marker.
pub proof fn law_read_sees_written_packet(
    ring: Seq<u8>,
    packet: Seq<u8>,
    p: nat,
    w: bool,
    size: nat,
    align: u8,
)
    requires
        ring.len() == size,
        p < size,
        p % 2 == 0,
        packet.len() >= 2,
        align_pow2(packet.len() as int, align as nat) % 2 == 0,
        align_pow2(packet.len() as int, align as nat) <= size - p || (size - p >= 2
            && align_pow2(packet.len() as int, align as nat) <= p),
    ensures
        ({
            let a = align_pow2(packet.len() as int, align as nat);
            let plan = spec_write_plan(packet.len() as int, align, size - p, p as int);
            let adv = plan->Ok_0;
            let p2 = 2 * (((p + adv) % (size as int)) / 2);
            let w2 = (w != (((p + adv) / (size as int)) % 2 == 1));
            let (ps, pe, se) = spec_readable(p, w, p2 as nat, w2, size);
            &&& plan is Ok
            &&& a <= size - p ==> {
                let ring2 = splice(ring, p as int, packet);
                &&& ps == p && pe - ps == a && se == 0
                &&& ring2.subrange(ps, ps + packet.len()) == packet
            }
            &&& a > size - p ==> {
                let ring2 = splice(with_wrap_marker(ring, p as int), 0, packet);
                &&& ps == p && pe == size && se == a
                &&& ring2[ps] == 0x55u8 && ring2[ps + 1] == 0x55u8
                &&& ring2.subrange(0, packet.len() as int) == packet
            }
        }),
{
    let n = packet.len() as int;
    let a = align_pow2(n, align as nat);
    crate::mfp::lemma_align_pow2_bounds(n, align as nat);
    if a <= size - p {
        if p + a < size {
            lemma_move_within(p as int, a, size as int);
        } else {
            lemma_move_within(0, 0, size as int);
            vstd::arithmetic::div_mod::lemma_mod_self_0(size as int);
            vstd::arithmetic::div_mod::lemma_div_basics(size as int);
        }
        let ring2 = splice(ring, p as int, packet);
        assert(ring2.subrange(p as int, p + n) =~= packet);
    } else {
        assert(p + (a + (size - p)) == size + a);
        lemma_move_once_around(a, size as int);
        let ring1 = with_wrap_marker(ring, p as int);
        let ring2 = splice(ring1, 0, packet);
        assert(ring2.subrange(0, n) =~= packet);
        assert(ring2[p as int] == ring1[p as int]);
        assert(ring2[p as int + 1] == ring1[p as int + 1]);
    }
}

} // verus!
