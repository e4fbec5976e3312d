//! Status words of the shared-memory ring buffer.
//!
//! A status is a 64-bit word: bit 63 is the wraparound bit, flipped each time
//! the pointer wraps to the start of the buffer, and bits 62..0 hold the
//! pointer position divided by two. Equal pointers with equal wrap bits mean an
//! empty buffer; equal pointers with different wrap bits mean a full one.
use crate::mfp::{le32, le64, read_le32, read_le64};
use vstd::prelude::*;
use vstd::slice::SliceAdditionalExecFns;

verus! {

/// Mask of the pointer bits of a status word.
pub const PTR_MASK: u64 = 0x7FFF_FFFF_FFFF_FFFF;

/// Mask of the wraparound bit of a status word.
pub const WRAP_MASK: u64 = 0x8000_0000_0000_0000;

/// The pointer a status word encodes: twice its low 63 bits.
pub open spec fn status_ptr(s: u64) -> nat {
    2 * (s % 0x8000_0000_0000_0000) as nat
}

/// The wraparound bit of a status word.
pub open spec fn status_wrap(s: u64) -> bool {
    s >= 0x8000_0000_0000_0000
}

/// The position of a pointer on the doubled ring `[0, 2 * size)`: pointers on
/// the wrapped page count `size` further.
pub open spec fn logical_pos(ptr: nat, wrap: bool, size: nat) -> nat {
    if wrap {
        ptr + size
    } else {
        ptr
    }
}

proof fn lemma_decode(s: u64)
    ensures
        ((s & PTR_MASK) << 1u64) == 2 * (s % 0x8000_0000_0000_0000),
        ((s & WRAP_MASK) != 0) == (s >= 0x8000_0000_0000_0000),
{
    assert(((s & 0x7FFF_FFFF_FFFF_FFFFu64) << 1u64) == 2 * (s % 0x8000_0000_0000_0000)) by (bit_vector);
    assert(((s & 0x8000_0000_0000_0000u64) != 0) == (s >= 0x8000_0000_0000_0000)) by (bit_vector);
}

proof fn lemma_encode(x: u64, w: bool)
    requires
        x < 0x8000_0000_0000_0000,
    ensures
        (x | WRAP_MASK) % 0x8000_0000_0000_0000 == x,
        (x | WRAP_MASK) >= 0x8000_0000_0000_0000,
        x % 0x8000_0000_0000_0000 == x,
{
    assert((x | 0x8000_0000_0000_0000u64) % 0x8000_0000_0000_0000 == x) by (bit_vector)
        requires
            x < 0x8000_0000_0000_0000u64,
    ;
    assert((x | 0x8000_0000_0000_0000u64) >= 0x8000_0000_0000_0000) by (bit_vector);
}

proof fn lemma_split_move(t: int, b: int, n: int)
    requires
        n > 0,
        t >= 0,
        b >= 0,
    ensures
        (t % n + b) % n == (t + b) % n,
        (t + b) / n == t / n + (t % n + b) / n,
{
    let q1 = t / n;
    let r1 = t % n;
    vstd::arithmetic::div_mod::lemma_fundamental_div_mod(t, n);
    let q2 = (r1 + b) / n;
    let r2 = (r1 + b) % n;
    vstd::arithmetic::div_mod::lemma_fundamental_div_mod(r1 + b, n);
    assert(0 <= r2 < n);
    assert(t + b == (q1 + q2) * n + r2) by (nonlinear_arith)
        requires
            t == n * q1 + r1,
            r1 + b == n * q2 + r2,
    ;
    vstd::arithmetic::div_mod::lemma_fundamental_div_mod_converse(t + b, n, q1 + q2, r2);
}

proof fn lemma_even_mod(t: int, n: int)
    requires
        n > 0,
        t >= 0,
        t % 2 == 0,
        n % 2 == 0,
    ensures
        (t % n) % 2 == 0,
        2 * ((t % n) / 2) == t % n,
{
    vstd::arithmetic::div_mod::lemma_fundamental_div_mod(t, n);
    let q = t / n;
    let r = t % n;
    assert(r % 2 == 0) by (nonlinear_arith)
        requires
            t == n * q + r,
            t % 2 == 0,
            n % 2 == 0,
    {
        assert(n == 2 * (n / 2));
        assert(t == 2 * (t / 2));
        assert(r == 2 * (t / 2 - (n / 2) * q));
    }
}

/// Moving a status forward by `a` and then by `b` bytes ends where moving it
/// by `a + b` bytes does, pointer and wraparound bit alike, when the ring's
/// size and both distances are even and the pointer lies inside the ring.
pub proof fn law_moves_compose(ptr: nat, wrap: bool, a: nat, b: nat, size: nat)
    requires
        size > 0,
        size % 2 == 0,
        a % 2 == 0,
        b % 2 == 0,
        ptr % 2 == 0,
        ptr < size,
    ensures
        moved_ptr(moved_ptr(ptr, a, size), b, size) == moved_ptr(ptr, a + b, size),
        moved_wrap(moved_ptr(ptr, a, size), moved_wrap(ptr, wrap, a, size), b, size) == moved_wrap(
            ptr,
            wrap,
            a + b,
            size,
        ),
{
    let n = size as int;
    let t1: int = (ptr + a) as int;
    lemma_even_mod(t1, n);
    let p1 = moved_ptr(ptr, a, size);
    assert(p1 == t1 % n);
    lemma_split_move(t1, b as int, n);
    let t2: int = (p1 + b) as int;
    assert(t2 % 2 == 0);
    lemma_even_mod(t2, n);
    lemma_even_mod(t1 + b, n);
    let q1 = t1 / n;
    let q2 = t2 / n;
    assert((t1 + b) / n == q1 + q2);
    assert(((q1 + q2) % 2 == 1) == ((q1 % 2 == 1) != (q2 % 2 == 1)));
    assert(ptr + (a + b) == t1 + b);
}

/// A decoded ring-buffer status word.
#[derive(Clone, Copy)]
pub struct PtrStatus {
    status: u64,
}

impl PtrStatus {
    /// The raw status word.
    pub closed spec fn word(&self) -> u64 {
        self.status
    }

    /// The pointer this status encodes.
    pub open spec fn spec_ptr(&self) -> nat {
        status_ptr(self.word())
    }

    /// The wraparound bit of this status.
    pub open spec fn spec_wrap(&self) -> bool {
        status_wrap(self.word())
    }

    /// Wraps a raw status word.
    pub fn new(status: u64) -> (r: PtrStatus)
        ensures
            r.word() == status,
    {
        Self { status }
    }

    /// The raw status word.
    pub fn status(&self) -> (r: u64)
        ensures
            r == self.word(),
    {
        self.status
    }

    /// The pointer position.
    pub fn ptr(&self) -> (r: u64)
        ensures
            r == self.spec_ptr(),
    {
        proof {
            lemma_decode(self.status);
        }
        (self.status & PTR_MASK) << 1
    }

    /// Sets the pointer position, rounded down to an even value; the
    /// wraparound bit is kept.
    pub fn set_ptr(&mut self, ptr: u64)
        ensures
            final(self).spec_ptr() == 2 * (ptr / 2),
            final(self).spec_wrap() == old(self).spec_wrap(),
    {
        let s = self.status;
        let n = (s & WRAP_MASK) | ((ptr >> 1) & PTR_MASK);
        assert(n % 0x8000_0000_0000_0000 == ptr / 2) by (bit_vector)
            requires
                n == (s & 0x8000_0000_0000_0000u64) | ((ptr >> 1u64) & 0x7FFF_FFFF_FFFF_FFFFu64),
        ;
        assert((n >= 0x8000_0000_0000_0000) == (s >= 0x8000_0000_0000_0000)) by (bit_vector)
            requires
                n == (s & 0x8000_0000_0000_0000u64) | ((ptr >> 1u64) & 0x7FFF_FFFF_FFFF_FFFFu64),
        ;
        self.status = n;
    }

    /// The wraparound bit.
    pub fn wrap(&self) -> (r: bool)
        ensures
            r == self.spec_wrap(),
    {
        proof {
            lemma_decode(self.status);
        }
        (self.status & WRAP_MASK) != 0
    }

    /// Sets the wraparound bit; the pointer is kept.
    pub fn set_wrap(&mut self, wrap: bool)
        ensures
            final(self).spec_wrap() == wrap,
            final(self).spec_ptr() == old(self).spec_ptr(),
    {
        let s = self.status;
        if wrap {
            self.status = s | WRAP_MASK;
            assert((s | 0x8000_0000_0000_0000u64) >= 0x8000_0000_0000_0000) by (bit_vector);
            assert((s | 0x8000_0000_0000_0000u64) % 0x8000_0000_0000_0000 == s
                % 0x8000_0000_0000_0000) by (bit_vector);
        } else {
            self.status = s & !WRAP_MASK;
            assert((s & !0x8000_0000_0000_0000u64) < 0x8000_0000_0000_0000) by (bit_vector);
            assert((s & !0x8000_0000_0000_0000u64) % 0x8000_0000_0000_0000 == s
                % 0x8000_0000_0000_0000) by (bit_vector);
        }
    }

    /// Flips the wraparound bit; the pointer is kept.
    pub fn toggle_wrap(&mut self)
        ensures
            final(self).spec_wrap() == !old(self).spec_wrap(),
            final(self).spec_ptr() == old(self).spec_ptr(),
    {
        let s = self.status;
        self.status = s ^ WRAP_MASK;
        assert(((s ^ 0x8000_0000_0000_0000u64) >= 0x8000_0000_0000_0000) == !(s
            >= 0x8000_0000_0000_0000)) by (bit_vector);
        assert((s ^ 0x8000_0000_0000_0000u64) % 0x8000_0000_0000_0000 == s % 0x8000_0000_0000_0000)
            by (bit_vector);
    }

    /// The status after moving the pointer `offset` bytes forward on a ring of
    /// `buffer_size` bytes: the position wraps modulo the size (rounded down to
    /// an even value) and the wraparound bit flips once per wrap.
    pub fn add(self, offset: usize, buffer_size: usize) -> (r: PtrStatus)
        requires
            buffer_size > 0,
            self.spec_ptr() + offset <= usize::MAX,
        ensures
            r.spec_ptr() == moved_ptr(self.spec_ptr(), offset as nat, buffer_size as nat),
            r.spec_wrap() == moved_wrap(
                self.spec_ptr(),
                self.spec_wrap(),
                offset as nat,
                buffer_size as nat,
            ),
    {
        let current_ptr = self.ptr() as usize;
        let total_distance = current_ptr + offset;
        let wrap_count = total_distance / buffer_size;
        let final_position = total_distance % buffer_size;
        let current_wrap = self.wrap();
        let new_wrap = current_wrap ^ (wrap_count % 2 == 1);
        let x = (final_position as u64) >> 1;
        assert(x == final_position / 2) by (bit_vector)
            requires
                x == (final_position as u64) >> 1u64,
        ;
        proof {
            lemma_encode(x, new_wrap);
        }
        let mut new_status = x;
        if new_wrap {
            new_status = new_status | WRAP_MASK;
        }
        Self { status: new_status }
    }

    /// In-place form of [`add`](Self::add).
    pub fn add_assign(&mut self, offset: usize, buffer_size: usize)
        requires
            buffer_size > 0,
            old(self).spec_ptr() + offset <= usize::MAX,
        ensures
            final(self).spec_ptr() == moved_ptr(old(self).spec_ptr(), offset as nat, buffer_size as nat),
            final(self).spec_wrap() == moved_wrap(
                old(self).spec_ptr(),
                old(self).spec_wrap(),
                offset as nat,
                buffer_size as nat,
            ),
    {
        let current_ptr = self.ptr() as usize;
        let total_distance = current_ptr + offset;
        let wrap_count = total_distance / buffer_size;
        let final_position = total_distance % buffer_size;
        if wrap_count % 2 == 1 {
            self.toggle_wrap();
        }
        let s = self.status;
        let x = (final_position as u64) >> 1;
        assert(x == final_position / 2) by (bit_vector)
            requires
                x == (final_position as u64) >> 1u64,
        ;
        let n = (s & WRAP_MASK) | x;
        assert(n % 0x8000_0000_0000_0000 == x) by (bit_vector)
            requires
                n == (s & 0x8000_0000_0000_0000u64) | x,
                x < 0x8000_0000_0000_0000u64,
        ;
        assert((n >= 0x8000_0000_0000_0000) == (s >= 0x8000_0000_0000_0000)) by (bit_vector)
            requires
                n == (s & 0x8000_0000_0000_0000u64) | x,
                x < 0x8000_0000_0000_0000u64,
        ;
        self.status = n;
    }
}

/// Bytes available to read between a write status `(wp, ww)` and a read
/// status `(rp, rw)` on a ring of `size` bytes.
pub open spec fn avail_read(wp: nat, ww: bool, rp: nat, rw: bool, size: nat) -> int {
    if ww == rw {
        wp - rp
    } else {
        size - rp + wp
    }
}

/// Bytes available to write between a write and a read status.
pub open spec fn avail_write(wp: nat, ww: bool, rp: nat, rw: bool, size: nat) -> int {
    if ww == rw {
        if wp >= rp {
            size - wp + rp
        } else {
            rp - wp
        }
    } else {
        rp - wp
    }
}

/// The ring invariant the writer and the reader keep: both pointers inside the
/// buffer, the write pointer not behind the read pointer on the same page and
/// not ahead of it once it has wrapped once more.
pub open spec fn consistent(wp: nat, ww: bool, rp: nat, rw: bool, size: nat) -> bool {
    &&& wp < size
    &&& rp < size
    &&& ww == rw ==> rp <= wp
    &&& ww != rw ==> wp <= rp
}

/// Header of the shared memory ring buffer, laid out as the C++ event builder
/// expects: write status, read status, usable size, alignment exponent, id.
pub struct CircularBufferStatus {
    write_status: u64,
    read_status: u64,
    size: usize,
    alignment_2pow: usize,
    id: i32,
}

impl CircularBufferStatus {
    pub closed spec fn spec_write(&self) -> PtrStatus {
        PtrStatus { status: self.write_status }
    }

    pub closed spec fn spec_read(&self) -> PtrStatus {
        PtrStatus { status: self.read_status }
    }

    pub closed spec fn spec_size(&self) -> usize {
        self.size
    }

    pub closed spec fn spec_alignment_2pow(&self) -> usize {
        self.alignment_2pow
    }

    pub closed spec fn spec_id(&self) -> i32 {
        self.id
    }

    /// The status of an empty ring of `size` bytes.
    pub closed spec fn from_spec(size: usize, alignment_2pow: usize, id: i32) -> CircularBufferStatus {
        CircularBufferStatus { write_status: 0, read_status: 0, size, alignment_2pow, id }
    }

    /// An empty ring of `size` bytes: both statuses are zero.
    pub fn new(size: usize, alignment_2pow: usize, id: i32) -> (r: CircularBufferStatus)
        ensures
            r == CircularBufferStatus::from_spec(size, alignment_2pow, id),
            r.spec_write().word() == 0,
            r.spec_read().word() == 0,
            r.spec_size() == size,
            r.spec_alignment_2pow() == alignment_2pow,
            r.spec_id() == id,
    {
        Self { write_status: 0, read_status: 0, size, alignment_2pow, id }
    }

    /// Empty: equal pointers on the same page.
    pub fn buffer_is_empty(write_status: PtrStatus, read_status: PtrStatus) -> (r: bool)
        ensures
            r == (write_status.spec_ptr() == read_status.spec_ptr() && write_status.spec_wrap()
                == read_status.spec_wrap()),
    {
        write_status.ptr() == read_status.ptr() && write_status.wrap() == read_status.wrap()
    }

    /// Whether this ring is empty.
    pub fn is_empty(&self) -> (r: bool)
        ensures
            r == (self.spec_write().spec_ptr() == self.spec_read().spec_ptr()
                && self.spec_write().spec_wrap() == self.spec_read().spec_wrap()),
    {
        Self::buffer_is_empty(self.write_status(), self.read_status())
    }

    /// Full: equal pointers on different pages.
    pub fn buffer_is_full(write_status: PtrStatus, read_status: PtrStatus) -> (r: bool)
        ensures
            r == (write_status.spec_ptr() == read_status.spec_ptr() && write_status.spec_wrap()
                != read_status.spec_wrap()),
    {
        write_status.ptr() == read_status.ptr() && write_status.wrap() != read_status.wrap()
    }

    /// Whether this ring is full.
    pub fn is_full(&self) -> (r: bool)
        ensures
            r == (self.spec_write().spec_ptr() == self.spec_read().spec_ptr()
                && self.spec_write().spec_wrap() != self.spec_read().spec_wrap()),
    {
        Self::buffer_is_full(self.write_status(), self.read_status())
    }

    /// Whether both pointers are on the same page (equal wraparound bits).
    pub fn same_page(&self) -> (r: bool)
        ensures
            r == (self.spec_write().spec_wrap() == self.spec_read().spec_wrap()),
    {
        proof {
            lemma_decode(self.write_status);
            lemma_decode(self.read_status);
        }
        let a = self.write_status & WRAP_MASK;
        let b = self.read_status & WRAP_MASK;
        let ws = self.write_status;
        let rs = self.read_status;
        assert((a == b) == ((ws >= 0x8000_0000_0000_0000) == (rs >= 0x8000_0000_0000_0000)))
            by (bit_vector)
            requires
                a == ws & 0x8000_0000_0000_0000u64,
                b == rs & 0x8000_0000_0000_0000u64,
        ;
        a == b
    }

    /// The write status.
    pub fn write_status(&self) -> (r: PtrStatus)
        ensures
            r == self.spec_write(),
    {
        PtrStatus::new(self.write_status)
    }

    /// The read status.
    pub fn read_status(&self) -> (r: PtrStatus)
        ensures
            r == self.spec_read(),
    {
        PtrStatus::new(self.read_status)
    }

    /// Replaces the write status.
    pub fn set_write_status(&mut self, new_status: PtrStatus)
        ensures
            final(self).spec_write() == new_status,
            final(self).spec_read() == old(self).spec_read(),
            final(self).spec_size() == old(self).spec_size(),
            final(self).spec_alignment_2pow() == old(self).spec_alignment_2pow(),
            final(self).spec_id() == old(self).spec_id(),
    {
        self.write_status = new_status.status;
    }

    /// Replaces the read status.
    pub fn set_read_status(&mut self, new_status: PtrStatus)
        ensures
            final(self).spec_read() == new_status,
            final(self).spec_write() == old(self).spec_write(),
            final(self).spec_size() == old(self).spec_size(),
            final(self).spec_alignment_2pow() == old(self).spec_alignment_2pow(),
            final(self).spec_id() == old(self).spec_id(),
    {
        self.read_status = new_status.status;
    }

    /// Free bytes from the write pointer to the end of the buffer (or to the
    /// read pointer once the writer has wrapped ahead of the reader).
    pub fn buffer_tail_free_space(
        write_status: PtrStatus,
        read_status: PtrStatus,
        buffer_size: usize,
    ) -> (r: usize)
        requires
            write_status.spec_wrap() == read_status.spec_wrap() ==> write_status.spec_ptr()
                <= buffer_size,
            write_status.spec_wrap() != read_status.spec_wrap() ==> read_status.spec_ptr()
                - write_status.spec_ptr() <= usize::MAX,
        ensures
            r == if write_status.spec_wrap() == read_status.spec_wrap() {
                buffer_size - write_status.spec_ptr()
            } else if read_status.spec_ptr() > write_status.spec_ptr() {
                read_status.spec_ptr() - write_status.spec_ptr()
            } else {
                0
            },
    {
        if write_status.wrap() == read_status.wrap() {
            buffer_size - write_status.ptr() as usize
        } else {
            if read_status.ptr() > write_status.ptr() {
                (read_status.ptr() - write_status.ptr()) as usize
            } else {
                0
            }
        }
    }

    /// Free bytes from the start of the buffer to the read pointer, when the
    /// writer has not wrapped ahead.
    pub fn buffer_head_free_space(write_status: PtrStatus, read_status: PtrStatus) -> (r: usize)
        requires
            read_status.spec_ptr() <= usize::MAX,
        ensures
            r == if write_status.spec_wrap() == read_status.spec_wrap() {
                read_status.spec_ptr()
            } else {
                0
            },
    {
        if write_status.wrap() == read_status.wrap() {
            read_status.ptr() as usize
        } else {
            0
        }
    }

    /// Bytes the writer may still write.
    pub fn buffer_available_to_write(
        write_status: PtrStatus,
        read_status: PtrStatus,
        buffer_size: usize,
    ) -> (r: usize)
        requires
            write_status.spec_wrap() == read_status.spec_wrap() && write_status.spec_ptr()
                >= read_status.spec_ptr() ==> write_status.spec_ptr() <= buffer_size
                && buffer_size - write_status.spec_ptr() + read_status.spec_ptr() <= usize::MAX,
            !(write_status.spec_wrap() == read_status.spec_wrap() && write_status.spec_ptr()
                >= read_status.spec_ptr()) ==> read_status.spec_ptr() - write_status.spec_ptr()
                <= usize::MAX && write_status.spec_ptr() <= read_status.spec_ptr(),
        ensures
            r == avail_write(
                write_status.spec_ptr(),
                write_status.spec_wrap(),
                read_status.spec_ptr(),
                read_status.spec_wrap(),
                buffer_size as nat,
            ),
    {
        if write_status.wrap() == read_status.wrap() {
            if write_status.ptr() >= read_status.ptr() {
                (buffer_size - write_status.ptr() as usize) + read_status.ptr() as usize
            } else {
                (read_status.ptr() - write_status.ptr()) as usize
            }
        } else {
            (read_status.ptr() - write_status.ptr()) as usize
        }
    }

    /// Bytes the reader may still read.
    pub fn buffer_available_to_read(
        write_status: PtrStatus,
        read_status: PtrStatus,
        buffer_size: usize,
    ) -> (r: usize)
        requires
            write_status.spec_wrap() == read_status.spec_wrap() ==> read_status.spec_ptr()
                <= write_status.spec_ptr() && write_status.spec_ptr() - read_status.spec_ptr()
                <= usize::MAX,
            write_status.spec_wrap() != read_status.spec_wrap() ==> read_status.spec_ptr()
                <= buffer_size && buffer_size - read_status.spec_ptr() + write_status.spec_ptr()
                <= usize::MAX,
        ensures
            r == avail_read(
                write_status.spec_ptr(),
                write_status.spec_wrap(),
                read_status.spec_ptr(),
                read_status.spec_wrap(),
                buffer_size as nat,
            ),
    {
        if write_status.wrap() == read_status.wrap() {
            (write_status.ptr() - read_status.ptr()) as usize
        } else {
            (buffer_size - read_status.ptr() as usize) + write_status.ptr() as usize
        }
    }

    /// Tail free space of this ring.
    pub fn tail_free_space(&self) -> (r: usize)
        requires
            self.spec_write().spec_wrap() == self.spec_read().spec_wrap()
                ==> self.spec_write().spec_ptr() <= self.spec_size(),
            self.spec_write().spec_wrap() != self.spec_read().spec_wrap()
                ==> self.spec_read().spec_ptr() - self.spec_write().spec_ptr() <= usize::MAX,
        ensures
            r == if self.spec_write().spec_wrap() == self.spec_read().spec_wrap() {
                self.spec_size() - self.spec_write().spec_ptr()
            } else if self.spec_read().spec_ptr() > self.spec_write().spec_ptr() {
                self.spec_read().spec_ptr() - self.spec_write().spec_ptr()
            } else {
                0
            },
    {
        Self::buffer_tail_free_space(self.write_status(), self.read_status(), self.size)
    }

    /// Head free space of this ring.
    pub fn head_free_space(&self) -> (r: usize)
        requires
            self.spec_read().spec_ptr() <= usize::MAX,
        ensures
            r == if self.spec_write().spec_wrap() == self.spec_read().spec_wrap() {
                self.spec_read().spec_ptr()
            } else {
                0
            },
    {
        Self::buffer_head_free_space(self.write_status(), self.read_status())
    }

    /// Bytes the writer of this ring may still write.
    pub fn available_to_write(&self) -> (r: usize)
        requires
            consistent(
                self.spec_write().spec_ptr(),
                self.spec_write().spec_wrap(),
                self.spec_read().spec_ptr(),
                self.spec_read().spec_wrap(),
                self.spec_size() as nat,
            ),
        ensures
            r == avail_write(
                self.spec_write().spec_ptr(),
                self.spec_write().spec_wrap(),
                self.spec_read().spec_ptr(),
                self.spec_read().spec_wrap(),
                self.spec_size() as nat,
            ),
    {
        Self::buffer_available_to_write(self.write_status(), self.read_status(), self.size)
    }

    /// Bytes the reader of this ring may still read.
    pub fn available_to_read(&self) -> (r: usize)
        requires
            consistent(
                self.spec_write().spec_ptr(),
                self.spec_write().spec_wrap(),
                self.spec_read().spec_ptr(),
                self.spec_read().spec_wrap(),
                self.spec_size() as nat,
            ),
        ensures
            r == avail_read(
                self.spec_write().spec_ptr(),
                self.spec_write().spec_wrap(),
                self.spec_read().spec_ptr(),
                self.spec_read().spec_wrap(),
                self.spec_size() as nat,
            ),
    {
        Self::buffer_available_to_read(self.write_status(), self.read_status(), self.size)
    }

    /// Usable size of the ring in bytes.
    pub fn size(&self) -> (r: usize)
        ensures
            r == self.spec_size(),
    {
        self.size
    }

    /// Alignment of the ring's entries, as a power of two.
    pub fn alignment_pow2(&self) -> (r: usize)
        ensures
            r == self.spec_alignment_2pow(),
    {
        self.alignment_2pow
    }
}

/// Size of the status header as it lies at the start of the shared memory:
/// two status words, the size, the alignment and the id, packed.
pub const STATUS_HEADER_SIZE: usize = 36;

/// The header's bytes hold the given status: little-endian status words,
/// size and alignment (eight bytes each, read into a `usize`), then the id's
/// 32 bits.
pub open spec fn header_holds(b: Seq<u8>, s: CircularBufferStatus) -> bool {
    &&& b.len() >= STATUS_HEADER_SIZE
    &&& le64(b, 0) == s.spec_write().word()
    &&& le64(b, 8) == s.spec_read().word()
    &&& le64(b, 16) as usize == s.spec_size()
    &&& le64(b, 24) as usize == s.spec_alignment_2pow()
    &&& le32(b, 32) == s.spec_id() as u32
}

proof fn lemma_le64_bytes(v: u64, b: Seq<u8>, o: int)
    requires
        0 <= o,
        o + 8 <= b.len(),
        b[o] == (v & 0xff) as u8,
        b[o + 1] == ((v >> 8) & 0xff) as u8,
        b[o + 2] == ((v >> 16) & 0xff) as u8,
        b[o + 3] == ((v >> 24) & 0xff) as u8,
        b[o + 4] == ((v >> 32) & 0xff) as u8,
        b[o + 5] == ((v >> 40) & 0xff) as u8,
        b[o + 6] == ((v >> 48) & 0xff) as u8,
        b[o + 7] == ((v >> 56) & 0xff) as u8,
    ensures
        le64(b, o) == v,
{
    let b0 = (v & 0xff) as u8;
    let b1 = ((v >> 8) & 0xff) as u8;
    let b2 = ((v >> 16) & 0xff) as u8;
    let b3 = ((v >> 24) & 0xff) as u8;
    let b4 = ((v >> 32) & 0xff) as u8;
    let b5 = ((v >> 40) & 0xff) as u8;
    let b6 = ((v >> 48) & 0xff) as u8;
    let b7 = ((v >> 56) & 0xff) as u8;
    assert(v == b0 + 256 * b1 + 65536 * (b2 + 256 * b3) + 4294967296 * (b4 + 256 * b5 + 65536 * (
    b6 + 256 * b7))) by (bit_vector)
        requires
            b0 == (v & 0xff) as u8,
            b1 == ((v >> 8) & 0xff) as u8,
            b2 == ((v >> 16) & 0xff) as u8,
            b3 == ((v >> 24) & 0xff) as u8,
            b4 == ((v >> 32) & 0xff) as u8,
            b5 == ((v >> 40) & 0xff) as u8,
            b6 == ((v >> 48) & 0xff) as u8,
            b7 == ((v >> 56) & 0xff) as u8,
    ;
}

fn push_le64(out: &mut Vec<u8>, v: u64)
    ensures
        final(out)@.len() == old(out)@.len() + 8,
        final(out)@.subrange(0, old(out)@.len() as int) == old(out)@,
        le64(final(out)@, old(out)@.len() as int) == v,
{
    let ghost start = out@.len();
    out.push((v & 0xff) as u8);
    out.push(((v >> 8) & 0xff) as u8);
    out.push(((v >> 16) & 0xff) as u8);
    out.push(((v >> 24) & 0xff) as u8);
    out.push(((v >> 32) & 0xff) as u8);
    out.push(((v >> 40) & 0xff) as u8);
    out.push(((v >> 48) & 0xff) as u8);
    out.push(((v >> 56) & 0xff) as u8);
    proof {
        lemma_le64_bytes(v, out@, start as int);
        assert(out@.subrange(0, start as int) =~= old(out)@);
    }
}

fn store_le64(bytes: &mut [u8], o: usize, v: u64)
    requires
        o + 8 <= old(bytes)@.len(),
    ensures
        final(bytes)@.len() == old(bytes)@.len(),
        le64(final(bytes)@, o as int) == v,
        forall|i: int|
            0 <= i < old(bytes)@.len() && !(o <= i < o + 8) ==> final(bytes)@[i] == old(bytes)@[i],
{
    let n = bytes.len();
    assert(o + 8 <= n);
    bytes.set(o, (v & 0xff) as u8);
    bytes.set(o + 1, ((v >> 8) & 0xff) as u8);
    bytes.set(o + 2, ((v >> 16) & 0xff) as u8);
    bytes.set(o + 3, ((v >> 24) & 0xff) as u8);
    bytes.set(o + 4, ((v >> 32) & 0xff) as u8);
    bytes.set(o + 5, ((v >> 40) & 0xff) as u8);
    bytes.set(o + 6, ((v >> 48) & 0xff) as u8);
    bytes.set(o + 7, ((v >> 56) & 0xff) as u8);
    proof {
        lemma_le64_bytes(v, bytes@, o as int);
    }
}

/// Stores a write status in the header at the start of `header`; the rest
/// of the bytes are kept.
pub fn store_write_status(header: &mut [u8], status: PtrStatus)
    requires
        old(header)@.len() >= STATUS_HEADER_SIZE,
    ensures
        final(header)@.len() == old(header)@.len(),
        le64(final(header)@, 0) == status.word(),
        forall|i: int| 8 <= i < old(header)@.len() ==> final(header)@[i] == old(header)@[i],
{
    store_le64(header, 0, status.status());
}

/// Stores a read status in the header at the start of `header`; the rest
/// of the bytes are kept.
pub fn store_read_status(header: &mut [u8], status: PtrStatus)
    requires
        old(header)@.len() >= STATUS_HEADER_SIZE,
    ensures
        final(header)@.len() == old(header)@.len(),
        le64(final(header)@, 8) == status.word(),
        forall|i: int|
            0 <= i < old(header)@.len() && !(8 <= i < 16) ==> final(header)@[i] == old(header)@[i],
{
    store_le64(header, 8, status.status());
}

impl CircularBufferStatus {
    /// The header's bytes as they lie in shared memory.
    pub fn to_bytes(&self) -> (r: Vec<u8>)
        ensures
            r@.len() == STATUS_HEADER_SIZE,
            header_holds(r@, *self),
            le64(r@, 16) == self.spec_size(),
            le64(r@, 24) == self.spec_alignment_2pow(),
    {
        let mut out: Vec<u8> = Vec::new();
        push_le64(&mut out, self.write_status);
        push_le64(&mut out, self.read_status);
        push_le64(&mut out, self.size as u64);
        push_le64(&mut out, self.alignment_2pow as u64);
        let ghost before_id = out@;
        let id_bits = self.id as u32;
        push_le64(&mut out, id_bits as u64);
        proof {
            assert(le64(out@, 32) == id_bits as u64);
            assert(le32(out@, 36) == 0) by {
                assert(le64(out@, 32) == le32(out@, 32) + 4294967296 * le32(out@, 36));
            }
        }
        out.truncate(STATUS_HEADER_SIZE);
        proof {
            assert(le64(out@, 0) == self.write_status);
        }
        out
    }

    /// The status that the first bytes of `bytes` hold, if there are enough.
    pub fn from_bytes(bytes: &[u8]) -> (r: Option<CircularBufferStatus>)
        ensures
            bytes@.len() < STATUS_HEADER_SIZE ==> r is None,
            bytes@.len() >= STATUS_HEADER_SIZE ==> (r matches Some(s) && header_holds(bytes@, s)),
    {
        if bytes.len() < STATUS_HEADER_SIZE {
            return None;
        }
        let id_bits = read_le32(bytes, 32);
        let id = id_bits as i32;
        proof {
            assert((id_bits as i32) as u32 == id_bits) by (bit_vector);
        }
        Some(
            CircularBufferStatus {
                write_status: read_le64(bytes, 0),
                read_status: read_le64(bytes, 8),
                size: read_le64(bytes, 16) as usize,
                alignment_2pow: read_le64(bytes, 24) as usize,
                id,
            },
        )
    }
}

/// The header's bytes determine the status they hold: reading back the bytes
/// that a status was written as gives that status again.
pub proof fn law_header_determines_status(
    b: Seq<u8>,
    s1: CircularBufferStatus,
    s2: CircularBufferStatus,
)
    requires
        header_holds(b, s1),
        header_holds(b, s2),
    ensures
        s1 == s2,
{
    let i1 = s1.id;
    let i2 = s2.id;
    assert(i1 as u32 == i2 as u32 ==> i1 == i2) by (bit_vector);
}

/// In a consistent ring, what can be read and what can be written always add
/// up to the size of the buffer.
pub proof fn law_read_plus_write_is_size(wp: nat, ww: bool, rp: nat, rw: bool, size: nat)
    requires
        consistent(wp, ww, rp, rw, size),
    ensures
        avail_read(wp, ww, rp, rw, size) + avail_write(wp, ww, rp, rw, size) == size,
{
}

/// In a consistent ring, the buffer is empty exactly when nothing can be read,
/// and full exactly when nothing can be written.
pub proof fn law_empty_and_full(wp: nat, ww: bool, rp: nat, rw: bool, size: nat)
    requires
        consistent(wp, ww, rp, rw, size),
    ensures
        (wp == rp && ww == rw) <==> avail_read(wp, ww, rp, rw, size) == 0,
        (wp == rp && ww != rw) <==> avail_write(wp, ww, rp, rw, size) == 0,
{
}

/// The pointer of a status after moving it `k` bytes on a ring of `size` bytes
/// (as [`PtrStatus::add`] computes it).
pub open spec fn moved_ptr(p: nat, k: nat, size: nat) -> nat {
    (2 * ((((p + k) as int) % (size as int)) / 2)) as nat
}

/// The wraparound bit of a status after moving it `k` bytes.
pub open spec fn moved_wrap(p: nat, w: bool, k: nat, size: nat) -> bool {
    w != ((((p + k) as int) / (size as int)) % 2 == 1)
}

proof fn lemma_move_logical(p: nat, w: bool, k: nat, size: nat)
    requires
        size > 0,
        size % 2 == 0,
        p % 2 == 0,
        k % 2 == 0,
        p < size,
    ensures
        moved_ptr(p, k, size) < size,
        logical_pos(moved_ptr(p, k, size), moved_wrap(p, w, k, size), size) == ((logical_pos(
            p,
            w,
            size,
        ) + k) as int) % ((2 * size) as int),
{
    let x = (p + k) as int;
    let s = size as int;
    let q = x / s;
    let m = x % s;
    vstd::arithmetic::div_mod::lemma_fundamental_div_mod(x, s);
    vstd::arithmetic::div_mod::lemma_mod_bound(x, s);
    assert(m % 2 == 0) by {
        assert(x == s * q + m);
        vstd::arithmetic::div_mod::lemma_mod_multiples_basic(q * (s / 2), 2);
        assert(s * q == 2 * (q * (s / 2))) by (nonlinear_arith)
            requires
                s % 2 == 0,
        ;
    }
    assert(2 * (m / 2) == m);
    let wb: int = if w {
        1
    } else {
        0
    };
    let l = p + (if w {
        size
    } else {
        0
    }) + k;
    assert(l == m + s * (q + wb)) by (nonlinear_arith)
        requires
            x == s * q + m,
            l == x + s * wb,
    ;
    let t = (q + wb) % 2;
    vstd::arithmetic::div_mod::lemma_fundamental_div_mod(q + wb, 2);
    let h = (q + wb) / 2;
    assert(l == m + s * t + (2 * s) * h) by (nonlinear_arith)
        requires
            l == m + s * (q + wb),
            q + wb == 2 * h + t,
    ;
    assert(0 <= m + s * t < 2 * s) by (nonlinear_arith)
        requires
            0 <= m < s,
            0 <= t <= 1,
    ;
    vstd::arithmetic::div_mod::lemma_mod_multiples_vanish(h, m + s * t, 2 * s);
    vstd::arithmetic::div_mod::lemma_small_mod((m + s * t) as nat, (2 * s) as nat);
    assert((q % 2 == 1) == (t != wb)) by {
        vstd::arithmetic::div_mod::lemma_fundamental_div_mod(q, 2);
    }
    assert((l as int) % (2 * s) == m + s * t);
    let nw = moved_wrap(p, w, k, size);
    assert(nw == (t == 1));
    assert(moved_ptr(p, k, size) == m);
    if t == 1 {
        assert(s * t == s) by (nonlinear_arith)
            requires
                t == 1,
        ;
        assert(logical_pos(moved_ptr(p, k, size), nw, size) == m + s);
    } else {
        assert(t == 0);
        assert(s * t == 0) by (nonlinear_arith)
            requires
                t == 0,
        ;
        assert(logical_pos(moved_ptr(p, k, size), nw, size) == m);
    }
    assert(logical_pos(moved_ptr(p, k, size), nw, size) == m + s * t);
    assert(logical_pos(p, w, size) + k == l);
}

/// Advancing the writer by `k` bytes, at most what it may write, keeps the ring
/// consistent, makes exactly `k` more bytes readable and `k` fewer writable.
pub proof fn law_write_advance(wp: nat, ww: bool, rp: nat, rw: bool, size: nat, k: nat)
    requires
        consistent(wp, ww, rp, rw, size),
        size % 2 == 0,
        wp % 2 == 0,
        rp % 2 == 0,
        k % 2 == 0,
        k <= avail_write(wp, ww, rp, rw, size),
    ensures
        consistent(moved_ptr(wp, k, size), moved_wrap(wp, ww, k, size), rp, rw, size),
        avail_read(moved_ptr(wp, k, size), moved_wrap(wp, ww, k, size), rp, rw, size)
            == avail_read(wp, ww, rp, rw, size) + k,
        avail_write(moved_ptr(wp, k, size), moved_wrap(wp, ww, k, size), rp, rw, size)
            == avail_write(wp, ww, rp, rw, size) - k,
{
    lemma_move_logical(wp, ww, k, size);
    let lw = logical_pos(wp, ww, size);
    let lr = logical_pos(rp, rw, size);
    let nw = moved_ptr(wp, k, size);
    let nww = moved_wrap(wp, ww, k, size);
    let lw2 = logical_pos(nw, nww, size);
    let s2 = (2 * size) as int;
    let t = lw + k;
    if t < s2 {
        vstd::arithmetic::div_mod::lemma_small_mod(t as nat, s2 as nat);
    } else {
        vstd::arithmetic::div_mod::lemma_mod_sub_multiples_vanish(t as int, s2);
        vstd::arithmetic::div_mod::lemma_small_mod((t - s2) as nat, s2 as nat);
    }
}

/// Advancing the reader by `k` bytes, at most what it may read, keeps the ring
/// consistent, makes exactly `k` fewer bytes readable and `k` more writable.
pub proof fn law_read_advance(wp: nat, ww: bool, rp: nat, rw: bool, size: nat, k: nat)
    requires
        consistent(wp, ww, rp, rw, size),
        size % 2 == 0,
        wp % 2 == 0,
        rp % 2 == 0,
        k % 2 == 0,
        k <= avail_read(wp, ww, rp, rw, size),
    ensures
        consistent(wp, ww, moved_ptr(rp, k, size), moved_wrap(rp, rw, k, size), size),
        avail_read(wp, ww, moved_ptr(rp, k, size), moved_wrap(rp, rw, k, size), size)
            == avail_read(wp, ww, rp, rw, size) - k,
        avail_write(wp, ww, moved_ptr(rp, k, size), moved_wrap(rp, rw, k, size), size)
            == avail_write(wp, ww, rp, rw, size) + k,
{
    lemma_move_logical(rp, rw, k, size);
    let lr = logical_pos(rp, rw, size);
    let s2 = (2 * size) as int;
    let t = lr + k;
    if t < s2 {
        vstd::arithmetic::div_mod::lemma_small_mod(t as nat, s2 as nat);
    } else {
        vstd::arithmetic::div_mod::lemma_mod_sub_multiples_vanish(t as int, s2);
        vstd::arithmetic::div_mod::lemma_small_mod((t - s2) as nat, s2 as nat);
    }
}

} // verus!
