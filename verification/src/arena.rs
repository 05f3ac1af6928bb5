//! A contiguous, append-only byte region with a single write cursor.

use crate::bytes::{put_bytes, put_u32, u32_bytes, words_bytes, zeros};
use crate::shared::{align_up, lemma_round_up_bounds, round_up};
use vstd::arithmetic::power2::is_pow2;
use vstd::prelude::*;

verus! {

/// The storage length that `reserve(n)` leaves behind.
pub open spec fn reserved_capacity(capacity: nat, cursor: nat, n: nat, granularity: nat) -> nat {
    if capacity - cursor >= n {
        capacity
    } else if capacity + n + granularity - 1 <= usize::MAX {
        round_up((capacity + n) as int, granularity as int) as nat
    } else {
        cursor + n
    }
}

/// Growable storage and the offset of the next write. Bytes past the cursor
/// are stale and never read.
pub struct Arena {
    storage: Vec<u8>,
    cursor: usize,
    granularity: usize,
}

impl Arena {
    /// The cursor lies inside the storage, and the growth step is a power of two.
    pub closed spec fn wf(&self) -> bool {
        &&& self.cursor <= self.storage.len()
        &&& self.granularity >= 1
        &&& is_pow2(self.granularity as int)
    }

    /// The bytes written since the last reset.
    pub closed spec fn written(&self) -> Seq<u8> {
        self.storage@.subrange(0, self.cursor as int)
    }

    /// The length of the storage, written or not.
    pub closed spec fn spec_capacity(&self) -> nat {
        self.storage@.len()
    }

    /// The step by which the storage grows.
    pub closed spec fn spec_granularity(&self) -> nat {
        self.granularity as nat
    }

    /// An arena of `size` zeroed bytes that grows in multiples of `granularity`.
    pub fn new(size: usize, granularity: usize) -> (arena: Arena)
        requires
            is_pow2(granularity as int),
        ensures
            arena.wf(),
            arena.written() == Seq::<u8>::empty(),
            arena.spec_capacity() == size,
            arena.spec_granularity() == granularity,
    {
        proof {
            reveal(is_pow2);
        }
        let arena = Arena { storage: vec![0u8; size], cursor: 0, granularity };
        assert(arena.written() =~= Seq::<u8>::empty());
        arena
    }

    /// The offset of the next write.
    pub fn cursor(&self) -> (n: usize)
        requires
            self.wf(),
        ensures
            n == self.written().len(),
    {
        self.cursor
    }

    /// The length of the storage.
    pub fn capacity(&self) -> (n: usize)
        ensures
            n == self.spec_capacity(),
    {
        self.storage.len()
    }

    /// The written bytes.
    pub fn as_slice(&self) -> (bytes: &[u8])
        requires
            self.wf(),
        ensures
            bytes@ == self.written(),
    {
        vstd::slice::slice_subrange(self.storage.as_slice(), 0, self.cursor)
    }

    /// The whole storage, stale bytes included; its address is what a reader
    /// on the other side of the boundary is given.
    pub fn storage(&self) -> (bytes: &[u8])
        requires
            self.wf(),
        ensures
            bytes@.len() == self.spec_capacity(),
            bytes@.subrange(0, self.written().len() as int) == self.written(),
    {
        self.storage.as_slice()
    }

    /// The cursor lies inside the storage: what is written is never more
    /// than the storage holds.
    pub proof fn lemma_cursor_inside(&self)
        requires
            self.wf(),
        ensures
            self.written().len() <= self.spec_capacity(),
            self.spec_granularity() >= 1,
    {
    }

    /// Moves the cursor back to the start. Nothing is freed or zeroed.
    pub fn reset(&mut self)
        requires
            old(self).wf(),
        ensures
            final(self).wf(),
            final(self).written() == Seq::<u8>::empty(),
            final(self).spec_capacity() == old(self).spec_capacity(),
            final(self).spec_granularity() == old(self).spec_granularity(),
    {
        self.cursor = 0;
        assert(self.written() =~= Seq::<u8>::empty());
    }

    /// Makes room for `n` more bytes after the cursor.
    pub fn reserve(&mut self, n: usize)
        requires
            old(self).wf(),
        ensures
            final(self).wf(),
            final(self).written() == old(self).written(),
            final(self).spec_granularity() == old(self).spec_granularity(),
            final(self).spec_capacity() == reserved_capacity(
                old(self).spec_capacity(),
                old(self).written().len(),
                n as nat,
                old(self).spec_granularity(),
            ),
            final(self).spec_capacity() - final(self).written().len() >= n,
            final(self).spec_capacity() >= old(self).spec_capacity(),
    {
        let capacity: usize = self.storage.len();
        if capacity - self.cursor >= n {
            return ;
        }
        let ghost before = self.storage@;
        proof {
            lemma_round_up_bounds((capacity + n) as int, self.granularity as int);
        }
        let rounded: Option<usize> = match capacity.checked_add(n) {
            Some(least) => match least.checked_add(self.granularity - 1) {
                Some(_) => Some(align_up(least, self.granularity)),
                None => None,
            },
            None => None,
        };
        match rounded {
            Some(target) => {
                self.storage.resize(target, 0u8);
            },
            None => {
                // No multiple of the step fits: grow to what is asked for.
                while self.storage.len() - self.cursor < n
                    invariant
                        self.cursor == old(self).cursor,
                        self.granularity == old(self).granularity,
                        self.cursor <= capacity <= self.storage.len(),
                        self.storage.len() - self.cursor <= n,
                        self.storage@.subrange(0, capacity as int) == before,
                    decreases n - (self.storage.len() - self.cursor),
                {
                    self.storage.push(0u8);
                    assert(self.storage@.subrange(0, capacity as int) =~= before);
                }
            },
        }
        assert(self.storage@.subrange(0, self.cursor as int) =~= before.subrange(
            0,
            self.cursor as int,
        ));
    }

    /// Copies `data` to the cursor and moves the cursor past it.
    pub fn write_bytes(&mut self, data: &[u8])
        requires
            old(self).wf(),
        ensures
            final(self).wf(),
            final(self).written() == old(self).written() + data@,
            final(self).spec_granularity() == old(self).spec_granularity(),
            final(self).spec_capacity() == reserved_capacity(
                old(self).spec_capacity(),
                old(self).written().len(),
                data@.len(),
                old(self).spec_granularity(),
            ),
            final(self).spec_capacity() >= old(self).spec_capacity(),
    {
        self.reserve(data.len());
        let ghost before = self.storage@;
        put_bytes(&mut self.storage, self.cursor, data);
        self.cursor = self.cursor + data.len();
        assert(self.written() =~= before.subrange(0, old(self).written().len() as int) + data@);
    }

    /// Writes `value`, least significant byte first.
    pub fn write_u32(&mut self, value: u32)
        requires
            old(self).wf(),
        ensures
            final(self).wf(),
            final(self).written() == old(self).written() + u32_bytes(value),
            final(self).spec_granularity() == old(self).spec_granularity(),
            final(self).spec_capacity() == reserved_capacity(
                old(self).spec_capacity(),
                old(self).written().len(),
                4,
                old(self).spec_granularity(),
            ),
            final(self).spec_capacity() >= old(self).spec_capacity(),
    {
        self.reserve(4);
        let ghost before = self.storage@;
        put_u32(&mut self.storage, self.cursor, value);
        self.cursor = self.cursor + 4;
        assert(self.written() =~= before.subrange(0, old(self).written().len() as int)
            + u32_bytes(value));
    }

    /// Writes each word, least significant byte first.
    pub fn write_words(&mut self, words: &[u32])
        requires
            old(self).wf(),
        ensures
            final(self).wf(),
            final(self).spec_granularity() == old(self).spec_granularity(),
            final(self).written() == old(self).written() + words_bytes(words@, words@.len()),
            final(self).spec_capacity() >= old(self).spec_capacity(),
    {
        let mut i: usize = 0;
        assert(self.written() =~= old(self).written() + words_bytes(words@, 0));
        while i < words.len()
            invariant
                i <= words.len(),
                self.wf(),
                self.spec_granularity() == old(self).spec_granularity(),
                self.written() == old(self).written() + words_bytes(words@, i as nat),
                self.spec_capacity() >= old(self).spec_capacity(),
            decreases words.len() - i,
        {
            self.write_u32(words[i]);
            i = i + 1;
            assert(self.written() =~= old(self).written() + words_bytes(words@, i as nat));
        }
    }

    /// Writes `n` zero bytes.
    pub fn write_zeros(&mut self, n: usize)
        requires
            old(self).wf(),
        ensures
            final(self).wf(),
            final(self).spec_granularity() == old(self).spec_granularity(),
            final(self).written() == old(self).written() + zeros(n as nat),
            final(self).spec_capacity() == reserved_capacity(
                old(self).spec_capacity(),
                old(self).written().len(),
                n as nat,
                old(self).spec_granularity(),
            ),
            final(self).spec_capacity() >= old(self).spec_capacity(),
    {
        self.reserve(n);
        let ghost reserved = self.spec_capacity();
        let mut i: usize = 0;
        assert(self.written() =~= old(self).written() + zeros(0));
        while i < n
            invariant
                i <= n,
                self.wf(),
                self.spec_granularity() == old(self).spec_granularity(),
                self.written() == old(self).written() + zeros(i as nat),
                self.spec_capacity() == reserved,
                reserved - old(self).written().len() >= n,
            decreases n - i,
        {
            self.write_bytes(&[0u8]);
            i = i + 1;
            assert(self.written() =~= old(self).written() + zeros(i as nat));
        }
    }

    /// Writes zeros up to the next multiple of `align`, and says where the
    /// cursor then is.
    pub fn pad_to(&mut self, align: usize) -> (offset: usize)
        requires
            old(self).wf(),
            align >= 1,
        ensures
            final(self).wf(),
            final(self).spec_granularity() == old(self).spec_granularity(),
            offset == round_up(old(self).written().len() as int, align as int),
            offset == final(self).written().len(),
            final(self).written() == old(self).written() + zeros(
                (offset - old(self).written().len()) as nat,
            ),
            final(self).spec_capacity() >= old(self).spec_capacity(),
    {
        let fill: usize = self.fill_to(align);
        self.write_zeros(fill);
        assert(zeros(fill as nat).len() == fill);
        assert(self.written().len() == old(self).written().len() + fill);
        assert(self.cursor == self.written().len());
        self.cursor
    }

    /// Writes `data` at the next multiple of `align`, after zeros up to
    /// there, and says where it begins.
    pub fn write_aligned(&mut self, data: &[u8], align: usize) -> (offset: usize)
        requires
            old(self).wf(),
            align >= 1,
        ensures
            final(self).wf(),
            final(self).spec_granularity() == old(self).spec_granularity(),
            offset == round_up(old(self).written().len() as int, align as int),
            final(self).written() == old(self).written() + zeros(
                (offset - old(self).written().len()) as nat,
            ) + data@,
            final(self).spec_capacity() >= old(self).spec_capacity(),
    {
        let offset: usize = self.pad_to(align);
        self.write_bytes(data);
        offset
    }

    fn fill_to(&self, align: usize) -> (fill: usize)
        requires
            self.wf(),
            align >= 1,
        ensures
            fill == round_up(self.written().len() as int, align as int) - self.written().len(),
    {
        proof {
            reveal(round_up);
        }
        let over: usize = self.cursor % align;
        if over == 0 {
            0
        } else {
            align - over
        }
    }
}

} // verus!
