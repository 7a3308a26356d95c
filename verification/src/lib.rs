//! A fixed-capacity single-producer/single-consumer buffer that always hands
//! out contiguous regions, even when the logical data wraps around the end of
//! the backing store (a "split" ring buffer).
//!
//! The producer calls [`Spling::reserve`] to lease a contiguous writable run
//! and makes it visible with [`Reservation::commit`]; the consumer calls
//! [`Spling::avail`] to lease the contiguous readable window and frees it with
//! [`Availability::consume`]. A lease borrows the buffer exclusively, so at
//! most one can be outstanding at a time, and dropping a lease without
//! finalizing it leaves the cursors untouched.

use vstd::prelude::*;
use vstd::slice::slice_subrange;

verus! {

/// The buffer: a fixed backing store and three cursors.
///
/// `head` is the read cursor (start of the oldest unconsumed data), `tail` is
/// the write cursor (one past the most recently committed write), and `split`
/// marks where a wrapped region's older remainder ends; `split == 0` means no
/// wrap is pending.
pub struct Spling<T> {
    pub data: Vec<T>,
    pub head: usize,
    pub tail: usize,
    pub split: usize,
}

/// A write-side lease over `data[start .. start + len)`, reserved but not yet
/// visible to the consumer until [`Reservation::commit`] runs.
pub struct Reservation<'a, T> {
    pub spling: &'a mut Spling<T>,
    pub len: usize,
    pub start: usize,
}

/// A read-side lease over `data[start .. start + len)`, the contiguous window
/// currently visible to the consumer; [`Availability::consume`] frees it.
pub struct Availability<'a, T> {
    pub spling: &'a mut Spling<T>,
    pub len: usize,
    pub start: usize,
}

impl<T> Spling<T> {
    /// The fixed capacity of the backing store.
    pub open spec fn capacity(self) -> int {
        self.data.len() as int
    }

    /// Cursor well-formedness: every cursor stays within the store, and while
    /// a wrap is pending both `head` and `tail` stay at or before the split
    /// boundary. Every operation preserves this.
    pub open spec fn wf(self) -> bool {
        &&& self.head <= self.capacity()
        &&& self.tail <= self.capacity()
        &&& self.split <= self.capacity()
        &&& self.split != 0 ==> self.head <= self.split && self.tail <= self.split
    }

    /// Whether `reserve(len)` succeeds: either the unwrapped region has `len`
    /// free slots at the end, or the region before `head` can take them.
    pub open spec fn can_reserve(self, len: usize) -> bool {
        ||| self.head <= self.tail && self.capacity() - self.tail >= len
        ||| self.head >= len
    }

    /// Where a successful `reserve(len)` places the run: at `tail` when the
    /// unwrapped end has room, otherwise at the front.
    pub open spec fn reserve_start(self, len: usize) -> usize {
        if self.head <= self.tail && self.capacity() - self.tail >= len {
            self.tail
        } else {
            0
        }
    }

    /// Whether a reservation with this placement could have been issued by
    /// `reserve` on this state.
    pub open spec fn valid_reservation(self, start: usize, len: usize) -> bool {
        ||| start == self.tail && self.head <= self.tail && self.tail + len <= self.capacity()
        ||| start == 0 && len <= self.head
    }

    /// Whether committing a reservation with this placement leaves the
    /// cursors well-formed. A wrap to the front must come from an unwrapped
    /// state, and a commit at the end while a wrap is pending must not run
    /// past the split boundary.
    pub open spec fn commit_ok(self, start: usize, len: usize) -> bool {
        &&& start == 0 ==> self.head <= self.tail
        &&& start != 0 && self.split != 0 ==> start + len <= self.split
    }

    /// The cursor state after committing a reservation: a wrap records the
    /// old `tail` as the split boundary, and `tail` moves past the run.
    pub open spec fn commit_spec(self, start: usize, len: usize) -> Self {
        Spling {
            data: self.data,
            head: self.head,
            tail: ((start + len) as usize),
            split: if start == 0 {
                self.tail
            } else {
                self.split
            },
        }
    }

    /// The cursor state after `avail` itself: unchanged, except that once a
    /// pending wrap's remainder is fully drained (`split == head`) the wrap
    /// bookkeeping collapses to the plain unwrapped form.
    pub open spec fn normalize_spec(self) -> Self {
        if self.head >= self.tail && self.split != 0 && self.split == self.head {
            Spling { data: self.data, head: 0, tail: self.tail, split: 0 }
        } else {
            self
        }
    }

    /// The length of the readable window that `avail` exposes: while a wrap
    /// is pending only the older remainder before the split boundary shows;
    /// otherwise everything between `head` and `tail`.
    pub open spec fn avail_len(self) -> int {
        if self.head >= self.tail {
            if self.split == 0 {
                0
            } else if self.split == self.head {
                self.tail as int
            } else {
                self.split - self.head
            }
        } else {
            self.tail - self.head
        }
    }

    /// Where the readable window that `avail` exposes begins.
    pub open spec fn avail_start(self) -> int {
        if self.head >= self.tail && self.split != 0 && self.split == self.head {
            0
        } else {
            self.head as int
        }
    }

    /// The cursor state after consuming a window of `len` elements: `head`
    /// advances, and jumps to the front when it lands exactly on the split
    /// boundary (the wrapped remainder is then fully drained).
    pub open spec fn consume_spec(self, len: usize) -> Self {
        let advanced = ((self.head + len) as usize);
        Spling {
            data: self.data,
            head: if advanced == self.split {
                0
            } else {
                advanced
            },
            tail: self.tail,
            split: self.split,
        }
    }

    /// How many committed-but-unconsumed elements the cursors account for.
    pub open spec fn stored(self) -> int {
        if self.split != 0 && self.tail <= self.head {
            (self.split - self.head) + self.tail
        } else if self.head <= self.tail {
            self.tail - self.head
        } else {
            0
        }
    }
}

impl<T: Default> Spling<T> {
    /// Builds a buffer of the given capacity with every slot default-filled
    /// and all cursors at the front.
    pub fn new(capacity: usize) -> (r: Self)
        ensures
            r.capacity() == capacity,
            r.head == 0,
            r.tail == 0,
            r.split == 0,
            r.wf(),
            forall|i: int| 0 <= i < capacity ==> call_ensures(T::default, (), #[trigger] r.data@[i]),
    {
        let mut data: Vec<T> = Vec::with_capacity(capacity);
        let mut i: usize = 0;
        while i < capacity
            invariant
                i <= capacity,
                data@.len() == i,
                forall|j: int| 0 <= j < i ==> call_ensures(T::default, (), #[trigger] data@[j]),
            decreases capacity - i,
        {
            data.push(T::default());
            i = i + 1;
        }
        Spling { data, head: 0, tail: 0, split: 0 }
    }
}

impl<T> Spling<T> {
    /// Leases a contiguous writable run of exactly `len` elements, or returns
    /// `None` when neither placement has room. The end of the unwrapped
    /// region is preferred; wrapping to the front is the fallback. The buffer
    /// is not changed until the reservation commits.
    pub fn reserve<'a>(&'a mut self, len: usize) -> (r: Option<Reservation<'a, T>>)
        requires
            old(self).wf(),
        ensures
            r is Some <==> old(self).can_reserve(len),
            match r {
                Some(res) => {
                    &&& *res.spling == *old(self)
                    &&& res.len == len
                    &&& res.start == old(self).reserve_start(len)
                    &&& old(self).valid_reservation(res.start, res.len)
                    &&& *final(self) == *final(res.spling)
                },
                None => *final(self) == *old(self),
            },
    {
        if self.head <= self.tail {
            let free = self.data.len() - self.tail;
            if free >= len {
                return Some(Reservation { start: self.tail, spling: self, len });
            }
        }

        if self.head >= len {
            return Some(Reservation { spling: self, start: 0, len });
        }

        None
    }

    /// Leases the current contiguous readable window; its length is zero when
    /// no data is ready. As a deliberate side effect, a pending wrap whose
    /// remainder is already drained is collapsed here, so that later calls
    /// take the plain unwrapped path.
    pub fn avail<'a>(&'a mut self) -> (r: Availability<'a, T>)
        requires
            old(self).wf(),
        ensures
            *r.spling == old(self).normalize_spec(),
            r.spling.wf(),
            r.len == old(self).avail_len(),
            r.start == old(self).avail_start(),
            r.start + r.len <= old(self).capacity(),
            *final(self) == *final(r.spling),
    {
        let mut head = self.head;
        let tail = self.tail;
        let split = self.split;

        let len: usize;

        if head >= tail {
            if split == 0 {
                len = 0;
            } else if split == head {
                self.split = 0;
                self.head = 0;
                head = 0;
                len = tail;
            } else {
                len = split - head;
            }
        } else {
            len = tail - head;
        }

        Availability { len, start: head, spling: self }
    }
}

impl<'a, T> Availability<'a, T> {
    /// The length of the leased readable window.
    pub fn len(&self) -> (r: usize)
        ensures
            r == self.len,
    {
        self.len
    }

    /// A read view of the leased window.
    pub fn as_ref(&self) -> (r: &[T])
        requires
            self.start + self.len <= self.spling.capacity(),
        ensures
            r@ == old(self.spling).data@.subrange(self.start as int, self.start + self.len),
    {
        slice_subrange(self.spling.data.as_slice(), self.start, self.start + self.len)
    }

    /// Frees the leased window: `head` advances past it, jumping to the front
    /// when it lands exactly on the split boundary.
    pub fn consume(self)
        requires
            self.spling.wf(),
            self.start == self.spling.head,
            self.spling.head + self.len <= self.spling.capacity(),
            self.spling.split != 0 ==> self.spling.head + self.len <= self.spling.split,
        ensures
            *final(self.spling) == old(self.spling).consume_spec(self.len),
            final(self.spling).wf(),
    {
        let Availability { spling, len, start: _ } = self;

        let mut new_head = spling.head + len;

        if new_head == spling.split {
            new_head = 0;
        }

        spling.head = new_head;
    }
}

impl<'a, T> Reservation<'a, T> {
    /// The length of the leased writable run.
    pub fn len(&self) -> (r: usize)
        ensures
            r == self.len,
    {
        self.len
    }

    /// A view of the leased run.
    pub fn as_ref(&self) -> (r: &[T])
        requires
            self.start + self.len <= self.spling.capacity(),
        ensures
            r@ == old(self.spling).data@.subrange(self.start as int, self.start + self.len),
    {
        slice_subrange(self.spling.data.as_slice(), self.start, self.start + self.len)
    }

    /// Writes one element of the leased run, leaving the cursors untouched;
    /// the lease itself is handed back for further writes or for the commit.
    pub fn set(self, i: usize, value: T) -> (r: Self)
        requires
            i < self.len,
            self.start + self.len <= self.spling.capacity(),
        ensures
            r.start == self.start,
            r.len == self.len,
            r.spling.data@ == old(self.spling).data@.update(self.start + i, value),
            r.spling.head == old(self.spling).head,
            r.spling.tail == old(self.spling).tail,
            r.spling.split == old(self.spling).split,
            *final(self.spling) == *final(r.spling),
    {
        let Reservation { spling, len, start } = self;
        let j = start + i;
        spling.data[j] = value;
        Reservation { spling, len, start }
    }

    /// Makes the reserved run visible to the consumer: a run at the front
    /// records the old `tail` as the split boundary, and `tail` moves past
    /// the run.
    pub fn commit(self)
        requires
            self.spling.wf(),
            self.spling.valid_reservation(self.start, self.len),
            self.spling.commit_ok(self.start, self.len),
        ensures
            *final(self.spling) == old(self.spling).commit_spec(self.start, self.len),
            final(self.spling).wf(),
    {
        let Reservation { spling, len, start } = self;

        if start == 0 {
            spling.split = spling.tail;
        }

        spling.tail = start + len;
    }
}

/// Querying availability is idempotent: the collapse that `avail` may perform
/// on a fully drained wrap changes neither the window it reports nor any later
/// window, so repeated calls without an intervening commit or consume agree in
/// both start and length, and a second call no longer changes the state.
pub proof fn lemma_avail_idempotent<T>(s: Spling<T>)
    requires
        s.wf(),
    ensures
        s.normalize_spec().avail_len() == s.avail_len(),
        s.normalize_spec().avail_start() == s.avail_start(),
        s.normalize_spec().normalize_spec() == s.normalize_spec(),
        s.normalize_spec().wf(),
{
}

/// Once a reservation wraps to the front of a non-empty unwrapped buffer and
/// commits, the very next availability is exactly the pre-wrap remainder
/// `[head, old_tail)`, in full; the data written after the wrap is withheld.
pub proof fn lemma_wrap_exposes_remainder<T>(s: Spling<T>, len: usize)
    requires
        s.wf(),
        s.split == 0,
        s.head < s.tail,
        len <= s.head,
    ensures
        s.commit_spec(0, len).avail_start() == s.head,
        s.commit_spec(0, len).avail_len() == s.tail - s.head,
{
}

/// Once the pre-wrap remainder has been consumed in full, and only then, the
/// next availability is exactly the data written after the wrap, from the
/// front of the store.
pub proof fn lemma_wrap_then_drain_exposes_new<T>(s: Spling<T>, len: usize)
    requires
        s.wf(),
        s.split == 0,
        s.head < s.tail,
        1 <= len <= s.head,
    ensures
        ({
            let wrapped = s.commit_spec(0, len);
            let drained = wrapped.normalize_spec().consume_spec(wrapped.avail_len() as usize);
            drained.avail_start() == 0 && drained.avail_len() == len
        }),
{
}

/// The committed-but-unconsumed content accounted for by well-formed cursors
/// never exceeds the capacity.
pub proof fn lemma_stored_bounded<T>(s: Spling<T>)
    requires
        s.wf(),
    ensures
        0 <= s.stored() <= s.capacity(),
{
}

/// The collapse that `avail` may perform is pure bookkeeping: it neither adds
/// nor removes stored content.
pub proof fn lemma_avail_preserves_stored<T>(s: Spling<T>)
    requires
        s.wf(),
    ensures
        s.normalize_spec().stored() == s.stored(),
{
}

/// Committing a reservation issued on an unwrapped state adds exactly the
/// reserved length to the stored content, which still fits in the capacity.
pub proof fn lemma_commit_adds_stored<T>(s: Spling<T>, start: usize, len: usize)
    requires
        s.wf(),
        s.split == 0,
        s.head <= s.tail,
        s.valid_reservation(start, len),
    ensures
        s.commit_spec(start, len).stored() == s.stored() + len,
        s.commit_spec(start, len).stored() <= s.capacity(),
        s.commit_spec(start, len).wf(),
{
}

/// Consuming the availability that `avail` computes removes exactly its
/// length from the stored content, so in total no more is ever consumed than
/// was committed. While a wrap is pending the cursors must still have the
/// wrapped shape (`tail <= head`), from a wrap that committed at least one
/// element: after a drain collapses a wrap, `split` keeps its old value, and
/// a state reached that way accounts its content under the unwrapped shape.
pub proof fn lemma_consume_removes_stored<T>(s: Spling<T>)
    requires
        s.wf(),
        s.split != 0 ==> s.tail <= s.head,
        s.split != 0 && s.head < s.split ==> 1 <= s.tail,
    ensures
        ({
            let q = s.normalize_spec();
            q.consume_spec(s.avail_len() as usize).stored() == s.stored() - s.avail_len()
        }),
{
}

} // verus!
