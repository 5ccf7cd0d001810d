//! Bounded first-in first-out queue that drops its oldest entry when full.

use vstd::prelude::*;

use crate::ring_buffer::{last_n, wrap};

verus! {

/// The queue contents after enqueuing `v` into contents `s` with capacity `n`:
/// when full, the oldest entry is dropped first.
pub open spec fn enqueued<T>(s: Seq<T>, v: T, n: nat) -> Seq<T> {
    if s.len() >= n {
        s.drop_first().push(v)
    } else {
        s.push(v)
    }
}

/// The contents after enqueuing each of `items` in turn.
pub open spec fn enqueued_all<T>(s: Seq<T>, items: Seq<T>, n: nat) -> Seq<T>
    decreases items.len(),
{
    if items.len() == 0 {
        s
    } else {
        enqueued(enqueued_all(s, items.drop_last(), n), items.last(), n)
    }
}

/// An unoccupied slot.
fn empty_slot<T>(_index: usize) -> (r: Option<T>)
    ensures
        r is None,
{
    None
}

/// Relies on core::array::from_fn: slot `i` holds what `empty_slot` returns
/// for `i`.
#[verifier::external_body]
fn empty_slots<T, const N: usize>() -> (r: [Option<T>; N])
    ensures
        forall|i: int| 0 <= i < N ==> #[trigger] r@[i] is None,
{
    core::array::from_fn(empty_slot)
}

/// A queue of at most `N` entries in a ring of `N` slots.
pub struct FixedQueue<T, const N: usize> {
    buffer: [Option<T>; N],
    head: usize,
    tail: usize,
    len: usize,
}

impl<T, const N: usize> View for FixedQueue<T, N> {
    type V = Seq<T>;

    /// The entries, oldest first.
    closed spec fn view(&self) -> Seq<T> {
        Seq::new(self.len as nat, |i: int| self.buffer@[wrap(self.head + i, N as int)]->Some_0)
    }
}

impl<T, const N: usize> FixedQueue<T, N> {
    /// The ring is consistent: head, tail and length agree, and exactly the
    /// slots in use hold an entry.
    pub closed spec fn wf(&self) -> bool {
        &&& 0 < N
        &&& self.head < N
        &&& self.len <= N
        &&& self.tail == wrap(self.head + self.len, N as int)
        &&& forall|i: int| 0 <= i < self.len ==> (#[trigger] self.buffer@[wrap(self.head + i, N as int)]) is Some
    }

    /// Creates an empty queue of capacity `N`.
    pub fn new() -> (r: Self)
        requires
            0 < N,
        ensures
            r.wf(),
            r@ == Seq::<T>::empty(),
    {
        let r = FixedQueue { buffer: empty_slots(), head: 0, tail: 0, len: 0 };
        assert(r@ =~= Seq::<T>::empty());
        r
    }

    /// Appends an entry; when the queue is full, its oldest entry is dropped
    /// first.
    pub fn enqueue(&mut self, value: T)
        requires
            old(self).wf(),
        ensures
            final(self).wf(),
            final(self)@ == enqueued(old(self)@, value, N as nat),
    {
        let ghost s = self@;
        if self.len == N {
            self.head = if self.head + 1 == N {
                0
            } else {
                self.head + 1
            };
            self.len -= 1;
            assert forall|i: int| 0 <= i < self.len implies self@[i] == s[i + 1] && (
            #[trigger] self.buffer@[wrap(self.head + i, N as int)]) is Some by {
                let j = i + 1;
                assert(wrap(self.head + i, N as int) == wrap(old(self).head + j, N as int));
                assert(old(self).buffer@[wrap(old(self).head + j, N as int)] is Some);
            }
            assert(self@ =~= s.drop_first());
        }
        assert(forall|i: int| 0 <= i < self.len ==> (#[trigger] self.buffer@[wrap(self.head + i, N as int)]) is Some);
        let ghost before = self@;
        let ghost h = self.head;
        let ghost l = self.len;
        let ghost buf = self.buffer@;
        self.buffer[self.tail] = Some(value);
        self.tail = if self.tail + 1 == N {
            0
        } else {
            self.tail + 1
        };
        self.len += 1;
        assert forall|i: int| 0 <= i < l implies #[trigger] wrap(h + i, N as int) != wrap(h + l, N as int) by {}
        assert forall|i: int| 0 <= i < self.len implies (#[trigger] self.buffer@[wrap(self.head + i, N as int)]) is Some by {
            if i < l {
                assert(wrap(h + i, N as int) != wrap(h + l, N as int));
                assert(buf[wrap(h + i, N as int)] is Some);
            }
        }
        assert(self@ =~= before.push(value));
    }

    /// Removes and returns the oldest entry; `None` when the queue is empty.
    pub fn dequeue(&mut self) -> (r: Option<T>)
        requires
            old(self).wf(),
        ensures
            final(self).wf(),
            old(self)@.len() == 0 ==> r is None && final(self)@ == old(self)@,
            old(self)@.len() > 0 ==> r == Some(old(self)@[0]) && final(self)@ == old(
                self,
            )@.drop_first(),
    {
        if self.len == 0 {
            return None;
        }
        let ghost s = self@;
        assert(self.buffer@[wrap(self.head + 0, N as int)] is Some);
        let value = self.buffer[self.head].take();
        self.head = if self.head + 1 == N {
            0
        } else {
            self.head + 1
        };
        self.len -= 1;
        assert forall|i: int| 0 <= i < self.len implies self@[i] == s[i + 1] && (
        #[trigger] self.buffer@[wrap(self.head + i, N as int)]) is Some by {
            let j = i + 1;
            assert(wrap(self.head + i, N as int) == wrap(old(self).head + j, N as int));
            assert(old(self).buffer@[wrap(old(self).head + j, N as int)] is Some);
        }
        assert(self@ =~= s.drop_first());
        value
    }

    /// The number of entries that can be enqueued before the oldest is dropped.
    pub fn space(&self) -> (r: usize)
        requires
            self.wf(),
        ensures
            r == N - self@.len(),
    {
        N - self.len
    }

    pub fn len(&self) -> (r: usize)
        requires
            self.wf(),
        ensures
            r == self@.len(),
    {
        self.len
    }

    pub fn is_empty(&self) -> (r: bool)
        requires
            self.wf(),
        ensures
            r == (self@.len() == 0),
    {
        self.len == 0
    }

    pub fn is_full(&self) -> (r: bool)
        requires
            self.wf(),
        ensures
            r == (self@.len() == N),
    {
        self.len == N
    }
}

/// Enqueuing any sequence of items into an empty queue of capacity `n` leaves
/// exactly the newest `n` of them, oldest first: each enqueue into a full
/// queue drops the oldest unread entry, and the entries come out of
/// `dequeue` in the order they went in.
pub proof fn lemma_enqueue_keeps_newest<T>(items: Seq<T>, n: nat)
    requires
        n > 0,
    ensures
        enqueued_all(Seq::<T>::empty(), items, n) == last_n(items, n),
    decreases items.len(),
{
    if items.len() > 0 {
        let init = items.drop_last();
        lemma_enqueue_keeps_newest(init, n);
        if init.len() < n {
            assert(init.push(items.last()) =~= items);
        } else {
            let w = last_n(init, n);
            assert(w.drop_first().push(items.last()) =~= last_n(items, n));
        }
    }
}

/// A queue never holds more than its capacity, so its free space and its
/// length always add up to the capacity.
pub proof fn lemma_space_plus_len<T, const N: usize>(q: &FixedQueue<T, N>)
    requires
        q.wf(),
    ensures
        q@.len() <= N,
        (N - q@.len()) + q@.len() == N,
{
}

} // verus!
