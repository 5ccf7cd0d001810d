//! Fixed-capacity window over the most recent samples, with a running sum.

use vstd::prelude::*;

verus! {

/// Sum of a sequence of samples.
pub open spec fn seq_sum(s: Seq<u16>) -> int
    decreases s.len(),
{
    if s.len() == 0 {
        0
    } else {
        seq_sum(s.drop_last()) + s.last()
    }
}

/// The last `n` values of `s`, or all of them when there are fewer.
pub open spec fn last_n<T>(s: Seq<T>, n: nat) -> Seq<T> {
    if s.len() <= n {
        s
    } else {
        s.subrange(s.len() - n, s.len() as int)
    }
}

/// The sum counts the first value of a sequence once.
pub proof fn lemma_seq_sum_first(s: Seq<u16>)
    requires
        s.len() > 0,
    ensures
        seq_sum(s) == s[0] + seq_sum(s.drop_first()),
    decreases s.len(),
{
    if s.len() == 1 {
        assert(seq_sum(s.drop_last()) == 0);
        assert(seq_sum(s.drop_first()) == 0);
    } else {
        lemma_seq_sum_first(s.drop_last());
        assert(s.drop_last().drop_first() =~= s.drop_first().drop_last());
        assert(seq_sum(s.drop_first()) == seq_sum(s.drop_first().drop_last()) + s.drop_first().last());
    }
}

pub proof fn lemma_seq_sum_nonneg(s: Seq<u16>)
    ensures
        seq_sum(s) >= 0,
    decreases s.len(),
{
    if s.len() > 0 {
        lemma_seq_sum_nonneg(s.drop_last());
    }
}

/// A window of capacity `n` is stable when it is full and all its samples are
/// equal.
pub open spec fn stable(w: Seq<u16>, n: nat) -> bool {
    w.len() == n && forall|i: int| 0 <= i < w.len() ==> #[trigger] w[i] == w[0]
}

/// Slot `x` of a ring of `n` slots, for `0 <= x < 2 * n`.
pub open spec fn wrap(x: int, n: int) -> int {
    if x >= n {
        x - n
    } else {
        x
    }
}

/// A window of the last `N` samples pushed, with their running sum.
pub struct RingBuffer<const N: usize> {
    buffer: [u16; N],
    head: u8,
    sum: u16,
    count: u8,
    pushed: Ghost<Seq<u16>>,
}

impl<const N: usize> View for RingBuffer<N> {
    type V = Seq<u16>;

    /// The samples in the window, oldest first.
    closed spec fn view(&self) -> Seq<u16> {
        Seq::new(
            self.count as nat,
            |i: int| self.buffer@[wrap(self.head + N - self.count + i, N as int)],
        )
    }
}

impl<const N: usize> RingBuffer<N> {
    /// Every sample pushed since the window was created or last cleared.
    pub closed spec fn pushed(&self) -> Seq<u16> {
        self.pushed@
    }

    /// The window is well formed: its capacity fits the `u8` counters, and the
    /// running sum and the contents agree with the samples pushed.
    pub closed spec fn wf(&self) -> bool {
        &&& 0 < N <= 255
        &&& self.head < N
        &&& self.count <= N
        &&& self.count < N ==> self.head == self.count
        &&& self.sum == seq_sum(self@)
        &&& self@ == last_n(self.pushed@, N as nat)
    }

    /// Creates an empty window of capacity `N`.
    pub fn new() -> (r: Self)
        requires
            0 < N <= 255,
        ensures
            r.wf(),
            r@ == Seq::<u16>::empty(),
            r.pushed() == Seq::<u16>::empty(),
    {
        let r = RingBuffer { buffer: [0; N], head: 0, sum: 0, count: 0, pushed: Ghost(Seq::empty()) };
        assert(r@ =~= Seq::<u16>::empty());
        r
    }

    /// Pushes a sample, dropping the oldest one when the window is full.
    pub fn push(&mut self, value: u16)
        requires
            old(self).wf(),
            seq_sum(last_n(old(self)@.push(value), N as nat)) <= u16::MAX,
        ensures
            final(self).wf(),
            final(self)@ == last_n(old(self)@.push(value), N as nat),
            final(self).pushed() == old(self).pushed().push(value),
    {
        let ghost w = self@;
        let ghost p = self.pushed@;
        let ghost expected = last_n(w.push(value), N as nat);
        let next_head: u8 = if (self.head as usize) + 1 == N {
            0
        } else {
            self.head + 1
        };
        if (self.count as usize) < N {
            self.buffer[self.head as usize] = value;
            assert(w.push(value).drop_last() =~= w);
            self.sum = self.sum + value;
            self.count += 1;
            self.head = next_head;
            assert forall|i: int| 0 <= i < self.count implies self@[i] == expected[i] by {
                assert(wrap(self.head + N - self.count + i, N as int) == i);
            }
        } else {
            let old_value = self.buffer[self.head as usize];
            assert(old_value == w[0]) by {
                assert(wrap(self.head + N - self.count + 0, N as int) == self.head);
            }
            proof {
                lemma_seq_sum_first(w);
                lemma_seq_sum_nonneg(w.drop_first());
                assert(expected =~= w.drop_first().push(value));
                assert(expected.drop_last() =~= w.drop_first());
            }
            self.buffer[self.head as usize] = value;
            self.sum = self.sum - old_value + value;
            self.head = next_head;
            assert forall|i: int| 0 <= i < self.count implies self@[i] == expected[i] by {
                if i + 1 < N {
                    assert(wrap(self.head + N - self.count + i, N as int) == wrap(
                        old(self).head + N - old(self).count + i + 1,
                        N as int,
                    ));
                }
            }
        }
        self.pushed = Ghost(p.push(value));
        assert(self@ =~= expected);
        assert(last_n(p.push(value), N as nat) =~= expected);
    }

    /// The mean of the samples in the window, rounded down; `None` when empty.
    pub fn average(&self) -> (r: Option<u16>)
        requires
            self.wf(),
        ensures
            r == (if self@.len() == 0 {
                None
            } else {
                Some((seq_sum(self@) / (self@.len() as int)) as u16)
            }),
    {
        if self.count == 0 {
            None
        } else {
            Some(self.sum / self.count as u16)
        }
    }

    /// The sum of the samples in the window: the last `N` samples pushed, or
    /// all of them when fewer were pushed.
    pub fn sum(&self) -> (r: u16)
        requires
            self.wf(),
        ensures
            r == seq_sum(self@),
            r == seq_sum(last_n(self.pushed(), N as nat)),
    {
        self.sum
    }

    /// The number of samples in the window.
    pub fn len(&self) -> (r: u8)
        requires
            self.wf(),
        ensures
            r == self@.len(),
    {
        self.count
    }

    pub fn is_full(&self) -> (r: bool)
        requires
            self.wf(),
        ensures
            r == (self@.len() == N),
    {
        self.count as usize == N
    }

    pub fn is_empty(&self) -> (r: bool)
        requires
            self.wf(),
        ensures
            r == (self@.len() == 0),
    {
        self.count == 0
    }

    /// Empties the window.
    pub fn clear(&mut self)
        requires
            old(self).wf(),
        ensures
            final(self).wf(),
            final(self)@ == Seq::<u16>::empty(),
            final(self).pushed() == Seq::<u16>::empty(),
    {
        self.head = 0;
        self.count = 0;
        self.sum = 0;
        self.pushed = Ghost(Seq::empty());
        assert(self@ =~= Seq::<u16>::empty());
    }

    /// Whether the window is full and all its samples are equal.
    pub fn all_same(&self) -> (r: bool)
        requires
            self.wf(),
        ensures
            r == stable(self@, N as nat),
    {
        if (self.count as usize) < N {
            return false;
        }
        let first = self.buffer[0];
        let mut i: usize = 1;
        while i < N
            invariant
                self.wf(),
                self.count == N,
                first == self.buffer@[0],
                1 <= i <= N,
                forall|j: int| 0 <= j < i ==> self.buffer@[j] == first,
            decreases N - i,
        {
            if self.buffer[i] != first {
                proof {
                    let k0 = wrap(0 + N - self.head, N as int);
                    let ki = wrap(i + N - self.head, N as int);
                    assert(wrap(self.head + N - self.count + k0, N as int) == 0);
                    assert(wrap(self.head + N - self.count + ki, N as int) == i);
                    assert(self@[k0] != self@[ki]);
                }
                return false;
            }
            i += 1;
        }
        true
    }
}

/// The sum of a window is the sum of the last `N` samples pushed into it, or
/// of all of them when fewer than `N` were pushed.
pub proof fn lemma_sum_of_last_pushes<const N: usize>(b: &RingBuffer<N>)
    requires
        b.wf(),
    ensures
        b@ == last_n(b.pushed(), N as nat),
        b@.len() == if b.pushed().len() < N { b.pushed().len() } else { N as nat },
        seq_sum(b@) == seq_sum(last_n(b.pushed(), N as nat)),
{
}

/// A window into which fewer than `N` samples were pushed is never stable,
/// whatever their values.
pub proof fn lemma_partial_window_not_stable<const N: usize>(b: &RingBuffer<N>)
    requires
        b.wf(),
        b.pushed().len() < N,
    ensures
        !stable(b@, N as nat),
{
}

/// A window whose last `N` pushes were all the same sample is stable.
pub proof fn lemma_equal_pushes_stable<const N: usize>(b: &RingBuffer<N>)
    requires
        b.wf(),
        b.pushed().len() >= N,
        forall|i: int|
            b.pushed().len() - N <= i < b.pushed().len() ==> #[trigger] b.pushed()[i]
                == b.pushed().last(),
    ensures
        stable(b@, N as nat),
{
}

} // verus!
