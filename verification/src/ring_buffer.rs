//! A fixed-capacity circular history of samples.
//!
//! The buffer is read from the most recently pushed sample back to the oldest
//! one. A push takes the place of the oldest sample, so the capacity never
//! changes once the buffer is made.

use vstd::prelude::*;

verus! {

/// The history `s` after one more sample: `x` comes first and the oldest sample is gone.
pub open spec fn pushed<T>(s: Seq<T>, x: T) -> Seq<T> {
    seq![x] + s.drop_last()
}

/// The history `s` after every sample of `xs` was pushed, `xs[0]` first.
pub open spec fn pushed_all<T>(s: Seq<T>, xs: Seq<T>) -> Seq<T>
    decreases xs.len(),
{
    if xs.len() == 0 {
        s
    } else {
        pushed(pushed_all(s, xs.drop_last()), xs.last())
    }
}

/// Circular history of the last `capacity` samples.
pub struct RingBuffer<T> {
    n: usize,
    i: usize,
    v: Vec<T>,
}

/// Cursor over a [`RingBuffer`], from the most recent sample to the oldest.
pub struct RingBufferIter<'a, T> {
    buf: &'a RingBuffer<T>,
    i: usize,
}

impl<T> View for RingBuffer<T> {
    type V = Seq<T>;

    /// The samples from the most recently pushed one to the oldest.
    closed spec fn view(&self) -> Seq<T> {
        Seq::new(self.n as nat, |k: int| self.v@[(self.i + k) % (self.n as int)])
    }
}

impl<T> RingBuffer<T> {
    #[verifier::type_invariant]
    spec fn well_formed(self) -> bool {
        &&& self.v@.len() == self.n
        &&& (self.n == 0 ==> self.i == 0)
        &&& (self.n > 0 ==> self.i < self.n)
    }

    /// Number of samples the buffer holds.
    pub open spec fn capacity(&self) -> nat {
        self@.len()
    }
}

impl<T: Copy> RingBuffer<T> {
    /// A buffer of `n` samples, each equal to `init`.
    pub fn new(n: usize, init: T) -> (buf: RingBuffer<T>)
        ensures
            buf@ == Seq::new(n as nat, |k: int| init),
    {
        let mut v: Vec<T> = Vec::new();
        let mut k: usize = 0;
        while k < n
            invariant
                k <= n,
                v@.len() == k,
                forall|j: int| 0 <= j < k ==> v@[j] == init,
            decreases n - k,
        {
            v.push(init);
            k = k + 1;
        }
        let buf = RingBuffer { n, i: 0, v };
        assert(buf@ =~= Seq::new(n as nat, |k: int| init)) by {
            assert forall|k: int| 0 <= k < n implies buf@[k] == init by {
                assert(0 <= (0 + k) % (n as int) < n);
            }
        }
        buf
    }

    /// A cursor that starts at the most recent sample.
    pub fn iter(&self) -> (it: RingBufferIter<'_, T>)
        ensures
            it.samples() == self@,
            it.position() == 0,
    {
        RingBufferIter { buf: self, i: 0 }
    }

    /// Makes `x` the most recent sample; the oldest sample leaves the buffer.
    pub fn push(&mut self, x: T)
        requires
            old(self).capacity() > 0,
        ensures
            final(self)@ == pushed(old(self)@, x),
    {
        proof {
            use_type_invariant(&*self);
        }
        let slot: usize = if self.i == 0 {
            self.n - 1
        } else {
            self.i - 1
        };
        let ghost before = *self;
        self.v[slot] = x;
        self.i = slot;
        proof {
            let n = self.n as int;
            let after = seq![x] + before@.drop_last();
            assert(self@.len() == after.len());
            assert forall|k: int| 0 <= k < n implies self@[k] == after[k] by {
                lemma_slot_of(slot as int, k, n);
                if k > 0 {
                    lemma_slot_of(before.i as int, k - 1, n);
                    lemma_slot_step(before.i as int, slot as int, k, n);
                }
            }
            assert(self@ =~= after);
        }
    }

    /// The oldest sample: the one that the next push replaces.
    pub fn last(&self) -> (x: &T)
        requires
            self.capacity() > 0,
        ensures
            *x == self@.last(),
    {
        proof {
            use_type_invariant(self);
        }
        let slot: usize = if self.i == 0 {
            self.n - 1
        } else {
            self.i - 1
        };
        proof {
            lemma_slot_of(self.i as int, self.n - 1, self.n as int);
        }
        &self.v[slot]
    }
}

impl<'a, T: Copy> RingBufferIter<'a, T> {
    /// The buffer's samples, from the most recent to the oldest.
    pub closed spec fn samples(&self) -> Seq<T> {
        self.buf@
    }

    /// How many samples the cursor has handed out.
    pub closed spec fn position(&self) -> nat {
        self.i as nat
    }

    /// The next sample towards the oldest one, or `None` once all were handed out.
    pub fn next(&mut self) -> (item: Option<&'a T>)
        ensures
            final(self).samples() == old(self).samples(),
            old(self).position() < old(self).samples().len() ==> {
                &&& item == Some(&old(self).samples()[old(self).position() as int])
                &&& final(self).position() == old(self).position() + 1
            },
            old(self).position() >= old(self).samples().len() ==> {
                &&& item.is_none()
                &&& final(self).position() == old(self).position()
            },
    {
        proof {
            use_type_invariant(self.buf);
        }
        if self.i >= self.buf.n {
            None
        } else {
            let rest: usize = self.buf.n - self.buf.i;
            let slot: usize = if self.i < rest {
                self.buf.i + self.i
            } else {
                self.i - rest
            };
            proof {
                lemma_slot_of(self.buf.i as int, self.i as int, self.buf.n as int);
            }
            let ret: &T = &self.buf.v[slot];
            self.i = self.i + 1;
            Some(ret)
        }
    }
}

/// Pushing never changes how many samples a non-empty history holds.
pub proof fn lemma_pushed_all_len<T>(s: Seq<T>, xs: Seq<T>)
    requires
        s.len() > 0,
    ensures
        pushed_all(s, xs).len() == s.len(),
    decreases xs.len(),
{
    if xs.len() > 0 {
        lemma_pushed_all_len(s, xs.drop_last());
    }
}

/// After any run of pushes a history reads as the pushed samples, newest first,
/// followed by what was there before, cut to the capacity.
pub proof fn lemma_pushed_all<T>(s: Seq<T>, xs: Seq<T>)
    requires
        s.len() > 0,
    ensures
        pushed_all(s, xs) == (xs.reverse() + s).take(s.len() as int),
    decreases xs.len(),
{
    let n = s.len() as int;
    if xs.len() == 0 {
        assert(pushed_all(s, xs) =~= (xs.reverse() + s).take(n));
    } else {
        let ws = xs.drop_last();
        lemma_pushed_all(s, ws);
        lemma_pushed_all_len(s, ws);
        let got = pushed_all(s, xs);
        let want = (xs.reverse() + s).take(n);
        assert(got.len() == want.len());
        assert forall|k: int| 0 <= k < n implies got[k] == want[k] by {
            if k > 0 {
                assert(got[k] == (ws.reverse() + s).take(n)[k - 1]);
                if k - 1 < ws.len() {
                    assert(ws.reverse()[k - 1] == xs.reverse()[k]);
                }
            }
        }
        assert(got =~= want);
    }
}

/// A buffer of capacity `n` that took `n` samples reads as those samples from the
/// last one pushed back to the first, and its oldest sample is the first one pushed.
pub proof fn lemma_full_turn<T>(s: Seq<T>, xs: Seq<T>)
    requires
        s.len() > 0,
        xs.len() == s.len(),
    ensures
        pushed_all(s, xs) == xs.reverse(),
        pushed_all(s, xs).last() == xs[0],
        pushed_all(s, xs)[0] == xs.last(),
{
    lemma_pushed_all(s, xs);
    assert((xs.reverse() + s).take(s.len() as int) =~= xs.reverse());
}

/// Where the sample at distance `k` from the cursor `i` lies in a store of `n` slots.
proof fn lemma_slot_of(i: int, k: int, n: int)
    requires
        0 <= i < n,
        0 <= k < n,
    ensures
        0 <= (i + k) % n < n,
        i + k < n ==> (i + k) % n == i + k,
        i + k >= n ==> (i + k) % n == i + k - n,
{
    if i + k >= n {
        assert((i + k) % n == i + k - n) by {
            vstd::arithmetic::div_mod::lemma_mod_sub_multiples_vanish(i + k, n);
            vstd::arithmetic::div_mod::lemma_small_mod((i + k - n) as nat, n as nat);
        }
    } else {
        vstd::arithmetic::div_mod::lemma_small_mod((i + k) as nat, n as nat);
    }
}

/// Moving the cursor one slot back shifts every distance by one.
proof fn lemma_slot_step(i: int, slot: int, k: int, n: int)
    requires
        0 <= i < n,
        1 <= k < n,
        slot == if i == 0 { n - 1 } else { i - 1 },
    ensures
        (slot + k) % n == (i + (k - 1)) % n,
        (slot + k) % n != slot,
{
    lemma_slot_of(i, k - 1, n);
    lemma_slot_of(slot, k, n);
}

} // verus!
