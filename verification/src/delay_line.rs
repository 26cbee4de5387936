//! A waveguide segment that is stepped in two phases.
//!
//! Each sample, `do_delay` first hands out the waves that have travelled through
//! the segment. The junctions at both ends then work out what they send back in,
//! and `update` takes those two waves, sends each through the filters of its
//! direction and stores it. `update` may only be called once both waves have
//! been supplied.

use crate::dwgs::{chain_fed, chain_value, through};
use crate::filter::Filter;
use crate::ring_buffer::{pushed, RingBuffer};
use crate::sample::{exact, total, Sample};
use vstd::prelude::*;

verus! {

/// Where a segment stands in the step of one sample.
#[derive(Clone, Copy, Debug, PartialEq, Eq, Structural)]
pub enum Phase {
    /// At least one junction has not supplied its wave yet.
    AwaitingInput,
    /// Both waves are there: `update` may be called.
    Ready,
}

/// Two delay lines, one for each direction, with the filters on their way.
pub struct DelayLine<T> {
    /// The filters on the way to the right.
    pub to_right_filters: Vec<Filter<T>>,
    /// The filters on the way to the left.
    pub to_left_filters: Vec<Filter<T>>,
    /// The wave that arrives at the right end.
    pub v_right_plus: T,
    /// The wave that arrives at the left end.
    pub v_left_plus: T,
    /// The wave that the left junction sends in, once it is known.
    pub next_v_left_minus: Option<T>,
    /// The wave that the right junction sends in, once it is known.
    pub next_v_right_minus: Option<T>,
    /// The delay, in samples, on the way to the right.
    pub to_right_delay: usize,
    /// The delay, in samples, on the way to the left.
    pub to_left_delay: usize,
    /// The waves that the right junction sent in, on their way to the left.
    pub v_right_minus_history: RingBuffer<T>,
    /// The waves that the left junction sent in, on their way to the right.
    pub v_left_minus_history: RingBuffer<T>,
}

impl<T: Sample> DelayLine<T> {
    /// Both histories hold at least one sample, and every filter is well formed.
    pub open spec fn wf(&self) -> bool {
        &&& self.v_right_minus_history@.len() == self.to_left_delay
        &&& self.v_left_minus_history@.len() == self.to_right_delay
        &&& self.to_left_delay > 0
        &&& self.to_right_delay > 0
        &&& forall|m: int|
            0 <= m < self.to_right_filters@.len() ==> (#[trigger] self.to_right_filters@[m]).wf()
        &&& forall|m: int|
            0 <= m < self.to_left_filters@.len() ==> (#[trigger] self.to_left_filters@[m]).wf()
    }

    /// Both junctions have supplied their wave for this sample.
    pub open spec fn ready(&self) -> bool {
        self.next_v_left_minus.is_some() && self.next_v_right_minus.is_some()
    }

    /// Where the segment stands in the step of this sample.
    pub fn phase(&self) -> (phase: Phase)
        ensures
            phase == Phase::Ready <==> self.ready(),
            phase == Phase::AwaitingInput <==> !self.ready(),
    {
        if self.next_v_left_minus.is_some() && self.next_v_right_minus.is_some() {
            Phase::Ready
        } else {
            Phase::AwaitingInput
        }
    }

    /// A segment without filters, every sample equal to `init`.
    pub fn new(to_right_delay: usize, to_left_delay: usize, init: T) -> (line: DelayLine<T>)
        requires
            to_right_delay > 0,
            to_left_delay > 0,
        ensures
            line.wf(),
            !line.ready(),
            line.to_right_filters@.len() == 0,
            line.to_left_filters@.len() == 0,
            line.v_right_plus == init,
            line.v_left_plus == init,
            line.next_v_left_minus.is_none(),
            line.next_v_right_minus.is_none(),
            line.to_right_delay == to_right_delay,
            line.to_left_delay == to_left_delay,
            line.v_right_minus_history@ == Seq::new(to_left_delay as nat, |k: int| init),
            line.v_left_minus_history@ == Seq::new(to_right_delay as nat, |k: int| init),
    {
        DelayLine::new_with_filters(to_right_delay, to_left_delay, init, Vec::new(), Vec::new())
    }

    /// A segment with the given filters on each way, every sample equal to `init`.
    pub fn new_with_filters(
        to_right_delay: usize,
        to_left_delay: usize,
        init: T,
        to_right_filters: Vec<Filter<T>>,
        to_left_filters: Vec<Filter<T>>,
    ) -> (line: DelayLine<T>)
        requires
            to_right_delay > 0,
            to_left_delay > 0,
            forall|m: int|
                0 <= m < to_right_filters@.len() ==> (#[trigger] to_right_filters@[m]).wf(),
            forall|m: int| 0 <= m < to_left_filters@.len() ==> (#[trigger] to_left_filters@[m]).wf(),
        ensures
            line.wf(),
            line.to_right_filters == to_right_filters,
            line.to_left_filters == to_left_filters,
            line.v_right_plus == init,
            line.v_left_plus == init,
            line.next_v_left_minus.is_none(),
            line.next_v_right_minus.is_none(),
            line.to_right_delay == to_right_delay,
            line.to_left_delay == to_left_delay,
            line.v_right_minus_history@ == Seq::new(to_left_delay as nat, |k: int| init),
            line.v_left_minus_history@ == Seq::new(to_right_delay as nat, |k: int| init),
    {
        DelayLine {
            to_right_filters,
            to_left_filters,
            v_right_plus: init,
            v_left_plus: init,
            next_v_left_minus: None,
            next_v_right_minus: None,
            to_right_delay,
            to_left_delay,
            v_right_minus_history: RingBuffer::new(to_left_delay, init),
            v_left_minus_history: RingBuffer::new(to_right_delay, init),
        }
    }

    /// Hands out the oldest sample of each direction as the wave that arrives at
    /// the far end.
    pub fn do_delay(&mut self)
        requires
            old(self).wf(),
        ensures
            final(self).v_right_plus == old(self).v_left_minus_history@.last(),
            final(self).v_left_plus == old(self).v_right_minus_history@.last(),
            *final(self) == (DelayLine {
                v_right_plus: final(self).v_right_plus,
                v_left_plus: final(self).v_left_plus,
                ..*old(self)
            }),
    {
        let next_v_right_plus: T = *self.v_left_minus_history.last();
        self.v_right_plus = next_v_right_plus;

        let next_v_left_plus: T = *self.v_right_minus_history.last();
        self.v_left_plus = next_v_left_plus;
    }

    /// Takes in the two waves that the junctions supplied: each goes through the
    /// filters of its direction and into its delay line. After that the segment
    /// waits for the waves of the next sample.
    pub fn update(&mut self)
        requires
            old(self).wf(),
            old(self).ready(),
            total::<T>(),
        ensures
            final(self).wf(),
            !final(self).ready(),
            final(self).next_v_left_minus.is_none(),
            final(self).next_v_right_minus.is_none(),
            final(self).v_right_plus == old(self).v_right_plus,
            final(self).v_left_plus == old(self).v_left_plus,
            final(self).to_right_delay == old(self).to_right_delay,
            final(self).to_left_delay == old(self).to_left_delay,
            exact::<T>() ==> {
                let from_left = old(self).next_v_left_minus.unwrap();
                let from_right = old(self).next_v_right_minus.unwrap();
                &&& chain_fed(
                    old(self).to_right_filters@,
                    from_left,
                    final(self).to_right_filters@,
                )
                &&& chain_fed(old(self).to_left_filters@, from_right, final(self).to_left_filters@)
                &&& final(self).v_left_minus_history@ == pushed(
                    old(self).v_left_minus_history@,
                    chain_value(
                        old(self).to_right_filters@,
                        from_left,
                        old(self).to_right_filters@.len(),
                    ),
                )
                &&& final(self).v_right_minus_history@ == pushed(
                    old(self).v_right_minus_history@,
                    chain_value(
                        old(self).to_left_filters@,
                        from_right,
                        old(self).to_left_filters@.len(),
                    ),
                )
            },
    {
        let from_left: T = self.next_v_left_minus.unwrap();
        let v: T = through(&mut self.to_right_filters, from_left);
        self.v_left_minus_history.push(v);
        self.next_v_left_minus = None;

        let from_right: T = self.next_v_right_minus.unwrap();
        let v: T = through(&mut self.to_left_filters, from_right);
        self.v_right_minus_history.push(v);
        self.next_v_right_minus = None;
    }
}

} // verus!
