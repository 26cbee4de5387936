//! The digital waveguide network of one string.
//!
//! A waveguide element is a pair of delay lines between two junction nodes.
//! Each node holds the wave that travels to the left (`a0`) and the wave that
//! travels to the right (`a1`). The nodes of all elements live in one arena
//! and are named by their index, so that elements which meet at a junction
//! can read each other's waves.
//!
//! Each sample is made in two phases. First every delay line moves on and
//! hands its oldest sample to the node at its end. Then every element gathers
//! what its junctions send back, and only when all have gathered are the
//! scattered waves written to the nodes.

use crate::filter::Filter;
use crate::loss::loss;
use crate::math::{Math, StringTrace};
use crate::ring_buffer::{pushed, RingBuffer};
use crate::sample::{exact, number, total, whole, zero, Sample};
use crate::thirian::{checked_thirian, dispersed, thirian_dispersion};
use crate::tuning::{delays, dispersion_count, Delays};
use vstd::prelude::*;
use vstd::std_specs::ops::{AddSpec, DivSpec, MulSpec, SubSpec};

verus! {

/// One end of a waveguide element.
#[derive(Clone, Copy)]
pub struct DWGNode<T> {
    /// The characteristic impedance of the element.
    pub z: T,
    /// A force that is fed into the junction from outside.
    pub load: T,
    /// The wave that travels to the left.
    pub a0: T,
    /// The wave that travels to the right.
    pub a1: T,
}

impl<T: Sample> DWGNode<T> {
    /// The wave of the given direction: `0` to the left, anything else to the right.
    pub open spec fn wave(&self, side: int) -> T {
        if side == 0 {
            self.a0
        } else {
            self.a1
        }
    }

    /// A node of impedance `z` at rest.
    pub fn new(z: T) -> (node: DWGNode<T>)
        ensures
            node.z == z,
            exact::<T>() ==> node == (DWGNode { z, load: zero::<T>(), a0: zero::<T>(), a1: zero::<T>() }),
    {
        let rest: T = T::from(0u8);
        DWGNode { z, load: rest, a0: rest, a1: rest }
    }
}

/// The sum of `acc` and the impedances of the first `k` nodes named in `conn`.
pub open spec fn impedance_sum<T: Sample>(
    nodes: Seq<DWGNode<T>>,
    acc: T,
    conn: Seq<usize>,
    k: nat,
) -> T
    decreases k,
{
    if k == 0 {
        acc
    } else {
        impedance_sum(nodes, acc, conn, (k - 1) as nat).add_spec(nodes[conn[k - 1] as int].z)
    }
}

/// The share `2 z / ztot` that a branch of impedance `z` has in a junction.
pub open spec fn share<T: Sample>(z: T, ztot: T) -> T {
    number::<T>(2).mul_spec(z).div_spec(ztot)
}

/// The shares of the nodes named in `conn` in a junction of total impedance `ztot`.
pub open spec fn shares<T: Sample>(nodes: Seq<DWGNode<T>>, conn: Seq<usize>, ztot: T) -> Seq<T> {
    Seq::new(conn.len(), |k: int| share(nodes[conn[k] as int].z, ztot))
}

/// Which wave of a neighbour runs into the junction: at a left end the wave to
/// the right, at a right end the wave to the left, and the other one where the
/// connection is made with reversed polarity.
pub open spec fn incoming(left: bool, polarity: usize) -> int {
    if left {
        if polarity != 0 {
            0
        } else {
            1
        }
    } else {
        if polarity != 0 {
            1
        } else {
            0
        }
    }
}

/// `acc` and, for each of the first `k` neighbours in turn, its load and its
/// share of the wave that it sends into the junction.
pub open spec fn gathered<T: Sample>(
    nodes: Seq<DWGNode<T>>,
    acc: T,
    conn: Seq<usize>,
    alphas: Seq<T>,
    pols: Seq<usize>,
    left: bool,
    k: nat,
) -> T
    decreases k,
{
    if k == 0 {
        acc
    } else {
        let node = nodes[conn[k - 1] as int];
        gathered(nodes, acc, conn, alphas, pols, left, (k - 1) as nat).add_spec(node.load).add_spec(
            alphas[k - 1].mul_spec(node.wave(incoming(left, pols[k - 1]))),
        )
    }
}

/// The value that leaves a chain of filters after its first `k` filters took `v`.
pub open spec fn chain_value<T: Sample>(filters: Seq<Filter<T>>, v: T, k: nat) -> T
    decreases k,
{
    if k == 0 {
        v
    } else {
        filters[k - 1].response(chain_value(filters, v, (k - 1) as nat))
    }
}

/// `after` is the chain `before` once `v` went through all of it.
pub open spec fn chain_fed<T: Sample>(before: Seq<Filter<T>>, v: T, after: Seq<Filter<T>>) -> bool {
    &&& after.len() == before.len()
    &&& forall|m: int|
        0 <= m < before.len() ==> (#[trigger] before[m]).fed(
            chain_value(before, v, m as nat),
            after[m],
        )
}

/// The filters that one string carries in its loop.
pub struct DWGFilters<T> {
    /// The all-pass chain that models the stiffness of the string.
    pub dispersion: Vec<Filter<T>>,
    /// The loss of the string.
    pub lowpass: Filter<T>,
    /// The all-pass that tunes the loop to a fraction of a sample.
    pub fracdelay: Filter<T>,
}

impl<T: Sample> DWGFilters<T> {
    /// Every filter is well formed.
    pub open spec fn wf(&self) -> bool {
        &&& forall|m: int| 0 <= m < self.dispersion@.len() ==> (#[trigger] self.dispersion@[m]).wf()
        &&& self.lowpass.wf()
        &&& self.fracdelay.wf()
    }
}

/// One waveguide element: two delay lines between a left and a right node.
pub struct DWG<T> {
    /// The delay, in samples, of the line that runs to the left.
    pub del1: usize,
    /// The delay, in samples, of the line that runs to the right.
    pub del2: usize,
    /// The polarity of each connection at the left end.
    pub pl: Vec<usize>,
    /// The polarity of each connection at the right end.
    pub pr: Vec<usize>,
    /// The nodes of other elements that meet the left end.
    pub cl: Vec<usize>,
    /// The nodes of other elements that meet the right end.
    pub cr: Vec<usize>,
    /// The element's node at the left end.
    pub l: usize,
    /// The element's node at the right end.
    pub r: usize,
    /// What the left junction sends back into the element.
    pub loadl: T,
    /// What the right junction sends back into the element.
    pub loadr: T,
    /// The element's own share in the left junction.
    pub alphalthis: T,
    /// The element's own share in the right junction.
    pub alpharthis: T,
    /// The share of each neighbour in the left junction.
    pub alphal: Vec<T>,
    /// The share of each neighbour in the right junction.
    pub alphar: Vec<T>,
    /// The line that runs to the left, from the right node to the left one.
    pub d0: RingBuffer<T>,
    /// The line that runs to the right, from the left node to the right one.
    pub d1: RingBuffer<T>,
    /// Whether the waves that enter the element pass the string's filters.
    pub commute: bool,
}

/// The arena after one delay step of the element between `l` and `r`: `dar` has
/// arrived at the left node, `dal` at the right one.
pub open spec fn delayed<T: Sample>(
    nodes: Seq<DWGNode<T>>,
    l: int,
    r: int,
    dar: T,
    dal: T,
) -> Seq<DWGNode<T>> {
    let at_left = nodes.update(l, DWGNode { a0: dar, ..nodes[l] });
    at_left.update(r, DWGNode { a1: dal, ..at_left[r] })
}

impl<T: Sample> DWG<T> {
    /// The element's own nodes and all its neighbours lie in an arena of `len` nodes.
    pub open spec fn wired(&self, len: nat) -> bool {
        &&& self.l < len
        &&& self.r < len
        &&& self.l != self.r
        &&& self.pl@.len() == self.cl@.len()
        &&& self.pr@.len() == self.cr@.len()
        &&& forall|k: int| 0 <= k < self.cl@.len() ==> #[trigger] self.cl@[k] < len
        &&& forall|k: int| 0 <= k < self.cr@.len() ==> #[trigger] self.cr@[k] < len
        &&& self.d0@.len() == self.del1
        &&& self.d1@.len() == self.del2
    }

    /// There is one share for each neighbour.
    pub open spec fn tuned(&self) -> bool {
        &&& self.alphal@.len() == self.cl@.len()
        &&& self.alphar@.len() == self.cr@.len()
    }

    /// `other` has the same ends, neighbours and delays.
    pub open spec fn same_wiring(&self, other: &DWG<T>) -> bool {
        &&& self.del1 == other.del1
        &&& self.del2 == other.del2
        &&& self.l == other.l
        &&& self.r == other.r
        &&& self.cl@ == other.cl@
        &&& self.pl@ == other.pl@
        &&& self.cr@ == other.cr@
        &&& self.pr@ == other.pr@
        &&& self.commute == other.commute
    }

    /// `other` has the same shares.
    pub open spec fn same_tuning(&self, other: &DWG<T>) -> bool {
        &&& self.alphalthis == other.alphalthis
        &&& self.alpharthis == other.alpharthis
        &&& self.alphal@ == other.alphal@
        &&& self.alphar@ == other.alphar@
    }

    /// `other` holds the same loads and the same samples in its delay lines.
    pub open spec fn same_content(&self, other: &DWG<T>) -> bool {
        &&& self.loadl == other.loadl
        &&& self.loadr == other.loadr
        &&& self.d0@ == other.d0@
        &&& self.d1@ == other.d1@
    }

    /// The element holds no load, and its shares are those that `init` gives it
    /// in the arena `nodes`.
    pub open spec fn rests_tuned(&self, nodes: Seq<DWGNode<T>>) -> bool {
        &&& self.loadl == zero::<T>()
        &&& self.loadr == zero::<T>()
        &&& self.alphalthis == share(nodes[self.l as int].z, self.ztot_left(nodes))
        &&& self.alphal@ == shares(nodes, self.cl@, self.ztot_left(nodes))
        &&& self.alpharthis == share(nodes[self.r as int].z, self.ztot_right(nodes))
        &&& self.alphar@ == shares(nodes, self.cr@, self.ztot_right(nodes))
    }

    /// The total impedance of the junction at the left end.
    pub open spec fn ztot_left(&self, nodes: Seq<DWGNode<T>>) -> T {
        impedance_sum(nodes, nodes[self.l as int].z, self.cl@, self.cl@.len())
    }

    /// The total impedance of the junction at the right end.
    pub open spec fn ztot_right(&self, nodes: Seq<DWGNode<T>>) -> T {
        impedance_sum(nodes, nodes[self.r as int].z, self.cr@, self.cr@.len())
    }

    /// What the junction at the left end sends back into the element.
    pub open spec fn load_left(&self, nodes: Seq<DWGNode<T>>) -> T {
        if self.cl@.len() == 0 {
            zero::<T>()
        } else {
            gathered(
                nodes,
                self.alphalthis.mul_spec(nodes[self.l as int].a0),
                self.cl@,
                self.alphal@,
                self.pl@,
                true,
                self.cl@.len(),
            )
        }
    }

    /// What the junction at the right end sends back into the element.
    pub open spec fn load_right(&self, nodes: Seq<DWGNode<T>>) -> T {
        if self.cr@.len() == 0 {
            zero::<T>()
        } else {
            gathered(
                nodes,
                self.alpharthis.mul_spec(nodes[self.r as int].a1),
                self.cr@,
                self.alphar@,
                self.pr@,
                false,
                self.cr@.len(),
            )
        }
    }

    /// A new element of impedance `z` with delays `del1` and `del2`, whose two
    /// nodes are added to the arena.
    pub fn new(z: T, del1: usize, del2: usize, commute: bool, nodes: &mut Vec<DWGNode<T>>) -> (e:
        DWG<T>)
        requires
            old(nodes)@.len() + 2 <= usize::MAX,
        ensures
            final(nodes)@.len() == old(nodes)@.len() + 2,
            final(nodes)@.take(old(nodes)@.len() as int) == old(nodes)@,
            final(nodes)@[e.l as int].z == z,
            final(nodes)@[e.r as int].z == z,
            exact::<T>() ==> final(nodes)@ == old(nodes)@.push(
                DWGNode { z, load: zero::<T>(), a0: zero::<T>(), a1: zero::<T>() },
            ).push(DWGNode { z, load: zero::<T>(), a0: zero::<T>(), a1: zero::<T>() }),
            e.l == old(nodes)@.len(),
            e.r == old(nodes)@.len() + 1,
            e.del1 == del1,
            e.del2 == del2,
            e.commute == commute,
            e.cl@.len() == 0,
            e.cr@.len() == 0,
            e.wired(final(nodes)@.len()),
            e.tuned(),
            exact::<T>() ==> {
                &&& e.d0@ == Seq::new(del1 as nat, |k: int| zero::<T>())
                &&& e.d1@ == Seq::new(del2 as nat, |k: int| zero::<T>())
                &&& e.loadl == zero::<T>()
                &&& e.loadr == zero::<T>()
                &&& e.alphalthis == zero::<T>()
                &&& e.alpharthis == zero::<T>()
            },
    {
        let rest: T = T::from(0u8);
        let l: usize = nodes.len();
        nodes.push(DWGNode::new(z));
        nodes.push(DWGNode::new(z));
        let e = DWG {
            del1,
            del2,
            pl: Vec::new(),
            pr: Vec::new(),
            cl: Vec::new(),
            cr: Vec::new(),
            l,
            r: l + 1,
            loadl: rest,
            loadr: rest,
            alphalthis: rest,
            alpharthis: rest,
            alphal: Vec::new(),
            alphar: Vec::new(),
            d0: RingBuffer::new(del1, rest),
            d1: RingBuffer::new(del2, rest),
            commute,
        };
        assert(nodes@.take(l as int) =~= old(nodes)@);
        e
    }

    /// Works out, from the impedances that meet at each end, the share of every
    /// branch in its junction.
    pub fn init(&mut self, nodes: &Vec<DWGNode<T>>)
        requires
            old(self).wired(nodes@.len()),
            total::<T>(),
        ensures
            final(self).same_wiring(old(self)),
            final(self).same_content(old(self)),
            final(self).tuned(),
            exact::<T>() ==> {
                &&& final(self).alphalthis == share(
                    nodes@[old(self).l as int].z,
                    old(self).ztot_left(nodes@),
                )
                &&& final(self).alphal@ == shares(nodes@, old(self).cl@, old(self).ztot_left(nodes@))
                &&& final(self).alpharthis == share(
                    nodes@[old(self).r as int].z,
                    old(self).ztot_right(nodes@),
                )
                &&& final(self).alphar@ == shares(
                    nodes@,
                    old(self).cr@,
                    old(self).ztot_right(nodes@),
                )
            },
    {
        let (this, others) = junction_shares(nodes, self.l, &self.cl);
        self.alphalthis = this;
        self.alphal = others;
        let (this, others) = junction_shares(nodes, self.r, &self.cr);
        self.alpharthis = this;
        self.alphar = others;
    }

    /// Moves both delay lines on by one sample: the oldest sample of each arrives
    /// at its node, and the wave that leaves the other node enters the line.
    pub fn do_delay(&mut self, nodes: &mut Vec<DWGNode<T>>)
        requires
            old(self).wired(old(nodes)@.len()),
            old(self).del1 > 0,
            old(self).del2 > 0,
        ensures
            final(self).same_wiring(old(self)),
            final(self).same_tuning(old(self)),
            final(self).loadl == old(self).loadl,
            final(self).loadr == old(self).loadr,
            final(nodes)@ == delayed(
                old(nodes)@,
                old(self).l as int,
                old(self).r as int,
                old(self).d0@.last(),
                old(self).d1@.last(),
            ),
            final(self).d0@ == pushed(old(self).d0@, old(nodes)@[old(self).r as int].a0),
            final(self).d1@ == pushed(old(self).d1@, old(nodes)@[old(self).l as int].a1),
    {
        let dar: T = *self.d0.last();
        let dal: T = *self.d1.last();
        let mut left: DWGNode<T> = nodes[self.l];
        left.a0 = dar;
        nodes[self.l] = left;
        let mut right: DWGNode<T> = nodes[self.r];
        right.a1 = dal;
        nodes[self.r] = right;
        self.d0.push(nodes[self.r].a0);
        self.d1.push(nodes[self.l].a1);
    }

    /// Gathers at each end what the junction sends back into the element.
    pub fn do_load(&mut self, nodes: &Vec<DWGNode<T>>)
        requires
            old(self).wired(nodes@.len()),
            old(self).tuned(),
            total::<T>(),
        ensures
            final(self).same_wiring(old(self)),
            final(self).same_tuning(old(self)),
            final(self).d0@ == old(self).d0@,
            final(self).d1@ == old(self).d1@,
            exact::<T>() ==> final(self).loadl == old(self).load_left(nodes@),
            exact::<T>() ==> final(self).loadr == old(self).load_right(nodes@),
    {
        let rest: T = T::from(0u8);
        if self.cl.len() == 0 {
            self.loadl = rest;
        } else {
            self.loadl = junction_load(
                nodes,
                self.alphalthis * nodes[self.l].a0,
                &self.cl,
                &self.alphal,
                &self.pl,
                true,
            );
        }
        if self.cr.len() == 0 {
            self.loadr = rest;
        } else {
            self.loadr = junction_load(
                nodes,
                self.alpharthis * nodes[self.r].a1,
                &self.cr,
                &self.alphar,
                &self.pr,
                false,
            );
        }
    }

    /// The wave that leaves the left end: what the junction sends back less what
    /// came in.
    pub open spec fn out_left(&self, nodes: Seq<DWGNode<T>>) -> T {
        self.loadl.sub_spec(nodes[self.l as int].a0)
    }

    /// The wave that leaves the right end.
    pub open spec fn out_right(&self, nodes: Seq<DWGNode<T>>) -> T {
        self.loadr.sub_spec(nodes[self.r as int].a1)
    }

    /// Sends the scattered waves back into the element; in the element that
    /// carries the filters, the wave to the right passes the dispersion chain and
    /// the wave to the left the loss and the tuning filter.
    pub fn update(&self, nodes: &mut Vec<DWGNode<T>>, filters: &mut DWGFilters<T>)
        requires
            self.wired(old(nodes)@.len()),
            old(filters).wf(),
            total::<T>(),
        ensures
            final(filters).wf(),
            final(nodes)@.len() == old(nodes)@.len(),
            forall|i: int|
                0 <= i < old(nodes)@.len() && i != self.l && i != self.r
                    ==> #[trigger] final(nodes)@[i] == old(nodes)@[i],
            !self.commute ==> {
                &&& *final(filters) == *old(filters)
                &&& exact::<T>() ==> final(nodes)@[self.l as int] == (DWGNode {
                    a1: self.out_left(old(nodes)@),
                    ..old(nodes)@[self.l as int]
                })
                &&& exact::<T>() ==> final(nodes)@[self.r as int] == (DWGNode {
                    a0: self.out_right(old(nodes)@),
                    ..old(nodes)@[self.r as int]
                })
            },
            self.commute && exact::<T>() ==> {
                let to_right = self.out_left(old(nodes)@);
                let to_left = self.out_right(old(nodes)@);
                let lost = old(filters).lowpass.response(to_left);
                &&& chain_fed(old(filters).dispersion@, to_right, final(filters).dispersion@)
                &&& old(filters).lowpass.fed(to_left, final(filters).lowpass)
                &&& old(filters).fracdelay.fed(lost, final(filters).fracdelay)
                &&& final(nodes)@[self.l as int] == (DWGNode {
                    a1: chain_value(
                        old(filters).dispersion@,
                        to_right,
                        old(filters).dispersion@.len(),
                    ),
                    ..old(nodes)@[self.l as int]
                })
                &&& final(nodes)@[self.r as int] == (DWGNode {
                    a0: old(filters).fracdelay.response(lost),
                    ..old(nodes)@[self.r as int]
                })
            },
    {
        let mut left: DWGNode<T> = nodes[self.l];
        let mut a: T = self.loadl - left.a0;
        if self.commute {
            a = through(&mut filters.dispersion, a);
        }
        left.a1 = a;
        nodes[self.l] = left;
        let mut right: DWGNode<T> = nodes[self.r];
        a = self.loadr - right.a1;
        if self.commute {
            a = filters.lowpass.filter(a);
            a = filters.fracdelay.filter(a);
        }
        right.a0 = a;
        nodes[self.r] = right;
    }

    /// `post` is this element with one more neighbour at the left end.
    pub open spec fn joined_left(&self, l: usize, polarity: usize, post: &DWG<T>) -> bool {
        &&& post.cl@ == self.cl@.push(l)
        &&& post.pl@ == self.pl@.push(polarity)
        &&& post.cr@ == self.cr@
        &&& post.pr@ == self.pr@
        &&& post.del1 == self.del1
        &&& post.del2 == self.del2
        &&& post.l == self.l
        &&& post.r == self.r
        &&& post.commute == self.commute
        &&& post.same_tuning(self)
        &&& post.same_content(self)
    }

    /// `post` is this element with one more neighbour at the right end.
    pub open spec fn joined_right(&self, r: usize, polarity: usize, post: &DWG<T>) -> bool {
        &&& post.cr@ == self.cr@.push(r)
        &&& post.pr@ == self.pr@.push(polarity)
        &&& post.cl@ == self.cl@
        &&& post.pl@ == self.pl@
        &&& post.del1 == self.del1
        &&& post.del2 == self.del2
        &&& post.l == self.l
        &&& post.r == self.r
        &&& post.commute == self.commute
        &&& post.same_tuning(self)
        &&& post.same_content(self)
    }

    /// Joins the node `l` of another element to the left end.
    pub fn connect_left_with_pol(&mut self, l: usize, polarity: usize)
        ensures
            old(self).joined_left(l, polarity, final(self)),
    {
        self.cl.push(l);
        self.pl.push(polarity);
    }

    /// Joins the node `r` of another element to the right end.
    pub fn connect_right_with_pol(&mut self, r: usize, polarity: usize)
        ensures
            old(self).joined_right(r, polarity, final(self)),
    {
        self.cr.push(r);
        self.pr.push(polarity);
    }

    /// Joins the node `l` to the left end, with plain polarity.
    pub fn connect_left(&mut self, l: usize)
        ensures
            old(self).joined_left(l, 0, final(self)),
    {
        self.connect_left_with_pol(l, 0);
    }

    /// Joins the node `r` to the right end, with plain polarity.
    pub fn connect_right(&mut self, r: usize)
        ensures
            old(self).joined_right(r, 0, final(self)),
    {
        self.connect_right_with_pol(r, 0);
    }
}

/// One string between the agraffe, the hammer and the soundboard.
///
/// The string is cut at the striking point into a left and a right waveguide.
/// The right one carries the filters and ends at the soundboard; the hammer
/// hangs at the junction between the two.
pub struct DWGs<T> {
    /// The filters in the loop of the string.
    pub filters: DWGFilters<T>,
    /// The arena of the junction nodes: two for each element, in order.
    pub nodes: Vec<DWGNode<T>>,
    /// From the agraffe to the striking point.
    pub left: DWG<T>,
    /// From the striking point to the bridge.
    pub right: DWG<T>,
    /// The soundboard behind the bridge.
    pub board: DWG<T>,
    /// The hammer at the striking point.
    pub hammer: DWG<T>,
}

impl<T: Sample> DWGs<T> {
    /// The four elements own the eight nodes of the arena in order and are joined
    /// as a string is: left to right, right to board, and the hammer to both.
    pub open spec fn wf(&self) -> bool {
        &&& self.nodes@.len() == 8
        &&& self.filters.wf()
        &&& self.left.wired(8) && self.left.tuned()
        &&& self.right.wired(8) && self.right.tuned()
        &&& self.board.wired(8) && self.board.tuned()
        &&& self.hammer.wired(8) && self.hammer.tuned()
        &&& self.left.l == 0 && self.left.r == 1
        &&& self.right.l == 2 && self.right.r == 3
        &&& self.board.l == 4 && self.board.r == 5
        &&& self.hammer.l == 6 && self.hammer.r == 7
        &&& self.left.cl@ == Seq::<usize>::empty() && self.left.cr@ == seq![2usize, 6usize]
        &&& self.right.cl@ == seq![1usize, 6usize] && self.right.cr@ == seq![4usize]
        &&& self.board.cl@ == seq![3usize] && self.board.cr@ == Seq::<usize>::empty()
        &&& self.hammer.cl@ == seq![1usize, 2usize] && self.hammer.cr@ == Seq::<usize>::empty()
        &&& self.left.pl@ == Seq::<usize>::empty() && self.left.pr@ == seq![0usize, 0usize]
        &&& self.right.pl@ == seq![0usize, 0usize] && self.right.pr@ == seq![0usize]
        &&& self.board.pl@ == seq![0usize] && self.board.pr@ == Seq::<usize>::empty()
        &&& self.hammer.pl@ == seq![0usize, 0usize] && self.hammer.pr@ == Seq::<usize>::empty()
        &&& self.left.del1 > 0 && self.left.del2 > 0
        &&& self.right.del1 > 0 && self.right.del2 > 0
        &&& !self.left.commute && self.right.commute && !self.board.commute
    }

    /// The string as it is made: every node and delay line at rest, and every
    /// share as the impedances `z`, `zb` and `zh` give it.
    pub open spec fn fresh(
        &self,
        del1: usize,
        del2: usize,
        del3: usize,
        filters: DWGFilters<T>,
        z: T,
        zb: T,
        zh: T,
    ) -> bool {
        let at_rest = |z: T| DWGNode { z, load: zero::<T>(), a0: zero::<T>(), a1: zero::<T>() };
        let still = |len: usize| Seq::new(len as nat, |k: int| zero::<T>());
        let n = self.nodes@;
        &&& self.filters == filters
        &&& n == seq![
            at_rest(z),
            at_rest(z),
            at_rest(z),
            at_rest(z),
            at_rest(zb),
            at_rest(zb),
            at_rest(zh),
            at_rest(zh),
        ]
        &&& self.left.del1 == del1 && self.left.del2 == del1
        &&& self.right.del1 == del2 && self.right.del2 == del3
        &&& self.board.del1 == 0 && self.board.del2 == 0
        &&& self.hammer.del1 == 0 && self.hammer.del2 == 0
        &&& !self.hammer.commute
        &&& self.left.d0@ == still(del1) && self.left.d1@ == still(del1)
        &&& self.right.d0@ == still(del2) && self.right.d1@ == still(del3)
        &&& self.left.rests_tuned(n)
        &&& self.right.rests_tuned(n)
        &&& self.board.rests_tuned(n)
        &&& self.hammer.rests_tuned(n)
    }

    /// Joins two waveguides of impedance `z`, a soundboard of impedance `zb` and a
    /// hammer of impedance `zh` to one string. The left waveguide delays by `del1`
    /// samples each way, the right one by `del3` towards the bridge and by `del2`
    /// back, and carries `filters`.
    pub fn wire(
        del1: usize,
        del2: usize,
        del3: usize,
        filters: DWGFilters<T>,
        z: T,
        zb: T,
        zh: T,
    ) -> (s: DWGs<T>)
        requires
            del1 > 0,
            del2 > 0,
            del3 > 0,
            filters.wf(),
            total::<T>(),
        ensures
            s.wf(),
            exact::<T>() ==> s.fresh(del1, del2, del3, filters, z, zb, zh),
    {
        let mut nodes: Vec<DWGNode<T>> = Vec::new();
        let mut d0 = DWG::new(z, del1, del1, false, &mut nodes);
        let mut d1 = DWG::new(z, del2, del3, true, &mut nodes);
        let mut d2 = DWG::new(zb, 0, 0, false, &mut nodes);
        let mut d3 = DWG::new(zh, 0, 0, false, &mut nodes);

        d0.connect_right(d1.l);
        d1.connect_left(d0.r);
        d1.connect_right(d2.l);
        d2.connect_left(d1.r);

        d0.connect_right(d3.l);
        d1.connect_left(d3.l);
        d3.connect_left(d0.r);
        d3.connect_left(d1.l);

        assert(d0.cr@ =~= seq![2usize, 6usize] && d0.pr@ =~= seq![0usize, 0usize]);
        assert(d1.cl@ =~= seq![1usize, 6usize] && d1.pl@ =~= seq![0usize, 0usize]);
        assert(d1.cr@ =~= seq![4usize] && d1.pr@ =~= seq![0usize]);
        assert(d2.cl@ =~= seq![3usize] && d2.pl@ =~= seq![0usize]);
        assert(d3.cl@ =~= seq![1usize, 2usize] && d3.pl@ =~= seq![0usize, 0usize]);
        assert(d0.cl@ =~= Seq::<usize>::empty() && d0.pl@ =~= Seq::<usize>::empty());
        assert(d2.cr@ =~= Seq::<usize>::empty() && d2.pr@ =~= Seq::<usize>::empty());
        assert(d3.cr@ =~= Seq::<usize>::empty() && d3.pr@ =~= Seq::<usize>::empty());

        d0.init(&nodes);
        d1.init(&nodes);
        d2.init(&nodes);
        d3.init(&nodes);

        let s = DWGs { filters, nodes, left: d0, right: d1, board: d2, hammer: d3 };
        proof {
            if exact::<T>() {
                let at_rest = |z: T|
                    DWGNode { z, load: zero::<T>(), a0: zero::<T>(), a1: zero::<T>() };
                assert(s.nodes@ =~= seq![
                    at_rest(z),
                    at_rest(z),
                    at_rest(z),
                    at_rest(z),
                    at_rest(zb),
                    at_rest(zb),
                    at_rest(zh),
                    at_rest(zh),
                ]);
            }
        }
        s
    }

    /// One string of frequency `f` at the sample rate `fs`, struck at the
    /// fraction `inpos` of its length: with the loss parameters `c1` and `c3`,
    /// the inharmonicity `b`, its own impedance `z` and the impedances `zb` of
    /// the bridge and `zh` of the hammer. There is none where the tuning filter
    /// would be of an order whose coefficients do not fit.
    /// `math` holds the functions that the design takes from the caller.
    pub fn new<
        Ln: Fn(T) -> T,
        Exp: Fn(T) -> T,
        Pow: Fn(T, T) -> T,
        Sqrt: Fn(T) -> T,
        Phasor: Fn(T) -> (T, T),
        Atan2: Fn(T, T) -> T,
        Trunc: Fn(T) -> usize,
    >(
        f: T,
        fs: T,
        inpos: T,
        c1: T,
        c3: T,
        b: T,
        z: T,
        zb: T,
        zh: T,
        math: &Math<T, Ln, Exp, Pow, Sqrt, Phasor, Atan2, Trunc>,
    ) -> (s: Option<DWGs<T>>)
        requires
            math.usable(),
            total::<T>(),
        ensures
            s.is_some() ==> s.unwrap().wf(),
            exact::<T>() ==> math.string_made(f, fs, inpos, c1, c3, b, z, zb, zh, s),
    {
        let m: usize = dispersion_count(f);
        let mut chain: Vec<Filter<T>> = Vec::new();
        let mut i: usize = 0;
        while i < m
            invariant
                math.usable(),
                total::<T>(),
                i <= m,
                chain@.len() == i,
                forall|j: int| 0 <= j < i ==> (#[trigger] chain@[j]).wf(),
                exact::<T>() ==> forall|j: int|
                    0 <= j < i ==> dispersed(
                        b,
                        f,
                        m,
                        math.halfstep,
                        &math.ln,
                        &math.exp,
                        #[trigger] chain@[j],
                    ),
            decreases m - i,
        {
            chain.push(thirian_dispersion(b, f, m, math.halfstep, &math.ln, &math.exp));
            i = i + 1;
        }
        let stiff: T = chain[0].groupdelay(f, fs, math.pi, &math.phasor, &math.atan2, &math.sqrt);
        let dispersion_delay: T = whole::<T>(m as u64) * stiff;
        let lowpass: Filter<T> = loss(f, fs, c1, c3, &math.sqrt);
        let damped: T = lowpass.groupdelay(f, fs, math.pi, &math.phasor, &math.atan2, &math.sqrt);
        let d: Delays<T> = delays(f, fs, inpos, dispersion_delay, damped, &math.trunc);
        let order: usize = (math.trunc)(d.tuning);
        let ghost parts = StringTrace { chain: chain@, stiff, lowpass, damped, delays: d, order };
        match checked_thirian(d.tuning, order) {
            None => {
                proof {
                    if exact::<T>() {
                        assert(math.string_traced(f, fs, inpos, c1, c3, b, z, zb, zh, parts, None));
                    }
                }
                None
            },
            Some(fracdelay) => {
                let filters = DWGFilters { dispersion: chain, lowpass, fracdelay };
                let s = DWGs::wire(d.del1, d.del2, d.del3, filters, z, zb, zh);
                proof {
                    if exact::<T>() {
                        assert(math.string_traced(
                            f,
                            fs,
                            inpos,
                            c1,
                            c3,
                            b,
                            z,
                            zb,
                            zh,
                            parts,
                            Some(s),
                        ));
                    }
                }
                Some(s)
            },
        }
    }

    /// The arena after the hammer's `load` was laid on its node and both
    /// waveguides moved on by one sample.
    pub open spec fn struck_nodes(&self, load: T) -> Seq<DWGNode<T>> {
        let n = self.nodes@;
        let laid = n.update(6, DWGNode { load, ..n[6] });
        let first = delayed(laid, 0, 1, self.left.d0@.last(), self.left.d1@.last());
        delayed(first, 2, 3, self.right.d0@.last(), self.right.d1@.last())
    }

    /// `post` is this string after `go_hammer(load)`.
    pub open spec fn after_hammer(&self, load: T, post: &DWGs<T>) -> bool {
        &&& post.filters == self.filters
        &&& post.board == self.board
        &&& post.hammer == self.hammer
        &&& post.nodes@ == self.struck_nodes(load)
        &&& post.left.same_wiring(&self.left) && post.left.same_tuning(&self.left)
        &&& post.right.same_wiring(&self.right) && post.right.same_tuning(&self.right)
        &&& post.left.loadl == self.left.loadl && post.left.loadr == self.left.loadr
        &&& post.right.loadl == self.right.loadl && post.right.loadr == self.right.loadr
        &&& post.left.d0@ == pushed(self.left.d0@, self.nodes@[1].a0)
        &&& post.left.d1@ == pushed(self.left.d1@, self.nodes@[0].a1)
        &&& post.right.d0@ == pushed(self.right.d0@, self.nodes@[3].a0)
        &&& post.right.d1@ == pushed(self.right.d1@, self.nodes@[2].a1)
    }

    /// `post` is this string after `go_soundboard(load)`.
    pub open spec fn after_soundboard(&self, load: T, post: &DWGs<T>) -> bool {
        let n = self.nodes@;
        let laid = n.update(4, DWGNode { load, ..n[4] });
        let to_right = post.right.out_left(laid);
        let to_left = post.right.out_right(laid);
        let lost = self.filters.lowpass.response(to_left);
        &&& post.hammer == self.hammer
        &&& post.left.same_wiring(&self.left) && post.left.same_tuning(&self.left)
        &&& post.right.same_wiring(&self.right) && post.right.same_tuning(&self.right)
        &&& post.board.same_wiring(&self.board) && post.board.same_tuning(&self.board)
        &&& post.left.d0@ == self.left.d0@ && post.left.d1@ == self.left.d1@
        &&& post.right.d0@ == self.right.d0@ && post.right.d1@ == self.right.d1@
        &&& post.board.d0@ == self.board.d0@ && post.board.d1@ == self.board.d1@
        &&& post.left.loadl == self.left.load_left(laid)
        &&& post.left.loadr == self.left.load_right(laid)
        &&& post.right.loadl == self.right.load_left(laid)
        &&& post.right.loadr == self.right.load_right(laid)
        &&& post.board.loadl == self.board.load_left(laid)
        &&& post.board.loadr == self.board.load_right(laid)
        &&& chain_fed(self.filters.dispersion@, to_right, post.filters.dispersion@)
        &&& self.filters.lowpass.fed(to_left, post.filters.lowpass)
        &&& self.filters.fracdelay.fed(lost, post.filters.fracdelay)
        &&& post.nodes@ == seq![
            DWGNode { a1: post.left.out_left(laid), ..laid[0] },
            DWGNode { a0: post.left.out_right(laid), ..laid[1] },
            DWGNode {
                a1: chain_value(
                    self.filters.dispersion@,
                    to_right,
                    self.filters.dispersion@.len(),
                ),
                ..laid[2]
            },
            DWGNode { a0: self.filters.fracdelay.response(lost), ..laid[3] },
            DWGNode { a1: post.board.out_left(laid), ..laid[4] },
            DWGNode { a0: post.board.out_right(laid), ..laid[5] },
            laid[6],
            laid[7],
        ]
    }

    /// Lays the hammer's `load` on the striking point and moves the waves of both
    /// waveguides on by one sample. Returns the wave that arrives at the bridge.
    pub fn go_hammer(&mut self, load: T) -> (out: T)
        requires
            old(self).wf(),
        ensures
            final(self).wf(),
            old(self).after_hammer(load, final(self)),
            out == final(self).nodes@[3].a1,
    {
        let mut at_hammer: DWGNode<T> = self.nodes[self.hammer.l];
        at_hammer.load = load;
        self.nodes[self.hammer.l] = at_hammer;
        self.left.do_delay(&mut self.nodes);
        self.right.do_delay(&mut self.nodes);
        self.nodes[self.right.r].a1
    }

    /// Lays the soundboard's `load` on the bridge, scatters the waves at every
    /// junction and sends them back into the waveguides. Returns the wave that
    /// goes into the soundboard.
    pub fn go_soundboard(&mut self, load: T) -> (out: T)
        requires
            old(self).wf(),
            total::<T>(),
        ensures
            final(self).wf(),
            exact::<T>() ==> old(self).after_soundboard(load, final(self)),
            out == final(self).nodes@[4].a1,
    {
        let mut at_bridge: DWGNode<T> = self.nodes[self.board.l];
        at_bridge.load = load;
        self.nodes[self.board.l] = at_bridge;
        let ghost laid = self.nodes@;
        self.left.do_load(&self.nodes);
        self.right.do_load(&self.nodes);
        self.board.do_load(&self.nodes);

        let ghost start = self.filters;
        self.left.update(&mut self.nodes, &mut self.filters);
        let ghost first = self.nodes@;
        self.right.update(&mut self.nodes, &mut self.filters);
        let ghost second = self.nodes@;
        self.board.update(&mut self.nodes, &mut self.filters);
        proof {
            if exact::<T>() {
                let to_right = self.right.out_left(laid);
                let to_left = self.right.out_right(laid);
                let lost = start.lowpass.response(to_left);
                let want = seq![
                    DWGNode { a1: self.left.out_left(laid), ..laid[0] },
                    DWGNode { a0: self.left.out_right(laid), ..laid[1] },
                    DWGNode {
                        a1: chain_value(start.dispersion@, to_right, start.dispersion@.len()),
                        ..laid[2]
                    },
                    DWGNode { a0: start.fracdelay.response(lost), ..laid[3] },
                    DWGNode { a1: self.board.out_left(laid), ..laid[4] },
                    DWGNode { a0: self.board.out_right(laid), ..laid[5] },
                    laid[6],
                    laid[7],
                ];
                assert(first[2] == laid[2] && first[3] == laid[3]);
                assert(second[4] == laid[4] && second[5] == laid[5]);
                assert(self.nodes@[0] == want[0]);
                assert(self.nodes@[1] == want[1]);
                assert(self.nodes@[2] == want[2]);
                assert(self.nodes@[3] == want[3]);
                assert(self.nodes@[4] == want[4]);
                assert(self.nodes@[5] == want[5]);
                assert(self.nodes@[6] == want[6]);
                assert(self.nodes@[7] == want[7]);
                assert(self.nodes@ =~= want);
            }
        }
        self.nodes[self.board.l].a1
    }

    /// The velocity of the string at the striking point, as the hammer meets it.
    pub fn input_velocity(&self) -> (v: T)
        requires
            self.wf(),
            total::<T>(),
        ensures
            exact::<T>() ==> v == self.nodes@[2].a0.add_spec(self.nodes@[1].a1),
    {
        self.nodes[self.right.l].a0 + self.nodes[self.left.r].a1
    }
}

/// Sends `v` through every filter of `chain` in turn.
pub fn through<T: Sample>(chain: &mut Vec<Filter<T>>, v: T) -> (out: T)
    requires
        forall|m: int| 0 <= m < old(chain)@.len() ==> (#[trigger] old(chain)@[m]).wf(),
        total::<T>(),
    ensures
        exact::<T>() ==> chain_fed(old(chain)@, v, final(chain)@),
        final(chain)@.len() == old(chain)@.len(),
        forall|m: int| 0 <= m < final(chain)@.len() ==> (#[trigger] final(chain)@[m]).wf(),
        exact::<T>() ==> out == chain_value(old(chain)@, v, old(chain)@.len()),
{
    let ghost start = chain@;
    let mut a: T = v;
    let count: usize = chain.len();
    let mut m: usize = 0;
    while m < count
        invariant
            total::<T>(),
            m <= count,
            chain@.len() == count,
            start.len() == count,
            forall|j: int| m <= j < count ==> chain@[j] == start[j],
            forall|j: int| 0 <= j < count ==> (#[trigger] chain@[j]).wf(),
            exact::<T>() ==> forall|j: int|
                0 <= j < m ==> (#[trigger] start[j]).fed(chain_value(start, v, j as nat), chain@[j]),
            exact::<T>() ==> a == chain_value(start, v, m as nat),
        decreases count - m,
    {
        a = chain[m].filter(a);
        m = m + 1;
    }
    a
}

/// The share of the node `own` in its junction with the nodes `conn`, and the
/// shares of those.
fn junction_shares<T: Sample>(nodes: &Vec<DWGNode<T>>, own: usize, conn: &Vec<usize>) -> (r: (
    T,
    Vec<T>,
))
    requires
        own < nodes@.len(),
        forall|k: int| 0 <= k < conn@.len() ==> #[trigger] conn@[k] < nodes@.len(),
        total::<T>(),
    ensures
        r.1@.len() == conn@.len(),
        exact::<T>() ==> {
            let ztot = impedance_sum(nodes@, nodes@[own as int].z, conn@, conn@.len());
            &&& r.0 == share(nodes@[own as int].z, ztot)
            &&& r.1@ == shares(nodes@, conn@, ztot)
        },
{
    let two: T = T::from(2u8);
    let mut ztot: T = nodes[own].z;
    let mut k: usize = 0;
    while k < conn.len()
        invariant
            total::<T>(),
            own < nodes@.len(),
            forall|k: int| 0 <= k < conn@.len() ==> #[trigger] conn@[k] < nodes@.len(),
            k <= conn@.len(),
            exact::<T>() ==> ztot == impedance_sum(nodes@, nodes@[own as int].z, conn@, k as nat),
        decreases conn@.len() - k,
    {
        ztot = ztot + nodes[conn[k]].z;
        k = k + 1;
    }
    let this: T = two * nodes[own].z / ztot;
    let mut others: Vec<T> = Vec::new();
    let mut k: usize = 0;
    while k < conn.len()
        invariant
            total::<T>(),
            forall|k: int| 0 <= k < conn@.len() ==> #[trigger] conn@[k] < nodes@.len(),
            k <= conn@.len(),
            others@.len() == k,
            exact::<T>() ==> two == number::<T>(2),
            exact::<T>() ==> forall|j: int|
                0 <= j < k ==> others@[j] == share(nodes@[conn@[j] as int].z, ztot),
        decreases conn@.len() - k,
    {
        others.push(two * nodes[conn[k]].z / ztot);
        k = k + 1;
    }
    proof {
        if exact::<T>() {
            assert(others@ =~= shares(nodes@, conn@, ztot));
        }
    }
    (this, others)
}

/// What a junction sends back: the element's own share `own`, and load and share
/// of every neighbour.
fn junction_load<T: Sample>(
    nodes: &Vec<DWGNode<T>>,
    own: T,
    conn: &Vec<usize>,
    alphas: &Vec<T>,
    pols: &Vec<usize>,
    left: bool,
) -> (load: T)
    requires
        forall|k: int| 0 <= k < conn@.len() ==> #[trigger] conn@[k] < nodes@.len(),
        alphas@.len() == conn@.len(),
        pols@.len() == conn@.len(),
        total::<T>(),
    ensures
        exact::<T>() ==> load == gathered(nodes@, own, conn@, alphas@, pols@, left, conn@.len()),
{
    let mut load: T = own;
    let mut k: usize = 0;
    while k < conn.len()
        invariant
            total::<T>(),
            forall|k: int| 0 <= k < conn@.len() ==> #[trigger] conn@[k] < nodes@.len(),
            alphas@.len() == conn@.len(),
            pols@.len() == conn@.len(),
            k <= conn@.len(),
            exact::<T>() ==> load == gathered(nodes@, own, conn@, alphas@, pols@, left, k as nat),
        decreases conn@.len() - k,
    {
        let node: DWGNode<T> = nodes[conn[k]];
        let wave: T = if left == (pols[k] != 0) {
            node.a0
        } else {
            node.a1
        };
        load = load + node.load;
        load = load + alphas[k] * wave;
        k = k + 1;
    }
    load
}

} // verus!
