//! One note of the instrument: its unison strings, their hammers and the
//! soundboard they share.

use crate::dwgs::DWGs;
use crate::hammer::Hammer;
use crate::math::{Math, Note};
use crate::sample::{exact, fraction, number, ratio, total, whole, whole_spec, zero, Sample};
use vstd::prelude::*;
use vstd::std_specs::convert::FromSpec;
use vstd::std_specs::ops::{AddSpec, DivSpec, MulSpec};

verus! {

/// How many strings sound for the note of a key: one in the bass, two in the
/// tenor, three from there up.
pub open spec fn unison(note: usize) -> usize {
    if note < 31 {
        1
    } else if note < 41 {
        2
    } else {
        3
    }
}

/// How many strings sound for the note of a key.
pub fn unison_count(note: usize) -> (n: usize)
    ensures
        n == unison(note),
        1 <= n <= 3,
{
    if note < 31 {
        1
    } else if note < 41 {
        2
    } else {
        3
    }
}

/// By how much string `k` of a unison is out of tune: the first is in tune, the
/// second three parts in ten thousand sharp, the third four parts flat.
pub open spec fn detuning<T: Sample>(k: usize) -> T {
    if k == 0 {
        number::<T>(1)
    } else if k == 1 {
        ratio::<T>(10003, 10000)
    } else {
        ratio::<T>(9996, 10000)
    }
}

/// The frequency of string `k` of the unison for a note of frequency `f`.
pub fn unison_frequency<T: Sample>(f: T, k: usize) -> (fk: T)
    requires
        k < 3,
        total::<T>(),
    ensures
        exact::<T>() ==> fk == f.mul_spec(detuning::<T>(k)),
{
    let ratio: T = if k == 0 {
        T::from(1u8)
    } else if k == 1 {
        fraction::<T>(10003, 10000)
    } else {
        fraction::<T>(9996, 10000)
    };
    f * ratio
}

/// The impedance that one string of a unison of `nstrings` sees at the bridge:
/// the soundboard's `zb` and the other strings' `z` each.
pub fn bridge_impedance<T: Sample>(zb: T, z: T, nstrings: usize) -> (r: T)
    requires
        1 <= nstrings <= 3,
        total::<T>(),
    ensures
        exact::<T>() ==> r == zb.add_spec(number::<T>((nstrings - 1) as u8).mul_spec(z)),
{
    zb + T::from((nstrings - 1) as u8) * z
}

/// The part of the bridge's velocity that the first `k` strings bring: each
/// string gives `2 z a / (z n + zb)` for the wave `a` that reaches its bridge.
pub open spec fn bridge_sum<T: Sample>(strings: Seq<DWGs<T>>, z: T, zb: T, count: T, k: nat) -> T
    decreases k,
{
    if k == 0 {
        zero::<T>()
    } else {
        bridge_sum(strings, z, zb, count, (k - 1) as nat).add_spec(
            number::<T>(2).mul_spec(z).mul_spec(strings[k - 1].nodes@[3].a1).div_spec(
                z.mul_spec(count).add_spec(zb),
            ),
        )
    }
}

/// The sum of what the first `k` strings send into the soundboard.
pub open spec fn board_sum<T: Sample>(strings: Seq<DWGs<T>>, k: nat) -> T
    decreases k,
{
    if k == 0 {
        zero::<T>()
    } else {
        board_sum(strings, (k - 1) as nat).add_spec(strings[k - 1].nodes@[4].a1)
    }
}

/// The strings and hammers of one note.
pub struct Piano<T> {
    /// The impedance of one string.
    pub z: T,
    /// The impedance of the soundboard.
    pub zb: T,
    /// How many strings the note has.
    pub nstrings: usize,
    /// The strings of the unison.
    pub string: Vec<DWGs<T>>,
    /// The hammer of each string.
    pub hammers: Vec<Hammer<T>>,
}

impl<T: Sample> Piano<T> {
    /// There are one to three strings, each well formed and each with its hammer.
    pub open spec fn wf(&self) -> bool {
        &&& 1 <= self.nstrings <= 3
        &&& self.string@.len() == self.nstrings
        &&& self.hammers@.len() == self.nstrings
        &&& forall|k: int| 0 <= k < self.string@.len() ==> (#[trigger] self.string@[k]).wf()
    }

    /// The number of strings as a sample.
    pub open spec fn count(&self) -> T {
        <T as FromSpec<u8>>::from_spec(self.nstrings as u8)
    }

    /// The velocity of string `k` at its striking point.
    pub open spec fn vin(&self, k: int) -> T {
        self.string@[k].nodes@[2].a0.add_spec(self.string@[k].nodes@[1].a1)
    }

    /// What the hammer's force `force` lays on a string: `force / (2 z)`.
    pub open spec fn laid(&self, force: T) -> T {
        force.div_spec(number::<T>(2).mul_spec(self.z))
    }

    /// `post` and `out` are what `go` leaves and returns, where `forces` are the
    /// hammers' forces and `mid` the strings once the hammers have struck.
    pub open spec fn stepped_by<F: Fn(T, T) -> T>(
        &self,
        pow: &F,
        forces: Seq<T>,
        mid: Seq<DWGs<T>>,
        post: &Piano<T>,
        out: T,
    ) -> bool {
        let n = self.nstrings as int;
        let load = bridge_sum(mid, self.z, self.zb, self.count(), n as nat);
        &&& post.z == self.z && post.zb == self.zb && post.nstrings == self.nstrings
        &&& forces.len() == n && mid.len() == n
        &&& post.string@.len() == n && post.hammers@.len() == n
        &&& forall|k: int|
            0 <= k < n ==> (#[trigger] self.hammers@[k]).loaded(
                pow,
                self.vin(k),
                post.hammers@[k],
                forces[k],
            )
        &&& forall|k: int|
            0 <= k < n ==> (#[trigger] self.string@[k]).after_hammer(self.laid(forces[k]), &mid[k])
        &&& forall|k: int| 0 <= k < n ==> (#[trigger] mid[k]).after_soundboard(load, &post.string@[k])
        &&& out == board_sum(post.string@, n as nat)
    }

    /// The strings `string` of one note with their `hammers`, where `z` is the
    /// impedance of one string and `zb` that of the soundboard.
    pub fn assemble(note: usize, z: T, zb: T, string: Vec<DWGs<T>>, hammers: Vec<Hammer<T>>) -> (p:
        Piano<T>)
        requires
            string@.len() == unison(note),
            hammers@.len() == unison(note),
            forall|k: int| 0 <= k < string@.len() ==> (#[trigger] string@[k]).wf(),
        ensures
            p.wf(),
            p == (Piano { z, zb, nstrings: unison(note), string, hammers }),
    {
        Piano { z, zb, nstrings: unison_count(note), string, hammers }
    }

    /// The piano that plays the key `note` at the sample rate `fs`, its hammers
    /// flying at `v0`. There is none where one of its strings could not be made.
    /// `math` holds the functions that the design takes from the caller.
    pub fn new<
        Ln: Fn(T) -> T,
        Exp: Fn(T) -> T,
        Pow: Fn(T, T) -> T,
        Sqrt: Fn(T) -> T,
        Phasor: Fn(T) -> (T, T),
        Atan2: Fn(T, T) -> T,
        Trunc: Fn(T) -> usize,
    >(note: usize, fs: T, v0: T, math: &Math<T, Ln, Exp, Pow, Sqrt, Phasor, Atan2, Trunc>) -> (p: Option<Piano<T>>)
        requires
            math.usable(),
            total::<T>(),
        ensures
            p.is_some() ==> p.unwrap().wf(),
            exact::<T>() ==> exists|n: Note<T>| #[trigger] math.piano_traced(note, fs, v0, n, p),
    {
        let n: Note<T> = math.note(note);
        let hp: T = T::from(1u8) / whole::<T>(7);
        let zb: T = whole::<T>(4000);
        let zh: T = T::from(0u8);
        let c1: T = fraction::<T>(25, 100);
        let c3: T = fraction::<T>(585, 100);
        let nstrings: usize = unison_count(note);
        let mut strings: Vec<DWGs<T>> = Vec::new();
        let mut k: usize = 0;
        while k < nstrings
            invariant
                math.usable(),
                total::<T>(),
                nstrings == unison(note),
                1 <= nstrings <= 3,
                k <= nstrings,
                strings@.len() == k,
                forall|j: int| 0 <= j < k ==> (#[trigger] strings@[j]).wf(),
                exact::<T>() ==> {
                    &&& hp == number::<T>(1).div_spec(whole_spec::<T>(7))
                    &&& zb == whole_spec::<T>(4000)
                    &&& zh == zero::<T>()
                    &&& c1 == ratio::<T>(25, 100)
                    &&& c3 == ratio::<T>(585, 100)
                    &&& math.note_made(note, n)
                    &&& forall|j: int|
                        0 <= j < k ==> math.unison_made(n, fs, nstrings, j, Some(#[trigger] strings@[j]))
                },
            decreases nstrings - k,
        {
            let s = DWGs::new(
                unison_frequency(n.f, k),
                fs,
                hp,
                c1,
                c3,
                n.b,
                n.z,
                bridge_impedance(zb, n.z, nstrings),
                zh,
                math,
            );
            match s {
                None => {
                    proof {
                        if exact::<T>() {
                            assert(math.unison_made(n, fs, nstrings, k as int, None));
                            assert(math.piano_traced(note, fs, v0, n, None));
                        }
                    }
                    return None;
                },
                Some(s) => {
                    strings.push(s);
                },
            }
            k = k + 1;
        }
        let mut hammers: Vec<Hammer<T>> = Vec::new();
        let mut k: usize = 0;
        while k < nstrings
            invariant
                total::<T>(),
                k <= nstrings,
                hammers@.len() == k,
                exact::<T>() ==> forall|j: int|
                    0 <= j < k ==> #[trigger] hammers@[j] == Hammer::poised(
                        fs,
                        n.m,
                        n.k,
                        n.p,
                        n.z,
                        n.alpha,
                        v0,
                    ),
            decreases nstrings - k,
        {
            hammers.push(Hammer::new(n.f, fs, n.m, n.k, n.p, n.z, n.alpha, v0));
            k = k + 1;
        }
        let p = Piano::assemble(note, n.z, zb, strings, hammers);
        proof {
            if exact::<T>() {
                assert(math.piano_traced(note, fs, v0, n, Some(p)));
            }
        }
        Some(p)
    }

    /// The next output sample: every hammer finds its force from the velocity of
    /// its string, every string takes that force and moves on by one sample, the
    /// waves that reach the bridge make up the soundboard's load, and each string
    /// scatters at the bridge. `pow` raises a positive number to a power.
    pub fn go<F: Fn(T, T) -> T>(&mut self, pow: &F) -> (out: T)
        requires
            old(self).wf(),
            total::<T>(),
            forall|x: T, p: T| pow.requires((x, p)),
        ensures
            final(self).wf(),
            exact::<T>() ==> exists|forces: Seq<T>, mid: Seq<DWGs<T>>| #[trigger]
                old(self).stepped_by(pow, forces, mid, final(self), out),
    {
        let ghost start = *self;
        let n: usize = self.nstrings;
        let two: T = T::from(2u8);
        let count: T = T::from(n as u8);
        let mut hloads: Vec<T> = Vec::new();
        let mut k: usize = 0;
        while k < n
            invariant
                total::<T>(),
                forall|x: T, p: T| pow.requires((x, p)),
                start.wf(),
                n == start.nstrings,
                k <= n,
                hloads@.len() == k,
                self.z == start.z && self.zb == start.zb && self.nstrings == start.nstrings,
                self.string == start.string,
                self.hammers@.len() == n,
                forall|j: int| k <= j < n ==> self.hammers@[j] == start.hammers@[j],
                exact::<T>() ==> forall|j: int|
                    0 <= j < k ==> (#[trigger] start.hammers@[j]).loaded(
                        pow,
                        start.vin(j),
                        self.hammers@[j],
                        hloads@[j],
                    ),
            decreases n - k,
        {
            let vin: T = self.string[k].input_velocity();
            let force: T = self.hammers[k].load(vin, pow);
            hloads.push(force);
            k = k + 1;
        }
        let ghost forces = hloads@;
        let ghost struck = self.hammers;
        let mut load: T = T::from(0u8);
        let mut k: usize = 0;
        while k < n
            invariant
                total::<T>(),
                start.wf(),
                n == start.nstrings,
                k <= n,
                hloads@ == forces,
                forces.len() == n,
                self.hammers == struck,
                self.z == start.z && self.zb == start.zb && self.nstrings == start.nstrings,
                self.string@.len() == n,
                forall|j: int| 0 <= j < n ==> (#[trigger] self.string@[j]).wf(),
                forall|j: int| k <= j < n ==> self.string@[j] == start.string@[j],
                exact::<T>() ==> forall|j: int|
                    0 <= j < k ==> (#[trigger] start.string@[j]).after_hammer(
                        start.laid(forces[j]),
                        &self.string@[j],
                    ),
                exact::<T>() ==> two == number::<T>(2) && count == start.count(),
                exact::<T>() ==> load == bridge_sum(self.string@, self.z, self.zb, count, k as nat),
            decreases n - k,
        {
            let ghost before = self.string@;
            let arrived: T = self.string[k].go_hammer(hloads[k] / (two * self.z));
            proof {
                lemma_bridge_sum_prefix(before, self.string@, self.z, self.zb, count, k as nat);
            }
            load = load + (two * self.z * arrived) / (self.z * count + self.zb);
            k = k + 1;
        }
        let ghost mid = self.string@;
        let mut output: T = T::from(0u8);
        let mut k: usize = 0;
        while k < n
            invariant
                total::<T>(),
                n == start.nstrings,
                k <= n,
                mid.len() == n,
                self.hammers == struck,
                self.z == start.z && self.zb == start.zb && self.nstrings == start.nstrings,
                self.string@.len() == n,
                forall|j: int| 0 <= j < n ==> (#[trigger] self.string@[j]).wf(),
                forall|j: int| k <= j < n ==> self.string@[j] == mid[j],
                exact::<T>() ==> forall|j: int|
                    0 <= j < k ==> (#[trigger] mid[j]).after_soundboard(load, &self.string@[j]),
                exact::<T>() ==> output == board_sum(self.string@, k as nat),
            decreases n - k,
        {
            let ghost before = self.string@;
            let sent: T = self.string[k].go_soundboard(load);
            proof {
                lemma_board_sum_prefix(before, self.string@, k as nat);
            }
            output = output + sent;
            k = k + 1;
        }
        proof {
            if exact::<T>() {
                assert(start.stepped_by(pow, forces, mid, &*self, output));
            }
        }
        output
    }
}

/// The bridge's velocity from the first `k` strings reads only those strings.
pub proof fn lemma_bridge_sum_prefix<T: Sample>(
    a: Seq<DWGs<T>>,
    b: Seq<DWGs<T>>,
    z: T,
    zb: T,
    count: T,
    k: nat,
)
    requires
        k <= a.len(),
        k <= b.len(),
        forall|j: int| 0 <= j < k ==> a[j] == b[j],
    ensures
        bridge_sum(a, z, zb, count, k) == bridge_sum(b, z, zb, count, k),
    decreases k,
{
    if k > 0 {
        lemma_bridge_sum_prefix(a, b, z, zb, count, (k - 1) as nat);
    }
}

/// What the first `k` strings send into the soundboard reads only those strings.
pub proof fn lemma_board_sum_prefix<T: Sample>(a: Seq<DWGs<T>>, b: Seq<DWGs<T>>, k: nat)
    requires
        k <= a.len(),
        k <= b.len(),
        forall|j: int| 0 <= j < k ==> a[j] == b[j],
    ensures
        board_sum(a, k) == board_sum(b, k),
    decreases k,
{
    if k > 0 {
        lemma_board_sum_prefix(a, b, (k - 1) as nat);
    }
}

} // verus!
