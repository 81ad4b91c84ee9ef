//! The lattice of random gradients behind the noise texture.
//!
//! Each lattice point has a gradient, found through three tables that hold
//! the numbers below 256 in random order. The tables are shuffled here; the
//! gradients are handed in, and the noise is interpolated from them by the
//! caller.
use vstd::prelude::*;
use rand::Rng;
use crate::permutation::{identity, is_permutation};
use crate::vec3::Vec3;

verus! {

/// The number of lattice points along each table.
pub const POINT_COUNT: usize = 256;

/// A lattice of random gradients, reached through three shuffled tables.
#[derive(Clone, Debug, PartialEq, Eq)]
pub struct Perlin {
    pub ranfloat: Vec<Vec3>,
    pub perm_x: Vec<usize>,
    pub perm_y: Vec<usize>,
    pub perm_z: Vec<usize>,
}

/// A number drawn at random from zero up to and including `bound`. This is
/// `Rng::gen_range` of the `rand` crate, called on the generator of the
/// running thread with the range `0..=bound`; the contract says only that
/// the number lies in that range, which is all that holds of every draw.
#[verifier::external_body]
fn random_up_to(bound: usize) -> (drawn: usize)
    ensures
        drawn <= bound,
{
    rand::thread_rng().gen_range(0..=bound)
}

/// The place in a table that belongs to lattice coordinate `i`: its lowest
/// eight bits.
pub open spec fn spec_wrap(i: i64) -> usize {
    (i & 255) as usize
}

/// The place in a table that belongs to lattice coordinate `i`.
pub fn wrap(i: i64) -> (place: usize)
    ensures
        place == spec_wrap(i),
        place < POINT_COUNT,
{
    let low: i64 = i & 255;
    assert(0 <= low < 256) by (bit_vector)
        requires
            low == i & 255,
    ;
    low as usize
}

impl Perlin {
    /// The invariant of a lattice: 256 gradients, and three tables that
    /// each hold every number below 256 once.
    pub open spec fn wf(self) -> bool {
        &&& self.ranfloat@.len() == POINT_COUNT
        &&& is_permutation(self.perm_x@, POINT_COUNT as nat)
        &&& is_permutation(self.perm_y@, POINT_COUNT as nat)
        &&& is_permutation(self.perm_z@, POINT_COUNT as nat)
    }

    /// The number of the gradient at lattice point `(i, j, k)`.
    pub open spec fn spec_index(self, i: i64, j: i64, k: i64) -> usize {
        self.perm_x@[spec_wrap(i) as int] ^ self.perm_y@[spec_wrap(j) as int]
            ^ self.perm_z@[spec_wrap(k) as int]
    }

    /// A lattice with the given gradients and freshly shuffled tables.
    pub fn new(ranfloat: Vec<Vec3>) -> (p: Perlin)
        requires
            ranfloat@.len() == POINT_COUNT,
        ensures
            p.wf(),
            p.ranfloat == ranfloat,
    {
        let perm_x = Self::perlin_generate_perm();
        let perm_y = Self::perlin_generate_perm();
        let perm_z = Self::perlin_generate_perm();
        Perlin { ranfloat, perm_x, perm_y, perm_z }
    }

    /// The gradient at lattice point `(i, j, k)`.
    pub fn gradient(&self, i: i64, j: i64, k: i64) -> (g: Vec3)
        requires
            self.wf(),
        ensures
            self.spec_index(i, j, k) < POINT_COUNT,
            g == self.ranfloat@[self.spec_index(i, j, k) as int],
    {
        let a: usize = self.perm_x[wrap(i)];
        let b: usize = self.perm_y[wrap(j)];
        let c: usize = self.perm_z[wrap(k)];
        assert(a ^ b ^ c < 256) by (bit_vector)
            requires
                a < 256,
                b < 256,
                c < 256,
        ;
        self.ranfloat[a ^ b ^ c]
    }

    /// A table that holds the numbers below 256 in random order.
    pub fn perlin_generate_perm() -> (p: Vec<usize>)
        ensures
            is_permutation(p@, POINT_COUNT as nat),
    {
        let mut p: Vec<usize> = Vec::with_capacity(256);
        let mut i: usize = 0;
        while i < 256
            invariant
                i <= 256,
                p@ == identity(i as nat),
            decreases 256 - i,
        {
            p.push(i);
            assert(p@ =~= identity((i + 1) as nat));
            i = i + 1;
        }
        Self::permute(&mut p, 256);
        proof {
            permuted_stays_below(identity(256), p@, 256);
        }
        p
    }

    /// Shuffles the first `n` places of `p`: from the last place down, each
    /// place changes its content with a place drawn at random from those up
    /// to and including itself. Whatever is drawn, `p` holds afterwards what
    /// it held before, and the places from `n` on are left alone.
    pub fn permute(p: &mut Vec<usize>, n: usize)
        requires
            n <= old(p)@.len(),
        ensures
            final(p)@.len() == old(p)@.len(),
            final(p)@.to_multiset() == old(p)@.to_multiset(),
            forall|i: int| n <= i < old(p)@.len() ==> final(p)@[i] == old(p)@[i],
            exists|draws: Seq<usize>|
                draws.len() == n && (forall|i: int| 0 <= i < n ==> (#[trigger] draws[i]) <= i)
                    && final(p)@ == shuffled(old(p)@, n as nat, draws),
    {
        let mut draws: Vec<usize> = Vec::new();
        let mut i: usize = 0;
        while i < n
            invariant
                i <= n,
                draws@.len() == i,
            decreases n - i,
        {
            draws.push(0);
            i = i + 1;
        }
        let mut i: usize = n;
        while i > 0
            invariant
                i <= n,
                draws@.len() == n,
                forall|j: int| i <= j < n ==> (#[trigger] draws@[j]) <= j,
            decreases i,
        {
            i = i - 1;
            draws.set(i, random_up_to(i));
        }
        proof {
            shuffle_is_permutation(p@, n as nat, draws@);
        }
        Self::shuffle(p, n, &draws);
    }

    /// Shuffles the first `n` places of `p` as `draws` says: from the last
    /// place down, place `i` changes its content with place `draws[i]`.
    pub fn shuffle(p: &mut Vec<usize>, n: usize, draws: &Vec<usize>)
        requires
            n <= old(p)@.len(),
            n <= draws@.len(),
            forall|i: int| 0 <= i < n ==> (#[trigger] draws@[i]) <= i,
        ensures
            final(p)@ == shuffled(old(p)@, n as nat, draws@),
    {
        let mut i: usize = n;
        while i > 0
            invariant
                i <= n <= p@.len(),
                n <= draws@.len(),
                p@.len() == old(p)@.len(),
                forall|j: int| 0 <= j < n ==> (#[trigger] draws@[j]) <= j,
                shuffled(p@, i as nat, draws@) == shuffled(old(p)@, n as nat, draws@),
            decreases i,
        {
            i = i - 1;
            let target: usize = draws[i];
            let here: usize = p[i];
            let there: usize = p[target];
            p.set(i, there);
            p.set(target, here);
        }
    }
}

/// A sequence after two of its places have changed their contents.
pub open spec fn swapped(s: Seq<usize>, i: int, j: int) -> Seq<usize> {
    s.update(i, s[j]).update(j, s[i])
}

/// The sequence `p` after its first `n` places were shuffled as `draws`
/// says: from the last place down, place `i` has changed its content with
/// place `draws[i]`.
pub open spec fn shuffled(p: Seq<usize>, n: nat, draws: Seq<usize>) -> Seq<usize>
    decreases n,
{
    if n == 0 {
        p
    } else {
        shuffled(swapped(p, n - 1, draws[n - 1] as int), (n - 1) as nat, draws)
    }
}

/// However the places are drawn, a shuffle leaves what there was, each as
/// often as before, and does not touch the places from `n` on.
pub proof fn shuffle_is_permutation(p: Seq<usize>, n: nat, draws: Seq<usize>)
    requires
        n <= p.len(),
        n <= draws.len(),
        forall|i: int| 0 <= i < n ==> (#[trigger] draws[i]) <= i,
    ensures
        shuffled(p, n, draws).len() == p.len(),
        shuffled(p, n, draws).to_multiset() == p.to_multiset(),
        forall|i: int| n <= i < p.len() ==> shuffled(p, n, draws)[i] == p[i],
    decreases n,
{
    if n > 0 {
        let once = swapped(p, n - 1, draws[n - 1] as int);
        swap_is_permutation(p, n - 1, draws[n - 1] as int);
        shuffle_is_permutation(once, (n - 1) as nat, draws);
        assert forall|i: int| n <= i < p.len() implies shuffled(p, n, draws)[i] == p[i] by {
            assert(shuffled(once, (n - 1) as nat, draws)[i] == once[i]);
            assert(once[i] == p[i]);
        }
    }
}

/// Two places that change their contents leave the same elements, each as
/// often as before.
pub proof fn swap_is_permutation(s: Seq<usize>, i: int, j: int)
    requires
        0 <= i < s.len(),
        0 <= j < s.len(),
    ensures
        s.update(i, s[j]).update(j, s[i]).to_multiset() == s.to_multiset(),
{
    broadcast use vstd::multiset::group_multiset_axioms;

    let once = s.update(i, s[j]);
    vstd::seq_lib::to_multiset_update(s, i, s[j]);
    vstd::seq_lib::to_multiset_update(once, j, s[i]);
    vstd::seq_lib::to_multiset_contains(s, s[i]);
    vstd::seq_lib::to_multiset_contains(s, s[j]);
    assert(s.contains(s[i]));
    assert(s.contains(s[j]));
    if i == j {
        assert(once =~= s);
        assert(once.update(j, s[i]) =~= s);
    } else {
        assert(once[j] == s[j]);
        assert(once.update(j, s[i]).to_multiset() =~= s.to_multiset());
    }
}

/// A rearrangement of the numbers below `n` lists each of them once.
pub proof fn permuted_stays_below(before: Seq<usize>, after: Seq<usize>, n: nat)
    requires
        is_permutation(before, n),
        after.to_multiset() == before.to_multiset(),
    ensures
        is_permutation(after, n),
{
    crate::permutation::permuted_elements(after, before);
    assert forall|i: int| 0 <= i < n implies (#[trigger] after[i]) < n by {
        assert(before.contains(after[i]));
        let j = choose|j: int| 0 <= j < before.len() && before[j] == after[i];
        assert(before[j] < n);
    }
}

} // verus!
