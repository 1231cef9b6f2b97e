use vstd::prelude::*;

use rand::Rng;

verus! {

/// Number of lattice gradients; lattice coordinates wrap around this period.
pub const POINT_COUNT: usize = 256;

/// Relies on rand 0.7's `Rng::gen_range(low, high)` on the thread-local
/// generator (`rand::thread_rng`): a value in `[low, high)`; it panics unless
/// `low < high`.
#[verifier::external_body]
fn random_below(bound: usize) -> (r: usize)
    requires
        0 < bound,
    ensures
        r < bound,
{
    rand::thread_rng().gen_range(0, bound)
}

/// `p` holds each of `0..POINT_COUNT` exactly once.
pub open spec fn is_lattice_permutation(p: Seq<usize>) -> bool {
    &&& p.len() == POINT_COUNT
    &&& forall|i: int| 0 <= i < p.len() ==> #[trigger] p[i] < POINT_COUNT
    &&& forall|i: int, j: int| 0 <= i < p.len() && 0 <= j < p.len() && i != j ==> #[trigger] p[i] != #[trigger] p[j]
}

/// Draws that can drive the shuffle: one per position from the last down to
/// the second, each below that position.
pub open spec fn valid_draws(draws: Seq<usize>) -> bool {
    &&& draws.len() == POINT_COUNT - 1
    &&& forall|m: int| 0 <= m < draws.len() ==> #[trigger] draws[m] < POINT_COUNT - 1 - m
}

/// `s` with the entries at `i` and `j` exchanged.
pub open spec fn swapped(s: Seq<usize>, i: int, j: int) -> Seq<usize> {
    s.update(i, s[j]).update(j, s[i])
}

/// The identity arrangement `0, 1, ..., POINT_COUNT - 1`.
pub open spec fn identity_order() -> Seq<usize> {
    Seq::new(POINT_COUNT as nat, |i: int| i as usize)
}

/// The arrangement after the first `steps` exchanges of the shuffle: step `m`
/// exchanges position `POINT_COUNT - 1 - m` with position `draws[m]`.
pub open spec fn shuffled(draws: Seq<usize>, steps: nat) -> Seq<usize>
    decreases steps,
{
    if steps == 0 {
        identity_order()
    } else {
        let m = steps - 1;
        swapped(shuffled(draws, m as nat), POINT_COUNT - 1 - m, draws[m] as int)
    }
}

/// `p` is what the shuffle makes of some valid draws.
pub open spec fn is_shuffle(p: Seq<usize>) -> bool {
    exists|d: Seq<usize>| valid_draws(d) && p == shuffled(d, (POINT_COUNT - 1) as nat)
}

proof fn lemma_swap_keeps_permutation(s: Seq<usize>, i: int, j: int)
    requires
        is_lattice_permutation(s),
        0 <= i < s.len(),
        0 <= j < s.len(),
    ensures
        is_lattice_permutation(swapped(s, i, j)),
{
    let t = swapped(s, i, j);
    assert forall|a: int, b: int| 0 <= a < t.len() && 0 <= b < t.len() && a != b implies
        #[trigger] t[a] != #[trigger] t[b] by {
        let sa = if a == j { i } else if a == i { j } else { a };
        let sb = if b == j { i } else if b == i { j } else { b };
        assert(t[a] == s[sa]);
        assert(t[b] == s[sb]);
    }
    assert forall|a: int| 0 <= a < t.len() implies #[trigger] t[a] < POINT_COUNT by {
        let sa = if a == j { i } else if a == i { j } else { a };
        assert(t[a] == s[sa]);
    }
}

/// Shuffles `0..POINT_COUNT` with the given draws: for each position from
/// the last down to the second, exchanges it with the position its draw names.
pub fn permutation_from_draws(draws: &Vec<usize>) -> (p: Vec<usize>)
    requires
        valid_draws(draws@),
    ensures
        p@ == shuffled(draws@, (POINT_COUNT - 1) as nat),
        is_lattice_permutation(p@),
{
    let mut p: Vec<usize> = Vec::new();
    let mut k: usize = 0;
    while k < POINT_COUNT
        invariant
            k <= POINT_COUNT,
            p@ =~= Seq::new(k as nat, |i: int| i as usize),
        decreases POINT_COUNT - k,
    {
        p.push(k);
        k = k + 1;
    }
    proof {
        assert(p@ =~= identity_order());
        assert forall|a: int, b: int| 0 <= a < p@.len() && 0 <= b < p@.len() && a != b implies
            #[trigger] p@[a] != #[trigger] p@[b] by {}
    }
    let mut m: usize = 0;
    while m < POINT_COUNT - 1
        invariant
            valid_draws(draws@),
            m <= POINT_COUNT - 1,
            p@ == shuffled(draws@, m as nat),
            is_lattice_permutation(p@),
        decreases POINT_COUNT - 1 - m,
    {
        let i = POINT_COUNT - 1 - m;
        let target = draws[m];
        proof {
            lemma_swap_keeps_permutation(p@, i as int, target as int);
        }
        let a = p[i];
        let b = p[target];
        p.set(i, b);
        p.set(target, a);
        proof {
            assert(p@ =~= swapped(shuffled(draws@, m as nat), i as int, target as int));
        }
        m = m + 1;
    }
    p
}

/// The integer skeleton of Perlin noise: three permutations of the lattice
/// period, one per axis, that hash a lattice point to one of the
/// `POINT_COUNT` gradients.
pub struct PerlinLattice {
    perm_x: Vec<usize>,
    perm_y: Vec<usize>,
    perm_z: Vec<usize>,
}

impl PerlinLattice {
    pub closed spec fn spec_perm_x(&self) -> Seq<usize> {
        self.perm_x@
    }

    pub closed spec fn spec_perm_y(&self) -> Seq<usize> {
        self.perm_y@
    }

    pub closed spec fn spec_perm_z(&self) -> Seq<usize> {
        self.perm_z@
    }

    pub open spec fn wf(&self) -> bool {
        &&& is_lattice_permutation(self.spec_perm_x())
        &&& is_lattice_permutation(self.spec_perm_y())
        &&& is_lattice_permutation(self.spec_perm_z())
    }

    /// Gradient index of lattice point (i, j, k): the exclusive or of the
    /// three permutations at the coordinates taken modulo the period.
    pub open spec fn spec_hash(&self, i: int, j: int, k: int) -> usize {
        self.spec_perm_x()[i % (POINT_COUNT as int)]
            ^ self.spec_perm_y()[j % (POINT_COUNT as int)]
            ^ self.spec_perm_z()[k % (POINT_COUNT as int)]
    }

    /// A random permutation of `0..POINT_COUNT`, shuffled with fresh draws
    /// from the thread-local generator: whatever the draws, it is the shuffle
    /// of some valid draws.
    pub fn generate_perm() -> (p: Vec<usize>)
        ensures
            is_lattice_permutation(p@),
            is_shuffle(p@),
    {
        let mut draws: Vec<usize> = Vec::new();
        let mut m: usize = 0;
        while m < POINT_COUNT - 1
            invariant
                m <= POINT_COUNT - 1,
                draws@.len() == m,
                forall|n: int| 0 <= n < m ==> #[trigger] draws@[n] < POINT_COUNT - 1 - n,
            decreases POINT_COUNT - 1 - m,
        {
            let d = random_below(POINT_COUNT - 1 - m);
            draws.push(d);
            m = m + 1;
        }
        assert(valid_draws(draws@));
        permutation_from_draws(&draws)
    }

    /// A lattice with three independently shuffled permutations, each the
    /// shuffle of some valid draws.
    pub fn new() -> (r: PerlinLattice)
        ensures
            r.wf(),
            is_shuffle(r.spec_perm_x()),
            is_shuffle(r.spec_perm_y()),
            is_shuffle(r.spec_perm_z()),
    {
        let perm_x = Self::generate_perm();
        let perm_y = Self::generate_perm();
        let perm_z = Self::generate_perm();
        PerlinLattice { perm_x, perm_y, perm_z }
    }

    /// A lattice with the given permutations.
    pub fn from_permutations(perm_x: Vec<usize>, perm_y: Vec<usize>, perm_z: Vec<usize>) -> (r: PerlinLattice)
        requires
            is_lattice_permutation(perm_x@),
            is_lattice_permutation(perm_y@),
            is_lattice_permutation(perm_z@),
        ensures
            r.wf(),
            r.spec_perm_x() == perm_x@,
            r.spec_perm_y() == perm_y@,
            r.spec_perm_z() == perm_z@,
    {
        PerlinLattice { perm_x, perm_y, perm_z }
    }

    /// Gradient index of lattice point (i, j, k), always below `POINT_COUNT`.
    pub fn hash(&self, i: i64, j: i64, k: i64) -> (r: usize)
        requires
            self.wf(),
        ensures
            r == self.spec_hash(i as int, j as int, k as int),
            r < POINT_COUNT,
    {
        let a = lattice_coordinate(i);
        let b = lattice_coordinate(j);
        let c = lattice_coordinate(k);
        let px = self.perm_x[a];
        let py = self.perm_y[b];
        let pz = self.perm_z[c];
        assert(px < 256usize && py < 256usize && pz < 256usize ==> px ^ py ^ pz < 256usize) by (bit_vector);
        px ^ py ^ pz
    }
}

/// A lattice coordinate reduced to the period.
fn lattice_coordinate(i: i64) -> (r: usize)
    ensures
        r == (i as int) % (POINT_COUNT as int),
{
    let low = i & 255;
    assert(i & 255 == i % 256 && 0 <= i & 255 < 256) by (bit_vector);
    low as usize
}

} // verus!
