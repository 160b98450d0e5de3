//! Lattice noise tables.
use vstd::prelude::*;
use crate::vec::Vec3;

verus! {

/// The number of lattice points in each table.
pub const POINT_COUNT: usize = 256;

/// Gradient vectors and three permutations of the lattice indices, drawn
/// once and read by every sample.
#[derive(Clone, Debug)]
pub struct Perlin {
    pub randvec: Vec<Vec3>,
    pub perm_x: Vec<u8>,
    pub perm_y: Vec<u8>,
    pub perm_z: Vec<u8>,
}

/// Draws an index below `bound` with `rand::random_range(0..bound)`, which
/// panics on an empty range. Claimed: the index lies in the range. Which
/// index comes is left open.
#[verifier::external_body]
fn random_below(bound: usize) -> (index: usize)
    requires
        bound > 0,
    ensures
        index < bound,
{
    ::rand::random_range(0..bound)
}

/// Every lattice index occurs in the table, which has one place for each.
pub open spec fn is_permutation(p: Seq<u8>) -> bool {
    &&& p.len() == POINT_COUNT
    &&& forall|v: u8| #[trigger] p.contains(v)
}

/// The table in which every lattice index stands at its own place.
pub open spec fn identity_spec() -> Seq<u8> {
    Seq::new(POINT_COUNT as nat, |i: int| i as u8)
}

/// The table with the entries at two places exchanged.
pub open spec fn swapped_spec(p: Seq<u8>, i: int, j: int) -> Seq<u8> {
    p.update(i, p[j]).update(j, p[i])
}

/// The identity table after the first `k` steps of the shuffle: step `n`,
/// counted from 0, exchanges the place `255 - n` with the place `draws[n]`.
pub open spec fn shuffle_steps(draws: Seq<usize>, k: nat) -> Seq<u8>
    decreases k,
{
    if k == 0 {
        identity_spec()
    } else {
        swapped_spec(shuffle_steps(draws, (k - 1) as nat), 256 - k, draws[k - 1] as int)
    }
}

/// The identity table after swapping place `i` with place `draws[255 - i]`,
/// for `i` from 255 down to 1.
pub open spec fn shuffled_spec(draws: Seq<usize>) -> Seq<u8> {
    shuffle_steps(draws, 255)
}

/// The draws fit the shuffle: there are 255 of them, and each names a place
/// before the one it is exchanged with.
pub open spec fn draws_fit(draws: Seq<usize>) -> bool {
    &&& draws.len() == 255
    &&& forall|k: int| 0 <= k < 255 ==> (#[trigger] draws[k]) < 255 - k
}

/// The table is what the shuffle makes of the identity for some draws that
/// fit.
pub open spec fn drawn(p: Seq<u8>) -> bool {
    exists|draws: Seq<usize>| draws_fit(draws) && p == #[trigger] shuffled_spec(draws)
}

/// Exchanging two places of a permutation leaves a permutation.
pub proof fn lemma_swapped_permutation(p: Seq<u8>, i: int, j: int)
    requires
        is_permutation(p),
        0 <= i < p.len(),
        0 <= j < p.len(),
    ensures
        is_permutation(swapped_spec(p, i, j)),
{
    let q = swapped_spec(p, i, j);
    assert forall|v: u8| #[trigger] q.contains(v) by {
        assert(p.contains(v));
        let m = choose|m: int| 0 <= m < p.len() && p[m] == v;
        if m == i {
            assert(q[j] == v);
        } else if m == j {
            assert(q[i] == v);
        } else {
            assert(q[m] == v);
        }
    }
}

/// Every step of the shuffle leaves a permutation.
pub proof fn lemma_shuffle_steps(draws: Seq<usize>, k: nat)
    requires
        draws_fit(draws),
        k <= 255,
    ensures
        is_permutation(shuffle_steps(draws, k)),
    decreases k,
{
    if k == 0 {
        let p = identity_spec();
        assert forall|v: u8| #[trigger] p.contains(v) by {
            assert(p[v as int] == v);
        }
    } else {
        lemma_shuffle_steps(draws, (k - 1) as nat);
        lemma_swapped_permutation(
            shuffle_steps(draws, (k - 1) as nat),
            256 - k,
            draws[k - 1] as int,
        );
    }
}

/// A lattice coordinate folded into the table: its remainder modulo 256.
pub open spec fn fold_spec(i: int) -> int {
    i % (POINT_COUNT as int)
}

/// Folding a coordinate and then stepping to a neighbour gives the folded
/// neighbour.
pub proof fn lemma_fold_step(i: int, d: int)
    requires
        0 <= d <= 1,
    ensures
        fold_spec(i + d) == (fold_spec(i) + d) % (POINT_COUNT as int),
        0 <= fold_spec(i) < POINT_COUNT,
{
}

impl Perlin {
    /// Every table has its 256 entries.
    pub open spec fn full(&self) -> bool {
        &&& self.randvec@.len() == POINT_COUNT
        &&& self.perm_x@.len() == POINT_COUNT
        &&& self.perm_y@.len() == POINT_COUNT
        &&& self.perm_z@.len() == POINT_COUNT
    }

    /// The tables are full and each permutation is one.
    pub open spec fn wf(&self) -> bool {
        &&& self.randvec@.len() == POINT_COUNT
        &&& is_permutation(self.perm_x@)
        &&& is_permutation(self.perm_y@)
        &&& is_permutation(self.perm_z@)
    }

    /// Whether every table has its 256 entries.
    pub fn is_full(&self) -> (b: bool)
        ensures
            b == self.full(),
    {
        self.randvec.len() == POINT_COUNT && self.perm_x.len() == POINT_COUNT && self.perm_y.len()
            == POINT_COUNT && self.perm_z.len() == POINT_COUNT
    }

    /// The place in the gradient table of the lattice point `(i, j, k)`: the
    /// three permuted coordinates combined by exclusive or.
    pub open spec fn lattice_spec(&self, i: int, j: int, k: int) -> u8 {
        self.perm_x@[fold_spec(i)] ^ self.perm_y@[fold_spec(j)] ^ self.perm_z@[fold_spec(k)]
    }

    /// The gradients at the eight corners of the lattice cell `(i, j, k)`:
    /// the corner `(i + di, j + dj, k + dk)` stands at place
    /// `4 * di + 2 * dj + dk`.
    pub open spec fn corners_spec(&self, i: int, j: int, k: int) -> Seq<Vec3> {
        Seq::new(
            8,
            |c: int| self.randvec@[self.lattice_spec(i + c / 4, j + (c / 2) % 2, k + c % 2) as int],
        )
    }

    /// Tables over the given gradients, with three freshly drawn
    /// permutations. There is no table unless there are 256 gradients.
    pub fn new(randvec: Vec<Vec3>) -> (res: Option<Perlin>)
        ensures
            res is Some <==> randvec@.len() == POINT_COUNT,
            res matches Some(p) ==> p.randvec == randvec && p.wf() && drawn(p.perm_x@) && drawn(
                p.perm_y@,
            ) && drawn(p.perm_z@),
    {
        if randvec.len() != POINT_COUNT {
            return None;
        }
        let perm_x = Perlin::perlin_generate_perm();
        let perm_y = Perlin::perlin_generate_perm();
        let perm_z = Perlin::perlin_generate_perm();
        Some(Perlin { randvec, perm_x, perm_y, perm_z })
    }

    /// The permutation that the given draws make of the identity table:
    /// from the back, each place is exchanged with the earlier place that
    /// its draw names.
    pub fn shuffled(draws: &Vec<usize>) -> (p: Vec<u8>)
        requires
            draws@.len() == 255,
            forall|k: int| 0 <= k < 255 ==> (#[trigger] draws@[k]) < 255 - k,
        ensures
            p@ == shuffled_spec(draws@),
            is_permutation(p@),
    {
        let mut p: Vec<u8> = Vec::new();
        let mut n: usize = 0;
        while n < POINT_COUNT
            invariant
                n <= POINT_COUNT,
                p@.len() == n,
                forall|i: int| 0 <= i < n ==> p@[i] == i,
            decreases POINT_COUNT - n,
        {
            p.push(n as u8);
            n += 1;
        }
        assert(p@ =~= identity_spec());
        let mut k: usize = 0;
        while k < 255
            invariant
                k <= 255,
                draws_fit(draws@),
                p@.len() == POINT_COUNT,
                p@ == shuffle_steps(draws@, k as nat),
            decreases 255 - k,
        {
            let i: usize = 255 - k;
            let target = draws[k];
            let a = p[i];
            let b = p[target];
            p.set(i, b);
            p.set(target, a);
            k += 1;
        }
        proof {
            lemma_shuffle_steps(draws@, 255);
        }
        p
    }

    /// A random permutation of the lattice indices: the identity, shuffled
    /// from the back by swapping each place with a random earlier one.
    pub fn perlin_generate_perm() -> (p: Vec<u8>)
        ensures
            is_permutation(p@),
            drawn(p@),
    {
        let mut draws: Vec<usize> = Vec::new();
        let mut k: usize = 0;
        while k < 255
            invariant
                k <= 255,
                draws@.len() == k,
                forall|n: int| 0 <= n < k ==> (#[trigger] draws@[n]) < 255 - n,
            decreases 255 - k,
        {
            let target = random_below(255 - k);
            draws.push(target);
            k += 1;
        }
        let p = Perlin::shuffled(&draws);
        assert(draws_fit(draws@) && p@ == shuffled_spec(draws@));
        p
    }

    /// Folds a lattice coordinate into the table.
    pub fn fold(i: i64) -> (f: usize)
        ensures
            f == fold_spec(i as int),
    {
        let r: i64 = i % 256;
        if r < 0 {
            (r + 256) as usize
        } else {
            r as usize
        }
    }

    /// The place in the gradient table of a lattice point.
    pub fn lattice_index(&self, i: i64, j: i64, k: i64) -> (at: u8)
        requires
            self.full(),
        ensures
            at == self.lattice_spec(i as int, j as int, k as int),
    {
        self.perm_x[Perlin::fold(i)] ^ self.perm_y[Perlin::fold(j)] ^ self.perm_z[Perlin::fold(k)]
    }

    /// The gradients at the eight corners of a lattice cell.
    pub fn corners(&self, i: i64, j: i64, k: i64) -> (c: Vec<Vec3>)
        requires
            self.full(),
        ensures
            c@ == self.corners_spec(i as int, j as int, k as int),
    {
        let fi = Perlin::fold(i);
        let fj = Perlin::fold(j);
        let fk = Perlin::fold(k);
        let mut c: Vec<Vec3> = Vec::new();
        let mut n: usize = 0;
        while n < 8
            invariant
                n <= 8,
                self.full(),
                fi == fold_spec(i as int),
                fj == fold_spec(j as int),
                fk == fold_spec(k as int),
                c@.len() == n,
                forall|m: int|
                    0 <= m < n ==> c@[m] == self.corners_spec(i as int, j as int, k as int)[m],
            decreases 8 - n,
        {
            let dx: usize = n / 4;
            let dy: usize = (n / 2) % 2;
            let dz: usize = n % 2;
            proof {
                lemma_fold_step(i as int, dx as int);
                lemma_fold_step(j as int, dy as int);
                lemma_fold_step(k as int, dz as int);
            }
            let x = (fi + dx) % 256;
            let y = (fj + dy) % 256;
            let z = (fk + dz) % 256;
            let at = self.perm_x[x] ^ self.perm_y[y] ^ self.perm_z[z];
            assert(at == self.lattice_spec(i + n / 4, j + (n / 2) % 2, k + n % 2));
            c.push(self.randvec[at as usize]);
            n += 1;
        }
        assert(c@ =~= self.corners_spec(i as int, j as int, k as int));
        c
    }
}

} // verus!
