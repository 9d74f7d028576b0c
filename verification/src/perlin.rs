use vstd::prelude::*;

use crate::rtweekend::random_int_range;

verus! {

broadcast use {
    vstd::seq_lib::group_to_multiset_ensures,
    vstd::multiset::group_multiset_axioms,
    vstd::multiset::group_multiset_properties,
};

/// Number of lattice points along each axis before the noise repeats.
pub const POINT_COUNT: usize = 256;

/// The sequence `0, 1, ..., n - 1`.
pub open spec fn identity_perm(n: nat) -> Seq<usize> {
    Seq::new(n, |i: int| i as usize)
}

/// `s` is a permutation of `0, 1, ..., POINT_COUNT - 1`.
pub open spec fn is_permutation_table(s: Seq<usize>) -> bool {
    &&& s.len() == POINT_COUNT
    &&& s.to_multiset() == identity_perm(POINT_COUNT as nat).to_multiset()
}

/// `draws` is a valid sequence of random draws for shuffling `n` entries:
/// one draw per index, the draw for index `i` lying in `0..=i`.
pub open spec fn is_draw_sequence(draws: Seq<usize>, n: nat) -> bool {
    &&& draws.len() == n
    &&& forall|i: int| 0 <= i < n ==> #[trigger] draws[i] <= i
}

/// `s` with entries `i` and `j` exchanged.
pub open spec fn swap_entries(s: Seq<usize>, i: int, j: int) -> Seq<usize> {
    s.update(i, s[j]).update(j, s[i])
}

/// `s` after the Fisher-Yates steps for the indices from the last one down
/// to `k`: step `i` exchanges entries `i` and `draws[i]`.
pub open spec fn shuffle_from(s: Seq<usize>, draws: Seq<usize>, k: int) -> Seq<usize>
    decreases s.len() - k,
{
    if k >= s.len() || k < 0 {
        s
    } else {
        swap_entries(shuffle_from(s, draws, k + 1), k, draws[k] as int)
    }
}

/// The Fisher-Yates shuffle of `s` driven by `draws`: the steps for the
/// indices from the last one down to 1.
pub open spec fn fisher_yates(s: Seq<usize>, draws: Seq<usize>) -> Seq<usize> {
    shuffle_from(s, draws, 1)
}

/// `s` is the identity table shuffled by some valid draw sequence.
pub open spec fn is_shuffled_identity(s: Seq<usize>) -> bool {
    exists|draws: Seq<usize>|
        #[trigger] is_draw_sequence(draws, POINT_COUNT as nat) && s == fisher_yates(
            identity_perm(POINT_COUNT as nat),
            draws,
        )
}

/// The lattice cell that coordinate `c` falls in, modulo `POINT_COUNT`.
pub open spec fn wrap_coordinate(c: i32) -> int {
    (c & 255i32) as int
}

/// The three integer permutation tables of a Perlin noise generator. Their
/// hash of a lattice point selects one of `POINT_COUNT` gradient vectors.
pub struct PerlinLattice {
    perm_x: [usize; 256],
    perm_y: [usize; 256],
    perm_z: [usize; 256],
}

impl Clone for PerlinLattice {
    fn clone(&self) -> (copy: Self)
        ensures
            copy.table_x() == self.table_x(),
            copy.table_y() == self.table_y(),
            copy.table_z() == self.table_z(),
    {
        proof {
            use_type_invariant(self);
        }
        PerlinLattice { perm_x: self.perm_x, perm_y: self.perm_y, perm_z: self.perm_z }
    }
}

impl PerlinLattice {
    /// The permutation table for the x axis.
    pub closed spec fn table_x(&self) -> Seq<usize> {
        self.perm_x@
    }

    /// The permutation table for the y axis.
    pub closed spec fn table_y(&self) -> Seq<usize> {
        self.perm_y@
    }

    /// The permutation table for the z axis.
    pub closed spec fn table_z(&self) -> Seq<usize> {
        self.perm_z@
    }

    #[verifier::type_invariant]
    spec fn inv(self) -> bool {
        &&& is_permutation_table(self.perm_x@)
        &&& is_permutation_table(self.perm_y@)
        &&& is_permutation_table(self.perm_z@)
    }

    /// The gradient index of lattice point `(i, j, k)`.
    pub open spec fn hash_spec(&self, i: i32, j: i32, k: i32) -> usize {
        self.table_x()[wrap_coordinate(i)] ^ self.table_y()[wrap_coordinate(j)]
            ^ self.table_z()[wrap_coordinate(k)]
    }

    /// Fresh tables, each an independent random permutation of
    /// `0..POINT_COUNT`: the identity table shuffled by random draws.
    pub fn new() -> (lattice: Self)
        ensures
            is_permutation_table(lattice.table_x()),
            is_permutation_table(lattice.table_y()),
            is_permutation_table(lattice.table_z()),
            is_shuffled_identity(lattice.table_x()),
            is_shuffled_identity(lattice.table_y()),
            is_shuffled_identity(lattice.table_z()),
    {
        let perm_x = Self::perlin_generate_perm();
        let perm_y = Self::perlin_generate_perm();
        let perm_z = Self::perlin_generate_perm();
        PerlinLattice { perm_x, perm_y, perm_z }
    }

    /// A random permutation of `0..POINT_COUNT`: the identity table,
    /// shuffled by `permute`'s random draws.
    pub fn perlin_generate_perm() -> (perm: [usize; 256])
        ensures
            is_permutation_table(perm@),
            is_shuffled_identity(perm@),
    {
        let draws = Self::random_draws(POINT_COUNT);
        Self::perm_from_draws(&draws)
    }

    /// The identity table `0, 1, ..., POINT_COUNT - 1` shuffled by the
    /// Fisher-Yates steps that `draws` drive.
    pub fn perm_from_draws(draws: &[usize]) -> (perm: [usize; 256])
        requires
            is_draw_sequence(draws@, POINT_COUNT as nat),
        ensures
            perm@ == fisher_yates(identity_perm(POINT_COUNT as nat), draws@),
            is_permutation_table(perm@),
    {
        let mut perm: [usize; 256] = [0usize; 256];
        let mut i: usize = 0;
        while i < POINT_COUNT
            invariant
                i <= POINT_COUNT,
                perm@.len() == POINT_COUNT,
                forall|k: int| 0 <= k < i ==> perm@[k] == k as usize,
            decreases POINT_COUNT - i,
        {
            perm[i] = i;
            i = i + 1;
        }
        assert(perm@ =~= identity_perm(POINT_COUNT as nat));
        Self::shuffle_with(&mut perm, draws);
        perm
    }

    /// Random draws for shuffling `n` entries: for each index `i` from the
    /// last one down to 1, a value drawn from `0..=i`; index 0 holds 0.
    fn random_draws(n: usize) -> (draws: Vec<usize>)
        ensures
            is_draw_sequence(draws@, n as nat),
    {
        let mut draws: Vec<usize> = Vec::new();
        let mut k: usize = 0;
        while k < n
            invariant
                k <= n,
                draws@.len() == k,
                forall|j: int| 0 <= j < k ==> draws@[j] == 0,
            decreases n - k,
        {
            draws.push(0);
            k = k + 1;
        }
        let mut i: usize = n;
        while i > 1
            invariant
                i <= n,
                draws@.len() == n,
                forall|j: int| 0 <= j < n ==> #[trigger] draws@[j] <= j,
            decreases i,
        {
            i = i - 1;
            let target = random_int_range(0, i);
            draws[i] = target;
        }
        draws
    }

    /// Applies the Fisher-Yates steps that `draws` drive to `p`: for `i` from
    /// the last index down to 1, entry `i` is exchanged with entry
    /// `draws[i]`.
    pub fn shuffle_with(p: &mut [usize], draws: &[usize])
        requires
            is_draw_sequence(draws@, old(p)@.len()),
        ensures
            final(p)@ == fisher_yates(old(p)@, draws@),
            final(p)@.len() == old(p)@.len(),
            final(p)@.to_multiset() == old(p)@.to_multiset(),
    {
        let n = p.len();
        let mut i: usize = n;
        while i > 1
            invariant
                i <= n,
                n > 0 ==> i >= 1,
                n == p@.len(),
                p@.len() == old(p)@.len(),
                p@.to_multiset() == old(p)@.to_multiset(),
                is_draw_sequence(draws@, n as nat),
                p@ == shuffle_from(old(p)@, draws@, i as int),
            decreases i,
        {
            i = i - 1;
            let target = draws[i];
            let ghost before = p@;
            let a = p[i];
            let b = p[target];
            p[i] = b;
            p[target] = a;
            proof {
                lemma_swap_keeps_multiset(before, i as int, target as int);
                assert(p@ =~= swap_entries(before, i as int, target as int));
            }
        }
        proof {
            if n == 0 {
                assert(shuffle_from(old(p)@, draws@, 0) == old(p)@);
                assert(shuffle_from(old(p)@, draws@, 1) == old(p)@);
            } else {
                assert(i == 1);
            }
        }
    }

    /// Shuffles `p` in place (Fisher-Yates): it draws, for `i` from the last
    /// index down to 1, a value from `0..=i` at random, and applies
    /// `shuffle_with` to those draws. Which draws come out is chance; every
    /// outcome is `fisher_yates(old p, draws)` for a valid draw sequence,
    /// and a rearrangement of the same entries.
    pub fn permute(p: &mut [usize])
        ensures
            final(p)@.len() == old(p)@.len(),
            final(p)@.to_multiset() == old(p)@.to_multiset(),
            exists|draws: Seq<usize>|
                #[trigger] is_draw_sequence(draws, old(p)@.len())
                    && final(p)@ == fisher_yates(old(p)@, draws),
    {
        let draws = Self::random_draws(p.len());
        Self::shuffle_with(p, &draws);
    }

    /// The gradient index of lattice point `(i, j, k)`: the exclusive or of
    /// the three tables' entries for the point's cells modulo
    /// `POINT_COUNT`. It always names one of the `POINT_COUNT` gradients.
    pub fn hash(&self, i: i32, j: i32, k: i32) -> (idx: usize)
        ensures
            idx == self.hash_spec(i, j, k),
            idx < POINT_COUNT,
    {
        proof {
            use_type_invariant(self);
            lemma_wrap_in_range(i);
            lemma_wrap_in_range(j);
            lemma_wrap_in_range(k);
            lemma_table_entries_in_range(self.perm_x@);
            lemma_table_entries_in_range(self.perm_y@);
            lemma_table_entries_in_range(self.perm_z@);
        }
        let a = self.perm_x[(i & 255) as usize];
        let b = self.perm_y[(j & 255) as usize];
        let c = self.perm_z[(k & 255) as usize];
        proof {
            lemma_xor_in_range(a, b, c);
        }
        a ^ b ^ c
    }
}

proof fn lemma_wrap_in_range(c: i32)
    ensures
        0 <= wrap_coordinate(c) < 256,
{
    assert(0 <= (c & 255i32) && (c & 255i32) < 256) by (bit_vector);
}

proof fn lemma_xor_in_range(a: usize, b: usize, c: usize)
    requires
        a < 256,
        b < 256,
        c < 256,
    ensures
        a ^ b ^ c < 256,
{
    assert(a < 256 && b < 256 && c < 256 ==> a ^ b ^ c < 256) by (bit_vector);
}

/// Exchanging two entries leaves the multiset of entries unchanged.
proof fn lemma_swap_keeps_multiset(s: Seq<usize>, i: int, j: int)
    requires
        0 <= i < s.len(),
        0 <= j < s.len(),
    ensures
        s.update(i, s[j]).update(j, s[i]).to_multiset() == s.to_multiset(),
{
    let s1 = s.update(i, s[j]);
    assert(s1.to_multiset() == s.to_multiset().insert(s[j]).remove(s[i]));
    assert(s1.update(j, s[i]).to_multiset() == s1.to_multiset().insert(s[i]).remove(s1[j]));
    if i == j {
        assert(s1 =~= s);
    } else {
        assert(s1[j] == s[j]);
    }
    assert(s1.update(j, s[i]).to_multiset() =~= s.to_multiset());
}

/// Law: every entry of a permutation table is below `POINT_COUNT`, so it
/// indexes the table of gradients.
pub proof fn lemma_table_entries_in_range(s: Seq<usize>)
    requires
        is_permutation_table(s),
    ensures
        forall|k: int| 0 <= k < s.len() ==> #[trigger] s[k] < POINT_COUNT,
{
    assert forall|k: int| 0 <= k < s.len() implies #[trigger] s[k] < POINT_COUNT by {
        let v = s[k];
        assert(s.contains(v));
        assert(s.to_multiset().count(v) > 0);
        assert(identity_perm(POINT_COUNT as nat).to_multiset().count(v) > 0);
        assert(identity_perm(POINT_COUNT as nat).contains(v));
    }
}

/// Law: a permutation table holds each of `0..POINT_COUNT` exactly once,
/// so no two of its entries are equal.
pub proof fn lemma_table_holds_each_once(s: Seq<usize>, v: usize)
    requires
        is_permutation_table(s),
        v < POINT_COUNT,
    ensures
        s.to_multiset().count(v) == 1,
        s.no_duplicates(),
{
    let id = identity_perm(POINT_COUNT as nat);
    assert(id.no_duplicates());
    id.lemma_multiset_has_no_duplicates();
    assert(id[v as int] == v);
    assert(id.contains(v));
    s.lemma_multiset_has_no_duplicates_conv();
}

/// Law: the lattice repeats every `POINT_COUNT` cells along each axis.
pub proof fn lemma_hash_periodic(lattice: PerlinLattice, i: i32, j: i32, k: i32)
    requires
        i <= i32::MAX - 256,
        j <= i32::MAX - 256,
        k <= i32::MAX - 256,
    ensures
        lattice.hash_spec((i + 256) as i32, j, k) == lattice.hash_spec(i, j, k),
        lattice.hash_spec(i, (j + 256) as i32, k) == lattice.hash_spec(i, j, k),
        lattice.hash_spec(i, j, (k + 256) as i32) == lattice.hash_spec(i, j, k),
{
    lemma_wrap_periodic(i);
    lemma_wrap_periodic(j);
    lemma_wrap_periodic(k);
}

/// Law: the hash of `(i, j, k)` is the exclusive or of the x table's entry
/// for `i & 255`, the y table's for `j & 255` and the z table's for
/// `k & 255`.
pub proof fn lemma_hash_reads_each_table(lattice: PerlinLattice, i: i32, j: i32, k: i32)
    ensures
        lattice.hash_spec(i, j, k) == lattice.table_x()[(i & 255i32) as int]
            ^ lattice.table_y()[(j & 255i32) as int] ^ lattice.table_z()[(k & 255i32) as int],
{
}

/// Law: the hash tells cells apart along each axis: with the other two
/// coordinates fixed, two coordinates in different cells modulo 256 give
/// different gradient indices (the tables are permutations).
pub proof fn lemma_hash_separates_cells(
    lattice: PerlinLattice,
    i: i32,
    j: i32,
    k: i32,
    c1: i32,
    c2: i32,
)
    requires
        is_permutation_table(lattice.table_x()),
        is_permutation_table(lattice.table_y()),
        is_permutation_table(lattice.table_z()),
        (c1 & 255i32) != (c2 & 255i32),
    ensures
        lattice.hash_spec(c1, j, k) != lattice.hash_spec(c2, j, k),
        lattice.hash_spec(i, c1, k) != lattice.hash_spec(i, c2, k),
        lattice.hash_spec(i, j, c1) != lattice.hash_spec(i, j, c2),
{
    lemma_wrap_in_range(c1);
    lemma_wrap_in_range(c2);
    lemma_table_holds_each_once(lattice.table_x(), 0);
    lemma_table_holds_each_once(lattice.table_y(), 0);
    lemma_table_holds_each_once(lattice.table_z(), 0);
    let p1 = (c1 & 255i32) as int;
    let p2 = (c2 & 255i32) as int;
    let xi = lattice.table_x()[(i & 255i32) as int];
    let yj = lattice.table_y()[(j & 255i32) as int];
    let zk = lattice.table_z()[(k & 255i32) as int];
    lemma_xor_cancels(lattice.table_x()[p1], lattice.table_x()[p2], yj, zk);
    lemma_xor_cancels(lattice.table_y()[p1], lattice.table_y()[p2], xi, zk);
    lemma_xor_cancels(lattice.table_z()[p1], lattice.table_z()[p2], xi, yj);
    assert(lattice.hash_spec(i, c1, k) == xi ^ lattice.table_y()[p1] ^ zk);
    assert(lattice.hash_spec(i, c2, k) == xi ^ lattice.table_y()[p2] ^ zk);
    lemma_xor_commutes(xi, lattice.table_y()[p1], zk);
    lemma_xor_commutes(xi, lattice.table_y()[p2], zk);
    lemma_xor_commutes3(xi, yj, lattice.table_z()[p1]);
    lemma_xor_commutes3(xi, yj, lattice.table_z()[p2]);
}

proof fn lemma_xor_cancels(a: usize, b: usize, u: usize, v: usize)
    requires
        a != b,
    ensures
        a ^ u ^ v != b ^ u ^ v,
{
    assert(a != b ==> a ^ u ^ v != b ^ u ^ v) by (bit_vector);
}

proof fn lemma_xor_commutes(x: usize, y: usize, z: usize)
    ensures
        x ^ y ^ z == y ^ x ^ z,
{
    assert(x ^ y ^ z == y ^ x ^ z) by (bit_vector);
}

proof fn lemma_xor_commutes3(x: usize, y: usize, z: usize)
    ensures
        x ^ y ^ z == z ^ x ^ y,
{
    assert(x ^ y ^ z == z ^ x ^ y) by (bit_vector);
}

proof fn lemma_wrap_periodic(c: i32)
    requires
        c <= i32::MAX - 256,
    ensures
        wrap_coordinate((c + 256) as i32) == wrap_coordinate(c),
{
    let d: i32 = (c + 256) as i32;
    assert(d == c + 256);
    assert(d == c + 256 ==> (d & 255i32) == (c & 255i32)) by (bit_vector);
}

} // verus!
