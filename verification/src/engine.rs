//! The Metropolis sweep engine.
//!
//! `SweepEngine::run` performs `total_updates / (rows * cols)` complete
//! raster sweeps; the remainder proposals are dropped, never run as a
//! partial sweep. Each sweep visits every site in row-major order, and a
//! flip is immediately visible to the neighbor sums of the sites visited
//! later in the same sweep. The whole evolution is pinned down by
//! `spec_run`, a function of the starting grid, the acceptance table and
//! the sequence of unit-interval draws consumed — so two runs fed the
//! same draws end in the same grid.

use vstd::prelude::*;
use crate::floatbits::UNIT_ONE_BITS;
use crate::floatbits::f64_bits_lt;
use crate::floatbits::spec_f64_lt;
use crate::lattice::Lattice;
use crate::lattice::all_spins;
use crate::lattice::is_spin;
use crate::lattice::lemma_row_major_decompose;
use crate::lattice::lemma_row_major_index;
use crate::lattice::spec_neighbor_sum;
use crate::rng::RandomSource;
use crate::table::AcceptanceTable;

verus! {

/// One Metropolis proposal at site `(i, j)` of the `m` by `n` grid `s`:
/// with `s1` the site's spin and `k = s1 * (sum of its four neighbors)`,
/// the spin flips exactly when the draw `r` lies below the acceptance
/// probability `table[k + 4]` (both doubles, compared as bit patterns).
pub open spec fn spec_site_update(
    s: Seq<i8>,
    m: int,
    n: int,
    i: int,
    j: int,
    table: Seq<u64>,
    r: u64,
) -> Seq<i8> {
    let s1 = s[i * n + j];
    let k = (s1 as int) * spec_neighbor_sum(s, m, n, i, j);
    if spec_f64_lt(r, table[k + 4]) {
        s.update(i * n + j, (-(s1 as int)) as i8)
    } else {
        s
    }
}

/// The grid after the first `t` proposals of one raster sweep of `s`:
/// proposal `t` lands on site `(t / n, t % n)` and consumes draw `rs[t]`.
pub open spec fn spec_sweep_prefix(
    s: Seq<i8>,
    m: int,
    n: int,
    table: Seq<u64>,
    rs: Seq<u64>,
    t: int,
) -> Seq<i8>
    decreases t,
{
    if t <= 0 {
        s
    } else {
        let prev = spec_sweep_prefix(s, m, n, table, rs, t - 1);
        spec_site_update(prev, m, n, (t - 1) / n, (t - 1) % n, table, rs[t - 1])
    }
}

/// One full raster sweep: `m * n` proposals, one per site, in row-major
/// order, consuming one draw each.
pub open spec fn spec_sweep(s: Seq<i8>, m: int, n: int, table: Seq<u64>, rs: Seq<u64>) -> Seq<
    i8,
> {
    spec_sweep_prefix(s, m, n, table, rs, m * n)
}

/// The grid after `sweeps` full raster sweeps, sweep `w` consuming the
/// draws `rs[w * m * n .. (w + 1) * m * n]`.
pub open spec fn spec_run(
    s: Seq<i8>,
    m: int,
    n: int,
    table: Seq<u64>,
    rs: Seq<u64>,
    sweeps: nat,
) -> Seq<i8>
    decreases sweeps,
{
    if sweeps == 0 {
        s
    } else {
        let prev = spec_run(s, m, n, table, rs, (sweeps - 1) as nat);
        spec_sweep(prev, m, n, table, rs.subrange((sweeps - 1) * m * n, sweeps * m * n))
    }
}

/// Every draw of the sequence is the pattern of a value in `[0, 1)`.
pub open spec fn all_unit_bits(rs: Seq<u64>) -> bool {
    forall|t: int| 0 <= t < rs.len() ==> #[trigger] rs[t] < UNIT_ONE_BITS
}

/// The number of complete sweeps that `total_updates` proposals afford on
/// an `m` by `n` grid.
pub open spec fn spec_sweep_count(total_updates: usize, m: usize, n: usize) -> nat {
    (total_updates as int / (m as int * n as int)) as nat
}

/// `rs` explains an evolution from grid `pre` to grid `post`: one draw in
/// `[0, 1)` per proposal, and `post` is exactly the result of running the
/// `sweeps` sweeps of `pre` under those draws.
pub open spec fn run_witness(
    pre: Seq<i8>,
    post: Seq<i8>,
    m: int,
    n: int,
    table: Seq<u64>,
    sweeps: nat,
    rs: Seq<u64>,
) -> bool {
    &&& rs.len() == sweeps * m * n
    &&& all_unit_bits(rs)
    &&& post == spec_run(pre, m, n, table, rs, sweeps)
}

/// A single proposal neither resizes the grid nor writes anything but a
/// spin: the spin invariant survives every flip.
pub proof fn lemma_site_update_spins(
    s: Seq<i8>,
    m: int,
    n: int,
    i: int,
    j: int,
    table: Seq<u64>,
    r: u64,
)
    requires
        m >= 1,
        n >= 1,
        s.len() == m * n,
        all_spins(s),
        0 <= i < m,
        0 <= j < n,
    ensures
        spec_site_update(s, m, n, i, j, table, r).len() == m * n,
        all_spins(spec_site_update(s, m, n, i, j, table, r)),
{
    lemma_row_major_index(m, n, i, j);
    let s1 = s[i * n + j];
    assert(is_spin(s1));
    assert(is_spin((-(s1 as int)) as i8));
}

/// The spin invariant survives any prefix of a sweep.
pub proof fn lemma_sweep_prefix_spins(
    s: Seq<i8>,
    m: int,
    n: int,
    table: Seq<u64>,
    rs: Seq<u64>,
    t: int,
)
    requires
        m >= 1,
        n >= 1,
        s.len() == m * n,
        all_spins(s),
        0 <= t <= m * n,
    ensures
        spec_sweep_prefix(s, m, n, table, rs, t).len() == m * n,
        all_spins(spec_sweep_prefix(s, m, n, table, rs, t)),
    decreases t,
{
    if t > 0 {
        lemma_sweep_prefix_spins(s, m, n, table, rs, t - 1);
        let prev = spec_sweep_prefix(s, m, n, table, rs, t - 1);
        assert(0 <= (t - 1) / n < m && 0 <= (t - 1) % n < n) by (nonlinear_arith)
            requires
                n >= 1,
                m >= 1,
                0 < t <= m * n,
        ;
        lemma_site_update_spins(prev, m, n, (t - 1) / n, (t - 1) % n, table, rs[t - 1]);
    }
}

/// The spin invariant survives any number of sweeps: every spin of the
/// evolved grid is still `-1` or `+1`.
pub proof fn lemma_run_spins(
    s: Seq<i8>,
    m: int,
    n: int,
    table: Seq<u64>,
    rs: Seq<u64>,
    sweeps: nat,
)
    requires
        m >= 1,
        n >= 1,
        s.len() == m * n,
        all_spins(s),
    ensures
        spec_run(s, m, n, table, rs, sweeps).len() == m * n,
        all_spins(spec_run(s, m, n, table, rs, sweeps)),
    decreases sweeps,
{
    if sweeps > 0 {
        lemma_run_spins(s, m, n, table, rs, (sweeps - 1) as nat);
        let prev = spec_run(s, m, n, table, rs, (sweeps - 1) as nat);
        lemma_sweep_prefix_spins(
            prev,
            m,
            n,
            table,
            rs.subrange((sweeps - 1) * m * n, sweeps * m * n),
            m * n,
        );
    }
}

/// A sweep prefix reads only the first `t` draws.
proof fn lemma_sweep_prefix_stable(
    s: Seq<i8>,
    m: int,
    n: int,
    table: Seq<u64>,
    rs1: Seq<u64>,
    rs2: Seq<u64>,
    t: int,
)
    requires
        forall|u: int| 0 <= u < t ==> rs1[u] == rs2[u],
    ensures
        spec_sweep_prefix(s, m, n, table, rs1, t) == spec_sweep_prefix(s, m, n, table, rs2, t),
    decreases t,
{
    if t > 0 {
        lemma_sweep_prefix_stable(s, m, n, table, rs1, rs2, t - 1);
    }
}

/// A run of `sweeps` sweeps reads only the first `sweeps * m * n` draws.
proof fn lemma_run_stable(
    s: Seq<i8>,
    m: int,
    n: int,
    table: Seq<u64>,
    rs1: Seq<u64>,
    rs2: Seq<u64>,
    sweeps: nat,
)
    requires
        m >= 1,
        n >= 1,
        rs1.len() >= sweeps * m * n,
        rs2.len() >= sweeps * m * n,
        forall|u: int| 0 <= u < sweeps * m * n ==> rs1[u] == rs2[u],
    ensures
        spec_run(s, m, n, table, rs1, sweeps) == spec_run(s, m, n, table, rs2, sweeps),
    decreases sweeps,
{
    if sweeps > 0 {
        assert((sweeps - 1) * m * n >= 0 && (sweeps - 1) * m * n + m * n == sweeps * m * n)
            by (nonlinear_arith)
            requires
                m >= 1,
                n >= 1,
                sweeps >= 1,
        ;
        lemma_run_stable(s, m, n, table, rs1, rs2, (sweeps - 1) as nat);
        let lo = (sweeps - 1) * m * n;
        let hi = sweeps * m * n;
        assert(rs1.subrange(lo, hi) =~= rs2.subrange(lo, hi));
    }
}

/// The sweep driver.
pub struct SweepEngine;

impl SweepEngine {
    /// Performs `total_updates / (rows * cols)` complete raster sweeps of
    /// Metropolis proposals over the lattice, in place; the remainder
    /// proposals are dropped. The result is `spec_run` of the starting
    /// grid under the sequence of unit-interval draws consumed (one per
    /// proposal), so fewer proposals than sites leave the grid untouched,
    /// and a constant source makes the evolution fully determined.
    #[verifier::loop_isolation(false)]
    pub fn run(
        lattice: &mut Lattice,
        table: &AcceptanceTable,
        total_updates: usize,
        rng: &mut RandomSource,
    )
        requires
            old(lattice).wf(),
            table.wf(),
            old(rng).wf(),
        ensures
            final(lattice).wf(),
            final(lattice).spec_rows() == old(lattice).spec_rows(),
            final(lattice).spec_cols() == old(lattice).spec_cols(),
            final(rng).wf(),
            final(rng).is_constant() == old(rng).is_constant(),
            final(rng).constant_bits() == old(rng).constant_bits(),
            exists|rs: Seq<u64>|
                run_witness(
                    old(lattice)@,
                    final(lattice)@,
                    old(lattice).spec_rows() as int,
                    old(lattice).spec_cols() as int,
                    table@,
                    spec_sweep_count(
                        total_updates,
                        old(lattice).spec_rows(),
                        old(lattice).spec_cols(),
                    ),
                    rs,
                ),
            total_updates < old(lattice).spec_rows() * old(lattice).spec_cols()
                ==> final(lattice)@ == old(lattice)@,
            old(rng).is_constant() ==> *final(rng) == *old(rng) && final(lattice)@ == spec_run(
                old(lattice)@,
                old(lattice).spec_rows() as int,
                old(lattice).spec_cols() as int,
                table@,
                Seq::new(
                    spec_sweep_count(
                        total_updates,
                        old(lattice).spec_rows(),
                        old(lattice).spec_cols(),
                    ) * (old(lattice).spec_rows() * old(lattice).spec_cols()) as nat,
                    |q: int| old(rng).constant_bits(),
                ),
                spec_sweep_count(
                    total_updates,
                    old(lattice).spec_rows(),
                    old(lattice).spec_cols(),
                ),
            ),
    {
        let m = lattice.rows();
        let n = lattice.cols();
        let cells = lattice.site_count();
        let ghost m_i: int = m as int;
        let ghost n_i: int = n as int;
        let ghost cells_i: int = m_i * n_i;
        let ghost cb: u64 = old(rng).constant_bits();
        proof {
            assert(m_i * n_i >= 1) by (nonlinear_arith)
                requires
                    m_i >= 1,
                    n_i >= 1,
            ;
        }
        let sweeps = total_updates / cells;
        let ghost sweeps_n: nat = spec_sweep_count(total_updates, m, n);
        proof {
            assert(sweeps == sweeps_n);
            if total_updates < cells {
                assert(total_updates as int / cells_i == 0) by (nonlinear_arith)
                    requires
                        0 <= (total_updates as int) < cells_i,
                ;
            }
        }
        let ghost mut draws: Seq<u64> = Seq::empty();
        let mut w: usize = 0;
        while w < sweeps
            invariant
                w <= sweeps,
                lattice.wf(),
                lattice.spec_rows() == m,
                lattice.spec_cols() == n,
                rng.wf(),
                rng.is_constant() == old(rng).is_constant(),
                rng.constant_bits() == old(rng).constant_bits(),
                old(rng).is_constant() ==> *rng == *old(rng),
                draws.len() == w * cells_i,
                all_unit_bits(draws),
                lattice@ == spec_run(old(lattice)@, m_i, n_i, table@, draws, w as nat),
                old(rng).is_constant() ==> (forall|q: int|
                    0 <= q < draws.len() ==> #[trigger] draws[q] == cb),
            decreases sweeps - w,
        {
            let ghost sweep_start: Seq<i8> = lattice@;
            let ghost draws_before: Seq<u64> = draws;
            let ghost mut sdraws: Seq<u64> = Seq::empty();
            let mut i: usize = 0;
            while i < m
                invariant
                    i <= m,
                    lattice.wf(),
                    lattice.spec_rows() == m,
                    lattice.spec_cols() == n,
                    rng.wf(),
                    rng.is_constant() == old(rng).is_constant(),
                    rng.constant_bits() == old(rng).constant_bits(),
                    old(rng).is_constant() ==> *rng == *old(rng),
                    sdraws.len() == i * n_i,
                    all_unit_bits(sdraws),
                    lattice@ == spec_sweep_prefix(
                        sweep_start,
                        m_i,
                        n_i,
                        table@,
                        sdraws,
                        i * n_i,
                    ),
                    old(rng).is_constant() ==> (forall|q: int|
                        0 <= q < sdraws.len() ==> #[trigger] sdraws[q] == cb),
                decreases m - i,
            {
                let mut j: usize = 0;
                while j < n
                    invariant
                        j <= n,
                        lattice.wf(),
                        lattice.spec_rows() == m,
                        lattice.spec_cols() == n,
                        rng.wf(),
                        rng.is_constant() == old(rng).is_constant(),
                        rng.constant_bits() == old(rng).constant_bits(),
                        old(rng).is_constant() ==> *rng == *old(rng),
                        sdraws.len() == i * n_i + j,
                        all_unit_bits(sdraws),
                        lattice@ == spec_sweep_prefix(
                            sweep_start,
                            m_i,
                            n_i,
                            table@,
                            sdraws,
                            i * n_i + j,
                        ),
                        old(rng).is_constant() ==> (forall|q: int|
                            0 <= q < sdraws.len() ==> #[trigger] sdraws[q] == cb),
                    decreases n - j,
                {
                    let ghost t: int = i * n_i + j;
                    let ghost prev: Seq<i8> = lattice@;
                    let r = rng.next_unit_bits();
                    let s1 = lattice.get(i, j);
                    let nsum = lattice.neighbor_sum(i, j);
                    let k: i8 = if s1 == 1 {
                        nsum
                    } else {
                        0 - nsum
                    };
                    proof {
                        let ns = spec_neighbor_sum(prev, m_i, n_i, i as int, j as int);
                        if s1 == 1 {
                            assert((s1 as int) * ns == ns) by (nonlinear_arith)
                                requires
                                    (s1 as int) == 1,
                            ;
                        } else {
                            assert((s1 as int) * ns == -ns) by (nonlinear_arith)
                                requires
                                    (s1 as int) == -1,
                            ;
                        }
                        assert(k as int == (s1 as int) * ns);
                    }
                    let p = table.probability(k);
                    let flip = f64_bits_lt(r, p);
                    if flip {
                        let flipped: i8 = 0 - s1;
                        lattice.set(i, j, flipped);
                    }
                    proof {
                        lemma_row_major_index(m_i, n_i, i as int, j as int);
                        lemma_row_major_decompose(n_i, i as int, j as int);
                        let sdraws2 = sdraws.push(r);
                        lemma_sweep_prefix_stable(
                            sweep_start,
                            m_i,
                            n_i,
                            table@,
                            sdraws,
                            sdraws2,
                            t,
                        );
                        assert(spec_sweep_prefix(sweep_start, m_i, n_i, table@, sdraws2, t + 1)
                            == spec_site_update(prev, m_i, n_i, i as int, j as int, table@, r));
                        assert(lattice@ == spec_site_update(
                            prev,
                            m_i,
                            n_i,
                            i as int,
                            j as int,
                            table@,
                            r,
                        ));
                        sdraws = sdraws2;
                    }
                    j = j + 1;
                }
                i = i + 1;
                proof {
                    assert(i * n_i == (i - 1) * n_i + n_i) by (nonlinear_arith);
                }
            }
            proof {
                assert(sdraws.len() == m_i * n_i);
                draws = draws + sdraws;
                let w_i: int = w as int;
                assert(w_i * cells_i == w_i * m_i * n_i && (w_i + 1) * cells_i == (w_i + 1)
                    * m_i * n_i && w_i * cells_i + cells_i == (w_i + 1) * cells_i)
                    by (nonlinear_arith)
                    requires
                        cells_i == m_i * n_i,
                ;
                assert(draws.len() == (w + 1) * cells_i);
                lemma_run_stable(
                    old(lattice)@,
                    m_i,
                    n_i,
                    table@,
                    draws_before,
                    draws,
                    w as nat,
                );
                assert(draws.subrange(w * cells_i, (w + 1) * cells_i) =~= sdraws) by {
                    assert(w * cells_i + cells_i == (w + 1) * cells_i) by (nonlinear_arith);
                }
                assert(lattice@ == spec_run(
                    old(lattice)@,
                    m_i,
                    n_i,
                    table@,
                    draws,
                    (w + 1) as nat,
                ));
            }
            w = w + 1;
        }
        proof {
            let w_i: int = w as int;
            assert(w_i * cells_i == w_i * m_i * n_i) by (nonlinear_arith)
                requires
                    cells_i == m_i * n_i,
            ;
            assert(run_witness(
                old(lattice)@,
                lattice@,
                m_i,
                n_i,
                table@,
                sweeps_n,
                draws,
            ));
            if old(rng).is_constant() {
                let cseq = Seq::new(sweeps_n * (m as nat * n as nat), |q: int| cb);
                assert(draws =~= cseq);
                assert(lattice@ == spec_run(old(lattice)@, m_i, n_i, table@, cseq, sweeps_n));
            }
        }
    }
}

} // verus!
