//! The periodic square lattice of spins.
//!
//! A lattice holds `rows * cols` spins, each `-1` or `+1`, in row-major
//! order; every site has exactly four neighbors under toroidal wraparound.

use vstd::prelude::*;
use vstd::arithmetic::div_mod::lemma_add_mod_noop_right;
use vstd::arithmetic::div_mod::lemma_fundamental_div_mod;
use vstd::arithmetic::div_mod::lemma_fundamental_div_mod_converse;
use vstd::arithmetic::div_mod::lemma_mod_add_multiples_vanish;
use vstd::arithmetic::div_mod::lemma_mod_bound;
use vstd::arithmetic::div_mod::lemma_mod_self_0;
use vstd::arithmetic::div_mod::lemma_small_mod;
use vstd::pervasive::VecAdditionalExecFns;
use crate::rng::RandomSource;

verus! {

/// The one recoverable construction error: a dimension of zero, or a spin
/// buffer whose length does not match the dimensions. (Out-of-range site
/// access is a caller-contract violation, excluded by `requires`; output
/// failures belong to the unverified rim around the library.)
#[derive(Clone, Copy, Debug, PartialEq, Eq, Structural)]
pub enum IsingError {
    InvalidDimension,
}

/// A spin is `-1` or `+1`.
pub open spec fn is_spin(v: i8) -> bool {
    v == -1 || v == 1
}

/// Every element of the sequence is a spin.
pub open spec fn all_spins(s: Seq<i8>) -> bool {
    forall|t: int| 0 <= t < s.len() ==> is_spin(#[trigger] s[t])
}

/// The sum of the four periodic neighbors of site `(i, j)` on an `m` by
/// `n` row-major grid: sites `(i +- 1 mod m, j)` and `(i, j +- 1 mod n)`.
pub open spec fn spec_neighbor_sum(s: Seq<i8>, m: int, n: int, i: int, j: int) -> int {
    s[(if i < m - 1 { i + 1 } else { 0 }) * n + j] as int
        + s[(if i > 0 { i - 1 } else { m - 1 }) * n + j] as int
        + s[i * n + (if j < n - 1 { j + 1 } else { 0 })] as int
        + s[i * n + (if j > 0 { j - 1 } else { n - 1 })] as int
}

/// A row-major site index lies inside the grid.
pub proof fn lemma_row_major_index(m: int, n: int, i: int, j: int)
    requires
        0 <= i < m,
        0 <= j < n,
    ensures
        0 <= i * n + j < m * n,
{
    assert(0 <= i * n + j < m * n) by (nonlinear_arith)
        requires
            0 <= i < m,
            0 <= j < n,
    ;
}

/// A row-major site index decomposes back into its row and column.
pub proof fn lemma_row_major_decompose(n: int, i: int, j: int)
    requires
        n >= 1,
        0 <= i,
        0 <= j < n,
    ensures
        (i * n + j) / n == i,
        (i * n + j) % n == j,
{
    lemma_fundamental_div_mod_converse(i * n + j, n, i, j);
}

/// Sum of the four periodic neighbors of site `(i, j)` of the `m` by `n`
/// row-major spin grid `s`, in `[-4, 4]`.
pub fn ising2d_sum_of_adjacent_spins(s: &Vec<i8>, m: usize, n: usize, i: usize, j: usize) -> (r:
    i8)
    requires
        m >= 1,
        n >= 1,
        s@.len() == m * n,
        all_spins(s@),
        i < m,
        j < n,
    ensures
        r == spec_neighbor_sum(s@, m as int, n as int, i as int, j as int),
        -4 <= r <= 4,
{
    let up: usize = if i < m - 1 { i + 1 } else { 0 };
    let down: usize = if i > 0 { i - 1 } else { m - 1 };
    let right: usize = if j < n - 1 { j + 1 } else { 0 };
    let left: usize = if j > 0 { j - 1 } else { n - 1 };
    proof {
        assert(s.len() <= usize::MAX);
        lemma_row_major_index(m as int, n as int, up as int, j as int);
        lemma_row_major_index(m as int, n as int, down as int, j as int);
        lemma_row_major_index(m as int, n as int, i as int, right as int);
        lemma_row_major_index(m as int, n as int, i as int, left as int);
    }
    let a: i8 = s[up * n + j];
    let b: i8 = s[down * n + j];
    let c: i8 = s[i * n + right];
    let d: i8 = s[i * n + left];
    a + b + c + d
}

/// The grid translated by `(di, dj)`: site `(i, j)` of the result holds
/// the spin of site `((i + di) mod m, (j + dj) mod n)` of `s`.
pub open spec fn spec_translate(s: Seq<i8>, m: int, n: int, di: int, dj: int) -> Seq<i8> {
    Seq::new((m * n) as nat, |t: int| s[((t / n + di) % m) * n + (t % n + dj) % n])
}

/// One site of the translated grid, read back in the original grid.
proof fn lemma_translate_lookup(s: Seq<i8>, m: int, n: int, di: int, dj: int, a: int, b: int)
    requires
        m >= 1,
        n >= 1,
        s.len() == m * n,
        0 <= a < m,
        0 <= b < n,
    ensures
        spec_translate(s, m, n, di, dj)[a * n + b] == s[((a + di) % m) * n + ((b + dj) % n)],
{
    lemma_row_major_index(m, n, a, b);
    lemma_row_major_decompose(n, a, b);
}

/// Wraparound stepping commutes with a cyclic shift: stepping from `i`
/// and then shifting by `di` lands on the same row as shifting first and
/// stepping from the shifted row (both are steps modulo `m`).
proof fn lemma_wrap_translate(m: int, i: int, di: int)
    requires
        m >= 1,
        0 <= i < m,
    ensures
        ((if i < m - 1 {
            i + 1
        } else {
            0
        }) + di) % m == (if (i + di) % m < m - 1 {
            (i + di) % m + 1
        } else {
            0
        }),
        ((if i > 0 {
            i - 1
        } else {
            m - 1
        }) + di) % m == (if (i + di) % m > 0 {
            (i + di) % m - 1
        } else {
            m - 1
        }),
{
    lemma_mod_bound(i + di, m);
    let ii = (i + di) % m;
    if i < m - 1 {
        lemma_small_mod((i + 1) as nat, m as nat);
    } else {
        lemma_mod_self_0(m);
    }
    assert((if i < m - 1 {
        i + 1
    } else {
        0
    }) == (i + 1) % m);
    if ii < m - 1 {
        lemma_small_mod((ii + 1) as nat, m as nat);
    } else {
        lemma_mod_self_0(m);
    }
    assert((if ii < m - 1 {
        ii + 1
    } else {
        0
    }) == (ii + 1) % m);
    lemma_add_mod_noop_right(di, i + 1, m);
    lemma_add_mod_noop_right(1, i + di, m);
    if i > 0 {
        lemma_mod_add_multiples_vanish(i - 1, m);
        lemma_small_mod((i - 1) as nat, m as nat);
    } else {
        lemma_small_mod((m - 1) as nat, m as nat);
    }
    assert((if i > 0 {
        i - 1
    } else {
        m - 1
    }) == (i + m - 1) % m);
    if ii > 0 {
        lemma_mod_add_multiples_vanish(ii - 1, m);
        lemma_small_mod((ii - 1) as nat, m as nat);
    } else {
        lemma_small_mod((m - 1) as nat, m as nat);
    }
    assert((if ii > 0 {
        ii - 1
    } else {
        m - 1
    }) == (ii + m - 1) % m);
    lemma_add_mod_noop_right(di, i + m - 1, m);
    lemma_add_mod_noop_right(m - 1, i + di, m);
}

/// Translation invariance of the neighbor sum: on a cyclically shifted
/// grid, the neighbor sum at `(i, j)` equals the neighbor sum of the
/// unshifted grid at the correspondingly shifted site — wraparound is
/// correct at every edge and corner.
pub proof fn lemma_neighbor_sum_translation(
    s: Seq<i8>,
    m: int,
    n: int,
    di: int,
    dj: int,
    i: int,
    j: int,
)
    requires
        m >= 1,
        n >= 1,
        s.len() == m * n,
        0 <= i < m,
        0 <= j < n,
    ensures
        spec_neighbor_sum(spec_translate(s, m, n, di, dj), m, n, i, j) == spec_neighbor_sum(
            s,
            m,
            n,
            (i + di) % m,
            (j + dj) % n,
        ),
{
    lemma_mod_bound(i + di, m);
    lemma_mod_bound(j + dj, n);
    lemma_wrap_translate(m, i, di);
    lemma_wrap_translate(n, j, dj);
    let up = if i < m - 1 {
        i + 1
    } else {
        0
    };
    let down = if i > 0 {
        i - 1
    } else {
        m - 1
    };
    let right = if j < n - 1 {
        j + 1
    } else {
        0
    };
    let left = if j > 0 {
        j - 1
    } else {
        n - 1
    };
    lemma_translate_lookup(s, m, n, di, dj, up, j);
    lemma_translate_lookup(s, m, n, di, dj, down, j);
    lemma_translate_lookup(s, m, n, di, dj, i, right);
    lemma_translate_lookup(s, m, n, di, dj, i, left);
}

/// The spin grid: dimensions and the row-major spin buffer.
pub struct Lattice {
    rows: usize,
    cols: usize,
    spins: Vec<i8>,
}

impl View for Lattice {
    type V = Seq<i8>;

    closed spec fn view(&self) -> Seq<i8> {
        self.spins@
    }
}

impl Lattice {
    pub closed spec fn spec_rows(&self) -> usize {
        self.rows
    }

    pub closed spec fn spec_cols(&self) -> usize {
        self.cols
    }

    /// Well-formed: both dimensions at least 1, a spin buffer of exactly
    /// `rows * cols` entries, every entry `-1` or `+1`.
    pub open spec fn wf(&self) -> bool {
        &&& self.spec_rows() >= 1
        &&& self.spec_cols() >= 1
        &&& self@.len() == self.spec_rows() * self.spec_cols()
        &&& all_spins(self@)
    }

    pub fn rows(&self) -> (r: usize)
        ensures
            r == self.spec_rows(),
    {
        self.rows
    }

    pub fn cols(&self) -> (r: usize)
        ensures
            r == self.spec_cols(),
    {
        self.cols
    }

    /// The number of sites, `rows * cols`.
    pub fn site_count(&self) -> (c: usize)
        requires
            self.wf(),
        ensures
            c == self.spec_rows() * self.spec_cols(),
    {
        self.spins.len()
    }

    /// A lattice over the given spin buffer; rejects a zero dimension and
    /// a buffer whose length is not `rows * cols`.
    pub fn from_spins(rows: usize, cols: usize, spins: Vec<i8>) -> (r: Result<
        Lattice,
        IsingError,
    >)
        requires
            all_spins(spins@),
        ensures
            r is Ok <==> (rows >= 1 && cols >= 1 && spins@.len() == rows * cols),
            r matches Ok(l) ==> l.wf() && l.spec_rows() == rows && l.spec_cols() == cols && l@
                == spins@,
            r is Err ==> r == Err::<Lattice, IsingError>(IsingError::InvalidDimension),
    {
        if rows == 0 || cols == 0 {
            return Err(IsingError::InvalidDimension);
        }
        let len = spins.len();
        if len / cols != rows || len % cols != 0 {
            proof {
                if spins@.len() == rows * cols {
                    lemma_fundamental_div_mod_converse(len as int, cols as int, rows as int, 0);
                }
            }
            return Err(IsingError::InvalidDimension);
        }
        proof {
            lemma_fundamental_div_mod(len as int, cols as int);
            assert(cols * rows == rows * cols) by (nonlinear_arith);
        }
        Ok(Lattice { rows, cols, spins })
    }

    /// A randomly initialized `rows` by `cols` lattice: one spin draw per
    /// site, in row-major order; rejects a zero dimension. On a constant
    /// source every site comes out `+1`.
    pub fn initialize_random(rows: usize, cols: usize, rng: &mut RandomSource) -> (r: Result<
        Lattice,
        IsingError,
    >)
        requires
            old(rng).wf(),
            rows * cols <= usize::MAX,
        ensures
            final(rng).wf(),
            final(rng).is_constant() == old(rng).is_constant(),
            final(rng).constant_bits() == old(rng).constant_bits(),
            r is Ok <==> (rows >= 1 && cols >= 1),
            r matches Ok(l) ==> l.wf() && l.spec_rows() == rows && l.spec_cols() == cols,
            r is Err ==> r == Err::<Lattice, IsingError>(IsingError::InvalidDimension)
                && *final(rng) == *old(rng),
            old(rng).is_constant() ==> *final(rng) == *old(rng),
            (old(rng).is_constant() && r is Ok) ==> (r matches Ok(l) ==> l@ == Seq::new(
                (rows * cols) as nat,
                |t: int| 1i8,
            )),
    {
        if rows == 0 || cols == 0 {
            return Err(IsingError::InvalidDimension);
        }
        let total: usize = rows * cols;
        let mut spins: Vec<i8> = Vec::new();
        let mut t: usize = 0;
        while t < total
            invariant
                t <= total,
                spins@.len() == t,
                all_spins(spins@),
                rng.wf(),
                rng.is_constant() == old(rng).is_constant(),
                rng.constant_bits() == old(rng).constant_bits(),
                old(rng).is_constant() ==> *rng == *old(rng),
                old(rng).is_constant() ==> spins@ == Seq::new(t as nat, |q: int| 1i8),
            decreases total - t,
        {
            let v = rng.next_spin();
            spins.push(v);
            t = t + 1;
            proof {
                if old(rng).is_constant() {
                    assert(spins@ =~= Seq::new(t as nat, |q: int| 1i8));
                }
            }
        }
        Ok(Lattice { rows, cols, spins })
    }

    /// The spin at site `(i, j)`.
    pub fn get(&self, i: usize, j: usize) -> (r: i8)
        requires
            self.wf(),
            i < self.spec_rows(),
            j < self.spec_cols(),
        ensures
            r == self@[i * self.spec_cols() + j],
            is_spin(r),
    {
        proof {
            assert(self.spins.len() <= usize::MAX);
            lemma_row_major_index(
                self.spec_rows() as int,
                self.spec_cols() as int,
                i as int,
                j as int,
            );
        }
        self.spins[i * self.cols + j]
    }

    /// Writes the spin at site `(i, j)`; only `-1` and `+1` are accepted.
    pub fn set(&mut self, i: usize, j: usize, value: i8)
        requires
            old(self).wf(),
            i < old(self).spec_rows(),
            j < old(self).spec_cols(),
            is_spin(value),
        ensures
            final(self).wf(),
            final(self).spec_rows() == old(self).spec_rows(),
            final(self).spec_cols() == old(self).spec_cols(),
            final(self)@ == old(self)@.update(i * old(self).spec_cols() + j, value),
    {
        proof {
            assert(self.spins.len() <= usize::MAX);
            lemma_row_major_index(
                self.spec_rows() as int,
                self.spec_cols() as int,
                i as int,
                j as int,
            );
        }
        self.spins.set(i * self.cols + j, value);
    }

    /// The sum of the four periodic neighbors of site `(i, j)`.
    pub fn neighbor_sum(&self, i: usize, j: usize) -> (r: i8)
        requires
            self.wf(),
            i < self.spec_rows(),
            j < self.spec_cols(),
        ensures
            r == spec_neighbor_sum(
                self@,
                self.spec_rows() as int,
                self.spec_cols() as int,
                i as int,
                j as int,
            ),
            -4 <= r <= 4,
    {
        ising2d_sum_of_adjacent_spins(&self.spins, self.rows, self.cols, i, j)
    }
}

} // verus!
