//! Rendering a lattice as a plain-text bitmap.
//!
//! The format: a header line with the tag `P1`, a line `<cols> <rows>`,
//! then one line per lattice row holding one bit and one space per site
//! (`1` for spin `+1`, `0` for spin `-1`), and a trailing blank line.
//! The bytes are computed here, fully verified; writing them anywhere is
//! the caller's business.

use vstd::prelude::*;
use crate::lattice::Lattice;

verus! {

/// The decimal digits of `v` as ASCII bytes, most significant first.
pub open spec fn spec_decimal(v: nat) -> Seq<u8>
    decreases v,
{
    if v < 10 {
        seq![(0x30 + v) as u8]
    } else {
        spec_decimal(v / 10).push((0x30 + v % 10) as u8)
    }
}

/// The two bytes of one site: its bit, then a space.
pub open spec fn spec_cell_bytes(v: i8) -> Seq<u8> {
    seq![if v == 1 { 0x31u8 } else { 0x30u8 }, 0x20u8]
}

/// The bytes of the first `j` sites of row `i`.
pub open spec fn spec_row_prefix(s: Seq<i8>, n: int, i: int, j: int) -> Seq<u8>
    decreases j,
{
    if j <= 0 {
        Seq::empty()
    } else {
        spec_row_prefix(s, n, i, j - 1) + spec_cell_bytes(s[i * n + (j - 1)])
    }
}

/// The bytes of the first `i` full rows, each closed by a newline.
pub open spec fn spec_rows_prefix(s: Seq<i8>, n: int, i: int) -> Seq<u8>
    decreases i,
{
    if i <= 0 {
        Seq::empty()
    } else {
        spec_rows_prefix(s, n, i - 1) + spec_row_prefix(s, n, i - 1, n) + seq![0x0Au8]
    }
}

/// The whole bitmap for the `m` by `n` grid `s`.
pub open spec fn spec_render(s: Seq<i8>, m: int, n: int) -> Seq<u8> {
    seq![0x50u8, 0x31u8, 0x0Au8] + spec_decimal(n as nat) + seq![0x20u8] + spec_decimal(m as nat)
        + seq![0x0Au8] + spec_rows_prefix(s, n, m) + seq![0x0Au8]
}

/// Appends the decimal digits of `v` to `out`.
#[verifier::loop_isolation(false)]
fn push_decimal(out: &mut Vec<u8>, v: usize)
    ensures
        final(out)@ == old(out)@ + spec_decimal(v as nat),
{
    let mut digits: Vec<u8> = Vec::new();
    let mut x: usize = v;
    let d0: u8 = 0x30 + (x % 10) as u8;
    digits.push(d0);
    x = x / 10;
    proof {
        if x == 0 {
            assert(digits@.reverse() =~= spec_decimal(v as nat));
        } else {
            assert(digits@.reverse() =~= seq![d0]);
            assert(spec_decimal(v as nat) =~= spec_decimal(x as nat) + digits@.reverse());
        }
    }
    while x > 0
        invariant
            digits@.len() >= 1,
            x == 0 ==> digits@.reverse() == spec_decimal(v as nat),
            x > 0 ==> spec_decimal(v as nat) == spec_decimal(x as nat) + digits@.reverse(),
        decreases x,
    {
        let d: u8 = 0x30 + (x % 10) as u8;
        let ghost before: Seq<u8> = digits@;
        let ghost x0: int = x as int;
        digits.push(d);
        x = x / 10;
        proof {
            assert(digits@.reverse() =~= seq![d] + before.reverse());
            if x == 0 {
                assert(spec_decimal(x0 as nat) =~= seq![d]);
                assert(digits@.reverse() =~= spec_decimal(v as nat));
            } else {
                assert(spec_decimal(x0 as nat) =~= spec_decimal(x as nat) + seq![d]);
                assert(spec_decimal(x as nat) + digits@.reverse() =~= spec_decimal(v as nat));
            }
        }
    }
    let ghost dec: Seq<u8> = spec_decimal(v as nat);
    proof {
        assert(dec.len() == digits@.len());
    }
    let mut idx: usize = digits.len();
    while idx > 0
        invariant
            idx <= digits@.len(),
            out@ == old(out)@ + dec.subrange(0, digits@.len() - idx),
        decreases idx,
    {
        idx = idx - 1;
        let b: u8 = digits[idx];
        out.push(b);
        proof {
            assert(dec[digits@.len() - idx - 1] == digits@[idx as int]);
            assert(out@ =~= old(out)@ + dec.subrange(0, digits@.len() - idx));
        }
    }
    proof {
        assert(dec.subrange(0, digits@.len() as int) =~= dec);
    }
}

/// The plain-text bitmap of the lattice: header tag, the line
/// `<cols> <rows>`, the grid's bits row by row, a trailing blank line.
#[verifier::loop_isolation(false)]
pub fn render_pbm(lat: &Lattice) -> (out: Vec<u8>)
    requires
        lat.wf(),
    ensures
        out@ == spec_render(lat@, lat.spec_rows() as int, lat.spec_cols() as int),
{
    let m = lat.rows();
    let n = lat.cols();
    let ghost s: Seq<i8> = lat@;
    let ghost m_i: int = m as int;
    let ghost n_i: int = n as int;
    let mut out: Vec<u8> = Vec::new();
    out.push(0x50);
    out.push(0x31);
    out.push(0x0A);
    push_decimal(&mut out, n);
    out.push(0x20);
    push_decimal(&mut out, m);
    out.push(0x0A);
    let ghost head: Seq<u8> = out@;
    proof {
        assert(head =~= seq![0x50u8, 0x31u8, 0x0Au8] + spec_decimal(n as nat) + seq![0x20u8]
            + spec_decimal(m as nat) + seq![0x0Au8]);
        assert(out@ =~= head + spec_rows_prefix(s, n_i, 0));
    }
    let mut i: usize = 0;
    while i < m
        invariant
            i <= m,
            lat.wf(),
            m == lat.spec_rows(),
            n == lat.spec_cols(),
            s == lat@,
            n_i == n as int,
            out@ == head + spec_rows_prefix(s, n_i, i as int),
        decreases m - i,
    {
        proof {
            assert(out@ =~= head + spec_rows_prefix(s, n_i, i as int) + spec_row_prefix(
                s,
                n_i,
                i as int,
                0,
            ));
        }
        let mut j: usize = 0;
        while j < n
            invariant
                j <= n,
                i < m,
                lat.wf(),
                m == lat.spec_rows(),
                n == lat.spec_cols(),
                s == lat@,
                n_i == n as int,
                out@ == head + spec_rows_prefix(s, n_i, i as int) + spec_row_prefix(
                    s,
                    n_i,
                    i as int,
                    j as int,
                ),
            decreases n - j,
        {
            let v = lat.get(i, j);
            let b: u8 = if v == 1 {
                0x31
            } else {
                0x30
            };
            out.push(b);
            out.push(0x20);
            proof {
                assert(out@ =~= head + spec_rows_prefix(s, n_i, i as int) + spec_row_prefix(
                    s,
                    n_i,
                    i as int,
                    j as int + 1,
                ));
            }
            j = j + 1;
        }
        out.push(0x0A);
        proof {
            assert(out@ =~= head + spec_rows_prefix(s, n_i, i as int + 1));
        }
        i = i + 1;
    }
    out.push(0x0A);
    proof {
        assert(out@ =~= spec_render(s, m_i, n_i));
    }
    out
}

} // verus!
