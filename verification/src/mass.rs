//! Laws about the total mass of a trail field.
//!
//! Moving every value of a torus by the same offset only permutes the cells;
//! from that, a diffusion pass can lose mass to rounding but never gain any.

use vstd::prelude::*;
use vstd::arithmetic::div_mod::lemma_fundamental_div_mod;
use vstd::arithmetic::div_mod::lemma_fundamental_div_mod_converse;
use vstd::arithmetic::div_mod::lemma_mod_bound;
use crate::field::cell_index;
use crate::field::cell_values;
use crate::field::lemma_cell_index;
use crate::field::lemma_index_cell;
use crate::field::spec_decay;
use crate::field::lemma_decay_value;
use crate::field::spec_blur_value;
use crate::field::spec_diffuse;
use crate::field::spec_mass;
use crate::field::spec_neighbor_sum;
use crate::field::spec_row_sum;
use crate::field::spec_shifted;
use crate::field::wrap;
use crate::sums::lemma_sum_add3;
use crate::sums::lemma_sum_monotone;
use crate::sums::lemma_sum_ring;
use crate::sums::lemma_sum_scaled_below;
use crate::sums::lemma_sum_shift;
use crate::sums::lemma_sum_split;
use crate::sums::sum_range;

verus! {

/// The grid read `dx` columns and `dy` rows off, as a function of the index.
pub open spec fn shifted_values(cells: Seq<u32>, w: int, h: int, dx: int, dy: int) -> spec_fn(
    int,
) -> int {
    |i: int| spec_shifted(cells, w, h, dx, dy, i)
}

/// The sums of three neighbours in the row `dy` rows off, as a function of the index.
pub open spec fn row_sums(cells: Seq<u32>, w: int, h: int, dy: int) -> spec_fn(int) -> int {
    |i: int| spec_row_sum(cells, w, h, dy, i)
}

/// The neighbourhood sums of a grid, as a function of the index.
pub open spec fn neighbor_sums(cells: Seq<u32>, w: int, h: int) -> spec_fn(int) -> int {
    |i: int| spec_neighbor_sum(cells, w, h, i)
}

/// Turning every row of a grid by `dx` columns leaves the sum over the first `rows` rows as it was.
proof fn lemma_rows_turned(
    f: spec_fn(int) -> int,
    s: spec_fn(int) -> int,
    w: int,
    dx: int,
    rows: int,
)
    requires
        0 < w,
        0 <= rows,
        forall|i: int|
            0 <= i < rows * w ==> #[trigger] s(i) == f(cell_index(wrap(i % w + dx, w), i / w, w)),
    ensures
        sum_range(s, 0, rows * w) == sum_range(f, 0, rows * w),
    decreases rows,
{
    if rows == 0 {
        assert(rows * w == 0);
    } else {
        let r = rows - 1;
        assert(rows * w == r * w + w) by (nonlinear_arith)
            requires
                rows == r + 1,
        ;
        assert(0 <= r * w) by (nonlinear_arith)
            requires
                0 <= r,
                0 < w,
        ;
        lemma_rows_turned(f, s, w, dx, r);
        let fr = |c: int| f(r * w + c);
        let sr = |c: int| s(r * w + c);
        assert forall|c: int| 0 <= c < w implies #[trigger] sr(c) == fr((c + dx) % w) by {
            lemma_cell_index(c, r, w, rows);
            lemma_mod_bound(c + dx, w);
        }
        lemma_sum_ring(fr, sr, dx, w);
        lemma_sum_shift(s, sr, r * w, 0, w);
        lemma_sum_shift(f, fr, r * w, 0, w);
        lemma_sum_split(s, 0, r * w, rows * w);
        lemma_sum_split(f, 0, r * w, rows * w);
    }
}

/// Where a cell `dy` rows off lies, counted round the whole grid as one ring.
proof fn lemma_row_offset(j: int, w: int, h: int, dy: int)
    requires
        0 < w,
        0 < h,
        0 <= j < w * h,
    ensures
        cell_index(j % w, wrap(j / w + dy, h), w) == (j + dy * w) % (w * h),
{
    lemma_index_cell(j, w, h);
    let r = j / w;
    let c = j % w;
    let q = (r + dy) / h;
    let m = (r + dy) % h;
    lemma_fundamental_div_mod(r + dy, h);
    lemma_mod_bound(r + dy, h);
    lemma_cell_index(c, m, w, h);
    assert(j + dy * w == q * (w * h) + (m * w + c)) by (nonlinear_arith)
        requires
            j == r * w + c,
            r + dy == h * q + m,
    ;
    lemma_fundamental_div_mod_converse(j + dy * w, w * h, q, m * w + c);
}

/// Reading a torus at a fixed offset from every cell visits every cell once:
/// the values read sum to the mass of the grid.
pub proof fn lemma_shift_keeps_mass(cells: Seq<u32>, w: int, h: int, dx: int, dy: int)
    requires
        0 < w,
        0 < h,
        cells.len() == w * h,
    ensures
        sum_range(shifted_values(cells, w, h, dx, dy), 0, w * h) == spec_mass(cells),
{
    let n = w * h;
    let f = cell_values(cells);
    let by_rows = |j: int| f(cell_index(j % w, wrap(j / w + dy, h), w));
    let s = shifted_values(cells, w, h, dx, dy);
    assert forall|j: int| 0 <= j < n implies #[trigger] by_rows(j) == f((j + dy * w) % n) by {
        lemma_row_offset(j, w, h, dy);
    }
    assert(h * w == n && 0 < n) by (nonlinear_arith)
        requires
            n == w * h,
            0 < w,
            0 < h,
    ;
    lemma_sum_ring(f, by_rows, dy * w, n);
    assert forall|i: int| 0 <= i < h * w implies #[trigger] s(i) == by_rows(
        cell_index(wrap(i % w + dx, w), i / w, w),
    ) by {
        lemma_index_cell(i, w, h);
        lemma_mod_bound(i % w + dx, w);
        lemma_cell_index(wrap(i % w + dx, w), i / w, w, h);
    }
    lemma_rows_turned(by_rows, s, w, dx, h);
}

/// The sums of three neighbours in the row `dy` rows off add up to three times the mass.
proof fn lemma_row_sums_total(cells: Seq<u32>, w: int, h: int, dy: int)
    requires
        0 < w,
        0 < h,
        cells.len() == w * h,
    ensures
        sum_range(row_sums(cells, w, h, dy), 0, w * h) == 3 * spec_mass(cells),
{
    lemma_shift_keeps_mass(cells, w, h, -1, dy);
    lemma_shift_keeps_mass(cells, w, h, 0, dy);
    lemma_shift_keeps_mass(cells, w, h, 1, dy);
    lemma_sum_add3(
        shifted_values(cells, w, h, -1, dy),
        shifted_values(cells, w, h, 0, dy),
        shifted_values(cells, w, h, 1, dy),
        row_sums(cells, w, h, dy),
        0,
        w * h,
    );
}

/// The neighbourhood sums of a torus add up to nine times its mass.
pub proof fn lemma_neighbor_sums_total(cells: Seq<u32>, w: int, h: int)
    requires
        0 < w,
        0 < h,
        cells.len() == w * h,
    ensures
        sum_range(neighbor_sums(cells, w, h), 0, w * h) == 9 * spec_mass(cells),
{
    lemma_row_sums_total(cells, w, h, -1);
    lemma_row_sums_total(cells, w, h, 0);
    lemma_row_sums_total(cells, w, h, 1);
    lemma_sum_add3(
        row_sums(cells, w, h, -1),
        row_sums(cells, w, h, 0),
        row_sums(cells, w, h, 1),
        neighbor_sums(cells, w, h),
        0,
        w * h,
    );
}

/// A diffusion pass is non-expansive: the mass after it is at most the mass before.
/// What is lost is what rounding each mean down takes away.
pub proof fn lemma_diffuse_non_expansive(cells: Seq<u32>, w: int, h: int)
    requires
        0 < w,
        0 < h,
        cells.len() == w * h,
    ensures
        spec_mass(spec_diffuse(cells, w, h)) <= spec_mass(cells),
{
    let n = w * h;
    let after = cell_values(spec_diffuse(cells, w, h));
    let sums = neighbor_sums(cells, w, h);
    assert forall|i: int| 0 <= i < n implies 9 * #[trigger] after(i) <= sums(i) by {
        let total = spec_neighbor_sum(cells, w, h, i);
        assert(0 <= total <= 9 * 0xffff_ffff);
        assert(spec_blur_value(cells, w, h, i) == total / 9);
        assert(spec_diffuse(cells, w, h)[i] == (total / 9) as u32);
    }
    lemma_sum_scaled_below(after, sums, 9, 0, n);
    lemma_neighbor_sums_total(cells, w, h);
}

/// A decay pass by a factor of at most one never raises the mass.
pub proof fn lemma_decay_non_expansive(cells: Seq<u32>, num: int, den: int)
    requires
        0 <= num <= den,
        0 < den,
    ensures
        spec_mass(spec_decay(cells, num, den)) <= spec_mass(cells),
{
    let after = cell_values(spec_decay(cells, num, den));
    let before = cell_values(cells);
    assert forall|i: int| 0 <= i < cells.len() implies #[trigger] after(i) <= before(i) by {
        lemma_decay_value(cells[i] as int, num, den);
    }
    lemma_sum_monotone(after, before, 0, cells.len() as int);
}

} // verus!
