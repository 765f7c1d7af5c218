//! The trail field: a double-buffered grid of scalar traces on a torus.
//!
//! The front buffer is the readable state. A diffusion or decay pass reads the
//! front buffer only, writes every cell of the back buffer, and then swaps the
//! two; a deposit adds into the front buffer, saturating at the ceiling.

use vstd::prelude::*;
use vstd::arithmetic::div_mod::lemma_fundamental_div_mod_converse;
use vstd::arithmetic::div_mod::lemma_fundamental_div_mod;
use crate::error::SetupError;
use crate::sums::sum_range;
use crate::mass::lemma_decay_non_expansive;
use crate::mass::lemma_diffuse_non_expansive;

verus! {

/// The longest side a grid may have.
pub const MAX_DIM: usize = 16384;

/// A grid of `w` columns and `h` rows is one that a field can hold.
pub open spec fn valid_dims(w: int, h: int) -> bool {
    1 <= w <= MAX_DIM && 1 <= h <= MAX_DIM
}

/// The place of `i` on a ring of `n` places.
pub open spec fn wrap(i: int, n: int) -> int {
    i % n
}

/// Row-major index of the cell in column `x` of row `y`.
pub open spec fn cell_index(x: int, y: int, w: int) -> int {
    y * w + x
}

/// The value found `dx` columns and `dy` rows from cell `i`, going round the torus.
pub open spec fn spec_shifted(cells: Seq<u32>, w: int, h: int, dx: int, dy: int, i: int) -> int {
    cells[cell_index(wrap(i % w + dx, w), wrap(i / w + dy, h), w)] as int
}

/// The sum of the three values `dy` rows from cell `i`: one column back, the same column, one on.
pub open spec fn spec_row_sum(cells: Seq<u32>, w: int, h: int, dy: int, i: int) -> int {
    spec_shifted(cells, w, h, -1, dy, i) + spec_shifted(cells, w, h, 0, dy, i) + spec_shifted(
        cells,
        w,
        h,
        1,
        dy,
        i,
    )
}

/// The sum of the nine values in the 3x3 neighbourhood of cell `i`.
pub open spec fn spec_neighbor_sum(cells: Seq<u32>, w: int, h: int, i: int) -> int {
    spec_row_sum(cells, w, h, -1, i) + spec_row_sum(cells, w, h, 0, i) + spec_row_sum(
        cells,
        w,
        h,
        1,
        i,
    )
}

/// The value of cell `i` after one diffusion pass: the mean of its neighbourhood, rounded down.
pub open spec fn spec_blur_value(cells: Seq<u32>, w: int, h: int, i: int) -> int {
    spec_neighbor_sum(cells, w, h, i) / 9
}

/// The grid after one diffusion pass.
pub open spec fn spec_diffuse(cells: Seq<u32>, w: int, h: int) -> Seq<u32> {
    Seq::new(cells.len(), |i: int| spec_blur_value(cells, w, h, i) as u32)
}

/// A value after decay by the factor `num / den`, rounded down.
pub open spec fn spec_decay_value(v: int, num: int, den: int) -> int {
    (v * num) / den
}

/// The grid after one decay pass.
pub open spec fn spec_decay(cells: Seq<u32>, num: int, den: int) -> Seq<u32> {
    Seq::new(cells.len(), |i: int| spec_decay_value(cells[i] as int, num, den) as u32)
}

/// A value after `amount` was added `hits` times, held at the ceiling.
pub open spec fn spec_deposit_value(v: int, amount: int, hits: int, ceiling: int) -> int {
    if v + amount * hits >= ceiling {
        ceiling
    } else {
        v + amount * hits
    }
}

/// The cells of a grid as a function of the index.
pub open spec fn cell_values(cells: Seq<u32>) -> spec_fn(int) -> int {
    |i: int| cells[i] as int
}

/// The total of all values in the grid.
pub open spec fn spec_mass(cells: Seq<u32>) -> int {
    sum_range(cell_values(cells), 0, cells.len() as int)
}

/// Stepping one place back or forth on a ring of `n` places.
pub proof fn lemma_wrap_step(x: int, n: int)
    requires
        0 <= x < n,
    ensures
        wrap(x, n) == x,
        wrap(x - 1, n) == (if x == 0 {
            n - 1
        } else {
            x - 1
        }),
        wrap(x + 1, n) == (if x + 1 == n {
            0
        } else {
            x + 1
        }),
{
    lemma_fundamental_div_mod_converse(x, n, 0, x);
    if x == 0 {
        lemma_fundamental_div_mod_converse(x - 1, n, -1, n - 1);
    } else {
        lemma_fundamental_div_mod_converse(x - 1, n, 0, x - 1);
    }
    if x + 1 == n {
        lemma_fundamental_div_mod_converse(x + 1, n, 1, 0);
    } else {
        lemma_fundamental_div_mod_converse(x + 1, n, 0, x + 1);
    }
}

/// A column and a row inside the grid give an index inside the grid, and back.
pub proof fn lemma_cell_index(x: int, y: int, w: int, h: int)
    requires
        0 <= x < w,
        0 <= y < h,
    ensures
        0 <= cell_index(x, y, w) < w * h,
        cell_index(x, y, w) % w == x,
        cell_index(x, y, w) / w == y,
{
    assert(0 <= y * w <= (h - 1) * w) by (nonlinear_arith)
        requires
            0 <= y <= h - 1,
            0 < w,
    ;
    assert((h - 1) * w + w == w * h) by (nonlinear_arith);
    lemma_fundamental_div_mod_converse(y * w + x, w, y, x);
}

/// An index inside the grid has its column and its row inside the grid.
pub proof fn lemma_index_cell(i: int, w: int, h: int)
    requires
        0 < w,
        0 <= i < w * h,
    ensures
        0 <= i % w < w,
        0 <= i / w < h,
        cell_index(i % w, i / w, w) == i,
{
    lemma_fundamental_div_mod(i, w);
    assert(w * (i / w) == (i / w) * w) by (nonlinear_arith);
    assert(0 <= i % w < w) by (nonlinear_arith)
        requires
            0 < w,
    ;
    assert(0 <= i / w < h) by (nonlinear_arith)
        requires
            0 < w,
            0 <= i < w * h,
            i == (i / w) * w + i % w,
            0 <= i % w < w,
    ;
}

/// Decay by a factor of at most one never raises a value, and never makes it negative.
pub proof fn lemma_decay_value(v: int, num: int, den: int)
    by (nonlinear_arith)
    requires
        0 <= v,
        0 <= num <= den,
        0 < den,
    ensures
        0 <= spec_decay_value(v, num, den) <= v,
        0 <= v * num,
{
    assert(v * num <= v * den);
    assert((v * den) / den == v);
}

/// A grid that a field can hold has at most `MAX_DIM * MAX_DIM` cells.
pub proof fn lemma_dims_bound(w: int, h: int)
    by (nonlinear_arith)
    requires
        valid_dims(w, h),
    ensures
        1 <= w * h <= 268435456,
{
}

/// A double-buffered grid of traces, each between zero and the ceiling.
pub struct TrailField {
    width: usize,
    height: usize,
    ceiling: u32,
    front: Vec<u32>,
    back: Vec<u32>,
}

impl View for TrailField {
    type V = Seq<u32>;

    /// The readable state: the front buffer, row by row.
    closed spec fn view(&self) -> Seq<u32> {
        self.front@
    }
}

impl TrailField {
    /// Number of columns.
    pub closed spec fn spec_width(&self) -> int {
        self.width as int
    }

    /// Number of rows.
    pub closed spec fn spec_height(&self) -> int {
        self.height as int
    }

    /// The largest value a cell may hold.
    pub closed spec fn spec_ceiling(&self) -> u32 {
        self.ceiling
    }

    /// Both buffers cover the grid, and no readable cell exceeds the ceiling.
    pub closed spec fn wf(&self) -> bool {
        &&& valid_dims(self.width as int, self.height as int)
        &&& self.ceiling >= 1
        &&& self.front@.len() == self.width * self.height
        &&& self.back@.len() == self.width * self.height
        &&& forall|i: int| 0 <= i < self.front@.len() ==> #[trigger] self.front@[i] <= self.ceiling
    }

    /// What a well-formed field promises of its readable state.
    pub proof fn lemma_wf(&self)
        requires
            self.wf(),
        ensures
            valid_dims(self.spec_width(), self.spec_height()),
            self.spec_ceiling() >= 1,
            self@.len() == self.spec_width() * self.spec_height(),
            forall|i: int| 0 <= i < self@.len() ==> 0 <= #[trigger] self@[i] <= self.spec_ceiling(),
    {
    }

    /// An empty field: every cell zero.
    pub fn new(width: usize, height: usize, ceiling: u32) -> (made: Result<TrailField, SetupError>)
        ensures
            (width == 0 || height == 0) <==> made == Err::<TrailField, SetupError>(
                SetupError::EmptyGrid,
            ),
            (width > 0 && height > 0 && (width > MAX_DIM || height > MAX_DIM)) <==> made == Err::<
                TrailField,
                SetupError,
            >(SetupError::GridTooLarge),
            (valid_dims(width as int, height as int) && ceiling == 0) <==> made == Err::<
                TrailField,
                SetupError,
            >(SetupError::ZeroCeiling),
            (valid_dims(width as int, height as int) && ceiling > 0) <==> made.is_ok(),
            made matches Ok(field) ==> {
                &&& field.wf()
                &&& field.spec_width() == width
                &&& field.spec_height() == height
                &&& field.spec_ceiling() == ceiling
                &&& field@ == Seq::new((width * height) as nat, |i: int| 0u32)
            },
    {
        if width == 0 || height == 0 {
            return Err(SetupError::EmptyGrid);
        }
        if width > MAX_DIM || height > MAX_DIM {
            return Err(SetupError::GridTooLarge);
        }
        if ceiling == 0 {
            return Err(SetupError::ZeroCeiling);
        }
        proof {
            lemma_dims_bound(width as int, height as int);
        }
        let n: usize = width * height;
        let front = zeros(n);
        let back = zeros(n);
        let field = TrailField { width, height, ceiling, front, back };
        assert(field@ =~= Seq::new((width * height) as nat, |i: int| 0u32));
        Ok(field)
    }

    /// Number of columns.
    pub fn width(&self) -> (w: usize)
        ensures
            w == self.spec_width(),
    {
        self.width
    }

    /// Number of rows.
    pub fn height(&self) -> (h: usize)
        ensures
            h == self.spec_height(),
    {
        self.height
    }

    /// The largest value a cell may hold.
    pub fn ceiling(&self) -> (c: u32)
        ensures
            c == self.spec_ceiling(),
    {
        self.ceiling
    }

    /// Row-major index of a cell of the grid.
    pub fn index_of(&self, x: usize, y: usize) -> (i: usize)
        requires
            self.wf(),
            x < self.spec_width(),
            y < self.spec_height(),
        ensures
            i == cell_index(x as int, y as int, self.spec_width()),
            i < self@.len(),
    {
        proof {
            lemma_dims_bound(self.width as int, self.height as int);
            lemma_cell_index(x as int, y as int, self.width as int, self.height as int);
            assert(0 <= y * self.width <= y * self.width + x);
        }
        y * self.width + x
    }

    /// The value in column `x` of row `y`.
    pub fn get(&self, x: usize, y: usize) -> (v: u32)
        requires
            self.wf(),
            x < self.spec_width(),
            y < self.spec_height(),
        ensures
            v == self@[cell_index(x as int, y as int, self.spec_width())],
            v <= self.spec_ceiling(),
    {
        let i: usize = self.index_of(x, y);
        self.front[i]
    }

    /// Stores `value`, or the ceiling if `value` is above it, in column `x` of row `y`.
    pub fn set(&mut self, x: usize, y: usize, value: u32)
        requires
            old(self).wf(),
            x < old(self).spec_width(),
            y < old(self).spec_height(),
        ensures
            final(self).wf(),
            final(self).spec_width() == old(self).spec_width(),
            final(self).spec_height() == old(self).spec_height(),
            final(self).spec_ceiling() == old(self).spec_ceiling(),
            final(self)@ == old(self)@.update(
                cell_index(x as int, y as int, old(self).spec_width()),
                if value > old(self).spec_ceiling() {
                    old(self).spec_ceiling()
                } else {
                    value
                },
            ),
    {
        let i: usize = self.index_of(x, y);
        let stored: u32 = if value > self.ceiling {
            self.ceiling
        } else {
            value
        };
        self.front.set(i, stored);
    }

    /// A copy of the readable state, row by row.
    pub fn cells(&self) -> (out: Vec<u32>)
        ensures
            out@ == self@,
    {
        self.front.clone()
    }

    /// The total of all values in the grid.
    pub fn mass(&self) -> (total: u64)
        requires
            self.wf(),
        ensures
            total == spec_mass(self@),
    {
        let n: usize = self.front.len();
        let mut total: u64 = 0;
        let mut i: usize = 0;
        proof {
            lemma_dims_bound(self.width as int, self.height as int);
        }
        while i < n
            invariant
                i <= n,
                n == self.front@.len(),
                n <= 268435456,
                total == sum_range(cell_values(self.front@), 0, i as int),
                total <= 0xffff_ffff * i,
            decreases n - i,
        {
            total = total + self.front[i] as u64;
            i = i + 1;
        }
        total
    }

    /// The column and the row of cell `i`, each with its two neighbours on the ring.
    fn ring_neighbors(&self, i: usize) -> (at: ((usize, usize, usize), (usize, usize, usize)))
        requires
            self.wf(),
            i < self@.len(),
        ensures
            at.0.1 == i as int % self.spec_width(),
            at.1.1 == i as int / self.spec_width(),
            at.0.0 == wrap(i as int % self.spec_width() + (-1), self.spec_width()),
            at.0.2 == wrap(i as int % self.spec_width() + 1, self.spec_width()),
            at.1.0 == wrap(i as int / self.spec_width() + (-1), self.spec_height()),
            at.1.2 == wrap(i as int / self.spec_width() + 1, self.spec_height()),
            at.0.1 == wrap(i as int % self.spec_width() + 0, self.spec_width()),
            at.1.1 == wrap(i as int / self.spec_width() + 0, self.spec_height()),
            at.0.0 < self.spec_width(),
            at.0.1 < self.spec_width(),
            at.0.2 < self.spec_width(),
            at.1.0 < self.spec_height(),
            at.1.1 < self.spec_height(),
            at.1.2 < self.spec_height(),
    {
        let w: usize = self.width;
        let h: usize = self.height;
        proof {
            lemma_dims_bound(w as int, h as int);
            lemma_index_cell(i as int, w as int, h as int);
        }
        let x: usize = i % w;
        let y: usize = i / w;
        proof {
            lemma_wrap_step(x as int, w as int);
            lemma_wrap_step(y as int, h as int);
        }
        let xm: usize = if x == 0 {
            w - 1
        } else {
            x - 1
        };
        let xp: usize = if x + 1 == w {
            0
        } else {
            x + 1
        };
        let ym: usize = if y == 0 {
            h - 1
        } else {
            y - 1
        };
        let yp: usize = if y + 1 == h {
            0
        } else {
            y + 1
        };
        ((xm, x, xp), (ym, y, yp))
    }

    /// The sum of the nine values around cell `i`, going round the torus.
    fn neighbor_sum(&self, i: usize) -> (sum: u64)
        requires
            self.wf(),
            i < self@.len(),
        ensures
            sum == spec_neighbor_sum(self@, self.spec_width(), self.spec_height(), i as int),
            sum <= 9 * self.spec_ceiling(),
    {
        let ((xm, x, xp), (ym, y, yp)) = self.ring_neighbors(i);
        let top: u64 = self.get(xm, ym) as u64 + self.get(x, ym) as u64 + self.get(xp, ym) as u64;
        let mid: u64 = self.get(xm, y) as u64 + self.get(x, y) as u64 + self.get(xp, y) as u64;
        let low: u64 = self.get(xm, yp) as u64 + self.get(x, yp) as u64 + self.get(xp, yp) as u64;
        top + mid + low
    }

    /// One diffusion pass: every cell becomes the mean of its 3x3 neighbourhood
    /// on the torus, rounded down. The pass reads the front buffer only, and the
    /// buffers are swapped when all cells are written.
    pub fn diffuse(&mut self)
        requires
            old(self).wf(),
        ensures
            final(self).wf(),
            final(self).spec_width() == old(self).spec_width(),
            final(self).spec_height() == old(self).spec_height(),
            final(self).spec_ceiling() == old(self).spec_ceiling(),
            final(self)@ == spec_diffuse(old(self)@, old(self).spec_width(), old(self).spec_height()),
            forall|i: int|
                0 <= i < final(self)@.len() ==> #[trigger] final(self)@[i]
                    <= old(self).spec_ceiling(),
            spec_mass(final(self)@) <= spec_mass(old(self)@),
    {
        let n: usize = self.front.len();
        let mut i: usize = 0;
        while i < n
            invariant
                self.wf(),
                self.width == old(self).width,
                self.height == old(self).height,
                self.ceiling == old(self).ceiling,
                self.front@ == old(self).front@,
                n == self.front@.len(),
                i <= n,
                forall|j: int|
                    0 <= j < i ==> #[trigger] self.back@[j] == spec_blur_value(
                        self.front@,
                        self.width as int,
                        self.height as int,
                        j,
                    ),
                forall|j: int| 0 <= j < i ==> #[trigger] self.back@[j] <= self.ceiling,
            decreases n - i,
        {
            let sum: u64 = self.neighbor_sum(i);
            let mean: u32 = (sum / 9) as u32;
            assert(mean <= self.ceiling);
            self.back.set(i, mean);
            i = i + 1;
        }
        proof {
            assert(self.back@ =~= spec_diffuse(
                old(self)@,
                old(self).spec_width(),
                old(self).spec_height(),
            ));
        }
        core::mem::swap(&mut self.front, &mut self.back);
        proof {
            assert(self.front@.len() == self.width * self.height);
            lemma_diffuse_non_expansive(old(self)@, self.width as int, self.height as int);
        }
    }

    /// One decay pass: every cell is multiplied by `num / den` and rounded down;
    /// then the buffers are swapped.
    pub fn decay(&mut self, num: u32, den: u32)
        requires
            old(self).wf(),
            num < den,
        ensures
            final(self).wf(),
            final(self).spec_width() == old(self).spec_width(),
            final(self).spec_height() == old(self).spec_height(),
            final(self).spec_ceiling() == old(self).spec_ceiling(),
            final(self)@ == spec_decay(old(self)@, num as int, den as int),
            forall|i: int| 0 <= i < old(self)@.len() ==> #[trigger] final(self)@[i] <= old(self)@[i],
            forall|i: int|
                0 <= i < final(self)@.len() ==> #[trigger] final(self)@[i]
                    <= old(self).spec_ceiling(),
            spec_mass(final(self)@) <= spec_mass(old(self)@),
    {
        let n: usize = self.front.len();
        let mut i: usize = 0;
        while i < n
            invariant
                self.wf(),
                self.width == old(self).width,
                self.height == old(self).height,
                self.ceiling == old(self).ceiling,
                self.front@ == old(self).front@,
                n == self.front@.len(),
                i <= n,
                num < den,
                forall|j: int|
                    0 <= j < i ==> #[trigger] self.back@[j] == spec_decay_value(
                        self.front@[j] as int,
                        num as int,
                        den as int,
                    ),
                forall|j: int| 0 <= j < i ==> #[trigger] self.back@[j] <= self.front@[j],
            decreases n - i,
        {
            let v: u32 = self.front[i];
            proof {
                lemma_decay_value(v as int, num as int, den as int);
                assert(v * num <= 0xffff_ffff * 0xffff_ffff) by (nonlinear_arith)
                    requires
                        0 <= v <= 0xffff_ffff,
                        0 <= num <= 0xffff_ffff,
                ;
            }
            let faded: u64 = (v as u64 * num as u64) / (den as u64);
            self.back.set(i, faded as u32);
            i = i + 1;
        }
        proof {
            assert(self.back@ =~= spec_decay(old(self)@, num as int, den as int));
            lemma_decay_non_expansive(old(self)@, num as int, den as int);
        }
        core::mem::swap(&mut self.front, &mut self.back);
    }

    /// Adds `amount` to the cell in column `x` of row `y`, holding it at the ceiling.
    pub fn deposit(&mut self, x: usize, y: usize, amount: u32)
        requires
            old(self).wf(),
            x < old(self).spec_width(),
            y < old(self).spec_height(),
        ensures
            final(self).wf(),
            final(self).spec_width() == old(self).spec_width(),
            final(self).spec_height() == old(self).spec_height(),
            final(self).spec_ceiling() == old(self).spec_ceiling(),
            final(self)@ == old(self)@.update(
                cell_index(x as int, y as int, old(self).spec_width()),
                spec_deposit_value(
                    old(self)@[cell_index(x as int, y as int, old(self).spec_width())] as int,
                    amount as int,
                    1,
                    old(self).spec_ceiling() as int,
                ) as u32,
            ),
            forall|i: int|
                0 <= i < final(self)@.len() ==> #[trigger] final(self)@[i]
                    <= old(self).spec_ceiling(),
    {
        let i: usize = self.index_of(x, y);
        let v: u32 = self.front[i];
        let room: u32 = self.ceiling - v;
        let stored: u32 = if amount >= room {
            self.ceiling
        } else {
            v + amount
        };
        self.front.set(i, stored);
    }
}

/// A vector of `n` zeros.
fn zeros(n: usize) -> (v: Vec<u32>)
    ensures
        v@.len() == n,
        forall|i: int| 0 <= i < n ==> v@[i] == 0,
{
    let mut v: Vec<u32> = Vec::with_capacity(n);
    let mut i: usize = 0;
    while i < n
        invariant
            i <= n,
            v@.len() == i,
            forall|j: int| 0 <= j < i ==> v@[j] == 0,
        decreases n - i,
    {
        v.push(0);
        i = i + 1;
    }
    v
}

} // verus!
