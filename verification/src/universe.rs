//! The grid: double-buffered generations over a toroidal topology, a
//! partitioned update pass, and a color-buffer renderer.

use vstd::prelude::*;
use vstd::pervasive::VecAdditionalExecFns;
use vstd::arithmetic::div_mod::lemma_fundamental_div_mod;
use vstd::arithmetic::div_mod::lemma_mod_division_less_than_divisor;
use vstd::arithmetic::div_mod::lemma_multiply_divide_lt;
use vstd::arithmetic::div_mod::lemma_div_pos_is_pos;
use vstd::arithmetic::mul::lemma_mul_inequality;
use crate::cell::{Cell, color_of, decayed, next_cell};
use crate::rng::{rng_from_seed, rng_ratio};

verus! {

/// One step left on the torus: the predecessor of `v` modulo `m`,
/// for `0 <= v < m`.
pub open spec fn wrap_dec(v: int, m: int) -> int {
    if v == 0 {
        m - 1
    } else {
        v - 1
    }
}

/// One step right on the torus: the successor of `v` modulo `m`,
/// for `0 <= v < m`.
pub open spec fn wrap_inc(v: int, m: int) -> int {
    if v + 1 == m {
        0
    } else {
        v + 1
    }
}

/// 1 if the cell at column `x`, row `y` of a row-major grid of width `w`
/// is alive, else 0.
pub open spec fn alive_at(cells: Seq<Cell>, w: int, x: int, y: int) -> int {
    if cells[x + y * w].alive {
        1int
    } else {
        0int
    }
}

/// The number of live cells among the 8 toroidally wrapped neighbors of
/// `(x, y)`. On a grid thinner than 3 in either dimension the wrapped
/// positions coincide and a live cell is counted once per coincidence,
/// exactly as modular index arithmetic would count it.
pub open spec fn neighbor_count(cells: Seq<Cell>, w: int, h: int, x: int, y: int) -> int {
    let xl = wrap_dec(x, w);
    let xr = wrap_inc(x, w);
    let yl = wrap_dec(y, h);
    let yr = wrap_inc(y, h);
    alive_at(cells, w, xl, yl) + alive_at(cells, w, x, yl) + alive_at(cells, w, xr, yl)
        + alive_at(cells, w, xl, y) + alive_at(cells, w, xr, y)
        + alive_at(cells, w, xl, yr) + alive_at(cells, w, x, yr) + alive_at(cells, w, xr, yr)
}

/// The next generation of a whole row-major grid: every cell transitions by
/// the rule applied to its own state and its wrapped neighbor count, all
/// read from the same snapshot.
pub open spec fn step(cells: Seq<Cell>, w: int, h: int) -> Seq<Cell> {
    Seq::new(
        cells.len(),
        |i: int| next_cell(cells[i], neighbor_count(cells, w, h, i % w, i / w)),
    )
}

/// A row-major index built from in-range coordinates stays within the grid.
proof fn lemma_index_bound(w: int, h: int, x: int, y: int)
    requires
        1 <= w,
        1 <= h,
        0 <= x < w,
        0 <= y < h,
    ensures
        0 <= y * w,
        x + y * w < w * h,
{
    assert(0 <= y * w && x + y * w < w * h) by (nonlinear_arith)
        requires
            1 <= w,
            1 <= h,
            0 <= x < w,
            0 <= y < h,
    ;
}

/// A flat index below `w * h` splits into a column below `w` and a row
/// below `h`.
proof fn lemma_flat_coords(i: int, w: int, h: int)
    requires
        1 <= w,
        1 <= h,
        0 <= i < w * h,
    ensures
        0 <= i % w < w,
        0 <= i / w < h,
{
    lemma_mod_division_less_than_divisor(i, w);
    lemma_div_pos_is_pos(i, w);
    lemma_multiply_divide_lt(i, w, h);
}

/// Counts the live cells among the 8 wrapped neighbors of `(x, y)`.
#[verifier::rlimit(30)]
fn count_neighbors(cells: &Vec<Cell>, width: usize, height: usize, x: usize, y: usize) -> (n: u8)
    requires
        1 <= width,
        1 <= height,
        cells@.len() == width * height,
        width * height <= usize::MAX,
        x < width,
        y < height,
    ensures
        n as int == neighbor_count(cells@, width as int, height as int, x as int, y as int),
        n <= 8,
{
    let xl = if x == 0 {
        width - 1
    } else {
        x - 1
    };
    let xr = if x + 1 == width {
        0
    } else {
        x + 1
    };
    let yl = if y == 0 {
        height - 1
    } else {
        y - 1
    };
    let yr = if y + 1 == height {
        0
    } else {
        y + 1
    };
    proof {
        let w = width as int;
        let h = height as int;
        lemma_index_bound(w, h, xl as int, yl as int);
        lemma_index_bound(w, h, x as int, yl as int);
        lemma_index_bound(w, h, xr as int, yl as int);
        lemma_index_bound(w, h, xl as int, y as int);
        lemma_index_bound(w, h, xr as int, y as int);
        lemma_index_bound(w, h, xl as int, yr as int);
        lemma_index_bound(w, h, x as int, yr as int);
        lemma_index_bound(w, h, xr as int, yr as int);
    }
    let mut n: u8 = 0;
    if cells[xl + yl * width].alive {
        n = n + 1;
    }
    if cells[x + yl * width].alive {
        n = n + 1;
    }
    if cells[xr + yl * width].alive {
        n = n + 1;
    }
    if cells[xl + y * width].alive {
        n = n + 1;
    }
    if cells[xr + y * width].alive {
        n = n + 1;
    }
    if cells[xl + yr * width].alive {
        n = n + 1;
    }
    if cells[x + yr * width].alive {
        n = n + 1;
    }
    if cells[xr + yr * width].alive {
        n = n + 1;
    }
    n
}

/// The next state of the cell at flat index `i`, read entirely from the
/// current generation.
fn step_cell(cells: &Vec<Cell>, width: usize, height: usize, i: usize) -> (c: Cell)
    requires
        1 <= width,
        1 <= height,
        cells@.len() == width * height,
        width * height <= usize::MAX,
        i < cells@.len(),
    ensures
        c == step(cells@, width as int, height as int)[i as int],
{
    proof {
        lemma_flat_coords(i as int, width as int, height as int);
    }
    let x = i % width;
    let y = i / width;
    let count = count_neighbors(cells, width, height, x, y);
    cells[i].update_neibs(count as usize)
}

/// The grid, its scratch twin for the generation being computed, and the
/// partitioning parameters for the update pass.
pub struct Universe {
    width: usize,
    height: usize,
    /// The authoritative current generation, row-major.
    cells: Vec<Cell>,
    /// The write target of the update pass; exchanged with `cells` at the
    /// end of each step, never observed by callers in between.
    new_cells: Vec<Cell>,
    /// How many contiguous partitions the update pass works in.
    workers: usize,
    /// Cells per partition: `cell_count / workers`; the last partition also
    /// takes the remainder.
    chunk_size: usize,
}

impl Universe {
    /// Internal consistency: positive dimensions, both buffers exactly one
    /// cell per site, at least one worker, and the chunk size derived from
    /// the two.
    pub closed spec fn wf(self) -> bool {
        &&& self.width >= 1
        &&& self.height >= 1
        &&& self.cells@.len() == self.width * self.height
        &&& self.new_cells@.len() == self.width * self.height
        &&& self.workers >= 1
        &&& self.chunk_size == self.cells@.len() as int / self.workers as int
    }

    /// The current generation, row-major.
    pub closed spec fn grid(self) -> Seq<Cell> {
        self.cells@
    }

    pub closed spec fn spec_width(self) -> usize {
        self.width
    }

    pub closed spec fn spec_height(self) -> usize {
        self.height
    }

    pub closed spec fn spec_workers(self) -> usize {
        self.workers
    }

    /// Builds a universe from an explicit generation, dead scratch cells,
    /// and the given partition count.
    pub fn from_cells(width: usize, height: usize, cells: Vec<Cell>, workers: usize) -> (u:
        Universe)
        requires
            width >= 1,
            height >= 1,
            workers >= 1,
            cells@.len() == width * height,
        ensures
            u.wf(),
            u.spec_width() == width,
            u.spec_height() == height,
            u.spec_workers() == workers,
            u.grid() == cells@,
    {
        let n = cells.len();
        let mut scratch: Vec<Cell> = Vec::new();
        let mut i: usize = 0;
        while i < n
            invariant
                i <= n,
                scratch@.len() == i,
            decreases n - i,
        {
            scratch.push(Cell::new(false));
            i = i + 1;
        }
        Universe {
            width,
            height,
            cells,
            new_cells: scratch,
            workers,
            chunk_size: n / workers,
        }
    }

    /// Builds a universe whose cells are drawn independently alive with
    /// probability `alive_numer / alive_denom` from a generator seeded with
    /// `seed`; every cell starts with no heat, and the scratch buffer dead.
    pub fn new(
        width: usize,
        height: usize,
        alive_numer: u32,
        alive_denom: u32,
        workers: usize,
        seed: u64,
    ) -> (u: Universe)
        requires
            width >= 1,
            height >= 1,
            workers >= 1,
            width * height <= usize::MAX,
            alive_denom >= 1,
            alive_numer <= alive_denom,
        ensures
            u.wf(),
            u.spec_width() == width,
            u.spec_height() == height,
            u.spec_workers() == workers,
            forall|i: int| 0 <= i < u.grid().len() ==> u.grid()[i].heat == 0,
            alive_numer == 0 ==> forall|i: int| 0 <= i < u.grid().len() ==> !u.grid()[i].alive,
            alive_numer == alive_denom ==> forall|i: int|
                0 <= i < u.grid().len() ==> u.grid()[i].alive,
    {
        let n = width * height;
        let mut rng = rng_from_seed(seed);
        let mut cells: Vec<Cell> = Vec::new();
        let mut i: usize = 0;
        while i < n
            invariant
                i <= n,
                cells@.len() == i,
                alive_denom >= 1,
                alive_numer <= alive_denom,
                forall|j: int| 0 <= j < i ==> cells@[j].heat == 0,
                alive_numer == 0 ==> forall|j: int| 0 <= j < i ==> !cells@[j].alive,
                alive_numer == alive_denom ==> forall|j: int| 0 <= j < i ==> cells@[j].alive,
            decreases n - i,
        {
            let alive = rng_ratio(&mut rng, alive_numer, alive_denom);
            cells.push(Cell::new(alive));
            i = i + 1;
        }
        Universe::from_cells(width, height, cells, workers)
    }

    /// Advances one generation: the whole next generation is computed from
    /// an unmodified snapshot of the current one into the scratch buffer,
    /// which then becomes current by an ownership exchange. The result does
    /// not depend on the worker count.
    pub fn update(&mut self)
        requires
            old(self).wf(),
        ensures
            final(self).wf(),
            final(self).spec_width() == old(self).spec_width(),
            final(self).spec_height() == old(self).spec_height(),
            final(self).spec_workers() == old(self).spec_workers(),
            final(self).grid() == step(
                old(self).grid(),
                old(self).spec_width() as int,
                old(self).spec_height() as int,
            ),
    {
        if self.workers == 1 {
            self.update_sync();
        } else {
            self.update_parallel();
        }
    }

    /// The single-partition pass: one sequential sweep in row-major order.
    fn update_sync(&mut self)
        requires
            old(self).wf(),
        ensures
            final(self).wf(),
            final(self).spec_width() == old(self).spec_width(),
            final(self).spec_height() == old(self).spec_height(),
            final(self).spec_workers() == old(self).spec_workers(),
            final(self).grid() == step(
                old(self).grid(),
                old(self).spec_width() as int,
                old(self).spec_height() as int,
            ),
    {
        let ghost target = step(self.cells@, self.width as int, self.height as int);
        let n = self.cells.len();
        let mut i: usize = 0;
        while i < n
            invariant
                i <= n,
                self.width == old(self).width,
                self.height == old(self).height,
                self.workers == old(self).workers,
                self.chunk_size == old(self).chunk_size,
                self.cells@ == old(self).cells@,
                self.new_cells@.len() == old(self).new_cells@.len(),
                old(self).wf(),
                n == self.cells@.len(),
                target == step(self.cells@, self.width as int, self.height as int),
                forall|j: int| 0 <= j < i ==> self.new_cells@[j] == target[j],
            decreases n - i,
        {
            let c = step_cell(&self.cells, self.width, self.height, i);
            self.new_cells.set(i, c);
            i = i + 1;
        }
        proof {
            assert(self.new_cells@ =~= target);
        }
        core::mem::swap(&mut self.cells, &mut self.new_cells);
    }

    /// The multi-partition pass: the flat index range is cut into
    /// `workers` contiguous chunks of `chunk_size` cells, the last chunk
    /// also taking the remainder, and every chunk is computed from the same
    /// snapshot into its own disjoint part of the scratch buffer.
    fn update_parallel(&mut self)
        requires
            old(self).wf(),
        ensures
            final(self).wf(),
            final(self).spec_width() == old(self).spec_width(),
            final(self).spec_height() == old(self).spec_height(),
            final(self).spec_workers() == old(self).spec_workers(),
            final(self).grid() == step(
                old(self).grid(),
                old(self).spec_width() as int,
                old(self).spec_height() as int,
            ),
    {
        let ghost target = step(self.cells@, self.width as int, self.height as int);
        let n = self.cells.len();
        proof {
            lemma_fundamental_div_mod(n as int, self.workers as int);
            lemma_mod_division_less_than_divisor(n as int, self.workers as int);
        }
        let mut c: usize = 0;
        let mut done: usize = 0;
        while c < self.workers
            invariant
                self.width == old(self).width,
                self.height == old(self).height,
                self.workers == old(self).workers,
                self.chunk_size == old(self).chunk_size,
                self.cells@ == old(self).cells@,
                self.new_cells@.len() == old(self).new_cells@.len(),
                old(self).wf(),
                n == self.cells@.len(),
                target == step(self.cells@, self.width as int, self.height as int),
                c <= self.workers,
                done <= n,
                c < self.workers ==> done == c * self.chunk_size,
                c == self.workers ==> done == n,
                self.workers as int * self.chunk_size as int <= n as int,
                forall|j: int| 0 <= j < done ==> self.new_cells@[j] == target[j],
            decreases self.workers - c,
        {
            let end: usize = if c + 1 == self.workers {
                n
            } else {
                proof {
                    lemma_mul_inequality(
                        c as int + 1,
                        self.workers as int,
                        self.chunk_size as int,
                    );
                    assert((c as int + 1) * self.chunk_size as int == c as int
                        * self.chunk_size as int + self.chunk_size as int) by (nonlinear_arith);
                }
                done + self.chunk_size
            };
            let mut i: usize = done;
            while i < end
                invariant
                    done <= i <= end,
                    end <= n,
                    self.width == old(self).width,
                    self.height == old(self).height,
                    self.workers == old(self).workers,
                    self.chunk_size == old(self).chunk_size,
                    self.cells@ == old(self).cells@,
                    self.new_cells@.len() == old(self).new_cells@.len(),
                    old(self).wf(),
                    n == self.cells@.len(),
                    target == step(self.cells@, self.width as int, self.height as int),
                    forall|j: int| 0 <= j < i ==> self.new_cells@[j] == target[j],
                decreases end - i,
            {
                let cell = step_cell(&self.cells, self.width, self.height, i);
                self.new_cells.set(i, cell);
                i = i + 1;
            }
            done = end;
            c = c + 1;
        }
        proof {
            assert(self.new_cells@ =~= target);
        }
        core::mem::swap(&mut self.cells, &mut self.new_cells);
    }

    /// The next generation restricted to the flat index range
    /// `[start, start + len)`: the unit of work of one worker. A pure read
    /// of the current generation.
    pub fn compute_chunk(&self, start: usize, len: usize) -> (out: Vec<Cell>)
        requires
            self.wf(),
            start + len <= self.grid().len(),
        ensures
            out@ == step(
                self.grid(),
                self.spec_width() as int,
                self.spec_height() as int,
            ).subrange(start as int, start as int + len as int),
    {
        let ghost target = step(self.cells@, self.width as int, self.height as int);
        let n = self.cells.len();
        let mut out: Vec<Cell> = Vec::new();
        let mut k: usize = 0;
        while k < len
            invariant
                k <= len,
                self.wf(),
                n == self.cells@.len(),
                start + len <= self.cells@.len(),
                target == step(self.cells@, self.width as int, self.height as int),
                out@.len() == k,
                forall|j: int| 0 <= j < k ==> out@[j] == target[start + j],
            decreases len - k,
        {
            let cell = step_cell(&self.cells, self.width, self.height, start + k);
            out.push(cell);
            k = k + 1;
        }
        proof {
            assert(out@ =~= target.subrange(start as int, start as int + len as int));
        }
        out
    }

    /// The flat index range `(start, len)` that worker `c` is responsible
    /// for: contiguous chunks of `cell_count / workers` cells each, with
    /// the division remainder going to the last worker, so that the chunks
    /// tile the whole grid.
    pub fn chunk_bounds(&self, c: usize) -> (r: (usize, usize))
        requires
            self.wf(),
            c < self.spec_workers(),
        ensures
            r.0 == c as int * (self.grid().len() as int / self.spec_workers() as int),
            r.0 + r.1 <= self.grid().len(),
            c as int + 1 < self.spec_workers() as int ==> r.1 == self.grid().len() as int
                / self.spec_workers() as int,
            c as int + 1 == self.spec_workers() as int ==> r.0 + r.1 == self.grid().len(),
    {
        let n = self.cells.len();
        proof {
            lemma_fundamental_div_mod(n as int, self.workers as int);
            lemma_mod_division_less_than_divisor(n as int, self.workers as int);
            lemma_mul_inequality(c as int, self.workers as int, self.chunk_size as int);
            lemma_mul_inequality(c as int + 1, self.workers as int, self.chunk_size as int);
            assert((c as int + 1) * self.chunk_size as int == c as int * self.chunk_size as int
                + self.chunk_size as int) by (nonlinear_arith);
        }
        let start = c * self.chunk_size;
        let len = if c + 1 == self.workers {
            n - start
        } else {
            self.chunk_size
        };
        (start, len)
    }

    /// Installs a generation computed elsewhere — for instance assembled in
    /// order from `compute_chunk` results produced by worker threads — as
    /// the current one; the previous generation becomes the scratch buffer.
    pub fn install_generation(&mut self, next: Vec<Cell>)
        requires
            old(self).wf(),
            next@.len() == old(self).grid().len(),
        ensures
            final(self).wf(),
            final(self).spec_width() == old(self).spec_width(),
            final(self).spec_height() == old(self).spec_height(),
            final(self).spec_workers() == old(self).spec_workers(),
            final(self).grid() == next@,
    {
        self.new_cells = next;
        core::mem::swap(&mut self.cells, &mut self.new_cells);
    }

    /// Writes the RGBA color of every cell of the current generation, in
    /// row-major order, into a caller-owned byte buffer of exactly 4 bytes
    /// per cell. A pure read: the grid is not touched.
    pub fn render(&self, frame: &mut Vec<u8>)
        requires
            self.wf(),
            old(frame)@.len() == 4 * self.grid().len(),
        ensures
            final(frame)@.len() == old(frame)@.len(),
            forall|i: int|
                0 <= i < self.grid().len() ==> final(frame)@.subrange(4 * i, 4 * i + 4)
                    == color_of(self.grid()[i]),
    {
        let n = self.cells.len();
        let flen = frame.len();
        let mut i: usize = 0;
        while i < n
            invariant
                i <= n,
                self.wf(),
                n == self.cells@.len(),
                flen == 4 * n,
                frame@.len() == old(frame)@.len(),
                old(frame)@.len() == 4 * n,
                forall|j: int|
                    0 <= j < i ==> frame@.subrange(4 * j, 4 * j + 4) == color_of(self.cells@[j]),
            decreases n - i,
        {
            let col = self.cells[i].get_color();
            frame.set(4 * i, col[0]);
            frame.set(4 * i + 1, col[1]);
            frame.set(4 * i + 2, col[2]);
            frame.set(4 * i + 3, col[3]);
            proof {
                assert forall|j: int| 0 <= j < i + 1 implies frame@.subrange(4 * j, 4 * j + 4)
                    == color_of(self.cells@[j]) by {
                    assert(frame@.subrange(4 * j, 4 * j + 4) =~= color_of(self.cells@[j]));
                }
            }
            i = i + 1;
        }
    }

    /// Grid width in cells.
    pub fn width(&self) -> (w: usize)
        ensures
            w == self.spec_width(),
    {
        self.width
    }

    /// Grid height in cells.
    pub fn height(&self) -> (h: usize)
        ensures
            h == self.spec_height(),
    {
        self.height
    }

    /// Number of partitions the update pass works in.
    pub fn worker_count(&self) -> (w: usize)
        ensures
            w == self.spec_workers(),
    {
        self.workers
    }

    /// Total number of cells.
    pub fn cell_count(&self) -> (n: usize)
        ensures
            n == self.grid().len(),
    {
        self.cells.len()
    }

    /// The current state of the cell at column `x`, row `y`.
    pub fn cell_at(&self, x: usize, y: usize) -> (c: Cell)
        requires
            self.wf(),
            x < self.spec_width(),
            y < self.spec_height(),
        ensures
            c == self.grid()[x + y * self.spec_width() as int],
    {
        // The length read pins the cell count below usize::MAX, so the
        // index arithmetic cannot overflow.
        let _n = self.cells.len();
        proof {
            lemma_index_bound(
                self.width as int,
                self.height as int,
                x as int,
                y as int,
            );
        }
        self.cells[x + y * self.width]
    }
}

/// Toroidal wraparound: a live cell at `(0, 0)` is counted as a neighbor of
/// every opposite corner — `(w-1, h-1)`, `(w-1, 0)` and `(0, h-1)` — because
/// edges connect to the opposite side.
pub proof fn lemma_toroidal_wraparound(cells: Seq<Cell>, w: int, h: int)
    requires
        1 <= w,
        1 <= h,
        cells.len() == w * h,
        cells[0].alive,
    ensures
        neighbor_count(cells, w, h, w - 1, h - 1) >= 1,
        neighbor_count(cells, w, h, w - 1, 0) >= 1,
        neighbor_count(cells, w, h, 0, h - 1) >= 1,
{
}

/// Heat invariant of one generation: a cell alive after the step carries
/// heat 255; a dead one carries its previous heat decayed by one truncated
/// 99/100 scaling.
pub proof fn lemma_heat_after_step(cells: Seq<Cell>, w: int, h: int, i: int)
    requires
        1 <= w,
        1 <= h,
        cells.len() == w * h,
        0 <= i < cells.len(),
    ensures
        step(cells, w, h)[i].alive ==> step(cells, w, h)[i].heat == 255,
        !step(cells, w, h)[i].alive ==> step(cells, w, h)[i].heat == decayed(cells[i].heat),
{
}

/// Every cell of the next generation is the rule applied to the old cell
/// and its wrapped neighbor count, read from the pre-update snapshot: the
/// buffer exchange introduces no aliasing or corruption.
pub proof fn lemma_step_pointwise(cells: Seq<Cell>, w: int, h: int, i: int)
    requires
        0 <= i < cells.len(),
    ensures
        step(cells, w, h)[i] == next_cell(cells[i], neighbor_count(cells, w, h, i % w, i / w)),
{
}

/// The next generation restricted to the flat index range `[start, end)`,
/// still read from the full snapshot: what one worker computes.
pub open spec fn step_range(cells: Seq<Cell>, w: int, h: int, start: int, end: int) -> Seq<Cell> {
    Seq::new(
        (end - start) as nat,
        |k: int|
            next_cell(
                cells[start + k],
                neighbor_count(cells, w, h, (start + k) % w, (start + k) / w),
            ),
    )
}

/// Partitioning does not change the outcome: cutting the index range at any
/// point and computing the two chunks from the same snapshot yields exactly
/// the one-pass next generation. Applied repeatedly, any contiguous
/// partition of the grid — hence any worker count — produces the same
/// successor grid.
pub proof fn lemma_partition_independent(cells: Seq<Cell>, w: int, h: int, mid: int)
    requires
        0 <= mid <= cells.len(),
    ensures
        step_range(cells, w, h, 0, mid) + step_range(cells, w, h, mid, cells.len() as int)
            == step(cells, w, h),
{
    assert(step_range(cells, w, h, 0, mid) + step_range(cells, w, h, mid, cells.len() as int)
        =~= step(cells, w, h));
}

} // verus!
