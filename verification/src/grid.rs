//! The grid of cells and its row-major enumeration.
//!
//! A `width x height` grid is the set of coordinates `(x, y)` with
//! `x < width` and `y < height`.  Each cycle of the animation enumerates the
//! whole grid once, in row-major order, before shuffling it; this module
//! proves that the row-major enumeration lists every cell of the grid exactly
//! once.

use vstd::prelude::*;

verus! {

/// A grid coordinate `(x, y)`: column first, row second.
pub type Cell = (usize, usize);

/// The cells `(0, y), (1, y), ..., (w - 1, y)` of one grid row, in order.
pub open spec fn grid_row(w: nat, y: usize) -> Seq<Cell>
    decreases w,
{
    if w == 0 {
        Seq::empty()
    } else {
        grid_row((w - 1) as nat, y).push((((w - 1) as usize), y))
    }
}

/// All cells of a `w x h` grid in row-major order: row 0 first, then row 1,
/// and so on.
pub open spec fn grid_seq(w: nat, h: nat) -> Seq<Cell>
    decreases h,
{
    if h == 0 {
        Seq::empty()
    } else {
        grid_seq(w, (h - 1) as nat) + grid_row(w, (h - 1) as usize)
    }
}

pub proof fn lemma_grid_row_len(w: nat, y: usize)
    ensures
        grid_row(w, y).len() == w,
    decreases w,
{
    if w > 0 {
        lemma_grid_row_len((w - 1) as nat, y);
    }
}

pub proof fn lemma_grid_seq_len(w: nat, h: nat)
    ensures
        grid_seq(w, h).len() == w * h,
    decreases h,
{
    if h > 0 {
        lemma_grid_seq_len(w, (h - 1) as nat);
        lemma_grid_row_len(w, (h - 1) as usize);
        assert(grid_seq(w, h) == grid_seq(w, (h - 1) as nat) + grid_row(w, (h - 1) as usize));
        assert(grid_seq(w, h).len() == w * ((h - 1) as nat) + w);
        assert(w * ((h - 1) as nat) + w == w * h) by (nonlinear_arith)
            requires
                h > 0,
        ;
    } else {
        assert(w * h == 0) by (nonlinear_arith)
            requires
                h == 0,
        ;
    }
}

/// A row holds exactly the cells whose row index is `y` and whose column is
/// under `w`.
pub proof fn lemma_grid_row_contains(w: nat, y: usize, c: Cell)
    requires
        w <= usize::MAX,
    ensures
        grid_row(w, y).contains(c) <==> (c.0 < w && c.1 == y),
    decreases w,
{
    broadcast use vstd::seq_lib::lemma_seq_contains_after_push;

    if w > 0 {
        lemma_grid_row_contains((w - 1) as nat, y, c);
    }
}

/// The grid enumeration holds exactly the cells of the grid.
pub proof fn lemma_grid_seq_contains(w: nat, h: nat, c: Cell)
    requires
        w <= usize::MAX,
        h <= usize::MAX,
    ensures
        grid_seq(w, h).contains(c) <==> (c.0 < w && c.1 < h),
    decreases h,
{
    if h > 0 {
        lemma_grid_seq_contains(w, (h - 1) as nat, c);
        lemma_grid_row_contains(w, (h - 1) as usize, c);
        let prefix = grid_seq(w, (h - 1) as nat);
        let row = grid_row(w, (h - 1) as usize);
        assert(grid_seq(w, h).contains(c) <==> (prefix.contains(c) || row.contains(c))) by {
            if prefix.contains(c) {
                let i = choose|i: int| 0 <= i < prefix.len() && prefix[i] == c;
                assert(grid_seq(w, h)[i] == c);
            }
            if row.contains(c) {
                let i = choose|i: int| 0 <= i < row.len() && row[i] == c;
                assert(grid_seq(w, h)[prefix.len() + i] == c);
            }
            if grid_seq(w, h).contains(c) {
                let i = choose|i: int| 0 <= i < grid_seq(w, h).len() && grid_seq(w, h)[i] == c;
                if i < prefix.len() {
                    assert(prefix[i] == c);
                } else {
                    assert(row[i - prefix.len()] == c);
                }
            }
        }
    }
}

pub proof fn lemma_grid_row_no_duplicates(w: nat, y: usize)
    requires
        w <= usize::MAX,
    ensures
        grid_row(w, y).no_duplicates(),
    decreases w,
{
    if w > 0 {
        lemma_grid_row_no_duplicates((w - 1) as nat, y);
        lemma_grid_row_len(w, y);
        assert forall|i: int, j: int|
            0 <= i < grid_row(w, y).len() && 0 <= j < grid_row(w, y).len() && i != j implies
            grid_row(w, y)[i] != grid_row(w, y)[j] by {
            let prev = grid_row((w - 1) as nat, y);
            lemma_grid_row_len((w - 1) as nat, y);
            if i < prev.len() && j < prev.len() {
                assert(prev[i] != prev[j]);
            } else if i < prev.len() {
                assert(prev.contains(prev[i]));
                lemma_grid_row_contains((w - 1) as nat, y, prev[i]);
            } else {
                assert(prev.contains(prev[j]));
                lemma_grid_row_contains((w - 1) as nat, y, prev[j]);
            }
        }
    }
}

/// No cell appears twice in the row-major enumeration.
pub proof fn lemma_grid_seq_no_duplicates(w: nat, h: nat)
    requires
        w <= usize::MAX,
        h <= usize::MAX,
    ensures
        grid_seq(w, h).no_duplicates(),
    decreases h,
{
    if h > 0 {
        lemma_grid_seq_no_duplicates(w, (h - 1) as nat);
        lemma_grid_row_no_duplicates(w, (h - 1) as usize);
        let prefix = grid_seq(w, (h - 1) as nat);
        let row = grid_row(w, (h - 1) as usize);
        assert forall|i: int, j: int|
            0 <= i < grid_seq(w, h).len() && 0 <= j < grid_seq(w, h).len() && i != j implies
            grid_seq(w, h)[i] != grid_seq(w, h)[j] by {
            if i < prefix.len() && j < prefix.len() {
                assert(prefix[i] != prefix[j]);
            } else if i >= prefix.len() && j >= prefix.len() {
                assert(row[i - prefix.len()] != row[j - prefix.len()]);
            } else {
                let (pi, ri) = if i < prefix.len() { (i, j) } else { (j, i) };
                assert(prefix.contains(prefix[pi]));
                assert(row.contains(row[ri - prefix.len()]));
                lemma_grid_seq_contains(w, (h - 1) as nat, prefix[pi]);
                lemma_grid_row_contains(w, (h - 1) as usize, row[ri - prefix.len()]);
            }
        }
    }
}

/// The row-major enumeration of a `w x h` grid lists each cell of the grid
/// exactly once, and no other cell at all.
pub proof fn lemma_grid_seq_counts(w: nat, h: nat)
    requires
        w <= usize::MAX,
        h <= usize::MAX,
    ensures
        grid_seq(w, h).len() == w * h,
        forall|c: Cell|
            #[trigger] grid_seq(w, h).to_multiset().count(c) == if c.0 < w && c.1 < h {
                1nat
            } else {
                0nat
            },
{
    broadcast use vstd::seq_lib::group_to_multiset_ensures;

    lemma_grid_seq_len(w, h);
    lemma_grid_seq_no_duplicates(w, h);
    grid_seq(w, h).lemma_multiset_has_no_duplicates();
    assert forall|c: Cell|
        #[trigger] grid_seq(w, h).to_multiset().count(c) == if c.0 < w && c.1 < h {
            1nat
        } else {
            0nat
        } by {
        lemma_grid_seq_contains(w, h, c);
        if c.0 < w && c.1 < h {
            assert(grid_seq(w, h).contains(c));
            assert(grid_seq(w, h).to_multiset().count(c) > 0);
            assert(grid_seq(w, h).to_multiset().contains(c));
        } else {
            assert(!grid_seq(w, h).contains(c));
        }
    }
}

/// Builds the full cell list of a `width x height` grid in row-major order:
/// `(0, 0), (1, 0), ..., (width - 1, 0), (0, 1), ...`.
pub fn row_major_cells(width: usize, height: usize) -> (cells: Vec<Cell>)
    ensures
        cells@ == grid_seq(width as nat, height as nat),
{
    let mut cells: Vec<Cell> = Vec::new();
    let mut y: usize = 0;
    while y < height
        invariant
            y <= height,
            cells@ == grid_seq(width as nat, y as nat),
        decreases height - y,
    {
        let mut x: usize = 0;
        while x < width
            invariant
                x <= width,
                y < height,
                cells@ == grid_seq(width as nat, y as nat) + grid_row(x as nat, y),
            decreases width - x,
        {
            cells.push((x, y));
            x = x + 1;
        }
        assert(cells@ == grid_seq(width as nat, (y + 1) as nat));
        y = y + 1;
    }
    cells
}

} // verus!
