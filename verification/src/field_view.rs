//! The playfield as a mathematical value, and what holds of locking blocks on
//! it and of removing its completed rows.

use vstd::prelude::*;
use crate::game_field::Cell;
use crate::pieces::Color;

verus! {

/// The playfield as a mathematical value: `grid[row][column]` is the color of
/// the block locked there, if any.
#[verifier::ext_equal]
pub struct FieldView {
    /// Number of columns.
    pub width: nat,
    /// Number of visible rows; the grid may hold more above them.
    pub height: nat,
    /// The stored rows, bottom row first.
    pub grid: Seq<Seq<Option<Color>>>,
}

impl FieldView {
    /// A row of `width` empty cells.
    pub open spec fn empty_row(width: nat) -> Seq<Option<Color>> {
        Seq::new(width, |c: int| None)
    }

    /// A field of `rows` stored rows with no locked cell.
    pub open spec fn empty(width: nat, height: nat, rows: nat) -> FieldView {
        FieldView { width, height, grid: Seq::new(rows, |r: int| Self::empty_row(width)) }
    }

    /// Every stored row has `width` cells, and the visible rows are stored.
    pub open spec fn wf(self) -> bool {
        &&& self.height <= self.grid.len()
        &&& forall|r: int| 0 <= r < self.grid.len() ==> (#[trigger] self.grid[r]).len() == self.width
    }

    /// Whether the grid stores a cell at `c`, given as (column, row).
    pub open spec fn stored(self, c: (int, int)) -> bool {
        0 <= c.0 < self.width && 0 <= c.1 < self.grid.len()
    }

    /// The color locked at `c`, if the grid stores `c` and a block is locked
    /// there.
    pub open spec fn at(self, c: (int, int)) -> Option<Color> {
        if self.stored(c) {
            self.grid[c.1][c.0]
        } else {
            None
        }
    }

    /// Whether a piece cell at `c` would collide: `c` lies in a wall (left of
    /// column 0 or right of the last column), below the floor, or on a locked
    /// block. Cells above the stored rows are free.
    pub open spec fn occupied(self, c: (int, int)) -> bool {
        c.0 < 0 || c.0 >= self.width || c.1 < 0 || self.at(c) is Some
    }

    /// Whether a piece may be placed on `cells`: none of them collides.
    pub open spec fn valid(self, cells: Seq<(int, int)>) -> bool {
        forall|i: int| 0 <= i < cells.len() ==> !self.occupied(#[trigger] cells[i])
    }

    /// Whether blocks can be locked on `cells`: each is a stored, empty cell.
    pub open spec fn can_lock(self, cells: Seq<(int, int)>) -> bool {
        forall|i: int|
            0 <= i < cells.len() ==> self.stored(#[trigger] cells[i]) && self.at(cells[i]) is None
    }

    /// The field after blocks of `color` were locked on `cells`: those cells
    /// hold `color`, and every other cell is as before.
    pub open spec fn lock(self, cells: Seq<(int, int)>, color: Color) -> FieldView {
        FieldView {
            grid: Seq::new(
                self.grid.len(),
                |r: int|
                    Seq::new(
                        self.grid[r].len(),
                        |c: int|
                            if cells.contains((c, r)) {
                                Some(color)
                            } else {
                                self.grid[r][c]
                            },
                    ),
            ),
            ..self
        }
    }

    /// Number of locked cells in a row.
    pub open spec fn row_count(row: Seq<Option<Color>>) -> nat
        decreases row.len(),
    {
        if row.len() == 0 {
            0
        } else {
            Self::row_count(row.drop_last()) + if row.last() is Some {
                1nat
            } else {
                0nat
            }
        }
    }

    /// Number of locked cells in a grid.
    pub open spec fn grid_count(grid: Seq<Seq<Option<Color>>>) -> nat
        decreases grid.len(),
    {
        if grid.len() == 0 {
            0
        } else {
            Self::grid_count(grid.drop_last()) + Self::row_count(grid.last())
        }
    }

    /// Number of locked cells.
    pub open spec fn locked_count(self) -> nat {
        Self::grid_count(self.grid)
    }

    /// Whether cell `a` comes before cell `b` when the grid is read row by
    /// row from the bottom, each row from the left.
    pub open spec fn before(a: (int, int), b: (int, int)) -> bool {
        a.1 < b.1 || (a.1 == b.1 && a.0 < b.0)
    }

    /// Whether `blocks` lists the locked cells: each entry is a locked cell
    /// with its color, every locked cell has an entry, and the entries come
    /// row by row from the bottom, each row from the left, so that no cell is
    /// listed twice.
    pub open spec fn lists(self, blocks: Seq<(Cell, Color)>) -> bool {
        &&& forall|k: int|
            0 <= k < blocks.len() ==> self.at((#[trigger] blocks[k]).0@) == Some(blocks[k].1)
        &&& forall|c: (int, int)| (#[trigger] self.at(c)) is Some ==> Self::listed(blocks, c)
        &&& forall|j: int, k: int|
            0 <= j < k < blocks.len() ==> Self::before(
                (#[trigger] blocks[j]).0@,
                (#[trigger] blocks[k]).0@,
            )
    }

    /// Whether `blocks` has an entry for the cell `c`.
    pub open spec fn listed(blocks: Seq<(Cell, Color)>, c: (int, int)) -> bool {
        exists|k: int| 0 <= k < blocks.len() && (#[trigger] blocks[k]).0@ == c
    }

    /// A row is completed when every one of its cells holds a block.
    pub open spec fn row_full(row: Seq<Option<Color>>) -> bool {
        forall|c: int| 0 <= c < row.len() ==> (#[trigger] row[c]) is Some
    }

    /// No row is completed.
    pub open spec fn no_full_row(self) -> bool {
        forall|r: int| 0 <= r < self.grid.len() ==> !Self::row_full(#[trigger] self.grid[r])
    }

    /// The rows of a grid that are not completed, in their order.
    pub open spec fn survivors(grid: Seq<Seq<Option<Color>>>) -> Seq<Seq<Option<Color>>>
        decreases grid.len(),
    {
        if grid.len() == 0 {
            Seq::empty()
        } else if Self::row_full(grid.last()) {
            Self::survivors(grid.drop_last())
        } else {
            Self::survivors(grid.drop_last()).push(grid.last())
        }
    }

    /// Number of completed rows.
    pub open spec fn full_rows(self) -> nat {
        (self.grid.len() - Self::survivors(self.grid).len()) as nat
    }

    /// Number of completed rows below row `r`.
    pub open spec fn full_below(self, r: int) -> nat {
        (r - Self::survivors(self.grid.take(r)).len()) as nat
    }

    /// The field after all completed rows were removed at once: the other
    /// rows keep their order and move down to close the gaps, and as many
    /// empty rows as were removed come in at the top.
    pub open spec fn compact(self) -> FieldView {
        FieldView {
            grid: Self::survivors(self.grid) + Seq::new(
                self.full_rows(),
                |r: int| Self::empty_row(self.width),
            ),
            ..self
        }
    }
}

/// The cells of a sequence as (column, row) pairs.
pub open spec fn cell_views(cells: Seq<Cell>) -> Seq<(int, int)> {
    Seq::new(cells.len(), |i: int| cells[i]@)
}

/// A cell is among the first `i + 1` of a sequence when it is among the first
/// `i` or is the one at `i`.
pub(crate) proof fn lemma_contains_take_next(cells: Seq<(int, int)>, i: int, c: (int, int))
    requires
        0 <= i < cells.len(),
    ensures
        cells.take(i + 1).contains(c) <==> (cells.take(i).contains(c) || cells[i] == c),
{
    let shorter = cells.take(i);
    let longer = cells.take(i + 1);
    if longer.contains(c) {
        let j = choose|j: int| 0 <= j < longer.len() && longer[j] == c;
        if j < i {
            assert(shorter[j] == c);
        }
    }
    if shorter.contains(c) {
        let j = choose|j: int| 0 <= j < shorter.len() && shorter[j] == c;
        assert(longer[j] == c);
    }
    if cells[i] == c {
        assert(longer[i] == c);
    }
}

/// The field with one more block: `color` at the stored cell `c`.
spec fn with_block(field: FieldView, c: (int, int), color: Color) -> FieldView {
    FieldView { grid: field.grid.update(c.1, field.grid[c.1].update(c.0, Some(color))), ..field }
}

/// Replacing one cell of a row changes the row's count by what the cell held
/// and what it holds now.
proof fn lemma_row_count_update(row: Seq<Option<Color>>, c: int, v: Option<Color>)
    requires
        0 <= c < row.len(),
    ensures
        FieldView::row_count(row.update(c, v)) + (if row[c] is Some {
            1nat
        } else {
            0nat
        }) == FieldView::row_count(row) + (if v is Some {
            1nat
        } else {
            0nat
        }),
    decreases row.len(),
{
    if c == row.len() - 1 {
        assert(row.update(c, v).drop_last() =~= row.drop_last());
    } else {
        assert(row.update(c, v).drop_last() =~= row.drop_last().update(c, v));
        lemma_row_count_update(row.drop_last(), c, v);
    }
}

/// Replacing one row of a grid changes the grid's count by the counts of the
/// old row and the new one.
proof fn lemma_grid_count_update(grid: Seq<Seq<Option<Color>>>, r: int, row: Seq<Option<Color>>)
    requires
        0 <= r < grid.len(),
    ensures
        FieldView::grid_count(grid.update(r, row)) + FieldView::row_count(grid[r])
            == FieldView::grid_count(grid) + FieldView::row_count(row),
    decreases grid.len(),
{
    if r == grid.len() - 1 {
        assert(grid.update(r, row).drop_last() =~= grid.drop_last());
    } else {
        assert(grid.update(r, row).drop_last() =~= grid.drop_last().update(r, row));
        lemma_grid_count_update(grid.drop_last(), r, row);
    }
}

/// Locking blocks on stored, empty cells adds one locked cell for each
/// different cell.
pub proof fn lemma_lock_count(field: FieldView, cells: Seq<(int, int)>, color: Color)
    requires
        field.wf(),
        field.can_lock(cells),
        cells.no_duplicates(),
    ensures
        field.lock(cells, color).locked_count() == field.locked_count() + cells.len(),
    decreases cells.len(),
{
    if cells.len() == 0 {
        assert(field.lock(cells, color).grid =~~= field.grid);
    } else {
        let init = cells.drop_last();
        let x = cells.last();
        let earlier = field.lock(init, color);
        assert forall|i: int| 0 <= i < init.len() implies field.stored(#[trigger] init[i])
            && field.at(init[i]) is None by {
            assert(init[i] == cells[i]);
        }
        assert(init.no_duplicates());
        lemma_lock_count(field, init, color);
        assert(field.stored(x) && field.at(x) is None);
        if init.contains(x) {
            let j = choose|j: int| 0 <= j < init.len() && init[j] == x;
            assert(cells[j] == cells[cells.len() - 1]);
        }
        assert(earlier.grid[x.1][x.0] is None);
        assert forall|r: int, c: int|
            0 <= r < field.grid.len() && 0 <= c < field.grid[r].len() implies (cells.contains(
            (c, r),
        ) <==> init.contains((c, r)) || (c, r) == x) by {
            assert(cells.take(cells.len() - 1) =~= init);
            assert(cells.take(cells.len() as int) =~= cells);
            lemma_contains_take_next(cells, cells.len() - 1, (c, r));
        }
        assert(field.lock(cells, color).grid =~~= with_block(earlier, x, color).grid);
        lemma_row_count_update(earlier.grid[x.1], x.0, Some(color));
        lemma_grid_count_update(earlier.grid, x.1, earlier.grid[x.1].update(x.0, Some(color)));
    }
}

/// No more rows survive than there are.
pub proof fn lemma_survivors_len(grid: Seq<Seq<Option<Color>>>)
    ensures
        FieldView::survivors(grid).len() <= grid.len(),
    decreases grid.len(),
{
    if grid.len() > 0 {
        lemma_survivors_len(grid.drop_last());
    }
}

/// The surviving rows have the width of the rows they are taken from, and
/// none of them is completed.
pub proof fn lemma_survivors_rows(grid: Seq<Seq<Option<Color>>>, width: nat)
    requires
        forall|r: int| 0 <= r < grid.len() ==> (#[trigger] grid[r]).len() == width,
    ensures
        forall|k: int|
            0 <= k < FieldView::survivors(grid).len() ==> (#[trigger] FieldView::survivors(
                grid,
            )[k]).len() == width && !FieldView::row_full(FieldView::survivors(grid)[k]),
    decreases grid.len(),
{
    if grid.len() > 0 {
        let init = grid.drop_last();
        assert forall|r: int| 0 <= r < init.len() implies (#[trigger] init[r]).len() == width by {
            assert(init[r] == grid[r]);
        }
        lemma_survivors_rows(init, width);
        let kept = FieldView::survivors(init);
        assert(grid.last() == grid[grid.len() - 1]);
        assert forall|k: int| 0 <= k < FieldView::survivors(grid).len() implies (
        #[trigger] FieldView::survivors(grid)[k]).len() == width && !FieldView::row_full(
            FieldView::survivors(grid)[k],
        ) by {
            if k < kept.len() {
                assert(FieldView::survivors(grid)[k] == kept[k]);
            }
        }
    }
}

/// The survivors of the rows below `r` are the first of the survivors of the
/// whole grid.
proof fn lemma_survivors_prefix(grid: Seq<Seq<Option<Color>>>, r: int)
    requires
        0 <= r <= grid.len(),
    ensures
        FieldView::survivors(grid.take(r)).len() <= FieldView::survivors(grid).len(),
        FieldView::survivors(grid.take(r)) == FieldView::survivors(grid).take(
            FieldView::survivors(grid.take(r)).len() as int,
        ),
    decreases grid.len(),
{
    if r == grid.len() {
        assert(grid.take(r) =~= grid);
        assert(FieldView::survivors(grid).take(FieldView::survivors(grid).len() as int)
            =~= FieldView::survivors(grid));
    } else {
        let init = grid.drop_last();
        assert(init.take(r) =~= grid.take(r));
        lemma_survivors_prefix(init, r);
        let below = FieldView::survivors(grid.take(r));
        assert(below =~= FieldView::survivors(grid).take(below.len() as int));
    }
}

/// Removing the completed rows keeps the shape of the field.
pub proof fn lemma_compact_wf(field: FieldView)
    requires
        field.wf(),
    ensures
        field.compact().wf(),
        field.compact().grid.len() == field.grid.len(),
        field.compact().width == field.width,
        field.compact().height == field.height,
        field.full_rows() <= field.grid.len(),
{
    lemma_survivors_len(field.grid);
    lemma_survivors_rows(field.grid, field.width);
}

/// A row that is not completed moves down by the number of completed rows
/// below it, and is otherwise unchanged.
pub proof fn lemma_compact_shift(field: FieldView, r: int)
    requires
        0 <= r < field.grid.len(),
        !FieldView::row_full(field.grid[r]),
    ensures
        field.full_below(r) <= r,
        field.compact().grid[r - field.full_below(r)] == field.grid[r],
{
    let grid = field.grid;
    lemma_survivors_len(grid.take(r));
    lemma_survivors_prefix(grid, r + 1);
    assert(grid.take(r + 1).drop_last() =~= grid.take(r));
    assert(grid.take(r + 1).last() == grid[r]);
    let below = FieldView::survivors(grid.take(r));
    assert(FieldView::survivors(grid.take(r + 1)) == below.push(grid[r]));
    assert(FieldView::survivors(grid)[below.len() as int] == FieldView::survivors(grid).take(
        below.len() as int + 1,
    )[below.len() as int]);
}

/// After the completed rows were removed, the topmost rows, as many as were
/// removed, are empty.
pub proof fn lemma_compact_top(field: FieldView, k: int)
    requires
        field.grid.len() - field.full_rows() <= k < field.grid.len(),
    ensures
        field.compact().grid[k] == FieldView::empty_row(field.width),
{
    lemma_survivors_len(field.grid);
}

/// Counting the completed rows from the bottom: none lies below row 0, each
/// row adds one if it is completed, and all of them lie below the top.
pub proof fn lemma_full_below_step(field: FieldView, r: int)
    requires
        0 <= r < field.grid.len(),
    ensures
        field.full_below(0) == 0,
        field.full_below(r) <= r,
        field.full_below(r + 1) == field.full_below(r) + (if FieldView::row_full(field.grid[r]) {
            1nat
        } else {
            0nat
        }),
        field.full_below(field.grid.len() as int) == field.full_rows(),
{
    let grid = field.grid;
    assert(grid.take(0) =~= Seq::empty());
    assert(grid.take(grid.len() as int) =~= grid);
    assert(grid.take(r + 1).drop_last() =~= grid.take(r));
    assert(grid.take(r + 1).last() == grid[r]);
    lemma_survivors_len(grid.take(r));
    lemma_survivors_len(grid.take(r + 1));
}

/// Where rows 3 and 5 are the only completed rows, one such row lies below
/// rows 4 and 5, two lie below the rows above, and none below the others.
proof fn lemma_full_below_three_and_five(field: FieldView, r: int)
    requires
        0 <= r <= field.grid.len(),
        forall|k: int|
            0 <= k < field.grid.len() ==> (FieldView::row_full(#[trigger] field.grid[k]) <==> (k
                == 3 || k == 5)),
    ensures
        field.full_below(r) == (if r <= 3 {
            0nat
        } else if r <= 5 {
            1nat
        } else {
            2nat
        }),
    decreases r,
{
    if r == 0 {
        assert(field.grid.take(0) =~= Seq::empty());
    } else {
        lemma_full_below_three_and_five(field, r - 1);
        lemma_full_below_step(field, r - 1);
    }
}

/// Where rows 3 and 5 are the only completed rows, removing the completed
/// rows removes these two: the rows below row 3 stay, row 4 moves down by
/// one, the rows above row 5 move down by two, and the two topmost rows are
/// empty.
pub proof fn lemma_compact_rows_three_and_five(field: FieldView)
    requires
        field.wf(),
        field.grid.len() >= 6,
        forall|k: int|
            0 <= k < field.grid.len() ==> (FieldView::row_full(#[trigger] field.grid[k]) <==> (k
                == 3 || k == 5)),
    ensures
        field.full_rows() == 2,
        field.compact().grid.len() == field.grid.len(),
        forall|r: int| 0 <= r < 3 ==> #[trigger] field.compact().grid[r] == field.grid[r],
        field.compact().grid[3] == field.grid[4],
        forall|r: int|
            4 <= r < field.grid.len() - 2 ==> #[trigger] field.compact().grid[r] == field.grid[r
                + 2],
        forall|r: int|
            field.grid.len() - 2 <= r < field.grid.len() ==> #[trigger] field.compact().grid[r]
                == FieldView::empty_row(field.width),
{
    let len = field.grid.len() as int;
    lemma_compact_wf(field);
    lemma_full_below_three_and_five(field, len);
    lemma_full_below_step(field, len - 1);
    assert forall|r: int| 0 <= r < 3 implies #[trigger] field.compact().grid[r]
        == field.grid[r] by {
        lemma_full_below_three_and_five(field, r);
        assert(!FieldView::row_full(field.grid[r]));
        lemma_compact_shift(field, r);
    }
    assert(field.compact().grid[3] == field.grid[4]) by {
        lemma_full_below_three_and_five(field, 4);
        assert(!FieldView::row_full(field.grid[4]));
        lemma_compact_shift(field, 4);
    }
    assert forall|r: int| 4 <= r < len - 2 implies #[trigger] field.compact().grid[r]
        == field.grid[r + 2] by {
        lemma_full_below_three_and_five(field, r + 2);
        assert(!FieldView::row_full(field.grid[r + 2]));
        lemma_compact_shift(field, r + 2);
    }
    assert forall|r: int| len - 2 <= r < len implies #[trigger] field.compact().grid[r]
        == FieldView::empty_row(field.width) by {
        lemma_compact_top(field, r);
    }
}

/// After the completed rows were removed from a field with at least one
/// column, no row is completed.
pub proof fn lemma_compact_no_full_row(field: FieldView)
    requires
        field.wf(),
        field.width > 0,
    ensures
        field.compact().no_full_row(),
{
    lemma_survivors_len(field.grid);
    lemma_survivors_rows(field.grid, field.width);
    let kept = FieldView::survivors(field.grid);
    assert forall|r: int| 0 <= r < field.compact().grid.len() implies !FieldView::row_full(
        #[trigger] field.compact().grid[r],
    ) by {
        if r < kept.len() {
            assert(field.compact().grid[r] == kept[r]);
        } else {
            assert(field.compact().grid[r] == FieldView::empty_row(field.width));
            assert(FieldView::empty_row(field.width)[0] is None);
        }
    }
}

/// An empty field with at least one column has no completed row.
pub proof fn lemma_empty_no_full_row(width: nat, height: nat, rows: nat)
    requires
        width > 0,
    ensures
        FieldView::empty(width, height, rows).no_full_row(),
{
    let field = FieldView::empty(width, height, rows);
    assert forall|r: int| 0 <= r < field.grid.len() implies !FieldView::row_full(
        #[trigger] field.grid[r],
    ) by {
        assert(field.grid[r][0] is None);
    }
}

/// How many of `cells` lie below row `r`.
spec fn cells_below(cells: Seq<(int, int)>, r: int) -> nat
    decreases cells.len(),
{
    if cells.len() == 0 {
        0
    } else {
        cells_below(cells.drop_last(), r) + if cells.last().1 < r {
            1nat
        } else {
            0nat
        }
    }
}

/// Of the cells below a row, none is lost when the row itself is counted
/// in, and one more is counted if a cell lies in that row.
proof fn lemma_cells_below_step(cells: Seq<(int, int)>, r: int)
    ensures
        cells_below(cells, r) <= cells_below(cells, r + 1) <= cells.len(),
        (exists|i: int| 0 <= i < cells.len() && (#[trigger] cells[i]).1 == r)
            ==> cells_below(cells, r) < cells_below(cells, r + 1),
    decreases cells.len(),
{
    if cells.len() > 0 {
        let init = cells.drop_last();
        lemma_cells_below_step(init, r);
        if exists|i: int| 0 <= i < cells.len() && (#[trigger] cells[i]).1 == r {
            let i = choose|i: int| 0 <= i < cells.len() && (#[trigger] cells[i]).1 == r;
            if i < init.len() {
                assert(init[i].1 == r);
            } else {
                assert(cells.last().1 == r);
            }
        }
    }
}

/// Where no row was completed, a row that is completed after a lock holds one
/// of the locked cells, so below any row there are no more completed rows
/// than locked cells.
proof fn lemma_lock_full_below(field: FieldView, cells: Seq<(int, int)>, color: Color, r: int)
    requires
        field.wf(),
        field.no_full_row(),
        0 <= r <= field.grid.len(),
    ensures
        field.lock(cells, color).full_below(r) <= cells_below(cells, r),
    decreases r,
{
    let locked = field.lock(cells, color);
    if r == 0 {
        assert(locked.grid.take(0) =~= Seq::empty());
    } else {
        lemma_lock_full_below(field, cells, color, r - 1);
        lemma_full_below_step(locked, r - 1);
        lemma_cells_below_step(cells, r - 1);
        if FieldView::row_full(locked.grid[r - 1]) {
            let row = field.grid[r - 1];
            assert(!FieldView::row_full(row));
            let c = choose|c: int| 0 <= c < row.len() && !((#[trigger] row[c]) is Some);
            assert(locked.grid[r - 1][c] is Some);
            assert(cells.contains((c, r - 1)));
            let i = choose|i: int| 0 <= i < cells.len() && cells[i] == (c, r - 1);
            assert(cells[i].1 == r - 1);
        }
    }
}

/// Where no row was completed, locking blocks completes no more rows than
/// blocks were locked: at most four for a piece.
pub proof fn lemma_lock_full_rows(field: FieldView, cells: Seq<(int, int)>, color: Color)
    requires
        field.wf(),
        field.no_full_row(),
    ensures
        field.lock(cells, color).full_rows() <= cells.len(),
{
    let locked = field.lock(cells, color);
    let len = field.grid.len() as int;
    lemma_lock_full_below(field, cells, color, len);
    if len > 0 {
        lemma_full_below_step(locked, len - 1);
        lemma_cells_below_step(cells, len - 1);
    } else {
        assert(FieldView::survivors(locked.grid) =~= Seq::empty());
    }
}

/// An empty row holds no locked cell.
proof fn lemma_empty_row_count(width: nat)
    ensures
        FieldView::row_count(FieldView::empty_row(width)) == 0,
    decreases width,
{
    if width > 0 {
        assert(FieldView::empty_row(width).drop_last() =~= FieldView::empty_row(
            (width - 1) as nat,
        ));
        lemma_empty_row_count((width - 1) as nat);
    }
}

/// A completed row holds as many locked cells as it has cells.
proof fn lemma_full_row_count(row: Seq<Option<Color>>)
    requires
        FieldView::row_full(row),
    ensures
        FieldView::row_count(row) == row.len(),
    decreases row.len(),
{
    if row.len() > 0 {
        let init = row.drop_last();
        assert forall|c: int| 0 <= c < init.len() implies (#[trigger] init[c]) is Some by {
            assert(init[c] == row[c]);
        }
        lemma_full_row_count(init);
        assert(row.last() == row[row.len() - 1]);
    }
}

/// Empty rows on top of a grid add no locked cell.
proof fn lemma_grid_count_padded(grid: Seq<Seq<Option<Color>>>, n: nat, width: nat)
    ensures
        FieldView::grid_count(grid + Seq::new(n, |r: int| FieldView::empty_row(width)))
            == FieldView::grid_count(grid),
    decreases n,
{
    let padded = grid + Seq::new(n, |r: int| FieldView::empty_row(width));
    if n == 0 {
        assert(padded =~= grid);
    } else {
        assert(padded.drop_last() =~= grid + Seq::new(
            (n - 1) as nat,
            |r: int| FieldView::empty_row(width),
        ));
        assert(padded.last() == FieldView::empty_row(width));
        lemma_empty_row_count(width);
        lemma_grid_count_padded(grid, (n - 1) as nat, width);
    }
}

/// The surviving rows hold all locked cells but those of the completed rows.
proof fn lemma_survivors_count(grid: Seq<Seq<Option<Color>>>, width: nat)
    requires
        forall|r: int| 0 <= r < grid.len() ==> (#[trigger] grid[r]).len() == width,
    ensures
        FieldView::survivors(grid).len() <= grid.len(),
        FieldView::grid_count(FieldView::survivors(grid)) + width * (grid.len()
            - FieldView::survivors(grid).len()) == FieldView::grid_count(grid),
    decreases grid.len(),
{
    let gone_now = grid.len() - FieldView::survivors(grid).len();
    if grid.len() == 0 {
        assert(gone_now == 0);
        assert(width * gone_now == 0) by (nonlinear_arith)
            requires
                gone_now == 0,
        ;
    } else {
        let init = grid.drop_last();
        assert forall|r: int| 0 <= r < init.len() implies (#[trigger] init[r]).len() == width by {
            assert(init[r] == grid[r]);
        }
        lemma_survivors_count(init, width);
        lemma_survivors_len(init);
        let kept = FieldView::survivors(init);
        let gone = init.len() - kept.len();
        assert(grid.last() == grid[grid.len() - 1]);
        assert(FieldView::grid_count(grid) == FieldView::grid_count(init) + FieldView::row_count(
            grid.last(),
        ));
        if FieldView::row_full(grid.last()) {
            lemma_full_row_count(grid.last());
            assert(FieldView::row_count(grid.last()) == width);
            assert(FieldView::survivors(grid) == kept);
            assert(gone_now == gone + 1);
            assert(width * gone_now == width * gone + width) by (nonlinear_arith)
                requires
                    gone_now == gone + 1,
            ;
        } else {
            let all = kept.push(grid.last());
            assert(FieldView::survivors(grid) == all);
            assert(all.drop_last() =~= kept);
            assert(all.last() == grid.last());
            assert(FieldView::grid_count(all) == FieldView::grid_count(kept)
                + FieldView::row_count(grid.last()));
            assert(gone_now == gone);
            assert(width * gone_now == width * gone) by (nonlinear_arith)
                requires
                    gone_now == gone,
            ;
        }
    }
}

/// Removing the completed rows removes a full row's worth of locked cells for
/// each of them, and no other.
pub proof fn lemma_compact_count(field: FieldView)
    requires
        field.wf(),
    ensures
        field.compact().locked_count() + field.width * field.full_rows() == field.locked_count(),
{
    lemma_survivors_count(field.grid, field.width);
    lemma_grid_count_padded(FieldView::survivors(field.grid), field.full_rows(), field.width);
    let gone = field.grid.len() - FieldView::survivors(field.grid).len();
    assert(field.width * field.full_rows() == field.width * gone) by (nonlinear_arith)
        requires
            field.full_rows() == gone,
    ;
}

} // verus!
