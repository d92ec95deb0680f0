//! The playfield: a grid of locked cells with implicit walls and floor.

use vstd::prelude::*;
use crate::field_view::{
    cell_views,
    lemma_compact_wf,
    lemma_contains_take_next,
    lemma_lock_count,
    lemma_survivors_len,
    lemma_survivors_rows,
    FieldView,
};
use crate::pieces::Color;

verus! {

/// Width and height of the visible field when nothing else is asked for.
pub const DEFAULT_SIZE: (u16, u16) = (10, 20);

/// Rows kept above the visible field, where pieces enter.
pub const DEFAULT_HEADROOM: u16 = 2;

/// One grid unit, addressed by column and row. Row 0 is the bottom row.
#[derive(Clone, Copy, Debug, PartialEq, Eq, Hash, Structural)]
pub struct Cell {
    pub column: i64,
    pub row: i64,
}

impl View for Cell {
    type V = (int, int);

    open spec fn view(&self) -> (int, int) {
        (self.column as int, self.row as int)
    }
}

/// The playfield.
pub struct GameField {
    width: u16,
    height: u16,
    rows: Vec<Vec<Option<Color>>>,
}

impl View for GameField {
    type V = FieldView;

    closed spec fn view(&self) -> FieldView {
        FieldView {
            width: self.width as nat,
            height: self.height as nat,
            grid: grid_of(self.rows@),
        }
    }
}

/// The rows of the field as sequences.
spec fn grid_of(rows: Seq<Vec<Option<Color>>>) -> Seq<Seq<Option<Color>>> {
    Seq::new(rows.len(), |r: int| rows[r]@)
}

/// Whether every cell of the row holds a block.
fn row_is_full(row: &Vec<Option<Color>>) -> (full: bool)
    ensures
        full == FieldView::row_full(row@),
{
    let mut c: usize = 0;
    while c < row.len()
        invariant
            c <= row.len(),
            forall|k: int| 0 <= k < c ==> (#[trigger] row@[k]) is Some,
        decreases row.len() - c,
    {
        if row[c].is_none() {
            return false;
        }
        c += 1;
    }
    true
}

/// A copy of the row.
fn copy_row(row: &Vec<Option<Color>>) -> (copy: Vec<Option<Color>>)
    ensures
        copy@ == row@,
{
    let mut copy: Vec<Option<Color>> = Vec::new();
    let mut c: usize = 0;
    while c < row.len()
        invariant
            c <= row.len(),
            copy@ == row@.take(c as int),
        decreases row.len() - c,
    {
        copy.push(row[c]);
        assert(copy@ =~= row@.take(c + 1));
        c += 1;
    }
    assert(row@.take(row@.len() as int) =~= row@);
    copy
}

/// Number of cells of the row that hold a block.
fn count_row(row: &Vec<Option<Color>>) -> (n: usize)
    ensures
        n == FieldView::row_count(row@),
        n <= row@.len(),
{
    let mut n: usize = 0;
    let mut c: usize = 0;
    while c < row.len()
        invariant
            c <= row.len(),
            n <= c,
            n == FieldView::row_count(row@.take(c as int)),
        decreases row.len() - c,
    {
        assert(row@.take(c + 1).drop_last() =~= row@.take(c as int));
        if row[c].is_some() {
            n += 1;
        }
        c += 1;
    }
    assert(row@.take(row@.len() as int) =~= row@);
    n
}

/// A row of `width` empty cells.
fn empty_row(width: u16) -> (row: Vec<Option<Color>>)
    ensures
        row@ == FieldView::empty_row(width as nat),
{
    let mut row: Vec<Option<Color>> = Vec::new();
    let mut c: u16 = 0;
    while c < width
        invariant
            c <= width,
            row@.len() == c,
            forall|k: int| 0 <= k < c ==> row@[k] is None,
        decreases width - c,
    {
        row.push(None);
        c += 1;
    }
    assert(row@ =~= FieldView::empty_row(width as nat));
    row
}

impl GameField {
    /// The dimensions fit the machine types that the field is kept in.
    pub open spec fn wf(&self) -> bool {
        &&& self@.wf()
        &&& self@.width <= u16::MAX
        &&& self@.height <= u16::MAX
        &&& self@.grid.len() <= 2 * u16::MAX
    }

    /// An empty field of `width` columns and `height` visible rows, with
    /// [`DEFAULT_HEADROOM`] rows above them.
    pub fn new(width: u16, height: u16) -> (field: GameField)
        ensures
            field.wf(),
            field@ == FieldView::empty(
                width as nat,
                height as nat,
                (height + DEFAULT_HEADROOM) as nat,
            ),
    {
        Self::with_headroom(width, height, DEFAULT_HEADROOM)
    }

    /// An empty field of `width` columns and `height` visible rows, with
    /// `headroom` rows above them.
    pub fn with_headroom(width: u16, height: u16, headroom: u16) -> (field: GameField)
        ensures
            field.wf(),
            field@ == FieldView::empty(width as nat, height as nat, (height + headroom) as nat),
    {
        let total: u32 = height as u32 + headroom as u32;
        let mut rows: Vec<Vec<Option<Color>>> = Vec::new();
        let mut r: u32 = 0;
        while r < total
            invariant
                r <= total,
                rows@.len() == r,
                forall|k: int| 0 <= k < r ==> (#[trigger] rows@[k])@ == FieldView::empty_row(width as nat),
            decreases total - r,
        {
            rows.push(empty_row(width));
            r += 1;
        }
        let field = GameField { width, height, rows };
        assert(field@ =~~= FieldView::empty(width as nat, height as nat, (height + headroom) as nat));
        field
    }

    /// Number of columns.
    pub fn width(&self) -> (w: u16)
        ensures
            w == self@.width,
    {
        self.width
    }

    /// Number of visible rows.
    pub fn height(&self) -> (h: u16)
        ensures
            h == self@.height,
    {
        self.height
    }

    /// Number of stored rows: the visible ones and the headroom above them.
    pub fn rows(&self) -> (n: usize)
        ensures
            n == self@.grid.len(),
    {
        self.rows.len()
    }

    /// The color locked at `cell`, if `cell` is stored and holds a block.
    pub fn get(&self, cell: Cell) -> (color: Option<Color>)
        requires
            self.wf(),
        ensures
            color == self@.at(cell@),
    {
        if cell.column < 0 || cell.row < 0 {
            return None;
        }
        if cell.column >= self.width as i64 || cell.row >= self.rows.len() as i64 {
            return None;
        }
        let r = cell.row as usize;
        let c = cell.column as usize;
        assert(self@.grid[r as int].len() == self@.width);
        self.rows[r][c]
    }

    /// Whether blocks can be locked on `cells`: each is a stored, empty cell.
    pub fn can_lock(&self, cells: &[Cell; 4]) -> (ok: bool)
        requires
            self.wf(),
        ensures
            ok == self@.can_lock(cell_views(cells@)),
    {
        let ok = self.is_free(cells[0]) && self.is_free(cells[1]) && self.is_free(cells[2])
            && self.is_free(cells[3]);
        proof {
            let views = cell_views(cells@);
            if ok {
                assert forall|i: int| 0 <= i < views.len() implies self@.stored(
                    #[trigger] views[i],
                ) && self@.at(views[i]) is None by {
                    assert(i == 0 || i == 1 || i == 2 || i == 3);
                }
            } else {
                assert(!(self@.stored(views[0]) && self@.at(views[0]) is None) || !(self@.stored(
                    views[1],
                ) && self@.at(views[1]) is None) || !(self@.stored(views[2]) && self@.at(views[2])
                    is None) || !(self@.stored(views[3]) && self@.at(views[3]) is None));
            }
        }
        ok
    }

    /// Whether `cell` is a stored, empty cell.
    fn is_free(&self, cell: Cell) -> (b: bool)
        requires
            self.wf(),
        ensures
            b == (self@.stored(cell@) && self@.at(cell@) is None),
    {
        0 <= cell.column && cell.column < self.width as i64 && 0 <= cell.row && cell.row
            < self.rows.len() as i64 && self.get(cell).is_none()
    }

    /// Locks blocks of `color` on the four cells. The cells must be stored and
    /// empty, which [`GameField::can_lock`] tests.
    pub fn lock(&mut self, cells: &[Cell; 4], color: Color)
        requires
            old(self).wf(),
            old(self)@.can_lock(cell_views(cells@)),
        ensures
            final(self).wf(),
            final(self)@ == old(self)@.lock(cell_views(cells@), color),
            cell_views(cells@).no_duplicates() ==> final(self)@.locked_count() == old(
                self,
            )@.locked_count() + 4,
    {
        let ghost views = cell_views(cells@);
        let mut i: usize = 0;
        while i < 4
            invariant
                i <= 4,
                views == cell_views(cells@),
                old(self).wf(),
                old(self)@.can_lock(views),
                self.width == old(self).width,
                self.height == old(self).height,
                self.rows@.len() == old(self).rows@.len(),
                forall|r: int|
                    0 <= r < self.rows@.len() ==> (#[trigger] self.rows@[r])@.len() == old(
                        self,
                    ).rows@[r]@.len(),
                forall|r: int, c: int|
                    0 <= r < self.rows@.len() && 0 <= c < self.rows@[r]@.len()
                        ==> #[trigger] self.rows@[r]@[c] == (if views.take(i as int).contains(
                        (c, r),
                    ) {
                        Some(color)
                    } else {
                        old(self).rows@[r]@[c]
                    }),
            decreases 4 - i,
        {
            let cell = cells[i];
            assert(views[i as int] == cell@);
            assert(old(self)@.stored(views[i as int]));
            let r = cell.row as usize;
            let c = cell.column as usize;
            assert(old(self)@.grid[r as int].len() == old(self)@.width);
            self.rows[r][c] = Some(color);
            proof {
                assert forall|r2: int, c2: int|
                    0 <= r2 < self.rows@.len() && 0 <= c2 < self.rows@[r2]@.len()
                        implies #[trigger] self.rows@[r2]@[c2] == (if views.take(
                    i + 1,
                ).contains((c2, r2)) {
                    Some(color)
                } else {
                    old(self).rows@[r2]@[c2]
                }) by {
                    lemma_contains_take_next(views, i as int, (c2, r2));
                }
            }
            i += 1;
        }
        proof {
            assert(views.take(4) =~= views);
            assert(self@ =~~= old(self)@.lock(views, color));
            if views.no_duplicates() {
                lemma_lock_count(old(self)@, views, color);
            }
        }
    }

    /// Removes all completed rows at once and returns how many there were.
    /// The rows above a removed row move down to close the gap, and empty
    /// rows come in at the top.
    pub fn clear_completed_rows(&mut self) -> (count: usize)
        requires
            old(self).wf(),
        ensures
            final(self).wf(),
            final(self)@ == old(self)@.compact(),
            count == old(self)@.full_rows(),
    {
        let ghost grid = self@.grid;
        let total = self.rows.len();
        let mut kept: Vec<Vec<Option<Color>>> = Vec::new();
        let mut r: usize = 0;
        while r < total
            invariant
                r <= total,
                total == self.rows@.len(),
                grid == grid_of(self.rows@),
                grid_of(kept@) == FieldView::survivors(grid.take(r as int)),
            decreases total - r,
        {
            assert(grid.take(r + 1).drop_last() =~= grid.take(r as int));
            assert(grid.take(r + 1).last() == self.rows@[r as int]@);
            if !row_is_full(&self.rows[r]) {
                let ghost before = grid_of(kept@);
                kept.push(copy_row(&self.rows[r]));
                assert(grid_of(kept@) =~= before.push(self.rows@[r as int]@));
            }
            r += 1;
        }
        proof {
            assert(grid.take(total as int) =~= grid);
            lemma_survivors_len(grid);
            lemma_survivors_rows(grid, self.width as nat);
        }
        let ghost survivors = FieldView::survivors(grid);
        let count = total - kept.len();
        while kept.len() < total
            invariant
                survivors.len() <= kept@.len() <= total,
                grid_of(kept@) == survivors + Seq::new(
                    (kept@.len() - survivors.len()) as nat,
                    |r: int| FieldView::empty_row(self.width as nat),
                ),
            decreases total - kept.len(),
        {
            let ghost before = grid_of(kept@);
            kept.push(empty_row(self.width));
            assert(grid_of(kept@) =~= before.push(FieldView::empty_row(self.width as nat)));
            assert(grid_of(kept@) =~= survivors + Seq::new(
                (kept@.len() - survivors.len()) as nat,
                |r: int| FieldView::empty_row(self.width as nat),
            ));
        }
        self.rows = kept;
        proof {
            assert(self@ =~~= old(self)@.compact());
            lemma_compact_wf(old(self)@);
        }
        count
    }

    /// Number of locked cells.
    pub fn locked_count(&self) -> (n: u64)
        requires
            self.wf(),
        ensures
            n == self@.locked_count(),
    {
        let ghost grid = self@.grid;
        let mut n: u64 = 0;
        let mut r: usize = 0;
        while r < self.rows.len()
            invariant
                self.wf(),
                grid == self@.grid,
                r <= self.rows@.len(),
                n <= r * 0xffff,
                n == FieldView::grid_count(grid.take(r as int)),
            decreases self.rows.len() - r,
        {
            assert(grid.take(r + 1).drop_last() =~= grid.take(r as int));
            assert(grid.take(r + 1).last() == self.rows@[r as int]@);
            assert(grid[r as int].len() == self@.width);
            let m = count_row(&self.rows[r]);
            n += m as u64;
            r += 1;
        }
        assert(grid.take(grid.len() as int) =~= grid);
        n
    }

    /// The locked cells with their colors, row by row from the bottom, each
    /// row from the left.
    pub fn locked_cells(&self) -> (blocks: Vec<(Cell, Color)>)
        requires
            self.wf(),
        ensures
            self@.lists(blocks@),
            blocks@.len() == self@.locked_count(),
    {
        let ghost field = self@;
        let ghost grid = self@.grid;
        let mut blocks: Vec<(Cell, Color)> = Vec::new();
        let mut r: usize = 0;
        while r < self.rows.len()
            invariant
                self.wf(),
                field == self@,
                grid == field.grid,
                r <= self.rows@.len(),
                blocks@.len() == FieldView::grid_count(grid.take(r as int)),
                forall|k: int|
                    0 <= k < blocks@.len() ==> field.at((#[trigger] blocks@[k]).0@) == Some(
                        blocks@[k].1,
                    ) && blocks@[k].0@.1 < r,
                forall|c: (int, int)|
                    (#[trigger] field.at(c)) is Some && c.1 < r ==> FieldView::listed(blocks@, c),
                forall|j: int, k: int|
                    0 <= j < k < blocks@.len() ==> FieldView::before(
                        (#[trigger] blocks@[j]).0@,
                        (#[trigger] blocks@[k]).0@,
                    ),
            decreases self.rows.len() - r,
        {
            assert(grid[r as int].len() == field.width);
            assert(grid.take(r + 1).drop_last() =~= grid.take(r as int));
            assert(grid.take(r + 1).last() == grid[r as int]);
            assert(grid[r as int].take(0) =~= Seq::empty());
            let mut c: usize = 0;
            while c < self.rows[r].len()
                invariant
                    self.wf(),
                    field == self@,
                    grid == field.grid,
                    r < self.rows@.len(),
                    self.rows@[r as int]@ == grid[r as int],
                    grid[r as int].len() == field.width,
                    c <= field.width,
                    blocks@.len() == FieldView::grid_count(grid.take(r as int))
                        + FieldView::row_count(grid[r as int].take(c as int)),
                    forall|k: int|
                        0 <= k < blocks@.len() ==> field.at((#[trigger] blocks@[k]).0@) == Some(
                            blocks@[k].1,
                        ) && FieldView::before(blocks@[k].0@, (c as int, r as int)),
                    forall|cell: (int, int)|
                        (#[trigger] field.at(cell)) is Some && FieldView::before(
                            cell,
                            (c as int, r as int),
                        ) ==> FieldView::listed(blocks@, cell),
                    forall|j: int, k: int|
                        0 <= j < k < blocks@.len() ==> FieldView::before(
                            (#[trigger] blocks@[j]).0@,
                            (#[trigger] blocks@[k]).0@,
                        ),
                decreases field.width - c,
            {
                let ghost earlier = blocks@;
                assert(grid[r as int].take(c + 1).drop_last() =~= grid[r as int].take(c as int));
                assert(grid[r as int].take(c + 1).last() == grid[r as int][c as int]);
                if let Some(color) = self.rows[r][c] {
                    let cell = Cell { column: c as i64, row: r as i64 };
                    blocks.push((cell, color));
                    proof {
                        assert(field.at(cell@) == Some(color));
                        assert(blocks@[earlier.len() as int] == (cell, color));
                        assert forall|k: int| 0 <= k < earlier.len() implies blocks@[k]
                            == earlier[k] by {}
                    }
                }
                proof {
                    assert forall|other: (int, int)|
                        (#[trigger] field.at(other)) is Some && FieldView::before(
                            other,
                            (c + 1, r as int),
                        ) implies FieldView::listed(blocks@, other) by {
                        if FieldView::before(other, (c as int, r as int)) {
                            let k = choose|k: int|
                                0 <= k < earlier.len() && (#[trigger] earlier[k]).0@ == other;
                            assert(blocks@[k].0@ == other);
                        } else {
                            assert(other == (c as int, r as int));
                            assert(blocks@[earlier.len() as int].0@ == other);
                        }
                    }
                }
                c += 1;
            }
            proof {
                assert(grid[r as int].take(grid[r as int].len() as int) =~= grid[r as int]);
                assert forall|other: (int, int)|
                    (#[trigger] field.at(other)) is Some && other.1 < r + 1 implies FieldView::listed(
                    blocks@,
                    other,
                ) by {
                    assert(FieldView::before(other, (c as int, r as int)));
                }
            }
            r += 1;
        }
        proof {
            assert(grid.take(grid.len() as int) =~= grid);
        }
        blocks
    }

    /// Whether a piece cell at `cell` would collide with a wall, the floor or
    /// a locked block.
    pub fn is_occupied(&self, cell: Cell) -> (b: bool)
        requires
            self.wf(),
        ensures
            b == self@.occupied(cell@),
    {
        if cell.column < 0 || cell.column >= self.width as i64 || cell.row < 0 {
            return true;
        }
        self.get(cell).is_some()
    }
}

impl Default for GameField {
    /// The empty field of the default size.
    fn default() -> (field: GameField)
        ensures
            field.wf(),
            field@ == FieldView::empty(10, 20, 22),
    {
        GameField::new(DEFAULT_SIZE.0, DEFAULT_SIZE.1)
    }
}

} // verus!
