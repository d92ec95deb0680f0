//! Piece shapes and the falling piece.

use vstd::prelude::*;
use crate::catalog::PieceCatalog;
use crate::collision::valid;
use crate::game::{Config, Game, Outcome};
use crate::game_view::GameView;
use crate::field_view::{cell_views, FieldView};
use crate::game_field::{Cell, GameField};

verus! {

/// The seven tetromino shapes.
#[derive(Clone, Copy, Debug, PartialEq, Eq, Hash, Structural)]
pub enum PieceType {
    I,
    O,
    T,
    S,
    Z,
    J,
    L,
}

impl PieceType {
    /// Position of the shape in the fixed order I, O, T, S, Z, J, L.
    pub open spec fn spec_index(self) -> int {
        match self {
            PieceType::I => 0,
            PieceType::O => 1,
            PieceType::T => 2,
            PieceType::S => 3,
            PieceType::Z => 4,
            PieceType::J => 5,
            PieceType::L => 6,
        }
    }

    /// Position of the shape in the fixed order I, O, T, S, Z, J, L.
    pub fn index(self) -> (i: usize)
        ensures
            i == self.spec_index(),
            i < 7,
    {
        match self {
            PieceType::I => 0,
            PieceType::O => 1,
            PieceType::T => 2,
            PieceType::S => 3,
            PieceType::Z => 4,
            PieceType::J => 5,
            PieceType::L => 6,
        }
    }

    /// The shape at position `i` of the fixed order, if there is one.
    pub fn from_index(i: usize) -> (t: Option<PieceType>)
        ensures
            i < 7 ==> t is Some && t->0.spec_index() == i,
            i >= 7 ==> t is None,
    {
        match i {
            0 => Some(PieceType::I),
            1 => Some(PieceType::O),
            2 => Some(PieceType::T),
            3 => Some(PieceType::S),
            4 => Some(PieceType::Z),
            5 => Some(PieceType::J),
            6 => Some(PieceType::L),
            _ => None,
        }
    }
}

/// Fill color of a block, as four 8-bit channels.
#[derive(Clone, Copy, Debug, PartialEq, Eq, Hash, Structural)]
pub struct Color {
    pub red: u8,
    pub green: u8,
    pub blue: u8,
    pub alpha: u8,
}

/// The four cells of one rotation state, each as a (column, row) offset.
pub type Blocks = [(i8, i8); 4];

/// What the catalog knows of one shape.
#[derive(Clone, Copy, Debug)]
pub struct PieceData {
    /// One layout per rotation state.
    pub layouts: [Blocks; 4],
    /// Fill color of the shape's blocks.
    pub color: Color,
    /// Offset added to every cell of every layout.
    pub spawn_offset: (i8, i8),
}

impl PieceData {
    /// Offset of block `i` in rotation state `rotation`, relative to the
    /// anchor of the piece.
    pub open spec fn offset(self, rotation: int, i: int) -> (int, int) {
        (
            self.spawn_offset.0 + self.layouts[rotation][i].0,
            self.spawn_offset.1 + self.layouts[rotation][i].1,
        )
    }

    /// The four blocks of rotation state `rotation` lie on four different
    /// cells.
    pub open spec fn distinct_at(self, rotation: int) -> bool {
        forall|i: int, j: int|
            0 <= i < j < 4 ==> self.layouts[rotation][i] != self.layouts[rotation][j]
    }

    /// The first rotation state in which two blocks share a cell.
    pub open spec fn first_repeated(self) -> Option<int> {
        if !self.distinct_at(0) {
            Some(0int)
        } else if !self.distinct_at(1) {
            Some(1int)
        } else if !self.distinct_at(2) {
            Some(2int)
        } else if !self.distinct_at(3) {
            Some(3int)
        } else {
            None
        }
    }

    /// Every rotation state occupies four different cells.
    pub open spec fn wf(self) -> bool {
        forall|rotation: int| 0 <= rotation < 4 ==> self.distinct_at(rotation)
    }

    /// Whether the four blocks of one layout lie on four different cells.
    pub fn layout_is_distinct(&self, rotation: usize) -> (b: bool)
        requires
            rotation < 4,
        ensures
            b == self.distinct_at(rotation as int),
    {
        let l = &self.layouts[rotation];
        let b = !same_offset(l[0], l[1]) && !same_offset(l[0], l[2]) && !same_offset(l[0], l[3])
            && !same_offset(l[1], l[2]) && !same_offset(l[1], l[3]) && !same_offset(l[2], l[3]);
        proof {
            if b {
                assert forall|i: int, j: int| 0 <= i < j < 4 implies l[i] != l[j] by {
                    assert(i == 0 || i == 1 || i == 2);
                    assert(j == 1 || j == 2 || j == 3);
                }
            }
        }
        b
    }

    /// The first rotation state in which two blocks share a cell, if any.
    pub fn find_repeated(&self) -> (r: Option<usize>)
        ensures
            r is Some <==> self.first_repeated() is Some,
            r is Some ==> r->0 == self.first_repeated()->0,
            r is None <==> self.wf(),
    {
        if !self.layout_is_distinct(0) {
            Some(0)
        } else if !self.layout_is_distinct(1) {
            Some(1)
        } else if !self.layout_is_distinct(2) {
            Some(2)
        } else if !self.layout_is_distinct(3) {
            Some(3)
        } else {
            None
        }
    }
}

/// Whether two offsets name the same cell.
pub fn same_offset(a: (i8, i8), b: (i8, i8)) -> (r: bool)
    ensures
        r == (a == b),
{
    a.0 == b.0 && a.1 == b.1
}

/// Anchor of a piece on the field, as (column, row).
#[derive(Clone, Copy, Debug, PartialEq, Eq, Hash, Structural)]
pub struct Position(pub i32, pub i32);

/// Column and row of the anchor with which pieces enter a field of the
/// default size.
pub const SPAWN_POINT: (i32, i32) = (4, 20);

/// The two ways to turn a piece.
#[derive(Clone, Copy, Debug, PartialEq, Eq, Hash, Structural)]
pub enum Direction {
    Clockwise,
    CounterClockwise,
}

/// A request to turn the falling piece once.
#[derive(Clone, Copy, Debug, PartialEq, Eq, Hash, Structural)]
pub struct RotationEvent {
    pub direction: Direction,
}

/// The rotation state that follows `rotation` when a piece is turned once.
pub open spec fn turn(rotation: int, direction: Direction) -> int {
    match direction {
        Direction::Clockwise => (rotation + 1) % 4,
        Direction::CounterClockwise => (rotation + 3) % 4,
    }
}

impl Direction {
    /// The rotation state that follows `rotation` when a piece is turned once
    /// in this direction.
    pub fn turn(self, rotation: usize) -> (next: usize)
        requires
            rotation < 4,
        ensures
            next == turn(rotation as int, self),
            next < 4,
    {
        match self {
            Direction::Clockwise => if rotation >= 3 {
                0
            } else {
                rotation + 1
            },
            Direction::CounterClockwise => if rotation == 0 {
                3
            } else {
                rotation - 1
            },
        }
    }
}

/// The falling piece as a mathematical value.
pub struct PieceView {
    pub typ: PieceType,
    /// Rotation state, 0 to 3.
    pub rotation: int,
    /// Column of the anchor.
    pub column: int,
    /// Row of the anchor.
    pub row: int,
}

impl PieceView {
    /// The rotation state is one of the four, and the anchor can be stored.
    pub open spec fn wf(self) -> bool {
        &&& 0 <= self.rotation < 4
        &&& i32::MIN <= self.column <= i32::MAX
        &&& i32::MIN <= self.row <= i32::MAX
    }

    /// The piece turned once, its anchor unchanged.
    pub open spec fn rotated(self, direction: Direction) -> PieceView {
        PieceView { rotation: turn(self.rotation, direction), ..self }
    }

    /// The piece with its anchor shifted.
    pub open spec fn moved(self, columns: int, rows: int) -> PieceView {
        PieceView { column: self.column + columns, row: self.row + rows, ..self }
    }

    /// The four cells that the piece occupies: for each block the anchor plus
    /// the spawn offset plus the block's offset in the current layout.
    pub open spec fn cells(self, data: PieceData) -> Seq<(int, int)> {
        Seq::new(
            4,
            |i: int|
                (
                    self.column + data.offset(self.rotation, i).0,
                    self.row + data.offset(self.rotation, i).1,
                ),
        )
    }

    /// Whether the piece may stand where it is: its anchor can be stored and
    /// none of its cells collides.
    pub open spec fn fits(self, field: FieldView, data: PieceData) -> bool {
        self.wf() && field.valid(self.cells(data))
    }

    /// Candidate `k` of a rotation. Candidate 0 is the piece turned in place;
    /// candidate `k` for `k >= 1` is the turned piece shifted by `kicks[k - 1]`.
    pub open spec fn candidate(self, direction: Direction, kicks: Seq<(i8, i8)>, k: int) -> PieceView {
        if k == 0 {
            self.rotated(direction)
        } else {
            self.rotated(direction).moved(kicks[k - 1].0 as int, kicks[k - 1].1 as int)
        }
    }

    /// The first candidate from number `k` on that fits, if there is one.
    pub open spec fn first_fit(
        self,
        field: FieldView,
        data: PieceData,
        direction: Direction,
        kicks: Seq<(i8, i8)>,
        k: int,
    ) -> Option<PieceView>
        decreases kicks.len() + 1 - k,
    {
        if k < 0 || k > kicks.len() {
            None
        } else if self.candidate(direction, kicks, k).fits(field, data) {
            Some(self.candidate(direction, kicks, k))
        } else {
            self.first_fit(field, data, direction, kicks, k + 1)
        }
    }

    /// What a rotation request leads to: the piece turned in place if that
    /// fits; else the turned piece shifted by the first of `kicks` with which
    /// it fits; else nothing.
    pub open spec fn try_rotate(
        self,
        field: FieldView,
        data: PieceData,
        direction: Direction,
        kicks: Seq<(i8, i8)>,
    ) -> Option<PieceView> {
        self.first_fit(field, data, direction, kicks, 0)
    }
}

/// From candidate `k` on, a rotation request yields the first candidate that
/// fits, and nothing when none fits.
proof fn lemma_first_fit(
    piece: PieceView,
    field: FieldView,
    data: PieceData,
    direction: Direction,
    kicks: Seq<(i8, i8)>,
    k: int,
)
    requires
        0 <= k <= kicks.len() + 1,
    ensures
        match piece.first_fit(field, data, direction, kicks, k) {
            Some(q) => exists|m: int|
                k <= m <= kicks.len() && q == #[trigger] piece.candidate(direction, kicks, m)
                    && q.fits(field, data) && forall|j: int|
                    k <= j < m ==> !(#[trigger] piece.candidate(direction, kicks, j)).fits(
                        field,
                        data,
                    ),
            None => forall|m: int|
                k <= m <= kicks.len() ==> !(#[trigger] piece.candidate(direction, kicks, m)).fits(
                    field,
                    data,
                ),
        },
    decreases kicks.len() + 1 - k,
{
    if k <= kicks.len() {
        let here = piece.candidate(direction, kicks, k);
        if !here.fits(field, data) {
            lemma_first_fit(piece, field, data, direction, kicks, k + 1);
            match piece.first_fit(field, data, direction, kicks, k + 1) {
                Some(q) => {
                    let m = choose|m: int|
                        k + 1 <= m <= kicks.len() && q == #[trigger] piece.candidate(
                            direction,
                            kicks,
                            m,
                        ) && q.fits(field, data) && forall|j: int|
                            k + 1 <= j < m ==> !(#[trigger] piece.candidate(
                                direction,
                                kicks,
                                j,
                            )).fits(field, data);
                    assert(k <= m <= kicks.len() && q == piece.candidate(direction, kicks, m));
                },
                None => {},
            }
        } else {
            assert(k <= k <= kicks.len() && here == piece.candidate(direction, kicks, k));
        }
    }
}

/// A rotation request yields the first candidate that fits: the piece turned
/// in place, or else the turned piece shifted by the earliest kick with which
/// it fits. It is rejected exactly when no candidate fits. What it yields has
/// the shape of the piece and the rotation state that follows its own.
pub proof fn lemma_try_rotate(
    piece: PieceView,
    field: FieldView,
    data: PieceData,
    direction: Direction,
    kicks: Seq<(i8, i8)>,
)
    ensures
        match piece.try_rotate(field, data, direction, kicks) {
            Some(q) => q.fits(field, data) && q.typ == piece.typ && q.rotation == turn(
                piece.rotation,
                direction,
            ) && exists|m: int|
                0 <= m <= kicks.len() && q == #[trigger] piece.candidate(direction, kicks, m)
                    && forall|j: int|
                    0 <= j < m ==> !(#[trigger] piece.candidate(direction, kicks, j)).fits(
                        field,
                        data,
                    ),
            None => forall|m: int|
                0 <= m <= kicks.len() ==> !(#[trigger] piece.candidate(direction, kicks, m)).fits(
                    field,
                    data,
                ),
        },
{
    lemma_first_fit(piece, field, data, direction, kicks, 0);
}

/// Whatever the shape and wherever the anchor, a piece occupies exactly four
/// cells, all different, in each of its rotation states.
pub proof fn lemma_cells_distinct(piece: PieceView, data: PieceData)
    requires
        0 <= piece.rotation < 4,
        data.wf(),
    ensures
        piece.cells(data).len() == 4,
        piece.cells(data).no_duplicates(),
{
    let cells = piece.cells(data);
    assert(data.distinct_at(piece.rotation));
    assert forall|i: int, j: int| 0 <= i < cells.len() && 0 <= j < cells.len() && i != j implies
        cells[i] != cells[j] by {
        let a = data.layouts[piece.rotation][i];
        let b = data.layouts[piece.rotation][j];
        if i < j {
            assert(a != b);
        } else {
            assert(b != a);
        }
        assert(a.0 != b.0 || a.1 != b.1);
    }
}

/// Turning a piece four times in one direction brings it back to where it
/// was: the rotation state is the same again, and the anchor never moved.
pub proof fn lemma_rotation_closed(piece: PieceView, direction: Direction)
    requires
        0 <= piece.rotation < 4,
    ensures
        turn(turn(turn(turn(piece.rotation, direction), direction), direction), direction)
            == piece.rotation,
        piece.rotated(direction).rotated(direction).rotated(direction).rotated(direction)
            == piece,
        0 <= turn(piece.rotation, direction) < 4,
{
}

/// The falling piece: a shape, one of its four rotation states, and the cell
/// that its blocks are placed around.
#[derive(Clone, Copy, Debug, PartialEq, Eq, Hash, Structural)]
pub struct Piece {
    typ: PieceType,
    rotation: usize,
    position: Position,
}

impl View for Piece {
    type V = PieceView;

    closed spec fn view(&self) -> PieceView {
        PieceView {
            typ: self.typ,
            rotation: self.rotation as int,
            column: self.position.0 as int,
            row: self.position.1 as int,
        }
    }
}

impl Piece {
    /// The rotation state is one of the four.
    pub open spec fn wf(&self) -> bool {
        self@.wf()
    }

    /// A piece of shape `typ` anchored at `position`. The rotation state is
    /// taken modulo 4.
    pub fn new(typ: PieceType, rotation: usize, position: Position) -> (piece: Piece)
        ensures
            piece.wf(),
            piece@ == (PieceView {
                typ,
                rotation: rotation as int % 4,
                column: position.0 as int,
                row: position.1 as int,
            }),
    {
        Piece { typ, rotation: rotation % 4, position }
    }

    /// The shape.
    pub fn typ(&self) -> (typ: PieceType)
        ensures
            typ == self@.typ,
    {
        self.typ
    }

    /// The rotation state.
    pub fn rotation(&self) -> (rotation: usize)
        ensures
            rotation == self@.rotation,
    {
        self.rotation
    }

    /// The anchor.
    pub fn position(&self) -> (position: Position)
        ensures
            position.0 == self@.column,
            position.1 == self@.row,
    {
        self.position
    }

    /// The four cells that the piece occupies.
    pub fn cells(&self, catalog: &PieceCatalog) -> (cells: [Cell; 4])
        requires
            self.wf(),
            catalog.wf(),
        ensures
            cell_views(cells@) == self@.cells(catalog.data(self@.typ)),
    {
        let data = catalog.get(self.typ);
        let layout = &data.layouts[self.rotation];
        let cells = [
            PiecesPlugin::spawn_block(layout[0], data.spawn_offset, self.position),
            PiecesPlugin::spawn_block(layout[1], data.spawn_offset, self.position),
            PiecesPlugin::spawn_block(layout[2], data.spawn_offset, self.position),
            PiecesPlugin::spawn_block(layout[3], data.spawn_offset, self.position),
        ];
        assert(cell_views(cells@) =~= self@.cells(catalog.data(self@.typ)));
        cells
    }

    /// The piece turned once, its anchor unchanged.
    pub fn rotated(&self, direction: Direction) -> (piece: Piece)
        requires
            self.wf(),
        ensures
            piece.wf(),
            piece@ == self@.rotated(direction),
    {
        Piece { typ: self.typ, rotation: direction.turn(self.rotation), position: self.position }
    }

    /// The piece with its anchor shifted, unless the new anchor cannot be
    /// stored.
    pub fn moved(&self, columns: i8, rows: i8) -> (piece: Option<Piece>)
        requires
            self.wf(),
        ensures
            match piece {
                Some(p) => p.wf() && p@ == self@.moved(columns as int, rows as int),
                None => !self@.moved(columns as int, rows as int).wf(),
            },
    {
        let column = self.position.0 as i64 + columns as i64;
        let row = self.position.1 as i64 + rows as i64;
        if column < i32::MIN as i64 || column > i32::MAX as i64 || row < i32::MIN as i64 || row
            > i32::MAX as i64 {
            return None;
        }
        Some(
            Piece {
                typ: self.typ,
                rotation: self.rotation,
                position: Position(column as i32, row as i32),
            },
        )
    }
}

/// Applies a rotation request: tries the piece turned in place, then the
/// turned piece shifted by each of `kicks` in order, and returns the first of
/// them that collides with nothing. Returns `None`, the request rejected, when
/// none does.
pub fn try_rotate(
    piece: &Piece,
    field: &GameField,
    catalog: &PieceCatalog,
    direction: Direction,
    kicks: &Vec<(i8, i8)>,
) -> (turned: Option<Piece>)
    requires
        piece.wf(),
        field.wf(),
        catalog.wf(),
    ensures
        match turned {
            Some(p) => p.wf() && p@.typ == piece@.typ && p@.fits(field@, catalog.data(p@.typ))
                && piece@.try_rotate(field@, catalog.data(piece@.typ), direction, kicks@) == Some(
                p@,
            ),
            None => piece@.try_rotate(field@, catalog.data(piece@.typ), direction, kicks@) is None,
        },
{
    let ghost data = catalog.data(piece@.typ);
    proof {
        lemma_try_rotate(piece@, field@, data, direction, kicks@);
    }
    let rotated = piece.rotated(direction);
    if valid(field, &rotated.cells(catalog)) {
        return Some(rotated);
    }
    let mut k: usize = 0;
    while k < kicks.len()
        invariant
            k <= kicks.len(),
            piece.wf(),
            field.wf(),
            catalog.wf(),
            rotated.wf(),
            rotated@ == piece@.rotated(direction),
            data == catalog.data(piece@.typ),
            piece@.try_rotate(field@, data, direction, kicks@) == piece@.first_fit(
                field@,
                data,
                direction,
                kicks@,
                k + 1,
            ),
        decreases kicks.len() - k,
    {
        let kick = kicks[k];
        if let Some(shifted) = rotated.moved(kick.0, kick.1) {
            if valid(field, &shifted.cells(catalog)) {
                return Some(shifted);
            }
        }
        k += 1;
    }
    None
}

/// The systems that spawn, place and turn the falling piece.
pub struct PiecesPlugin;

impl PiecesPlugin {
    /// A new session with the default options, in which an L piece is the
    /// first that is asked to enter.
    pub fn test_startup(catalog: PieceCatalog) -> (game: Game)
        requires
            catalog.wf(),
        ensures
            game.wf(),
            game@ == (GameView {
                catalog,
                field: FieldView::empty(10, 20, 22),
                active: None,
                spawn_point: Position(4, 20),
                kicks: Seq::empty(),
                gravity_interval_ms: 1000,
            }).spawned(PieceType::L),
    {
        Game::new(catalog, Config::default(), PieceType::L)
    }

    /// The cell of one block of a piece: the anchor of the piece plus the
    /// block's offset in its layout plus the spawn offset of the shape.
    pub fn spawn_block(position: (i8, i8), offset: (i8, i8), piece_position: Position) -> (cell:
        Cell)
        ensures
            cell@ == (
                piece_position.0 + position.0 + offset.0,
                piece_position.1 + position.1 + offset.1,
            ),
    {
        Cell {
            column: piece_position.0 as i64 + position.0 as i64 + offset.0 as i64,
            row: piece_position.1 as i64 + position.1 as i64 + offset.1 as i64,
        }
    }

    /// A new piece of shape `typ` in rotation state `rotation`, anchored at
    /// `spawn_point`, together with the cells of its four blocks.
    pub fn spawn_piece(
        typ: PieceType,
        rotation: usize,
        spawn_point: Position,
        catalog: &PieceCatalog,
    ) -> (spawned: (Piece, [Cell; 4]))
        requires
            rotation < 4,
            catalog.wf(),
        ensures
            spawned.0.wf(),
            spawned.0@ == (PieceView {
                typ,
                rotation: rotation as int,
                column: spawn_point.0 as int,
                row: spawn_point.1 as int,
            }),
            cell_views(spawned.1@) == spawned.0@.cells(catalog.data(typ)),
    {
        let piece = Piece { typ, rotation, position: spawn_point };
        let cells = piece.cells(catalog);
        (piece, cells)
    }

    /// Applies the rotation requests of a frame to the falling piece, one
    /// after the other in the order in which they arrived. A request that
    /// cannot be carried out changes nothing. Returns how many requests
    /// turned the piece.
    pub fn handle_rotation(input: &Vec<RotationEvent>, game: &mut Game) -> (turns: usize)
        requires
            old(game).wf(),
        ensures
            final(game).wf(),
            final(game)@ == old(game)@.rotated_all(input@),
            turns == old(game)@.accepted(input@),
    {
        let mut turns: usize = 0;
        let mut i: usize = 0;
        while i < input.len()
            invariant
                i <= input.len(),
                turns <= i,
                game.wf(),
                game@ == old(game)@.rotated_all(input@.take(i as int)),
                turns == old(game)@.accepted(input@.take(i as int)),
            decreases input.len() - i,
        {
            assert(input@.take(i + 1).drop_last() =~= input@.take(i as int));
            assert(input@.take(i + 1).last() == input@[i as int]);
            match game.rotate(input[i].direction) {
                Outcome::Moved => {
                    turns += 1;
                },
                _ => {},
            }
            i += 1;
        }
        assert(input@.take(input@.len() as int) =~= input@);
        turns
    }

    /// Where a piece anchored at `position` is drawn, in world units, when
    /// the camera looks at the middle of a field of the default size.
    pub fn update_piece_translation(position: Position) -> (translation: (i64, i64))
        ensures
            translation.0 == position.0 - 5,
            translation.1 == position.1 - 11,
    {
        (position.0 as i64 - 5, position.1 as i64 - 11)
    }
}

} // verus!
