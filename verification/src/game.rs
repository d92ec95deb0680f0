//! One game session: the field, the falling piece, and the rules by which
//! player commands and gravity ticks change them.
//!
//! The host feeds commands and ticks to the session one at a time, in the
//! order in which they arrive, and draws what the session reports.

use vstd::prelude::*;
use crate::catalog::PieceCatalog;
use crate::collision::valid;
use crate::field_view::{
    cell_views,
    lemma_compact_no_full_row,
    lemma_empty_no_full_row,
    lemma_lock_full_rows,
    FieldView,
};
use crate::game_field::{Cell, GameField, DEFAULT_HEADROOM, DEFAULT_SIZE};
use crate::game_view::{lemma_fits_near, GameView};
use crate::pieces::{
    try_rotate,
    Color,
    Direction,
    Piece,
    PieceType,
    PiecesPlugin,
    Position,
    SPAWN_POINT,
};

verus! {

/// What a player can ask of the falling piece.
#[derive(Clone, Copy, Debug, PartialEq, Eq, Hash, Structural)]
pub enum Command {
    RotateClockwise,
    RotateCounterClockwise,
    MoveLeft,
    MoveRight,
    /// Move down by one row.
    SoftDrop,
    /// Fall as far as possible and lock at once.
    HardDrop,
}

/// What a command or a gravity tick did to the session.
#[derive(Clone, Copy, Debug, PartialEq, Eq, Hash, Structural)]
pub enum Outcome {
    /// Nothing changed: the move or rotation was not possible, or the game is
    /// over.
    Rejected,
    /// The falling piece moved or turned; the field is unchanged.
    Moved,
    /// The falling piece was locked, `rows_cleared` completed rows were
    /// removed, and the next piece entered.
    Locked { rows_cleared: usize },
    /// The game has ended. Either the falling piece was locked,
    /// `rows_cleared` completed rows were removed, and the next piece could
    /// not enter; or the falling piece came to rest on cells that the grid
    /// does not store, and nothing was locked.
    GameOver { rows_cleared: usize },
}

impl Outcome {
    /// The number of rows that the outcome reports as removed.
    pub open spec fn cleared(self) -> nat {
        match self {
            Outcome::Locked { rows_cleared } => rows_cleared as nat,
            Outcome::GameOver { rows_cleared } => rows_cleared as nat,
            _ => 0,
        }
    }

    /// Whether there is anything new to draw: the outcome is no rejection.
    pub fn changed(&self) -> (changed: bool)
        ensures
            changed == !(self is Rejected),
    {
        match self {
            Outcome::Rejected => false,
            _ => true,
        }
    }

    /// The number of rows that were removed.
    pub fn rows_cleared(&self) -> (rows: usize)
        ensures
            rows == self.cleared(),
    {
        match self {
            Outcome::Locked { rows_cleared } => *rows_cleared,
            Outcome::GameOver { rows_cleared } => *rows_cleared,
            _ => 0,
        }
    }
}

/// The options of a session.
#[derive(Debug)]
pub struct Config {
    /// Number of columns of the field.
    pub width: u16,
    /// Number of visible rows of the field.
    pub height: u16,
    /// Number of rows stored above the visible ones.
    pub headroom: u16,
    /// Anchor with which pieces enter the field.
    pub spawn_point: Position,
    /// Time between two gravity ticks, in milliseconds.
    pub gravity_interval_ms: u64,
    /// Shifts to try, in this order, when a piece cannot turn in place.
    pub kicks: Vec<(i8, i8)>,
}

impl Default for Config {
    /// A field of 10 columns and 20 visible rows with 2 rows above them,
    /// pieces entering at column 4 on top of the visible rows, one gravity
    /// tick per second, and no kicks.
    fn default() -> (config: Config)
        ensures
            config.width == 10,
            config.height == 20,
            config.headroom == 2,
            config.spawn_point == Position(4, 20),
            config.gravity_interval_ms == 1000,
            config.kicks@ == Seq::<(i8, i8)>::empty(),
    {
        Config {
            width: DEFAULT_SIZE.0,
            height: DEFAULT_SIZE.1,
            headroom: DEFAULT_HEADROOM,
            spawn_point: Position(SPAWN_POINT.0, SPAWN_POINT.1),
            gravity_interval_ms: 1000,
            kicks: Vec::new(),
        }
    }
}

/// The falling piece as the host draws it.
#[derive(Clone, Copy, Debug)]
pub struct ActiveSnapshot {
    /// The four cells that the piece occupies.
    pub cells: [Cell; 4],
    /// The fill color of its shape.
    pub color: Color,
    /// Its rotation state.
    pub rotation: usize,
}

/// What the host draws: the locked cells and the falling piece.
#[derive(Debug)]
pub struct Snapshot {
    /// The locked cells with their colors, row by row from the bottom, each
    /// row from the left.
    pub locked: Vec<(Cell, Color)>,
    /// The falling piece; `None` when the game is over.
    pub active: Option<ActiveSnapshot>,
}

/// One game session.
pub struct Game {
    catalog: PieceCatalog,
    field: GameField,
    active: Option<Piece>,
    spawn_point: Position,
    kicks: Vec<(i8, i8)>,
    gravity_interval_ms: u64,
}

impl View for Game {
    type V = GameView;

    closed spec fn view(&self) -> GameView {
        GameView {
            catalog: self.catalog,
            field: self.field@,
            active: match self.active {
                Some(p) => Some(p@),
                None => None,
            },
            spawn_point: self.spawn_point,
            kicks: self.kicks@,
            gravity_interval_ms: self.gravity_interval_ms,
        }
    }
}

impl Game {
    /// The field fits the machine types that it is kept in.
    pub closed spec fn inv(&self) -> bool {
        self.field.wf()
    }

    /// The session is well formed: the falling piece collides with nothing.
    pub open spec fn wf(&self) -> bool {
        self@.wf() && self.inv()
    }

    /// A new session on an empty field, with a piece of shape `first` asked
    /// to enter.
    pub fn new(catalog: PieceCatalog, config: Config, first: PieceType) -> (game: Game)
        requires
            catalog.wf(),
        ensures
            game.wf(),
            game@ == (GameView {
                catalog,
                field: FieldView::empty(
                    config.width as nat,
                    config.height as nat,
                    (config.height + config.headroom) as nat,
                ),
                active: None,
                spawn_point: config.spawn_point,
                kicks: config.kicks@,
                gravity_interval_ms: config.gravity_interval_ms,
            }).spawned(first),
    {
        let field = GameField::with_headroom(config.width, config.height, config.headroom);
        proof {
            if config.width > 0 {
                lemma_empty_no_full_row(
                    config.width as nat,
                    config.height as nat,
                    (config.height + config.headroom) as nat,
                );
            }
        }
        let mut game = Game {
            catalog,
            field,
            active: None,
            spawn_point: config.spawn_point,
            kicks: config.kicks,
            gravity_interval_ms: config.gravity_interval_ms,
        };
        game.spawn(first);
        game
    }

    /// The field.
    pub fn field(&self) -> (field: &GameField)
        ensures
            field@ == self@.field,
            self.wf() ==> field.wf(),
    {
        &self.field
    }

    /// The catalog.
    pub fn catalog(&self) -> (catalog: &PieceCatalog)
        ensures
            *catalog == self@.catalog,
    {
        &self.catalog
    }

    /// The falling piece, unless the game is over.
    pub fn active(&self) -> (piece: Option<Piece>)
        ensures
            piece is Some <==> self@.active is Some,
            piece matches Some(p) ==> self@.active == Some(p@),
    {
        self.active
    }

    /// Whether the game is over.
    pub fn is_over(&self) -> (over: bool)
        ensures
            over == self@.active is None,
    {
        self.active.is_none()
    }

    /// The anchor with which pieces enter the field.
    pub fn spawn_point(&self) -> (point: Position)
        ensures
            point == self@.spawn_point,
    {
        self.spawn_point
    }

    /// Time between two gravity ticks, in milliseconds.
    pub fn gravity_interval_ms(&self) -> (ms: u64)
        ensures
            ms == self@.gravity_interval_ms,
    {
        self.gravity_interval_ms
    }

    /// Sets the time between two gravity ticks.
    pub fn set_gravity_interval_ms(&mut self, ms: u64)
        ensures
            final(self)@ == (GameView { gravity_interval_ms: ms, ..old(self)@ }),
            old(self).wf() ==> final(self).wf(),
    {
        self.gravity_interval_ms = ms;
    }

    /// Asks a piece of shape `typ` to enter the field. If it collides, the
    /// game is over. The field stays as it is. Returns whether the piece
    /// entered.
    fn spawn(&mut self, typ: PieceType) -> (entered: bool)
        requires
            old(self).wf(),
        ensures
            final(self).wf(),
            final(self)@ == old(self)@.spawned(typ),
            final(self)@.field == old(self)@.field,
            entered == final(self)@.active is Some,
    {
        let (piece, cells) = PiecesPlugin::spawn_piece(typ, 0, self.spawn_point, &self.catalog);
        if valid(&self.field, &cells) {
            self.active = Some(piece);
            true
        } else {
            self.active = None;
            false
        }
    }

    /// Asks the falling piece to shift by `columns` and `rows`. It does if it
    /// then collides with nothing; else nothing changes.
    pub fn shift(&mut self, columns: i8, rows: i8) -> (out: Outcome)
        requires
            old(self).wf(),
        ensures
            final(self).wf(),
            final(self)@ == old(self)@.shifted(columns as int, rows as int).0,
            out == old(self)@.shifted(columns as int, rows as int).1,
    {
        if let Some(piece) = self.active {
            if let Some(moved) = piece.moved(columns, rows) {
                if valid(&self.field, &moved.cells(&self.catalog)) {
                    self.active = Some(moved);
                    return Outcome::Moved;
                }
            }
        }
        Outcome::Rejected
    }

    /// Asks the falling piece to turn once. It does if it then collides with
    /// nothing, in place or shifted by one of the kicks; else nothing changes.
    pub fn rotate(&mut self, direction: Direction) -> (out: Outcome)
        requires
            old(self).wf(),
        ensures
            final(self).wf(),
            final(self)@ == old(self)@.rotated(direction).0,
            out == old(self)@.rotated(direction).1,
    {
        if let Some(piece) = self.active {
            if let Some(turned) = try_rotate(
                &piece,
                &self.field,
                &self.catalog,
                direction,
                &self.kicks,
            ) {
                self.active = Some(turned);
                return Outcome::Moved;
            }
        }
        Outcome::Rejected
    }

    /// Locks the falling piece where it is, removes the completed rows, and
    /// asks a piece of shape `next` to enter. If the grid does not store all
    /// cells of the falling piece, nothing is locked and the game is over.
    pub fn lock_and_clear(&mut self, next: PieceType) -> (out: Outcome)
        requires
            old(self).wf(),
        ensures
            final(self).wf(),
            final(self)@ == old(self)@.landed(next).0,
            out == old(self)@.landed(next).1,
            out.cleared() <= 4,
    {
        let piece = match self.active {
            Some(p) => p,
            None => {
                return Outcome::Rejected;
            },
        };
        let cells = piece.cells(&self.catalog);
        self.active = None;
        if !self.field.can_lock(&cells) {
            return Outcome::GameOver { rows_cleared: 0 };
        }
        let color = self.catalog.color(piece.typ());
        proof {
            let field = old(self)@.field;
            let views = cell_views(cells@);
            assert(field.stored(views[0]));
            lemma_lock_full_rows(field, views, color);
            lemma_compact_no_full_row(field.lock(views, color));
        }
        self.field.lock(&cells, color);
        let rows_cleared = self.field.clear_completed_rows();
        if self.spawn(next) {
            Outcome::Locked { rows_cleared }
        } else {
            Outcome::GameOver { rows_cleared }
        }
    }

    /// Lets the falling piece fall as far as it can and locks it there at
    /// once.
    pub fn hard_drop(&mut self, next: PieceType) -> (out: Outcome)
        requires
            old(self).wf(),
        ensures
            final(self).wf(),
            final(self)@ == old(self)@.hard_dropped(next).0,
            out == old(self)@.hard_dropped(next).1,
            out.cleared() <= 4,
    {
        let mut piece = match self.active {
            Some(p) => p,
            None => {
                return Outcome::Rejected;
            },
        };
        let ghost start = piece@;
        loop
            invariant
                *self == *old(self),
                self.wf(),
                piece.wf(),
                piece@.typ == start.typ,
                piece@.fits(self@.field, self@.data(piece@)),
                self@.landing(start) == self@.landing(piece@),
            ensures
                piece@ == self@.landing(start),
            decreases piece@.row + 255,
        {
            proof {
                lemma_fits_near(piece@, self@.field, self@.data(piece@));
            }
            match piece.moved(0, -1) {
                Some(below) => {
                    if valid(&self.field, &below.cells(&self.catalog)) {
                        piece = below;
                    } else {
                        break ;
                    }
                },
                None => {
                    break ;
                },
            }
        }
        self.active = Some(piece);
        self.lock_and_clear(next)
    }

    /// What the host draws after a change: every locked cell with its color,
    /// and the cells, color and rotation state of the falling piece.
    pub fn snapshot(&self) -> (snapshot: Snapshot)
        requires
            self.wf(),
        ensures
            self@.field.lists(snapshot.locked@),
            snapshot.locked@.len() == self@.field.locked_count(),
            snapshot.active is Some <==> self@.active is Some,
            snapshot.active matches Some(a) ==> {
                &&& cell_views(a.cells@) == self@.active->0.cells(self@.data(self@.active->0))
                &&& a.color == self@.data(self@.active->0).color
                &&& a.rotation == self@.active->0.rotation
            },
    {
        let locked = self.field.locked_cells();
        let active = match self.active {
            Some(piece) => Some(
                ActiveSnapshot {
                    cells: piece.cells(&self.catalog),
                    color: self.catalog.color(piece.typ()),
                    rotation: piece.rotation(),
                },
            ),
            None => None,
        };
        Snapshot { locked, active }
    }

    /// Applies a player command. `next` is the shape that enters if the
    /// command locks the falling piece. A command that cannot be carried out
    /// changes nothing.
    pub fn apply(&mut self, command: Command, next: PieceType) -> (out: Outcome)
        requires
            old(self).wf(),
        ensures
            final(self).wf(),
            final(self)@ == old(self)@.applied(command, next).0,
            out == old(self)@.applied(command, next).1,
            out.cleared() <= 4,
    {
        match command {
            Command::RotateClockwise => self.rotate(Direction::Clockwise),
            Command::RotateCounterClockwise => self.rotate(Direction::CounterClockwise),
            Command::MoveLeft => self.shift(-1, 0),
            Command::MoveRight => self.shift(1, 0),
            Command::SoftDrop => self.shift(0, -1),
            Command::HardDrop => self.hard_drop(next),
        }
    }
}

} // verus!
