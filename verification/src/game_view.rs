//! One game session as a mathematical value: what commands and gravity ticks
//! do to it, and what holds of every session.

use vstd::prelude::*;
use crate::catalog::PieceCatalog;
use crate::field_view::{
    lemma_compact_count,
    lemma_compact_no_full_row,
    lemma_compact_wf,
    lemma_lock_count,
    lemma_lock_full_rows,
    FieldView,
};
use crate::game::{Command, Outcome};
use crate::pieces::{
    lemma_cells_distinct,
    lemma_try_rotate,
    Direction,
    PieceData,
    PieceType,
    PieceView,
    Position,
    RotationEvent,
};

verus! {

/// A session as a mathematical value.
#[verifier::ext_equal]
pub struct GameView {
    pub catalog: PieceCatalog,
    pub field: FieldView,
    /// The falling piece; `None` when the game is over.
    pub active: Option<PieceView>,
    pub spawn_point: Position,
    pub kicks: Seq<(i8, i8)>,
    pub gravity_interval_ms: u64,
}

/// A piece that fits has its anchor within 254 cells of the field.
pub proof fn lemma_fits_near(piece: PieceView, field: FieldView, data: PieceData)
    requires
        piece.fits(field, data),
    ensures
        piece.row >= -254,
        -254 <= piece.column < field.width + 256,
{
    let cells = piece.cells(data);
    assert(!field.occupied(cells[0]));
}

impl GameView {
    /// What the catalog holds for the shape of `piece`.
    pub open spec fn data(self, piece: PieceView) -> PieceData {
        self.catalog.data(piece.typ)
    }

    /// The catalog and the field are well formed, the falling piece collides
    /// with nothing, and no row of the field is completed: completed rows
    /// are removed as soon as they arise. (A field without columns is left
    /// out: each of its rows is completed, having no cell to fill.)
    pub open spec fn wf(self) -> bool {
        &&& self.catalog.wf()
        &&& self.field.wf()
        &&& self.active matches Some(p) ==> p.fits(self.field, self.data(p))
        &&& self.field.width > 0 ==> self.field.no_full_row()
    }

    /// The piece of shape `typ` as it enters the field: in rotation state 0,
    /// anchored at the spawn point.
    pub open spec fn entering(self, typ: PieceType) -> PieceView {
        PieceView {
            typ,
            rotation: 0,
            column: self.spawn_point.0 as int,
            row: self.spawn_point.1 as int,
        }
    }

    /// The session after a piece of shape `typ` was asked to enter: it is the
    /// falling piece if it collides with nothing, else the game is over. The
    /// field is the same in both cases.
    pub open spec fn spawned(self, typ: PieceType) -> GameView {
        let piece = self.entering(typ);
        GameView {
            active: if piece.fits(self.field, self.data(piece)) {
                Some(piece)
            } else {
                None
            },
            ..self
        }
    }

    /// The session after the falling piece was asked to shift: it shifts if
    /// it then collides with nothing, else nothing changes.
    pub open spec fn shifted(self, columns: int, rows: int) -> (GameView, Outcome) {
        match self.active {
            Some(p) => if p.moved(columns, rows).fits(self.field, self.data(p)) {
                (GameView { active: Some(p.moved(columns, rows)), ..self }, Outcome::Moved)
            } else {
                (self, Outcome::Rejected)
            },
            None => (self, Outcome::Rejected),
        }
    }

    /// The session after the falling piece was asked to turn.
    pub open spec fn rotated(self, direction: Direction) -> (GameView, Outcome) {
        match self.active {
            Some(p) => match p.try_rotate(self.field, self.data(p), direction, self.kicks) {
                Some(q) => (GameView { active: Some(q), ..self }, Outcome::Moved),
                None => (self, Outcome::Rejected),
            },
            None => (self, Outcome::Rejected),
        }
    }

    /// The session after the falling piece came to rest. If the grid stores
    /// all its cells, its blocks are locked there in the color of its shape,
    /// the completed rows are removed, and a piece of shape `next` is asked
    /// to enter. If not, the game is over and the field stays as it is.
    pub open spec fn landed(self, next: PieceType) -> (GameView, Outcome) {
        match self.active {
            Some(p) => {
                let cells = p.cells(self.data(p));
                if self.field.can_lock(cells) {
                    let locked = self.field.lock(cells, self.data(p).color);
                    let rows_cleared = locked.full_rows() as usize;
                    let after = (GameView {
                        field: locked.compact(),
                        active: None,
                        ..self
                    }).spawned(next);
                    if after.active is Some {
                        (after, Outcome::Locked { rows_cleared })
                    } else {
                        (after, Outcome::GameOver { rows_cleared })
                    }
                } else {
                    (GameView { active: None, ..self }, Outcome::GameOver { rows_cleared: 0 })
                }
            },
            None => (self, Outcome::Rejected),
        }
    }

    /// The session after a gravity tick: the falling piece moves down by one
    /// row if it then collides with nothing; else it has landed, and is
    /// locked without moving.
    pub open spec fn ticked(self, next: PieceType) -> (GameView, Outcome) {
        if self.shifted(0, -1).1 == Outcome::Moved {
            self.shifted(0, -1)
        } else {
            self.landed(next)
        }
    }

    /// Where `piece` comes to rest when it falls row by row until the next
    /// row down would make it collide.
    pub open spec fn landing(self, piece: PieceView) -> PieceView
        decreases piece.row + 255,
    {
        if piece.moved(0, -1).fits(self.field, self.data(piece)) {
            proof {
                lemma_fits_near(piece.moved(0, -1), self.field, self.data(piece));
            }
            self.landing(piece.moved(0, -1))
        } else {
            piece
        }
    }

    /// The session after a hard drop: the falling piece falls as far as it
    /// can and is locked there at once.
    pub open spec fn hard_dropped(self, next: PieceType) -> (GameView, Outcome) {
        match self.active {
            Some(p) => (GameView { active: Some(self.landing(p)), ..self }).landed(next),
            None => (self, Outcome::Rejected),
        }
    }

    /// The session after the rotation requests were applied one after the
    /// other, in their order.
    pub open spec fn rotated_all(self, events: Seq<RotationEvent>) -> GameView
        decreases events.len(),
    {
        if events.len() == 0 {
            self
        } else {
            self.rotated_all(events.drop_last()).rotated(events.last().direction).0
        }
    }

    /// How many of the rotation requests, applied one after the other, turned
    /// the piece.
    pub open spec fn accepted(self, events: Seq<RotationEvent>) -> nat
        decreases events.len(),
    {
        if events.len() == 0 {
            0
        } else {
            self.accepted(events.drop_last()) + if self.rotated_all(events.drop_last()).rotated(
                events.last().direction,
            ).1 == Outcome::Moved {
                1nat
            } else {
                0nat
            }
        }
    }

    /// The session after a command. `next` is the shape that enters if the
    /// command locks the falling piece.
    pub open spec fn applied(self, command: Command, next: PieceType) -> (GameView, Outcome) {
        match command {
            Command::RotateClockwise => self.rotated(Direction::Clockwise),
            Command::RotateCounterClockwise => self.rotated(Direction::CounterClockwise),
            Command::MoveLeft => self.shifted(-1, 0),
            Command::MoveRight => self.shifted(1, 0),
            Command::SoftDrop => self.shifted(0, -1),
            Command::HardDrop => self.hard_dropped(next),
        }
    }
}

/// A gravity tick on a piece with nothing beneath it moves the piece down by
/// one row and changes nothing else: when every cell directly below a cell of
/// the falling piece is free, the tick reports a move, the anchor is one row
/// lower, and shape, rotation state, column and field are as before.
pub proof fn lemma_tick_falls(game: GameView, next: PieceType)
    requires
        game.wf(),
        game.active is Some,
        forall|i: int|
            0 <= i < 4 ==> !game.field.occupied(
                (
                    (#[trigger] game.active->0.cells(game.data(game.active->0))[i]).0,
                    game.active->0.cells(game.data(game.active->0))[i].1 - 1,
                ),
            ),
    ensures
        game.ticked(next).1 == Outcome::Moved,
        game.ticked(next).0 == (GameView {
            active: Some(game.active->0.moved(0, -1)),
            ..game
        }),
        game.ticked(next).0.active->0.row == game.active->0.row - 1,
        game.ticked(next).0.field == game.field,
{
    let piece = game.active->0;
    let data = game.data(piece);
    let cells = piece.cells(data);
    let below = piece.moved(0, -1);
    assert forall|i: int| 0 <= i < below.cells(data).len() implies !game.field.occupied(
        #[trigger] below.cells(data)[i],
    ) by {
        assert(below.cells(data)[i] == (cells[i].0, cells[i].1 - 1));
    }
    assert(!game.field.occupied(below.cells(data)[0]));
}

/// A gravity tick on a piece that rests on something does not move it but
/// locks it: when a cell directly below a cell of the falling piece is the
/// floor or holds a locked block, the tick is the lock of the piece where it
/// is, and reports a lock or the end of the game, never a move.
pub proof fn lemma_tick_lands(game: GameView, next: PieceType)
    requires
        game.wf(),
        game.active is Some,
        exists|i: int|
            0 <= i < 4 && game.field.occupied(
                (
                    (#[trigger] game.active->0.cells(game.data(game.active->0))[i]).0,
                    game.active->0.cells(game.data(game.active->0))[i].1 - 1,
                ),
            ),
    ensures
        game.ticked(next) == game.landed(next),
        game.ticked(next).1 is Locked || game.ticked(next).1 is GameOver,
        game.field.can_lock(game.active->0.cells(game.data(game.active->0))) ==> game.ticked(
            next,
        ).0.field == game.field.lock(
            game.active->0.cells(game.data(game.active->0)),
            game.data(game.active->0).color,
        ).compact(),
{
    let piece = game.active->0;
    let data = game.data(piece);
    let cells = piece.cells(data);
    let below = piece.moved(0, -1);
    let i = choose|i: int| 0 <= i < 4 && game.field.occupied((#[trigger] cells[i].0, cells[i].1 - 1));
    assert(below.cells(data)[i] == (cells[i].0, cells[i].1 - 1));
    assert(!game.field.valid(below.cells(data)));
}

/// Locking the falling piece adds exactly four locked cells. The rows that
/// are then removed take a full row of locked cells away each, so the count
/// has grown by four whenever no row was completed.
pub proof fn lemma_lock_adds_four(game: GameView, next: PieceType)
    requires
        game.wf(),
        game.active is Some,
        game.field.can_lock(game.active->0.cells(game.data(game.active->0))),
    ensures
        game.field.lock(
            game.active->0.cells(game.data(game.active->0)),
            game.data(game.active->0).color,
        ).locked_count() == game.field.locked_count() + 4,
        game.landed(next).0.field.locked_count() + game.field.width * game.field.lock(
            game.active->0.cells(game.data(game.active->0)),
            game.data(game.active->0).color,
        ).full_rows() == game.field.locked_count() + 4,
        game.field.lock(
            game.active->0.cells(game.data(game.active->0)),
            game.data(game.active->0).color,
        ).full_rows() == 0 ==> game.landed(next).0.field.locked_count()
            == game.field.locked_count() + 4,
{
    let piece = game.active->0;
    let data = game.data(piece);
    let cells = piece.cells(data);
    let locked = game.field.lock(cells, data.color);
    lemma_cells_distinct(piece, data);
    lemma_lock_count(game.field, cells, data.color);
    lemma_compact_count(locked);
    if locked.full_rows() == 0 {
        assert(game.field.width * locked.full_rows() == 0) by (nonlinear_arith)
            requires
                locked.full_rows() == 0,
        ;
    }
}

/// A piece that is asked to enter on cells that are taken ends the game at
/// once, and the field stays as it is: when the entering piece collides,
/// there is no falling piece afterwards; and whether it collides or not, no
/// cell of the field changes.
pub proof fn lemma_spawn_blocked(game: GameView, typ: PieceType)
    ensures
        game.spawned(typ).field == game.field,
        !game.entering(typ).fits(game.field, game.data(game.entering(typ))) ==> game.spawned(
            typ,
        ).active is None,
        game.entering(typ).fits(game.field, game.data(game.entering(typ))) ==> game.spawned(
            typ,
        ).active == Some(game.entering(typ)),
{
}

/// A piece that falls as far as it can comes to rest straight below where it
/// was, in the same rotation state, on cells where it collides with nothing,
/// and with something in the way of one more row.
pub proof fn lemma_landing(game: GameView, piece: PieceView)
    requires
        piece.fits(game.field, game.data(piece)),
    ensures
        game.landing(piece).fits(game.field, game.data(piece)),
        !game.landing(piece).moved(0, -1).fits(game.field, game.data(piece)),
        game.landing(piece).typ == piece.typ,
        game.landing(piece).rotation == piece.rotation,
        game.landing(piece).column == piece.column,
        game.landing(piece).row <= piece.row,
        forall|row: int|
            game.landing(piece).row <= row <= piece.row ==> (PieceView {
                row,
                ..piece
            }).fits(game.field, game.data(piece)),
    decreases piece.row + 255,
{
    let below = piece.moved(0, -1);
    if below.fits(game.field, game.data(piece)) {
        lemma_fits_near(below, game.field, game.data(piece));
        lemma_landing(game, below);
        assert forall|row: int| game.landing(piece).row <= row <= piece.row implies (PieceView {
            row,
            ..piece
        }).fits(game.field, game.data(piece)) by {
            if row == piece.row {
                assert((PieceView { row, ..piece }) == piece);
            } else {
                assert((PieceView { row, ..piece }) == (PieceView { row, ..below }));
            }
        }
    } else {
        assert forall|row: int| game.landing(piece).row <= row <= piece.row implies (PieceView {
            row,
            ..piece
        }).fits(game.field, game.data(piece)) by {
            assert((PieceView { row, ..piece }) == piece);
        }
    }
}

/// Locking the falling piece keeps the session well formed.
proof fn lemma_landed_wf(game: GameView, next: PieceType)
    requires
        game.wf(),
    ensures
        game.landed(next).0.wf(),
        game.landed(next).1.cleared() <= 4,
{
    if let Some(piece) = game.active {
        let cells = piece.cells(game.data(piece));
        if game.field.can_lock(cells) {
            let locked = game.field.lock(cells, game.data(piece).color);
            assert(game.field.stored(cells[0]));
            lemma_lock_full_rows(game.field, cells, game.data(piece).color);
            lemma_compact_wf(locked);
            lemma_compact_no_full_row(locked);
        }
    }
}

/// Whatever the host feeds to a well-formed session, the session stays well
/// formed: after every command and every gravity tick the falling piece lies
/// within the walls, above the floor and on no locked block, and no row of
/// the field is completed. No event removes more than four rows.
pub proof fn lemma_step_preserves_wf(game: GameView, command: Command, next: PieceType)
    requires
        game.wf(),
    ensures
        game.applied(command, next).0.wf(),
        game.ticked(next).0.wf(),
        game.spawned(next).wf(),
        game.applied(command, next).1.cleared() <= 4,
        game.ticked(next).1.cleared() <= 4,
{
    lemma_landed_wf(game, next);
    if let Some(piece) = game.active {
        lemma_try_rotate(piece, game.field, game.data(piece), Direction::Clockwise, game.kicks);
        lemma_try_rotate(
            piece,
            game.field,
            game.data(piece),
            Direction::CounterClockwise,
            game.kicks,
        );
        lemma_landing(game, piece);
        lemma_landed_wf(GameView { active: Some(game.landing(piece)), ..game }, next);
    }
}

/// A command or tick that reports a rejection has changed nothing.
pub proof fn lemma_rejected_changes_nothing(game: GameView, command: Command, next: PieceType)
    ensures
        game.applied(command, next).1 is Rejected ==> game.applied(command, next).0 == game,
        game.ticked(next).1 is Rejected ==> game.ticked(next).0 == game,
{
}

/// The field is written only when a piece is locked: a command or tick that
/// reports a move or a rejection leaves every cell of the field as it was.
pub proof fn lemma_field_changes_only_on_lock(game: GameView, command: Command, next: PieceType)
    ensures
        game.applied(command, next).1 is Moved || game.applied(command, next).1 is Rejected
            ==> game.applied(command, next).0.field == game.field,
        game.ticked(next).1 is Moved || game.ticked(next).1 is Rejected ==> game.ticked(next).0.field
            == game.field,
{
}

/// Once the game is over it stays over: every command and every tick is
/// rejected and changes nothing.
pub proof fn lemma_game_over_is_final(game: GameView, command: Command, next: PieceType)
    requires
        game.active is None,
    ensures
        game.applied(command, next) == (game, Outcome::Rejected),
        game.ticked(next) == (game, Outcome::Rejected),
{
}

} // verus!
