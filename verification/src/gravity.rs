//! Gravity: on every tick the falling piece moves down by one row, or lands.

use vstd::prelude::*;
use crate::game::{Game, Outcome};
use crate::pieces::PieceType;

verus! {

/// The system that lets the falling piece fall.
pub struct GravityPlugin;

impl GravityPlugin {
    /// One gravity tick. The falling piece moves down by one row if it then
    /// collides with nothing. Else it has landed: it is locked where it is,
    /// the completed rows are removed, and a piece of shape `next` is asked to
    /// enter. After the game is over a tick changes nothing.
    pub fn update_piece_position(game: &mut Game, next: PieceType) -> (out: Outcome)
        requires
            old(game).wf(),
        ensures
            final(game).wf(),
            final(game)@ == old(game)@.ticked(next).0,
            out == old(game)@.ticked(next).1,
            out.cleared() <= 4,
    {
        match game.shift(0, -1) {
            Outcome::Moved => Outcome::Moved,
            _ => game.lock_and_clear(next),
        }
    }
}

} // verus!
