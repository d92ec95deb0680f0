//! Simulation core of a falling-block puzzle game: the playfield grid, the
//! falling piece with its rotation states, collision checks, gravity, and
//! locking with line clears.
//!
//! The core is driven by discrete events (player commands and gravity ticks)
//! that the host applies one after the other; it never blocks and never
//! decides frame timing.
//!
//! - [`pieces`]: the shapes, the falling piece and its rotation.
//! - [`catalog`]: the layouts, color and spawn offset of every shape.
//! - [`game_field`]: the grid of locked cells, locking and line clears.
//! - [`field_view`]: the grid as a mathematical value, and its laws.
//! - [`collision`]: whether a placement of a piece is legal.
//! - [`game`]: one session, and what commands and ticks do to it.
//! - [`game_view`]: the session as a mathematical value, and its laws.
//! - [`gravity`]: the gravity tick.
//! - [`input`]: the requests that key presses stand for.
//! - [`spritedata`]: the sprites that the picture is drawn with.
//!
//! Each exec type has a mathematical view (`PieceView`, `FieldView`,
//! `GameView`); the contracts of the functions and the public lemmas are
//! stated over these views.

pub mod catalog;
pub mod collision;
pub mod field_view;
pub mod game;
pub mod game_field;
pub mod game_view;
pub mod gravity;
pub mod input;
pub mod pieces;
pub mod spritedata;
