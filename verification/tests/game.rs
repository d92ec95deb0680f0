use retris::catalog::PieceCatalog;
use retris::game::{Command, Config, Game, Outcome};
use retris::game_field::Cell;
use retris::gravity::GravityPlugin;
use retris::input::InputPlugin;
use retris::pieces::{Color, Direction, PieceType, PiecesPlugin, Position, RotationEvent};

const YELLOW: Color = Color { red: 255, green: 255, blue: 0, alpha: 255 };
const CYAN: Color = Color { red: 0, green: 255, blue: 255, alpha: 255 };
const PURPLE: Color = Color { red: 128, green: 0, blue: 128, alpha: 255 };

fn cell(column: i64, row: i64) -> Cell {
    Cell { column, row }
}

fn new_game(first: PieceType) -> Game {
    Game::new(PieceCatalog::standard(), Config::default(), first)
}

fn tick(game: &mut Game, next: PieceType) -> Outcome {
    GravityPlugin::update_piece_position(game, next)
}

fn anchor(game: &Game) -> Position {
    game.active().unwrap().position()
}

fn event(direction: Direction) -> RotationEvent {
    RotationEvent { direction }
}

#[test]
fn default_config() {
    let config = Config::default();
    assert_eq!(config.width, 10);
    assert_eq!(config.height, 20);
    assert_eq!(config.headroom, 2);
    assert_eq!(config.spawn_point, Position(4, 20));
    assert_eq!(config.gravity_interval_ms, 1000);
    assert!(config.kicks.is_empty());
}

#[test]
fn new_game_has_an_empty_field_and_the_first_piece() {
    let game = new_game(PieceType::L);
    assert!(!game.is_over());
    assert_eq!(game.field().width(), 10);
    assert_eq!(game.field().height(), 20);
    assert_eq!(game.field().rows(), 22);
    assert_eq!(game.field().locked_count(), 0);
    assert_eq!(game.spawn_point(), Position(4, 20));
    assert_eq!(game.gravity_interval_ms(), 1000);
    let piece = game.active().unwrap();
    assert_eq!(piece.typ(), PieceType::L);
    assert_eq!(piece.rotation(), 0);
    assert_eq!(piece.position(), Position(4, 20));
    assert_eq!(game.catalog().color(PieceType::O), YELLOW);
}

#[test]
fn gravity_interval_can_be_changed() {
    let mut game = new_game(PieceType::L);
    game.set_gravity_interval_ms(250);
    assert_eq!(game.gravity_interval_ms(), 250);
    assert_eq!(anchor(&game), Position(4, 20));
    assert_eq!(tick(&mut game, PieceType::O), Outcome::Moved);
    assert_eq!(game.gravity_interval_ms(), 250);
}

#[test]
fn tick_moves_a_free_piece_down_by_one_row() {
    let mut game = new_game(PieceType::T);
    assert_eq!(tick(&mut game, PieceType::O), Outcome::Moved);
    let piece = game.active().unwrap();
    assert_eq!(piece.position(), Position(4, 19));
    assert_eq!(piece.rotation(), 0);
    assert_eq!(piece.typ(), PieceType::T);
    assert_eq!(game.field().locked_count(), 0);
}

#[test]
fn o_piece_falls_to_the_floor_and_locks() {
    let mut game = new_game(PieceType::O);
    assert_eq!(
        game.snapshot().active.unwrap().cells,
        [cell(4, 20), cell(5, 20), cell(4, 19), cell(5, 19)]
    );
    for n in 1..=19 {
        assert_eq!(tick(&mut game, PieceType::T), Outcome::Moved);
        assert_eq!(anchor(&game), Position(4, 20 - n));
        assert_eq!(game.field().locked_count(), 0);
    }
    // The piece lies on the floor; the twentieth tick locks it.
    assert_eq!(tick(&mut game, PieceType::T), Outcome::Locked { rows_cleared: 0 });
    assert_eq!(
        game.field().locked_cells(),
        vec![
            (cell(4, 0), YELLOW),
            (cell(5, 0), YELLOW),
            (cell(4, 1), YELLOW),
            (cell(5, 1), YELLOW),
        ]
    );
    assert_eq!(game.field().locked_count(), 4);
    let next = game.active().unwrap();
    assert_eq!(next.typ(), PieceType::T);
    assert_eq!(next.position(), Position(4, 20));
    assert_eq!(next.rotation(), 0);
}

#[test]
fn tick_on_a_piece_that_rests_on_a_block_locks_it_where_it_is() {
    let mut game = new_game(PieceType::O);
    assert_eq!(game.apply(Command::HardDrop, PieceType::O), Outcome::Locked { rows_cleared: 0 });
    for n in 1..=17 {
        assert_eq!(tick(&mut game, PieceType::I), Outcome::Moved);
        assert_eq!(anchor(&game), Position(4, 20 - n));
    }
    // The piece covers rows 2 and 3, right above the locked one.
    assert_eq!(anchor(&game), Position(4, 3));
    assert_eq!(tick(&mut game, PieceType::I), Outcome::Locked { rows_cleared: 0 });
    assert_eq!(game.field().locked_count(), 8);
    for row in 0..4 {
        assert_eq!(game.field().get(cell(4, row)), Some(YELLOW));
        assert_eq!(game.field().get(cell(5, row)), Some(YELLOW));
    }
    assert_eq!(game.field().get(cell(4, 4)), None);
    assert_eq!(game.active().unwrap().typ(), PieceType::I);
}

#[test]
fn completed_row_is_cleared_when_the_o_piece_locks() {
    let mut game = new_game(PieceType::I);
    // Row 0, columns 2 to 5.
    assert_eq!(game.apply(Command::MoveLeft, PieceType::I), Outcome::Moved);
    assert_eq!(game.apply(Command::HardDrop, PieceType::I), Outcome::Locked { rows_cleared: 0 });
    // Row 0, columns 6 to 9.
    for _ in 0..3 {
        assert_eq!(game.apply(Command::MoveRight, PieceType::O), Outcome::Moved);
    }
    assert_eq!(game.apply(Command::HardDrop, PieceType::O), Outcome::Locked { rows_cleared: 0 });
    assert_eq!(game.field().locked_count(), 8);
    for column in 0..10 {
        assert_eq!(game.field().get(cell(column, 0)), if column < 2 { None } else { Some(CYAN) });
    }
    // The O piece on columns 0 and 1, rows 0 and 1.
    for _ in 0..4 {
        assert_eq!(game.apply(Command::MoveLeft, PieceType::T), Outcome::Moved);
    }
    assert_eq!(game.apply(Command::HardDrop, PieceType::T), Outcome::Locked { rows_cleared: 1 });
    // What was row 1 is row 0 now.
    assert_eq!(game.field().locked_cells(), vec![(cell(0, 0), YELLOW), (cell(1, 0), YELLOW)]);
    assert_eq!(game.field().locked_count(), 2);
    assert_eq!(game.active().unwrap().typ(), PieceType::T);
}

#[test]
fn blocked_spawn_ends_the_game() {
    let mut game = new_game(PieceType::O);
    for _ in 0..9 {
        assert_eq!(game.apply(Command::HardDrop, PieceType::O), Outcome::Locked { rows_cleared: 0 });
    }
    assert_eq!(game.field().locked_count(), 36);
    // The tenth piece fills rows 18 and 19; the next one cannot enter.
    assert_eq!(game.apply(Command::HardDrop, PieceType::O), Outcome::GameOver { rows_cleared: 0 });
    assert!(game.is_over());
    assert!(game.active().is_none());
    assert!(game.snapshot().active.is_none());
    assert_eq!(game.field().locked_count(), 40);
    let field = game.field().locked_cells();
    // Nothing changes any more.
    assert_eq!(tick(&mut game, PieceType::I), Outcome::Rejected);
    assert_eq!(game.apply(Command::HardDrop, PieceType::I), Outcome::Rejected);
    assert_eq!(game.apply(Command::MoveLeft, PieceType::I), Outcome::Rejected);
    assert_eq!(game.apply(Command::RotateClockwise, PieceType::I), Outcome::Rejected);
    assert_eq!(game.lock_and_clear(PieceType::I), Outcome::Rejected);
    assert!(game.is_over());
    assert_eq!(game.field().locked_cells(), field);
}

#[test]
fn spawn_on_taken_cells_leaves_the_field_as_it_is() {
    let mut game = new_game(PieceType::O);
    for _ in 0..9 {
        game.apply(Command::HardDrop, PieceType::O);
    }
    // Columns 4 and 5 are filled up to row 17; the falling O covers rows 19
    // and 20. Moved down once it lies right where pieces enter.
    assert_eq!(tick(&mut game, PieceType::O), Outcome::Moved);
    let mut expected = game.field().locked_cells();
    assert_eq!(expected.len(), 36);
    assert_eq!(tick(&mut game, PieceType::O), Outcome::GameOver { rows_cleared: 0 });
    // The field holds the piece that was locked, and nothing of the piece
    // that could not enter.
    for (column, row) in [(4, 18), (5, 18), (4, 19), (5, 19)] {
        expected.push((cell(column, row), YELLOW));
    }
    assert_eq!(game.field().locked_cells(), expected);
    assert_eq!(game.field().get(cell(4, 20)), None);
    assert_eq!(game.field().get(cell(5, 20)), None);
    assert!(game.is_over());
}

#[test]
fn first_piece_that_cannot_enter_ends_the_game_at_once() {
    // Pieces enter at column 9, where the O would reach into the wall.
    let config = Config { spawn_point: Position(9, 20), ..Config::default() };
    let game = Game::new(PieceCatalog::standard(), config, PieceType::O);
    assert!(game.is_over());
    assert_eq!(game.field().locked_count(), 0);
    // The flat T fits no better there, but it does one column to the left.
    let config = Config { spawn_point: Position(9, 20), ..Config::default() };
    assert!(Game::new(PieceCatalog::standard(), config, PieceType::T).is_over());
    let config = Config { spawn_point: Position(8, 20), ..Config::default() };
    assert!(!Game::new(PieceCatalog::standard(), config, PieceType::T).is_over());
    // Below the floor nothing enters.
    let config = Config { spawn_point: Position(4, -1), ..Config::default() };
    assert!(Game::new(PieceCatalog::standard(), config, PieceType::T).is_over());
}

#[test]
fn game_on_a_field_without_columns_is_over_at_once() {
    let config = Config { width: 0, ..Config::default() };
    let mut game = Game::new(PieceCatalog::standard(), config, PieceType::O);
    assert!(game.is_over());
    assert_eq!(tick(&mut game, PieceType::O), Outcome::Rejected);
}

#[test]
fn piece_that_lands_above_the_grid_ends_the_game() {
    let config = Config {
        height: 1,
        headroom: 0,
        spawn_point: Position(4, 1),
        ..Config::default()
    };
    let mut game = Game::new(PieceCatalog::standard(), config, PieceType::O);
    // The O covers rows 0 and 1, and the grid stores row 0 alone.
    assert!(!game.is_over());
    assert_eq!(game.field().rows(), 1);
    assert_eq!(tick(&mut game, PieceType::O), Outcome::GameOver { rows_cleared: 0 });
    assert!(game.is_over());
    assert_eq!(game.field().locked_count(), 0);
}

#[test]
fn moves_stop_at_the_walls() {
    let mut game = new_game(PieceType::O);
    for n in 1..=4 {
        assert_eq!(game.apply(Command::MoveLeft, PieceType::T), Outcome::Moved);
        assert_eq!(anchor(&game), Position(4 - n, 20));
    }
    assert_eq!(game.apply(Command::MoveLeft, PieceType::T), Outcome::Rejected);
    assert_eq!(anchor(&game), Position(0, 20));
    for n in 1..=8 {
        assert_eq!(game.apply(Command::MoveRight, PieceType::T), Outcome::Moved);
        assert_eq!(anchor(&game), Position(n, 20));
    }
    assert_eq!(game.apply(Command::MoveRight, PieceType::T), Outcome::Rejected);
    assert_eq!(anchor(&game), Position(8, 20));
}

#[test]
fn moves_stop_at_locked_blocks() {
    let mut game = new_game(PieceType::I);
    game.apply(Command::RotateClockwise, PieceType::O);
    // The upright I stands in column 5, rows 0 to 3.
    assert_eq!(game.apply(Command::HardDrop, PieceType::O), Outcome::Locked { rows_cleared: 0 });
    for _ in 0..3 {
        game.apply(Command::MoveLeft, PieceType::O);
    }
    for _ in 0..19 {
        assert_eq!(tick(&mut game, PieceType::O), Outcome::Moved);
    }
    // The O lies on the floor in columns 1 and 2.
    assert_eq!(anchor(&game), Position(1, 1));
    assert_eq!(game.apply(Command::MoveRight, PieceType::O), Outcome::Moved);
    assert_eq!(game.apply(Command::MoveRight, PieceType::O), Outcome::Moved);
    assert_eq!(game.apply(Command::MoveRight, PieceType::O), Outcome::Rejected);
    assert_eq!(anchor(&game), Position(3, 1));
    assert_eq!(game.field().locked_count(), 4);
}

#[test]
fn soft_drop_moves_down_and_never_locks() {
    let mut game = new_game(PieceType::O);
    for n in 1..=19 {
        assert_eq!(game.apply(Command::SoftDrop, PieceType::T), Outcome::Moved);
        assert_eq!(anchor(&game), Position(4, 20 - n));
    }
    assert_eq!(game.apply(Command::SoftDrop, PieceType::T), Outcome::Rejected);
    assert_eq!(anchor(&game), Position(4, 1));
    assert_eq!(game.field().locked_count(), 0);
    assert_eq!(game.active().unwrap().typ(), PieceType::O);
}

#[test]
fn hard_drop_lands_on_the_highest_block_below() {
    let mut game = new_game(PieceType::O);
    assert_eq!(game.apply(Command::HardDrop, PieceType::T), Outcome::Locked { rows_cleared: 0 });
    // The T lies flat over columns 3 to 5 and comes to rest on the O.
    assert_eq!(game.apply(Command::HardDrop, PieceType::L), Outcome::Locked { rows_cleared: 0 });
    assert_eq!(
        game.field().locked_cells(),
        vec![
            (cell(4, 0), YELLOW),
            (cell(5, 0), YELLOW),
            (cell(4, 1), YELLOW),
            (cell(5, 1), YELLOW),
            (cell(3, 2), PURPLE),
            (cell(4, 2), PURPLE),
            (cell(5, 2), PURPLE),
            (cell(4, 3), PURPLE),
        ]
    );
}

#[test]
fn shift_moves_by_any_offset_that_fits() {
    let mut game = new_game(PieceType::O);
    assert_eq!(game.shift(3, -10), Outcome::Moved);
    assert_eq!(anchor(&game), Position(7, 10));
    assert_eq!(game.shift(2, 0), Outcome::Rejected);
    assert_eq!(game.shift(0, -10), Outcome::Rejected);
    assert_eq!(game.shift(-7, 100), Outcome::Moved);
    assert_eq!(anchor(&game), Position(0, 110));
}

#[test]
fn rotate_commands_turn_the_piece() {
    let mut game = new_game(PieceType::T);
    assert_eq!(game.apply(Command::RotateClockwise, PieceType::O), Outcome::Moved);
    assert_eq!(game.active().unwrap().rotation(), 1);
    assert_eq!(game.apply(Command::RotateClockwise, PieceType::O), Outcome::Moved);
    assert_eq!(game.active().unwrap().rotation(), 2);
    assert_eq!(game.apply(Command::RotateCounterClockwise, PieceType::O), Outcome::Moved);
    assert_eq!(game.active().unwrap().rotation(), 1);
    assert_eq!(game.rotate(Direction::CounterClockwise), Outcome::Moved);
    assert_eq!(game.rotate(Direction::CounterClockwise), Outcome::Moved);
    assert_eq!(game.active().unwrap().rotation(), 3);
    assert_eq!(anchor(&game), Position(4, 20));
    assert_eq!(
        game.snapshot().active.unwrap().cells,
        [cell(4, 19), cell(4, 20), cell(4, 21), cell(3, 20)]
    );
}

#[test]
fn rotation_against_the_wall_is_rejected_or_kicked() {
    let mut game = new_game(PieceType::I);
    assert_eq!(game.rotate(Direction::Clockwise), Outcome::Moved);
    for _ in 0..4 {
        assert_eq!(game.apply(Command::MoveRight, PieceType::O), Outcome::Moved);
    }
    // The upright I stands in column 9.
    assert_eq!(game.rotate(Direction::Clockwise), Outcome::Rejected);
    assert_eq!(game.rotate(Direction::CounterClockwise), Outcome::Rejected);
    assert_eq!(game.active().unwrap().rotation(), 1);
    assert_eq!(anchor(&game), Position(8, 20));

    let config = Config { kicks: vec![(1, 0), (-1, 0)], ..Config::default() };
    let mut game = Game::new(PieceCatalog::standard(), config, PieceType::I);
    game.rotate(Direction::Clockwise);
    for _ in 0..4 {
        game.apply(Command::MoveRight, PieceType::O);
    }
    assert_eq!(game.rotate(Direction::Clockwise), Outcome::Moved);
    assert_eq!(game.active().unwrap().rotation(), 2);
    assert_eq!(anchor(&game), Position(7, 20));
}

#[test]
fn rotation_requests_are_applied_in_order() {
    let mut game = new_game(PieceType::T);
    let input = vec![
        event(Direction::Clockwise),
        event(Direction::CounterClockwise),
        event(Direction::CounterClockwise),
    ];
    assert_eq!(PiecesPlugin::handle_rotation(&input, &mut game), 3);
    assert_eq!(game.active().unwrap().rotation(), 3);
    assert_eq!(PiecesPlugin::handle_rotation(&Vec::new(), &mut game), 0);
    assert_eq!(game.active().unwrap().rotation(), 3);
}

#[test]
fn rejected_rotation_requests_are_not_counted() {
    let mut game = new_game(PieceType::I);
    // Two upright pieces fill column 5 up to row 7.
    for next in [PieceType::I, PieceType::S] {
        assert_eq!(game.rotate(Direction::Clockwise), Outcome::Moved);
        assert_eq!(game.apply(Command::HardDrop, next), Outcome::Locked { rows_cleared: 0 });
    }
    assert_eq!(game.field().get(cell(5, 7)), Some(CYAN));
    assert_eq!(game.field().get(cell(5, 8)), None);
    for _ in 0..12 {
        assert_eq!(game.apply(Command::SoftDrop, PieceType::O), Outcome::Moved);
    }
    // The S lies on (3, 8), (4, 8), (4, 9), (5, 9). Turned to the right it
    // needs (5, 7), turned to the left it fits.
    assert_eq!(anchor(&game), Position(4, 8));
    let input = vec![
        event(Direction::Clockwise),
        event(Direction::CounterClockwise),
        event(Direction::CounterClockwise),
    ];
    assert_eq!(PiecesPlugin::handle_rotation(&input, &mut game), 2);
    assert_eq!(game.active().unwrap().rotation(), 2);
    assert_eq!(anchor(&game), Position(4, 8));
}

#[test]
fn rotation_requests_after_the_end_change_nothing() {
    let config = Config { width: 1, ..Config::default() };
    let mut game = Game::new(PieceCatalog::standard(), config, PieceType::O);
    assert!(game.is_over());
    let input = vec![event(Direction::Clockwise), event(Direction::Clockwise)];
    assert_eq!(PiecesPlugin::handle_rotation(&input, &mut game), 0);
    assert!(game.is_over());
}

#[test]
fn keys_stand_for_rotation_requests() {
    assert_eq!(InputPlugin::handle_keyboard_input(false, false), Vec::new());
    assert_eq!(
        InputPlugin::handle_keyboard_input(true, false),
        vec![event(Direction::CounterClockwise)]
    );
    assert_eq!(InputPlugin::handle_keyboard_input(false, true), vec![event(Direction::Clockwise)]);
    assert_eq!(
        InputPlugin::handle_keyboard_input(true, true),
        vec![event(Direction::CounterClockwise), event(Direction::Clockwise)]
    );
}

#[test]
fn snapshot_shows_locked_cells_and_the_falling_piece() {
    let mut game = new_game(PieceType::O);
    game.apply(Command::HardDrop, PieceType::T);
    game.apply(Command::RotateClockwise, PieceType::T);
    tick(&mut game, PieceType::T);
    let snapshot = game.snapshot();
    assert_eq!(
        snapshot.locked,
        vec![
            (cell(4, 0), YELLOW),
            (cell(5, 0), YELLOW),
            (cell(4, 1), YELLOW),
            (cell(5, 1), YELLOW),
        ]
    );
    let active = snapshot.active.unwrap();
    assert_eq!(active.cells, [cell(4, 20), cell(4, 19), cell(4, 18), cell(5, 19)]);
    assert_eq!(active.color, PURPLE);
    assert_eq!(active.rotation, 1);
}

#[test]
fn four_rows_are_cleared_by_one_upright_i() {
    let config = Config { width: 5, spawn_point: Position(1, 20), ..Config::default() };
    let mut game = Game::new(PieceCatalog::standard(), config, PieceType::I);
    // Four flat pieces fill columns 0 to 3 of rows 0 to 3.
    for _ in 0..4 {
        assert_eq!(anchor(&game), Position(1, 20));
        assert_eq!(game.apply(Command::HardDrop, PieceType::I), Outcome::Locked { rows_cleared: 0 });
    }
    assert_eq!(game.field().locked_count(), 16);
    // The fifth one goes upright into column 4.
    assert_eq!(game.rotate(Direction::CounterClockwise), Outcome::Moved);
    for _ in 0..3 {
        assert_eq!(game.apply(Command::MoveRight, PieceType::O), Outcome::Moved);
    }
    assert_eq!(
        game.snapshot().active.unwrap().cells,
        [cell(4, 21), cell(4, 20), cell(4, 19), cell(4, 18)]
    );
    assert_eq!(game.apply(Command::HardDrop, PieceType::O), Outcome::Locked { rows_cleared: 4 });
    assert_eq!(game.field().locked_count(), 0);
    assert!(game.field().locked_cells().is_empty());
}

#[test]
fn outcome_reports_the_rows_that_were_cleared() {
    assert_eq!(Outcome::Rejected.rows_cleared(), 0);
    assert_eq!(Outcome::Moved.rows_cleared(), 0);
    assert_eq!(Outcome::Locked { rows_cleared: 3 }.rows_cleared(), 3);
    assert_eq!(Outcome::GameOver { rows_cleared: 1 }.rows_cleared(), 1);
}

#[test]
fn moves_and_turns_leave_the_field_as_it_is() {
    let mut game = new_game(PieceType::O);
    game.apply(Command::HardDrop, PieceType::T);
    let field = game.field().locked_cells();
    for command in [
        Command::MoveLeft,
        Command::RotateClockwise,
        Command::SoftDrop,
        Command::MoveRight,
        Command::MoveRight,
        Command::RotateCounterClockwise,
    ] {
        assert_eq!(game.apply(command, PieceType::I), Outcome::Moved);
        assert_eq!(game.field().locked_cells(), field);
    }
    assert_eq!(tick(&mut game, PieceType::I), Outcome::Moved);
    assert_eq!(game.field().locked_cells(), field);
}

#[test]
fn lock_adds_four_cells_unless_rows_are_cleared() {
    let mut game = new_game(PieceType::T);
    let mut count = 0;
    for (moves, next) in [(-3, PieceType::L), (3, PieceType::J), (0, PieceType::S)] {
        let command = if moves < 0 { Command::MoveLeft } else { Command::MoveRight };
        for _ in 0..i32::abs(moves) {
            assert_eq!(game.apply(command, next), Outcome::Moved);
        }
        assert_eq!(game.apply(Command::HardDrop, next), Outcome::Locked { rows_cleared: 0 });
        count += 4;
        assert_eq!(game.field().locked_count(), count);
    }
}

#[test]
fn every_outcome_but_a_rejection_is_a_change() {
    assert!(!Outcome::Rejected.changed());
    assert!(Outcome::Moved.changed());
    assert!(Outcome::Locked { rows_cleared: 0 }.changed());
    assert!(Outcome::GameOver { rows_cleared: 0 }.changed());
    let mut game = new_game(PieceType::O);
    let before = game.active();
    assert!(!game.shift(6, 0).changed());
    assert_eq!(game.active(), before);
    assert!(game.shift(-1, 0).changed());
    assert_ne!(game.active(), before);
}
