use grid_games::snake::gameboard::Direction;
use grid_games::state::persist::Persist;
use grid_games::tetris::board::Direction as Push;
use grid_games::tetris::input::Action;
use grid_games::tetris::kind::Kind;
use grid_games::tetris::pos::Pos;
use grid_games::tetris::shape::Shape;
use grid_games::tetris::tetris::{Tetris, DEFAULT_HEIGHT, DEFAULT_WIDTH, TICK_INTERVAL_MS};
use grid_games::text::same_text;

#[test]
fn texts_compare_character_by_character() {
    assert!(same_text("", ""));
    assert!(same_text("ArrowUp", "ArrowUp"));
    assert!(!same_text("ArrowUp", "ArrowUq"));
    assert!(!same_text("ArrowUp", "ArrowU"));
    assert!(!same_text("", "a"));
    assert!(same_text("🟦⬛", "🟦⬛"));
    assert!(!same_text("🟦⬛", "🟦🟥"));
}

#[test]
fn keys_stand_for_actions() {
    assert_eq!(Action::from_key_code("ArrowLeft"), Action::ShiftLeft);
    assert_eq!(Action::from_key_code("ArrowRight"), Action::ShiftRight);
    assert_eq!(Action::from_key_code("ArrowUp"), Action::Rotate);
    assert_eq!(Action::from_key_code("ArrowDown"), Action::SoftDrop);
    assert_eq!(Action::from_key_code("Space"), Action::Unrecognized);
    assert_eq!(Action::from_key_code("arrowleft"), Action::Unrecognized);
    assert_eq!(Action::from_key_code(""), Action::Unrecognized);
}

#[test]
fn keys_stand_for_directions() {
    assert_eq!(Direction::from_key_code("ArrowLeft"), Some(Direction::Left));
    assert_eq!(Direction::from_key_code("ArrowRight"), Some(Direction::Right));
    assert_eq!(Direction::from_key_code("ArrowUp"), Some(Direction::Up));
    assert_eq!(Direction::from_key_code("ArrowDown"), Some(Direction::Down));
    assert_eq!(Direction::from_key_code("KeyW"), None);
    assert_eq!(Direction::Up.step_pos(), grid_games::snake::pos::Pos(0, -1));
    assert_eq!(Direction::Down.step_pos(), grid_games::snake::pos::Pos(0, 1));
    assert_eq!(Direction::Left.step_pos(), grid_games::snake::pos::Pos(-1, 0));
    assert_eq!(Direction::Right.step_pos(), grid_games::snake::pos::Pos(1, 0));
}

#[test]
fn actions_are_carried_out() {
    let mut game = Tetris::with_piece(10, 25, Kind::T).unwrap();
    let mut same = Tetris::with_piece(10, 25, Kind::T).unwrap();
    assert!(game.perform(Action::Unrecognized).is_none());
    assert_eq!(game.current_shape.positions, same.current_shape.positions);
    game.perform(Action::SoftDrop);
    same.tick_with(Kind::I);
    assert_eq!(game.current_shape.positions, same.current_shape.positions);
    game.perform(Action::ShiftLeft);
    same.shift(Push::Left);
    assert_eq!(game.current_shape.positions, same.current_shape.positions);
    game.perform(Action::Rotate);
    same.rotate();
    assert_eq!(game.current_shape.positions, same.current_shape.positions);
    game.perform(Action::ShiftRight);
    same.shift(Push::Right);
    assert_eq!(game.current_shape.positions, same.current_shape.positions);
    assert_eq!(game.current_shape.anchor, same.current_shape.anchor);
}

#[test]
fn the_defaults_are_ten_by_twenty_five_each_second() {
    assert_eq!(DEFAULT_WIDTH, 10);
    assert_eq!(DEFAULT_HEIGHT, 25);
    assert_eq!(TICK_INTERVAL_MS, 1000);
}

#[test]
fn a_game_can_be_kept() {
    let game = Tetris::default();
    let _ = game.ptr();
}

#[test]
fn plus_moves_a_shape() {
    let shape = Shape::new_s();
    let moved = &shape + Pos(4, 0);
    assert_eq!(moved.anchor, Pos(5, 0));
    let mut expected = vec![Pos(5, 0), Pos(6, 0), Pos(4, 1), Pos(5, 1)];
    let mut got = moved.positions.clone();
    expected.sort_by_key(|p| (p.0, p.1));
    got.sort_by_key(|p| (p.0, p.1));
    assert_eq!(got, expected);
    assert_eq!(moved.typ, Kind::S);
}
