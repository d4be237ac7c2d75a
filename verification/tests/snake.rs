use grid_games::snake::food::Food;
use grid_games::snake::gameboard::{Direction, GameBoard};
use grid_games::snake::pos::Pos;
use grid_games::snake::snake::Snake;

fn body(snake: &Snake) -> Vec<Pos> {
    snake.positions.iter().copied().collect()
}

fn game_with_food(at: Pos) -> GameBoard<'static> {
    GameBoard::with_food(30, 30, Food::coloured(at, 3))
}

#[test]
fn positions_add_and_make_keys() {
    assert_eq!(&Pos(3, -4) + &Pos(-1, 10), Pos(2, 6));
    assert_eq!(Pos(3, -4).checked_plus(&Pos(-1, 10)), Some(Pos(2, 6)));
    assert_eq!(Pos(i32::MAX, 0).checked_plus(&Pos(1, 0)), None);
    assert_eq!(Pos(0, i32::MIN).checked_plus(&Pos(0, -1)), None);
    assert_eq!(Pos(15, 16).key(), "1516");
    assert_eq!(Pos(-7, 0).key(), "-70");
    assert_eq!(Pos(i32::MIN, i32::MAX).key(), "-21474836482147483647");
}

#[test]
fn a_new_snake_is_alive() {
    let snake = Snake::new(vec![Pos(1, 1), Pos(2, 1), Pos(3, 1)]);
    assert_eq!(body(&snake), vec![Pos(1, 1), Pos(2, 1), Pos(3, 1)]);
    assert!(!snake.is_dead);
    assert_eq!(snake.color, "🟥");
    assert_eq!(snake.head_color, "🔴");
    assert!(snake.is_eat_self(&Pos(2, 1)));
    assert!(!snake.is_eat_self(&Pos(2, 2)));
}

#[test]
fn a_snake_moves_eats_and_dies() {
    let food = Food::coloured(Pos(0, 0), 0);
    let mut snake = Snake::new(vec![Pos(1, 1), Pos(2, 1), Pos(3, 1)]);
    snake.try_move(Direction::Up, &food);
    assert_eq!(body(&snake), vec![Pos(1, 0), Pos(1, 1), Pos(2, 1)]);
    snake.try_move(Direction::Left, &food);
    assert_eq!(body(&snake), vec![Pos(0, 0), Pos(1, 0), Pos(1, 1), Pos(2, 1)]);
    assert!(!snake.is_dead);
    snake.try_move(Direction::Down, &food);
    assert_eq!(body(&snake), vec![Pos(0, 1), Pos(0, 0), Pos(1, 0), Pos(1, 1)]);
    assert!(!snake.is_dead);
    // the cell ahead is the tail, which has not moved away yet
    snake.try_move(Direction::Right, &food);
    assert!(snake.is_dead);
    assert_eq!(body(&snake), vec![Pos(0, 1), Pos(0, 0), Pos(1, 0), Pos(1, 1)]);
}

#[test]
fn a_snake_grows_by_a_vector() {
    let snake = Snake::new(vec![Pos(5, 5), Pos(6, 5)]) + Pos(-1, 2);
    assert_eq!(body(&snake), vec![Pos(4, 7), Pos(5, 5), Pos(6, 5)]);
    assert!(!snake.is_dead);
}

#[test]
fn food_has_one_of_seven_colours() {
    let colours = ["🟥", "🟧", "🟨", "🟩", "🟦", "🟪", "🟫"];
    for i in 0..7u8 {
        assert_eq!(Food::coloured(Pos(1, 2), i).food_color, colours[i as usize]);
        assert_eq!(Food::coloured(Pos(1, 2), i + 7).food_color, colours[i as usize]);
    }
    assert_eq!(Food::coloured(Pos(1, 2), 5).pos, Pos(1, 2));
}

#[test]
fn drawn_food_lies_on_the_grid() {
    let colours = ["🟥", "🟧", "🟨", "🟩", "🟦", "🟪", "🟫"];
    for _ in 0..500 {
        let food = Food::random(3, 2);
        assert!(0 <= food.pos.0 && food.pos.0 < 3);
        assert!(0 <= food.pos.1 && food.pos.1 < 2);
        assert!(colours.contains(&food.food_color));
    }
    for _ in 0..50 {
        let one = Food::random(1, 1);
        assert_eq!(one.pos, Pos(0, 0));
        let none = Food::random(0, 5);
        assert_eq!(none.pos.0, 0);
        assert!(none.pos.1 < 5);
    }
}

#[test]
fn a_new_game_has_its_snake_in_the_middle() {
    let game = GameBoard::new(30, 30);
    assert_eq!((game.width, game.height), (30, 30));
    assert!(!game.is_failed);
    assert!(!game.snake.is_dead);
    assert_eq!(body(&game.snake), vec![Pos(15, 15), Pos(16, 15), Pos(17, 15)]);
    assert!(0 <= game.food.pos.0 && game.food.pos.0 < 30);
    assert!(0 <= game.food.pos.1 && game.food.pos.1 < 30);
    let odd = GameBoard::with_food(7, 5, Food::coloured(Pos(0, 0), 0));
    assert_eq!(body(&odd.snake), vec![Pos(3, 2), Pos(4, 2), Pos(5, 2)]);
    assert_eq!(odd.food.pos, Pos(0, 0));
}

#[test]
fn a_step_back_onto_the_neck_is_ignored() {
    let mut game = game_with_food(Pos(0, 0));
    game.try_move(Direction::Right);
    assert_eq!(body(&game.snake), vec![Pos(15, 15), Pos(16, 15), Pos(17, 15)]);
    assert!(!game.is_failed);
    assert!(!game.snake.is_dead);
    assert_eq!(game.food.pos, Pos(0, 0));
}

#[test]
fn a_step_moves_the_snake() {
    let mut game = game_with_food(Pos(0, 0));
    game.try_move(Direction::Left);
    assert_eq!(body(&game.snake), vec![Pos(14, 15), Pos(15, 15), Pos(16, 15)]);
    game.try_move(Direction::Down);
    assert_eq!(body(&game.snake), vec![Pos(14, 16), Pos(14, 15), Pos(15, 15)]);
    game.try_move(Direction::Up);
    assert_eq!(body(&game.snake), vec![Pos(14, 16), Pos(14, 15), Pos(15, 15)]);
    assert_eq!(game.food.pos, Pos(0, 0));
    assert!(!game.is_failed);
}

#[test]
fn eating_grows_the_snake_and_lays_out_new_food() {
    let mut game = game_with_food(Pos(14, 15));
    let next = Food::coloured(Pos(2, 3), 6);
    assert!(game.will_eat(Direction::Left));
    assert!(!game.will_eat(Direction::Up));
    game.try_move_with(Direction::Left, next);
    assert_eq!(body(&game.snake), vec![Pos(14, 15), Pos(15, 15), Pos(16, 15), Pos(17, 15)]);
    assert_eq!(game.food.pos, Pos(2, 3));
    assert_eq!(game.food.food_color, "🟫");

    let mut drawn = game_with_food(Pos(15, 14));
    drawn.try_move(Direction::Up);
    assert_eq!(drawn.snake.positions.len(), 4);
    assert!(0 <= drawn.food.pos.0 && drawn.food.pos.0 < 30);
    assert!(0 <= drawn.food.pos.1 && drawn.food.pos.1 < 30);
}

#[test]
fn a_step_off_the_grid_ends_the_game() {
    let mut game = GameBoard::with_food(4, 4, Food::coloured(Pos(0, 0), 1));
    assert_eq!(body(&game.snake), vec![Pos(2, 2), Pos(3, 2), Pos(4, 2)]);
    game.try_move(Direction::Down);
    assert!(!game.is_failed);
    assert_eq!(body(&game.snake), vec![Pos(2, 3), Pos(2, 2), Pos(3, 2)]);
    game.try_move(Direction::Down);
    assert!(game.is_failed);
    assert!(game.snake.is_dead);
    assert_eq!(body(&game.snake), vec![Pos(2, 3), Pos(2, 2), Pos(3, 2)]);
    assert_eq!(game.food.pos, Pos(0, 0));
}

#[test]
fn a_step_past_the_last_coordinate_ends_the_game() {
    let mut game = GameBoard::with_food(4, 4, Food::coloured(Pos(0, 0), 1));
    game.snake = Snake::new(vec![Pos(i32::MAX, 1), Pos(i32::MAX - 1, 1)]);
    game.try_move(Direction::Right);
    assert!(game.is_failed);
    assert!(game.snake.is_dead);
    assert_eq!(body(&game.snake), vec![Pos(i32::MAX, 1), Pos(i32::MAX - 1, 1)]);
}

#[test]
fn a_bite_kills_the_snake_but_does_not_end_the_game() {
    let mut game = game_with_food(Pos(0, 0));
    game.snake = Snake::new(vec![Pos(5, 5), Pos(5, 6), Pos(6, 6), Pos(6, 5), Pos(6, 4)]);
    game.try_move(Direction::Right);
    assert!(game.snake.is_dead);
    assert!(!game.is_failed);
    assert_eq!(game.snake.positions.len(), 5);
}

#[test]
fn labels_show_food_before_snake() {
    let mut game = game_with_food(Pos(16, 15));
    assert_eq!(game.get_position(&Pos(16, 15)), "🟩");
    assert_eq!(game.get_position(&Pos(15, 15)), "🟥");
    assert_eq!(game.get_position(&Pos(17, 15)), "🟥");
    assert_eq!(game.get_position(&Pos(18, 15)), "");
    game.food = Food::coloured(Pos(0, 0), 4);
    assert_eq!(game.get_position(&Pos(16, 15)), "🟥");
    assert_eq!(game.get_position(&Pos(0, 0)), "🟦");
    assert!(game.is_in_bounds(Pos(29, 0)));
    assert!(!game.is_in_bounds(Pos(30, 0)));
    assert!(!game.is_in_bounds(Pos(0, -1)));
}

#[test]
fn the_grid_is_listed_row_by_row() {
    let game = GameBoard::with_food(3, 2, Food::coloured(Pos(0, 0), 0));
    assert_eq!(
        game.iter_positions(),
        vec![Pos(0, 0), Pos(1, 0), Pos(2, 0), Pos(0, 1), Pos(1, 1), Pos(2, 1)]
    );
    assert_eq!(GameBoard::new(30, 30).iter_positions().len(), 900);
}
