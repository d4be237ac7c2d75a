use grid_games::tetris::kind::Kind;
use grid_games::tetris::shape::Shape;
use grid_games::tetris::tetris::Tetris;

#[test]
fn shape_test() {
    println!("{:#?}", Shape::new_o());
}

#[test]
#[allow(non_snake_case)]
fn testNewTetris() {
    println!("{:#?}", Tetris::new(10, 25));
}

#[test]
#[allow(non_snake_case)]
fn testDefaultTetris() {
    println!("{:#?}", Tetris::default());
}

#[test]
#[allow(non_snake_case)]
fn testTick() {
    let mut tetris = Tetris::default();

    for _ in 0..tetris.height {
        tetris.tick();
    }

    assert_eq!(tetris.fixed_shapes.len(), 1);
}

#[test]
fn lib_test() {
    let mut t = Tetris::default();
    t.tick();
    t.tick();
    t.tick();
    println!("{:#?}", t.current_shape);
    if let Some(old_shape) = t.rotate() {
        println!("{:#?}", old_shape);
    } else {
        println!("can not rotate");
    }
    println!("{:#?}", t.current_shape);
}

#[test]
fn every_kind_lands_once_in_twenty_five_ticks() {
    let kinds = [Kind::I, Kind::O, Kind::T, Kind::J, Kind::L, Kind::S, Kind::Z];
    for first in kinds {
        for next in kinds {
            let mut game = Tetris::with_piece(10, 25, first).unwrap();
            for _ in 0..25 {
                game.tick_with(next);
            }
            assert_eq!(game.fixed_shapes.len(), 1);
            assert!(!game.failed);
            assert!(game.is_well_formed());
        }
    }
}
