use std::collections::HashSet;

use grid_games::tetris::kind::Kind;
use grid_games::tetris::pos::Pos;
use grid_games::tetris::shape::Shape;

fn cells(shape: &Shape) -> HashSet<Pos> {
    shape.positions.iter().copied().collect()
}

fn set_of(list: &[(i8, i8)]) -> HashSet<Pos> {
    list.iter().map(|&(x, y)| Pos(x, y)).collect()
}

fn all_pieces() -> Vec<Shape> {
    vec![
        Shape::new_i(),
        Shape::new_o(),
        Shape::new_t(),
        Shape::new_j(),
        Shape::new_l(),
        Shape::new_s(),
        Shape::new_z(),
    ]
}

#[test]
fn pieces_are_defined_as_listed() {
    let expected: Vec<(Kind, (i8, i8), [(i8, i8); 4], &str)> = vec![
        (Kind::I, (1, 0), [(0, 0), (1, 0), (2, 0), (3, 0)], "🟦"),
        (Kind::O, (1, 0), [(0, 0), (1, 0), (0, 1), (1, 1)], "🟨"),
        (Kind::T, (1, 0), [(0, 0), (1, 0), (2, 0), (1, 1)], "🟪"),
        (Kind::J, (1, 1), [(0, 2), (1, 0), (1, 1), (1, 2)], "⬛"),
        (Kind::L, (0, 1), [(0, 0), (0, 1), (0, 2), (1, 2)], "🟧"),
        (Kind::S, (1, 0), [(1, 0), (2, 0), (0, 1), (1, 1)], "🟩"),
        (Kind::Z, (1, 0), [(0, 0), (1, 0), (1, 1), (2, 1)], "🟥"),
    ];
    for (shape, (kind, anchor, list, glyph)) in all_pieces().iter().zip(expected) {
        assert_eq!(shape.typ, kind);
        assert_eq!(shape.anchor, Pos(anchor.0, anchor.1));
        assert_eq!(cells(shape), set_of(&list));
        assert_eq!(shape.positions.len(), 4);
        assert_eq!(shape.typ.glyph(), glyph);
        assert!(shape.is_well_formed());
        let again = Shape::of_kind(kind);
        assert_eq!(cells(&again), set_of(&list));
        assert_eq!(again.anchor, shape.anchor);
    }
}

#[test]
fn kinds_are_numbered_in_order() {
    assert_eq!(Kind::from_index(0), Some(Kind::I));
    assert_eq!(Kind::from_index(1), Some(Kind::O));
    assert_eq!(Kind::from_index(2), Some(Kind::T));
    assert_eq!(Kind::from_index(3), Some(Kind::J));
    assert_eq!(Kind::from_index(4), Some(Kind::L));
    assert_eq!(Kind::from_index(5), Some(Kind::S));
    assert_eq!(Kind::from_index(6), Some(Kind::Z));
    assert_eq!(Kind::from_index(7), None);
    assert_eq!(Kind::from_index(255), None);
}

#[test]
fn random_shape_is_one_of_the_seven() {
    for _ in 0..200 {
        let shape = Shape::random_shape();
        let defined = Shape::of_kind(shape.typ);
        assert_eq!(cells(&shape), cells(&defined));
        assert_eq!(shape.anchor, defined.anchor);
    }
}

#[test]
fn rotating_i_once_gives_the_known_cells() {
    let turned = Shape::new_i().rotate();
    assert_eq!(cells(&turned), set_of(&[(1, -1), (1, 0), (1, 1), (1, 2)]));
    assert_eq!(turned.anchor, Pos(1, 0));
    assert_eq!(turned.typ, Kind::I);
}

#[test]
fn four_rotations_give_the_shape_back() {
    for shape in all_pieces() {
        let moved = shape.translate(Pos(5, 7));
        let back = moved.rotate().rotate().rotate().rotate();
        assert_eq!(cells(&back), cells(&moved));
        assert_eq!(back.anchor, moved.anchor);
        assert_eq!(back.typ, moved.typ);
    }
    let odd = Shape::new(vec![Pos(-3, 4), Pos(9, 9), Pos(0, 0)], Pos(2, -5), Kind::T);
    let back = odd.rotate().rotate().rotate().rotate();
    assert_eq!(cells(&back), cells(&odd));
}

#[test]
fn rotation_follows_the_formula() {
    let shape = Shape::new(vec![Pos(5, 2), Pos(3, 3)], Pos(3, 1), Kind::L);
    let turned = shape.rotate();
    // (x, y) -> (-y + a + b, b + x - a) with (a, b) = (3, 1)
    assert_eq!(cells(&turned), set_of(&[(2, 3), (1, 1)]));
    assert_eq!(turned.anchor, Pos(3, 1));
}

#[test]
fn translation_keeps_size_and_kind() {
    for shape in all_pieces() {
        let moved = shape.translate(Pos(-7, 11));
        assert_eq!(moved.positions.len(), shape.positions.len());
        assert_eq!(cells(&moved).len(), cells(&shape).len());
        assert_eq!(moved.typ, shape.typ);
        assert_eq!(moved.anchor, Pos(shape.anchor.0 - 7, shape.anchor.1 + 11));
        let expected: HashSet<Pos> =
            shape.positions.iter().map(|p| Pos(p.0 - 7, p.1 + 11)).collect();
        assert_eq!(cells(&moved), expected);
    }
}

#[test]
fn moves_that_leave_the_coordinate_range_are_refused() {
    let edge = Shape::new(vec![Pos(127, 0)], Pos(127, 0), Kind::O);
    assert!(edge.try_translate(Pos(1, 0)).is_none());
    assert!(edge.try_translate(Pos(0, 1)).is_some());
    assert!(edge.try_translate(Pos(-128, -128)).is_some());
    let low = Shape::new(vec![Pos(0, -128)], Pos(0, 0), Kind::O);
    assert!(low.try_translate(Pos(0, -1)).is_none());
    // (0, -128) about (0, 0) turns to (128, 0)
    assert!(low.try_rotate().is_none());
    let far_anchor = Shape::new(vec![Pos(0, 0)], Pos(127, 127), Kind::O);
    assert!(far_anchor.try_translate(Pos(1, 0)).is_none());
    let fine = Shape::new_t();
    assert_eq!(cells(&fine.try_rotate().unwrap()), cells(&fine.rotate()));
}

#[test]
fn new_lists_each_cell_once() {
    let shape = Shape::new(vec![Pos(1, 1), Pos(2, 2), Pos(1, 1), Pos(2, 2), Pos(3, 3)], Pos(0, 0), Kind::S);
    assert_eq!(shape.positions, vec![Pos(1, 1), Pos(2, 2), Pos(3, 3)]);
    assert!(shape.is_well_formed());
    let kept = Shape::new(vec![Pos(4, 4), Pos(0, 0)], Pos(9, 9), Kind::Z);
    assert_eq!(kept.positions, vec![Pos(4, 4), Pos(0, 0)]);
    assert_eq!(kept.anchor, Pos(9, 9));
    assert_eq!(kept.typ, Kind::Z);
    let twice = Shape { positions: vec![Pos(0, 0), Pos(0, 0)], anchor: Pos(0, 0), typ: Kind::I };
    assert!(!twice.is_well_formed());
}

#[test]
fn remove_drops_the_row_and_lowers_what_is_above() {
    let mut shape = Shape::new(
        vec![Pos(0, 0), Pos(1, 1), Pos(2, 2), Pos(3, 2), Pos(4, 3), Pos(5, -1)],
        Pos(1, 1),
        Kind::J,
    );
    shape.remove(2);
    assert_eq!(cells(&shape), set_of(&[(0, 1), (1, 2), (4, 3), (5, 0)]));
    assert_eq!(shape.anchor, Pos(1, 1));
    assert_eq!(shape.typ, Kind::J);
    assert!(shape.is_well_formed());
    let mut top = Shape::new(vec![Pos(0, 127), Pos(0, 126)], Pos(0, 0), Kind::I);
    top.remove(127);
    assert_eq!(cells(&top), set_of(&[(0, 127)]));
    let mut gone = Shape::new_i();
    gone.remove(0);
    assert!(gone.positions.is_empty());
}

#[test]
fn occupies_and_row_len_count_cells() {
    let shape = Shape::new_j();
    assert!(shape.occupies(Pos(0, 2)));
    assert!(shape.occupies(Pos(1, 0)));
    assert!(!shape.occupies(Pos(0, 0)));
    assert_eq!(shape.row_len(2), 2);
    assert_eq!(shape.row_len(0), 1);
    assert_eq!(shape.row_len(3), 0);
}

#[test]
fn keys_are_the_two_decimal_texts() {
    assert_eq!(Pos(0, 0).key(), "00");
    assert_eq!(Pos(1, -1).key(), "1-1");
    assert_eq!(Pos(12, 3).key(), "123");
    assert_eq!(Pos(-128, 127).key(), "-128127");
    assert_eq!(Pos(100, -9).key(), "100-9");
}
