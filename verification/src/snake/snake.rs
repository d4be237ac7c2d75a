//! The snake: the cells of its body, head first.

use std::collections::VecDeque;
use vstd::prelude::*;
use vstd::std_specs::ops::AddSpecImpl;
use vstd::std_specs::vecdeque::VecDequeAdditionalSpecFns;
use crate::snake::food::Food;
use crate::snake::gameboard::Direction;
use crate::snake::pos::{in_i32, Cell, Pos};

verus! {

/// The body after a step onto `next`: the new head in front, and the tail
/// cell given up unless the snake eats.
pub open spec fn stepped(body: Seq<Pos>, next: Pos, eats: bool) -> Seq<Pos> {
    if eats {
        seq![next] + body
    } else {
        seq![next] + body.drop_last()
    }
}

/// A snake: the cells of its body from the head to the tail, whether it has
/// died, and the glyphs that show its body and its head.
#[derive(Debug, Clone)]
pub struct Snake<'a> {
    pub positions: VecDeque<Pos>,
    pub is_dead: bool,
    pub color: &'a str,
    pub head_color: &'a str,
}

impl<'a> core::ops::Add<Pos> for Snake<'a> {
    type Output = Snake<'a>;

    /// The snake grown by one cell: its new head lies `rhs` away from the
    /// old one, and the rest of it stays.
    fn add(self, rhs: Pos) -> (grown: Snake<'a>)
        ensures
            grown.positions@ == seq![Pos((self.positions@[0].0 + rhs.0) as i32, (self.positions@[0].1 + rhs.1) as i32)]
                + self.positions@,
            grown.is_dead == self.is_dead,
            grown.color == self.color,
            grown.head_color == self.head_color,
    {
        let head: Pos = self.positions[0];
        let next = Pos(head.0 + rhs.0, head.1 + rhs.1);
        let mut grown = self;
        grown.positions.push_front(next);
        grown
    }
}

/// The sum of a snake and a vector is stated by the `ensures` of `add`; no
/// snake is named as the sum, so `obeys_add_spec` is false.
impl<'a> AddSpecImpl<Pos> for Snake<'a> {
    open spec fn obeys_add_spec() -> bool {
        false
    }

    open spec fn add_req(self, rhs: Pos) -> bool {
        &&& self.positions@.len() > 0
        &&& in_i32(self.positions@[0].0 + rhs.0)
        &&& in_i32(self.positions@[0].1 + rhs.1)
    }

    open spec fn add_spec(self, rhs: Pos) -> Snake<'a> {
        self
    }
}

impl<'a> Snake<'a> {
    /// The cell one step ahead of the head in the given direction.
    pub open spec fn ahead(&self, direction: Direction) -> Cell {
        (
            self.positions@[0].0 + direction.step().0,
            self.positions@[0].1 + direction.step().1,
        )
    }

    /// Whether the snake has a head and the cell ahead of it can be held in
    /// a [`Pos`].
    pub open spec fn can_step(&self, direction: Direction) -> bool {
        &&& self.positions@.len() > 0
        &&& in_i32(self.ahead(direction).0)
        &&& in_i32(self.ahead(direction).1)
    }

    /// Whether the body lies on the cell `head_next_position`.
    pub fn is_eat_self(&self, head_next_position: &Pos) -> (bitten: bool)
        ensures
            bitten == self.positions@.contains(*head_next_position),
    {
        let n: usize = self.positions.len();
        let mut i: usize = 0;
        while i < n
            invariant
                n == self.positions@.len(),
                i <= n,
                forall|j: int| 0 <= j < i ==> self.positions@[j] != *head_next_position,
            decreases n - i,
        {
            let p: Pos = self.positions[i];
            if p.0 == head_next_position.0 && p.1 == head_next_position.1 {
                assert(self.positions@[i as int] == *head_next_position);
                return true;
            }
            i += 1;
        }
        false
    }

    /// One step in the given direction.
    ///
    /// Where the cell ahead of the head is one of the body, the snake dies
    /// and stays where it is. Else the head moves there; the tail follows
    /// unless the food lies on that cell, in which case the snake is one
    /// cell longer.
    pub fn try_move(&mut self, direction: Direction, food: &Food)
        requires
            old(self).can_step(direction),
        ensures
            final(self).color == old(self).color,
            final(self).head_color == old(self).head_color,
            ({
                let next = Pos(
                    old(self).ahead(direction).0 as i32,
                    old(self).ahead(direction).1 as i32,
                );
                if old(self).positions@.contains(next) {
                    &&& final(self).is_dead
                    &&& final(self).positions@ == old(self).positions@
                } else {
                    &&& final(self).is_dead == old(self).is_dead
                    &&& final(self).positions@ == stepped(
                        old(self).positions@,
                        next,
                        next == food.pos,
                    )
                }
            }),
    {
        let step: Pos = direction.step_pos();
        let head: Pos = self.positions[0];
        let head_next_position = Pos(head.0 + step.0, head.1 + step.1);
        if self.is_eat_self(&head_next_position) {
            self.is_dead = true;
            return;
        }
        self.positions.push_front(head_next_position);
        if head_next_position != food.pos {
            self.positions.pop_back();
            assert(self.positions@ =~= stepped(old(self).positions@, head_next_position, false));
        }
    }
}

impl Snake<'static> {
    /// A living snake on the given cells, the head first.
    pub fn new(positions: Vec<Pos>) -> (snake: Snake<'static>)
        ensures
            snake.positions@ == positions@,
            !snake.is_dead,
            snake.color@ == "🟥"@,
            snake.head_color@ == "🔴"@,
    {
        let mut body: VecDeque<Pos> = VecDeque::new();
        let n: usize = positions.len();
        let mut i: usize = 0;
        while i < n
            invariant
                n == positions.len(),
                i <= n,
                body@ == positions@.take(i as int),
            decreases n - i,
        {
            body.push_back(positions[i]);
            assert(positions@.take(i + 1) =~= positions@.take(i as int).push(positions[i as int]));
            i += 1;
        }
        assert(positions@.take(n as int) =~= positions@);
        Snake { positions: body, is_dead: false, color: "🟥", head_color: "🔴" }
    }
}

} // verus!
