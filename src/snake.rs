use vstd::prelude::*;

use crate::direction::Direction;
use crate::geometry::Cell;

verus! {

/// The snake: its body segments, head first, and its heading. A turn that has
/// been requested but not yet taken is buffered until the next step.
pub struct Snake {
    pub body: Vec<Cell>,
    pub direction: Direction,
    next_direction: Option<Direction>,
}

/// The heading a step takes: the buffered turn if there is one, else the
/// current heading.
pub open spec fn resolve(direction: Direction, pending: Option<Direction>) -> Direction {
    match pending {
        Some(d) => d,
        None => direction,
    }
}

/// Mathematical model of a snake.
pub struct SnakeView {
    pub body: Seq<Cell>,
    pub direction: Direction,
    pub pending: Option<Direction>,
}

impl View for Snake {
    type V = SnakeView;

    closed spec fn view(&self) -> SnakeView {
        SnakeView { body: self.body@, direction: self.direction, pending: self.next_direction }
    }
}

impl Snake {

    pub fn new(body: Vec<Cell>, direction: Direction) -> (r: Snake)
        ensures
            r@ == (SnakeView { body: body@, direction, pending: None }),
    {
        Snake { body, direction, next_direction: None }
    }

    /// The segments, head first.
    pub fn segments(&self) -> (r: &Vec<Cell>)
        ensures
            r@ == self@.body,
    {
        &self.body
    }

    /// The buffered turn, if any.
    pub fn pending_direction(&self) -> (r: Option<Direction>)
        ensures
            r == self@.pending,
    {
        self.next_direction
    }

    /// Buffers a turn. Only a turn orthogonal to the current heading is kept;
    /// one along the current axis (the same heading or its opposite) is
    /// dropped, so the snake can never reverse onto itself.
    pub fn change_direction(&mut self, direction: Direction)
        ensures
            final(self)@.body == old(self)@.body,
            final(self)@.direction == old(self)@.direction,
            final(self)@.pending == if direction.orthogonal(old(self)@.direction) {
                Some(direction)
            } else {
                old(self)@.pending
            },
        no_unwind
    {
        match direction {
            Direction::Up | Direction::Down => match self.direction {
                Direction::Left | Direction::Right => self.next_direction = Some(direction),
                _ => {},
            },
            Direction::Left | Direction::Right => match self.direction {
                Direction::Up | Direction::Down => self.next_direction = Some(direction),
                _ => {},
            },
        }
    }

    /// The heading the next step will take, without taking it.
    pub fn upcoming_direction(&self) -> (r: Direction)
        ensures
            r == resolve(self@.direction, self@.pending),
    {
        match self.next_direction {
            Some(direction) => direction,
            None => self.direction,
        }
    }

    /// Takes the buffered turn, if any, clears the buffer, and returns the
    /// heading now in force.
    pub fn next_direction(&mut self) -> (r: Direction)
        ensures
            r == resolve(old(self)@.direction, old(self)@.pending),
            final(self)@.direction == r,
            final(self)@.pending is None,
            final(self)@.body == old(self)@.body,
    {
        let direction = self.upcoming_direction();
        self.direction = direction;
        self.next_direction = None;
        direction
    }
}

} // verus!
