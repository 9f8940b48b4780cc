//! The snake: an ordered body of segments, head first, tail last.

use std::collections::VecDeque;

use vstd::prelude::*;

use crate::geometry::Dir;
use crate::geometry::TermPoint;

verus! {

/// One cell of the snake's body: its position, and the direction it was
/// moving when placed there (which picks the glyph drawn for it).
#[derive(Debug, Copy, Clone, PartialEq, Eq, Structural)]
pub struct BodySegment {
    pub pos: TermPoint,
    pub dir: Dir,
}

impl BodySegment {
    pub fn new(row: usize, col: usize, dir: Dir) -> (s: BodySegment)
        ensures
            s.pos.row == row,
            s.pos.col == col,
            s.dir == dir,
    {
        BodySegment { pos: TermPoint { row, col }, dir }
    }

    /// The head segment one tick later: advanced one cell, heading `dir`.
    pub open spec fn stepped(self, dir: Dir) -> BodySegment {
        BodySegment { pos: self.pos.advance_spec(dir), dir: dir }
    }

    /// The glyph this segment is drawn with: a chevron along its heading.
    pub open spec fn glyph_spec(self) -> char {
        match self.dir {
            Dir::Up => '^',
            Dir::Down => 'v',
            Dir::Left => '<',
            Dir::Right => '>',
        }
    }

    pub fn glyph(&self) -> (c: char)
        ensures
            c == self.glyph_spec(),
    {
        match self.dir {
            Dir::Up => '^',
            Dir::Down => 'v',
            Dir::Left => '<',
            Dir::Right => '>',
        }
    }
}

/// Does any segment of `body` occupy the cell `p`?
pub open spec fn occupies(body: Seq<BodySegment>, p: TermPoint) -> bool {
    exists|i: int| 0 <= i < body.len() && body[i].pos == p
}

/// No two segments of `body` share a cell.
pub open spec fn distinct_positions(body: Seq<BodySegment>) -> bool {
    forall|i: int, j: int| 0 <= i < j < body.len() ==> body[i].pos != body[j].pos
}

/// Each segment sits one cell away from its successor, along its own
/// heading: the body has no gaps.
pub open spec fn linked(body: Seq<BodySegment>) -> bool {
    forall|i: int|
        0 <= i && i + 1 < body.len() ==> #[trigger] body[i].pos == body[i + 1].pos.advance_spec(
            body[i].dir,
        )
}

/// The snake's body, head at the front, tail at the back.
pub struct Snake {
    pub body: VecDeque<BodySegment>,
}

impl Snake {
    /// Builds a snake from its initial body, given head first.
    pub fn new(start: Vec<BodySegment>) -> (s: Snake)
        ensures
            s.body@ == start@,
    {
        let mut body: VecDeque<BodySegment> = VecDeque::new();
        let mut i: usize = 0;
        while i < start.len()
            invariant
                i <= start@.len(),
                body@ == start@.subrange(0, i as int),
            decreases start@.len() - i,
        {
            body.push_back(start[i]);
            proof {
                assert(start@.subrange(0, i as int).push(start@[i as int]) =~= start@.subrange(
                    0,
                    i as int + 1,
                ));
            }
            i += 1;
        }
        proof {
            assert(start@.subrange(0, start@.len() as int) =~= start@);
        }
        Snake { body }
    }

    /// Pushes a new head: the current head advanced one cell in `dir`.
    fn move_head(&mut self, dir: Dir)
        requires
            old(self).body@.len() >= 1,
            old(self).body@[0].pos.can_advance(dir),
        ensures
            final(self).body@ == seq![old(self).body@[0].stepped(dir)] + old(self).body@,
    {
        let mut new_head: BodySegment = self.body[0];
        new_head.dir = dir;
        new_head.pos = new_head.pos.advance(dir);
        self.body.push_front(new_head);
    }

    /// Drops the tail segment.
    fn move_tail(&mut self)
        requires
            old(self).body@.len() >= 1,
        ensures
            final(self).body@ == old(self).body@.drop_last(),
    {
        let popped: Option<BodySegment> = self.body.pop_back();
        proof {
            assert(popped is Some);
        }
    }

    /// One tick's default transform: advance the head one cell in `dir` and
    /// retract the tail. The body length is preserved.
    pub fn move_body(&mut self, dir: Dir)
        requires
            old(self).body@.len() >= 1,
            old(self).body@[0].pos.can_advance(dir),
        ensures
            final(self).body@ == seq![old(self).body@[0].stepped(dir)] + old(
                self,
            ).body@.drop_last(),
            final(self).body@.len() == old(self).body@.len(),
            final(self).body@[0] == old(self).body@[0].stepped(dir),
    {
        self.move_head(dir);
        self.move_tail();
        proof {
            assert((seq![old(self).body@[0].stepped(dir)] + old(self).body@).drop_last()
                =~= seq![old(self).body@[0].stepped(dir)] + old(self).body@.drop_last());
        }
    }

    /// Appends a segment at the back, reinstating a tail on growth. The
    /// length grows by exactly one and every prior segment is preserved.
    pub fn extend_body(&mut self, new_tail: BodySegment)
        ensures
            final(self).body@ == old(self).body@.push(new_tail),
            final(self).body@.len() == old(self).body@.len() + 1,
            forall|i: int|
                0 <= i < old(self).body@.len() ==> final(self).body@[i] == old(self).body@[i],
    {
        self.body.push_back(new_tail);
    }

    /// Does any segment other than the head occupy `p`?
    pub fn hits_rest(&self, p: TermPoint) -> (r: bool)
        ensures
            r == exists|k: int| 1 <= k < self.body@.len() && self.body@[k].pos == p,
    {
        let mut i: usize = 1;
        while i < self.body.len()
            invariant
                1 <= i,
                i <= self.body@.len() || self.body@.len() == 0,
                forall|k: int| 1 <= k < i && k < self.body@.len() ==> self.body@[k].pos != p,
            decreases self.body@.len() - i,
        {
            if self.body[i].pos == p {
                return true;
            }
            i += 1;
        }
        false
    }
}

} // verus!
