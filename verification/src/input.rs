//! Logical input commands and the per-tick direction resolution, including
//! the guard that keeps a command from reversing the snake onto itself.

use vstd::prelude::*;

use crate::geometry::Dir;
use crate::geometry::TermPoint;

verus! {

/// A decoded key press: a direction, a pause request, or anything else.
#[derive(Debug, Clone, Copy, PartialEq, Eq, Structural)]
pub enum UserInput {
    Unknown,
    Pause,
    Up,
    Down,
    Left,
    Right,
}

impl UserInput {
    /// The direction a command names, if it names one.
    pub open spec fn dir_spec(self) -> Option<Dir> {
        match self {
            UserInput::Up => Some(Dir::Up),
            UserInput::Down => Some(Dir::Down),
            UserInput::Left => Some(Dir::Left),
            UserInput::Right => Some(Dir::Right),
            _ => None,
        }
    }

    pub fn to_dir(self) -> (r: Option<Dir>)
        ensures
            r == self.dir_spec(),
    {
        match self {
            UserInput::Up => Some(Dir::Up),
            UserInput::Down => Some(Dir::Down),
            UserInput::Left => Some(Dir::Left),
            UserInput::Right => Some(Dir::Right),
            _ => None,
        }
    }

    /// The command that names a direction.
    pub fn from_dir(dir: Dir) -> (r: UserInput)
        ensures
            r.dir_spec() == Some(dir),
    {
        match dir {
            Dir::Up => UserInput::Up,
            Dir::Down => UserInput::Down,
            Dir::Left => UserInput::Left,
            Dir::Right => UserInput::Right,
        }
    }
}

/// The direction one tick applies, given the snake's current heading and
/// the pending command: the command's direction, except that a command
/// naming no direction, or naming the exact opposite of the heading, falls
/// back to the heading itself.
pub open spec fn resolve_spec(heading: Dir, input: UserInput) -> Dir {
    match input.dir_spec() {
        Some(d) => if heading.opposite_spec(d) {
            heading
        } else {
            d
        },
        None => heading,
    }
}

pub fn resolve_direction(heading: Dir, input: UserInput) -> (r: Dir)
    ensures
        r == resolve_spec(heading, input),
        !heading.opposite_spec(r),
{
    let r = match input.to_dir() {
        Some(d) => if heading.is_opposite(d) {
            heading
        } else {
            d
        },
        None => heading,
    };
    proof {
        crate::geometry::lemma_opposite(heading);
    }
    r
}

/// The reversal guard: a command naming the exact opposite of the heading
/// is never applied unmodified; the heading is substituted, so the head
/// moves to the same cell as continuing straight.
pub proof fn lemma_reversal_guard(heading: Dir, input: UserInput, head: TermPoint)
    requires
        input.dir_spec() matches Some(d) && heading.opposite_spec(d),
    ensures
        resolve_spec(heading, input) == heading,
        head.advance_spec(resolve_spec(heading, input)) == head.advance_spec(heading),
{
}

} // verus!
