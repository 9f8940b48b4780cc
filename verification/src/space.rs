//! The occupancy set: the interior cells not covered by the snake, from
//! which food is placed. Held as a duplicate-free vector so that membership
//! edits and random choice are plain, deterministic operations over a stable
//! enumeration.

use vstd::prelude::*;

use crate::geometry::TermPoint;
use crate::geometry::in_interior;

verus! {

/// Relies on `rand::random`: draws a value of any type the standard
/// distribution supports from the thread-local generator. Nothing is
/// promised of the value drawn.
pub assume_specification<T>[ rand::random::<T> ]() -> (r: T)
    where
        rand::distributions::Standard: rand::distributions::Distribution<T>,
;

/// The set of open grid cells.
pub struct OpenSpace {
    pub cells: Vec<TermPoint>,
}

impl View for OpenSpace {
    type V = Set<TermPoint>;

    open spec fn view(&self) -> Set<TermPoint> {
        self.cells@.to_set()
    }
}

impl OpenSpace {
    /// The enumeration holds no cell twice.
    pub open spec fn wf(self) -> bool {
        forall|i: int, j: int|
            0 <= i < j < self.cells@.len() ==> self.cells@[i] != self.cells@[j]
    }

    /// The empty set of cells.
    pub fn empty() -> (s: OpenSpace)
        ensures
            s.wf(),
            s@ == Set::<TermPoint>::empty(),
            s.cells@.len() == 0,
    {
        let s = OpenSpace { cells: Vec::new() };
        proof {
            assert(s@ =~= Set::<TermPoint>::empty());
        }
        s
    }

    /// Populates every interior cell of a grid of `height` rows and `width`
    /// columns: rows 1 through `height - 2`, columns 1 through `width - 2`.
    pub fn initialize(height: u16, width: u16) -> (s: OpenSpace)
        requires
            height >= 3,
            width >= 3,
        ensures
            s.wf(),
            forall|p: TermPoint| s@.contains(p) <==> in_interior(p, height, width),
            s.cells@.len() <= (height - 2) * (width - 2),
    {
        let mut s = OpenSpace::empty();
        let mut row: usize = 1;
        while row < (height as usize) - 1
            invariant
                height >= 3,
                width >= 3,
                1 <= row <= height - 1,
                s.wf(),
                forall|p: TermPoint|
                    s@.contains(p) <==> (in_interior(p, height, width) && p.row < row),
                s.cells@.len() <= (row - 1) * (width - 2),
            decreases (height as int) - row,
        {
            let mut col: usize = 1;
            while col < (width as usize) - 1
                invariant
                    height >= 3,
                    width >= 3,
                    1 <= row < height - 1,
                    1 <= col <= width - 1,
                    s.wf(),
                    forall|p: TermPoint|
                        s@.contains(p) <==> (in_interior(p, height, width) && (p.row < row || (
                        p.row == row && p.col < col))),
                    s.cells@.len() <= (row - 1) * (width - 2) + (col - 1),
                decreases (width as int) - col,
            {
                s.insert(TermPoint::new(row, col));
                col += 1;
            }
            proof {
                assert((row - 1) * (width - 2) + ((width - 2) as int) == row * (width - 2))
                    by (nonlinear_arith);
            }
            row += 1;
        }
        s
    }

    /// Is `p` a member?
    pub fn contains(&self, p: TermPoint) -> (r: bool)
        ensures
            r == self@.contains(p),
    {
        let mut i: usize = 0;
        while i < self.cells.len()
            invariant
                i <= self.cells@.len(),
                forall|k: int| 0 <= k < i ==> self.cells@[k] != p,
            decreases self.cells@.len() - i,
        {
            if self.cells[i] == p {
                return true;
            }
            i += 1;
        }
        proof {
            assert(!self.cells@.contains(p));
        }
        false
    }

    /// Adds `p` to the set; a cell already present is not duplicated.
    pub fn insert(&mut self, p: TermPoint)
        requires
            old(self).wf(),
        ensures
            final(self).wf(),
            final(self)@ == old(self)@.insert(p),
            final(self).cells@.len() == old(self).cells@.len() + (if old(self)@.contains(p) {
                0int
            } else {
                1int
            }),
    {
        if !self.contains(p) {
            self.cells.push(p);
            proof {
                assert(self.cells@.drop_last() == old(self).cells@);
                assert forall|q: TermPoint| self@.contains(q) <==> old(self)@.insert(p).contains(
                    q,
                ) by {
                    if self.cells@.contains(q) {
                        let k = choose|k: int|
                            0 <= k < self.cells@.len() && self.cells@[k] == q;
                        if k < old(self).cells@.len() {
                            assert(old(self).cells@[k] == q);
                        }
                    }
                    if old(self).cells@.contains(q) {
                        let k = choose|k: int|
                            0 <= k < old(self).cells@.len() && old(self).cells@[k] == q;
                        assert(self.cells@[k] == q);
                    }
                    if q == p {
                        assert(self.cells@[self.cells@.len() - 1] == q);
                    }
                }
                assert(self@ =~= old(self)@.insert(p));
            }
        } else {
            proof {
                assert(self@ =~= old(self)@.insert(p));
            }
        }
    }

    /// Removes `p` from the set, if present.
    pub fn remove(&mut self, p: TermPoint)
        requires
            old(self).wf(),
        ensures
            final(self).wf(),
            final(self)@ == old(self)@.remove(p),
            final(self).cells@.len() == old(self).cells@.len() - (if old(self)@.contains(p) {
                1int
            } else {
                0int
            }),
    {
        let mut i: usize = 0;
        while i < self.cells.len()
            invariant
                i <= self.cells@.len(),
                *self == *old(self),
                old(self).wf(),
                forall|k: int| 0 <= k < i ==> self.cells@[k] != p,
            decreases self.cells@.len() - i,
        {
            if self.cells[i] == p {
                let ghost pre = self.cells@;
                self.cells.remove(i);
                proof {
                    assert(pre == old(self).cells@);
                    assert(pre[i as int] == p);
                    assert(self.cells@ == pre.remove(i as int));
                    assert forall|k: int| 0 <= k < pre.len() && k != i implies pre[k] != p by {
                        if k < i {
                            assert(pre[k] != pre[i as int]);
                        } else {
                            assert(pre[i as int] != pre[k]);
                        }
                    }
                    assert forall|k: int|
                        0 <= k < self.cells@.len() implies self.cells@[k] == (if k < i {
                        pre[k]
                    } else {
                        pre[k + 1]
                    }) by {}
                    assert forall|q: TermPoint|
                        self@.contains(q) <==> old(self)@.remove(p).contains(q) by {
                        if self.cells@.contains(q) {
                            let k = choose|k: int|
                                0 <= k < self.cells@.len() && self.cells@[k] == q;
                            if k < i {
                                assert(pre[k] == q);
                                assert(q != p);
                            } else {
                                assert(pre[k + 1] == q);
                                assert(q != p);
                            }
                        }
                        if old(self)@.contains(q) && q != p {
                            let k = choose|k: int| 0 <= k < pre.len() && pre[k] == q;
                            assert(k != i);
                            if k < i {
                                assert(self.cells@[k] == q);
                            } else {
                                assert(self.cells@[k - 1] == q);
                            }
                        }
                    }
                    assert(self@ =~= old(self)@.remove(p));
                    assert forall|a: int, b: int|
                        0 <= a < b < self.cells@.len() implies self.cells@[a] != self.cells@[b] by {
                        let a0: int = if a < i { a } else { a + 1 };
                        let b0: int = if b < i { b } else { b + 1 };
                        assert(self.cells@[a] == pre[a0]);
                        assert(self.cells@[b] == pre[b0]);
                        assert(0 <= a0 < b0 < pre.len());
                        assert(pre[a0] != pre[b0]);
                    }
                }
                return ;
            }
            i += 1;
        }
        proof {
            assert(!self.cells@.contains(p));
            assert(!old(self)@.contains(p));
            assert(self@ =~= old(self)@.remove(p));
        }
    }

    /// How many cells are open.
    pub fn len(&self) -> (n: usize)
        ensures
            n == self.cells@.len(),
    {
        self.cells.len()
    }

    /// Is no cell open? Under `wf`, the enumeration is empty exactly when
    /// the set is.
    pub fn is_empty(&self) -> (r: bool)
        ensures
            r == (self.cells@.len() == 0),
            r == forall|p: TermPoint| !self@.contains(p),
    {
        let r = self.cells.len() == 0;
        proof {
            if self.cells@.len() > 0 {
                assert(self@.contains(self.cells@[0]));
            }
        }
        r
    }

    /// The cell at position `idx` of the stable enumeration.
    pub fn pick(&self, idx: usize) -> (p: TermPoint)
        requires
            idx < self.cells@.len(),
        ensures
            p == self.cells@[idx as int],
            self@.contains(p),
    {
        self.cells[idx]
    }

    /// Chooses a member cell: the stable enumeration indexed by a random
    /// integer. Must not be called on an empty set.
    pub fn pick_random(&self) -> (p: TermPoint)
        requires
            self.cells@.len() > 0,
        ensures
            self@.contains(p),
    {
        let r: usize = rand::random();
        let idx: usize = r % self.cells.len();
        self.pick(idx)
    }
}

} // verus!
