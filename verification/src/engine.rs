//! The game engine: owns the snake, the open cells, the food and the score,
//! and advances the game by one tick per commanded direction.

use vstd::prelude::*;

use crate::geometry::Dir;
use crate::geometry::TermPoint;
use crate::geometry::in_interior;
use crate::snake::BodySegment;
use crate::snake::Snake;
use crate::snake::distinct_positions;
use crate::snake::linked;
use crate::snake::occupies;
use crate::space::OpenSpace;

verus! {

/// The outcome of one tick.
#[derive(Debug, Copy, Clone, PartialEq, Eq, Structural)]
pub enum GameState {
    Continue,
    Over,
    Win,
}

/// Game configuration. Every rule of this game is fixed, so there is
/// nothing to choose.
pub struct GameSettings {}

impl GameSettings {
    pub fn new() -> (s: GameSettings) {
        GameSettings {}
    }
}

/// The full game state: the snake, the set of open cells, the food, the
/// score, and the grid dimensions fixed at construction.
pub struct SnakeGame {
    pub snake: Snake,
    pub score: u64,
    pub open_space: OpenSpace,
    pub apple: TermPoint,
    pub height: u16,
    pub width: u16,
}

impl SnakeGame {
    /// The head segment.
    pub open spec fn head(self) -> BodySegment {
        self.snake.body@[0]
    }

    /// The tail segment.
    pub open spec fn tail(self) -> BodySegment {
        self.snake.body@[self.snake.body@.len() - 1]
    }

    /// The cell the head lands on when moving in `dir`.
    pub open spec fn new_head_pos(self, dir: Dir) -> TermPoint {
        self.head().pos.advance_spec(dir)
    }

    /// Does `p` touch or cross the one-cell border of the grid?
    pub open spec fn hits_border(p: TermPoint, height: u16, width: u16) -> bool {
        p.row == 0 || p.row + 1 >= height || p.col == 0 || p.col + 1 >= width
    }

    /// Does the head, moved in `dir`, land on another body cell? The tail
    /// cell vacated by the same tick does not count.
    pub open spec fn self_collides(self, dir: Dir) -> bool {
        exists|j: int|
            0 <= j < self.snake.body@.len() - 1 && self.snake.body@[j].pos == self.new_head_pos(
                dir,
            )
    }

    /// Does the head, moved in `dir`, land on the food?
    pub open spec fn eats(self, dir: Dir) -> bool {
        self.new_head_pos(dir) == self.apple
    }

    /// After the head, moved in `dir`, takes the last open cell, is the
    /// board full?
    pub open spec fn fills_board(self, dir: Dir) -> bool {
        forall|p: TermPoint| self.open_space@.contains(p) ==> p == self.new_head_pos(dir)
    }

    /// What one tick moving in `dir` returns: Over on a border or body
    /// collision, Win when the food is eaten and no open cell remains,
    /// Continue otherwise.
    pub open spec fn step_spec(self, dir: Dir) -> GameState {
        if Self::hits_border(self.new_head_pos(dir), self.height, self.width)
            || self.self_collides(dir) {
            GameState::Over
        } else if self.eats(dir) && self.fills_board(dir) {
            GameState::Win
        } else {
            GameState::Continue
        }
    }

    /// The body after the head advances in `dir` and the tail retracts.
    pub open spec fn moved_body(self, dir: Dir) -> Seq<BodySegment> {
        seq![self.head().stepped(dir)] + self.snake.body@.drop_last()
    }

    /// A well-formed mid-play state: the grid can host the game; the body
    /// has at least its two starting segments, no gaps, no repeated cell,
    /// and lies in the interior; the open cells are exactly the interior
    /// cells the snake does not cover; the food lies on an open cell; and
    /// the score counts the food eaten.
    pub open spec fn wf(self) -> bool {
        &&& 3 <= self.height
        &&& 3 <= self.width
        &&& 2 <= self.snake.body@.len()
        &&& distinct_positions(self.snake.body@)
        &&& linked(self.snake.body@)
        &&& (forall|i: int|
            0 <= i < self.snake.body@.len() ==> in_interior(
                #[trigger] self.snake.body@[i].pos,
                self.height,
                self.width,
            ))
        &&& self.open_space.wf()
        &&& (forall|p: TermPoint|
            self.open_space@.contains(p) ==> in_interior(p, self.height, self.width))
        &&& (forall|i: int|
            0 <= i < self.snake.body@.len() ==> !self.open_space@.contains(
                #[trigger] self.snake.body@[i].pos,
            ))
        &&& (forall|p: TermPoint|
            in_interior(p, self.height, self.width) ==> self.open_space@.contains(p) || occupies(
                self.snake.body@,
                p,
            ))
        &&& self.open_space@.contains(self.apple)
        &&& self.snake.body@.len() + self.open_space.cells@.len() <= (self.height - 2) * (
        self.width - 2)
        &&& self.score == 100 * (self.snake.body@.len() - 2)
    }

    /// Builds the initial game for a grid of `height` rows and `width`
    /// columns: a two-segment snake heading right with its head at row 1,
    /// column 2, the food at row 1, column 5, and every other interior cell
    /// open. Returns nothing exactly when the grid cannot host that layout.
    pub fn new(height: u16, width: u16) -> (r: Option<SnakeGame>)
        ensures
            (r is Some) <==> (height >= 3 && width >= 7),
            r matches Some(g) ==> {
                &&& g.wf()
                &&& g.height == height
                &&& g.width == width
                &&& g.score == 0
                &&& g.apple == (TermPoint { row: 1, col: 5 })
                &&& g.snake.body@ == seq![
                    (BodySegment { pos: (TermPoint { row: 1, col: 2 }), dir: Dir::Right }),
                    (BodySegment { pos: (TermPoint { row: 1, col: 1 }), dir: Dir::Right }),
                ]
                &&& (forall|p: TermPoint|
                    g.open_space@.contains(p) <==> (in_interior(p, height, width) && !occupies(
                        g.snake.body@,
                        p,
                    )))
            },
    {
        if height < 3 || width < 7 {
            return None;
        }
        let mut segs: Vec<BodySegment> = Vec::new();
        segs.push(BodySegment::new(1, 2, Dir::Right));
        segs.push(BodySegment::new(1, 1, Dir::Right));
        let snake = Snake::new(segs);
        let mut open_space = OpenSpace::initialize(height, width);
        open_space.remove(TermPoint::new(1, 1));
        open_space.remove(TermPoint::new(1, 2));
        let apple = TermPoint::new(1, 5);
        let g = SnakeGame { snake, score: 0u64, open_space, apple, height, width };
        proof {
            let body = g.snake.body@;
            assert(body =~= seq![
                (BodySegment { pos: (TermPoint { row: 1, col: 2 }), dir: Dir::Right }),
                (BodySegment { pos: (TermPoint { row: 1, col: 1 }), dir: Dir::Right }),
            ]);
            assert(body.len() == 2);
            assert(body[0].pos == (TermPoint { row: 1, col: 2 }));
            assert(body[1].pos == (TermPoint { row: 1, col: 1 }));
            assert(body[0].pos == body[1].pos.advance_spec(body[0].dir));
            assert forall|p: TermPoint|
                g.open_space@.contains(p) <==> (in_interior(p, height, width) && !occupies(
                    body,
                    p,
                )) by {
                if occupies(body, p) {
                    let i = choose|i: int| 0 <= i < body.len() && body[i].pos == p;
                    assert(p == body[0].pos || p == body[1].pos);
                }
                if p == body[0].pos || p == body[1].pos {
                    assert(occupies(body, p));
                }
            }
            assert(in_interior(g.apple, height, width));
            assert(!occupies(body, g.apple));
            assert forall|p: TermPoint|
                in_interior(p, g.height, g.width) implies g.open_space@.contains(p) || occupies(
                body,
                p,
            ) by {}
            assert(g.wf());
        }
        Some(g)
    }

    /// Relocates the food to a random open cell.
    fn add_apple(&mut self)
        requires
            old(self).open_space.cells@.len() > 0,
        ensures
            final(self).snake == old(self).snake,
            final(self).score == old(self).score,
            final(self).open_space == old(self).open_space,
            final(self).height == old(self).height,
            final(self).width == old(self).width,
            final(self).open_space@.contains(final(self).apple),
    {
        let p = self.open_space.pick_random();
        self.apple = p;
    }

    /// One tick: move the snake one cell in `dir`, detect border and body
    /// collisions, eat the food and grow when the head reaches it, declare
    /// the win when the board is full, and otherwise return the vacated
    /// tail cell to the open set.
    pub fn update_state(&mut self, dir: Dir) -> (r: GameState)
        requires
            old(self).wf(),
        ensures
            r == old(self).step_spec(dir),
            final(self).height == old(self).height,
            final(self).width == old(self).width,
            final(self).snake.body@ == (if r == GameState::Continue && old(self).eats(dir) {
                old(self).moved_body(dir).push(old(self).tail())
            } else {
                old(self).moved_body(dir)
            }),
            final(self).score == (if r == GameState::Continue && old(self).eats(dir) {
                old(self).score + 100
            } else {
                old(self).score as int
            }),
            (r == GameState::Continue && !old(self).eats(dir)) ==> {
                &&& final(self).apple == old(self).apple
                &&& final(self).open_space@ == (if old(self).new_head_pos(dir)
                    == old(self).tail().pos {
                    old(self).open_space@
                } else {
                    old(self).open_space@.remove(old(self).new_head_pos(dir)).insert(
                        old(self).tail().pos,
                    )
                })
            },
            (r == GameState::Continue && old(self).eats(dir)) ==> {
                &&& final(self).open_space@ == old(self).open_space@.remove(
                    old(self).new_head_pos(dir),
                )
                &&& final(self).open_space@.contains(final(self).apple)
            },
            (r == GameState::Over || r == GameState::Win) ==> {
                &&& final(self).apple == old(self).apple
                &&& final(self).open_space@ == old(self).open_space@.remove(
                    old(self).new_head_pos(dir),
                )
            },
            r == GameState::Continue ==> final(self).wf(),
    {
        let ghost pre = *old(self);
        proof {
            assert(in_interior(pre.snake.body@[0].pos, pre.height, pre.width));
        }
        let old_tail: BodySegment = self.snake.body[self.snake.body.len() - 1];
        proof {
            assert(old_tail == pre.tail());
            assert(!pre.open_space@.contains(
                pre.snake.body@[pre.snake.body@.len() - 1].pos,
            ));
        }
        self.snake.move_body(dir);
        let head: TermPoint = self.snake.body[0].pos;
        proof {
            assert(head == pre.new_head_pos(dir));
            assert(self.snake.body@ == pre.moved_body(dir));
        }
        self.open_space.remove(head);
        // border collision check
        if head.row == 0 || head.row >= (self.height as usize) - 1 || head.col == 0 || head.col
            >= (self.width as usize) - 1 {
            proof {
                assert(Self::hits_border(head, pre.height, pre.width));
            }
            return GameState::Over;
        }
        proof {
            assert(in_interior(head, pre.height, pre.width));
            assert(!Self::hits_border(head, pre.height, pre.width));
        }
        // self collision check
        let hit = self.snake.hits_rest(head);
        proof {
            let moved = pre.moved_body(dir);
            if hit {
                let k = choose|k: int| 1 <= k < moved.len() && moved[k].pos == head;
                assert(pre.snake.body@[k - 1].pos == head);
                assert(pre.self_collides(dir));
            } else {
                assert forall|j: int|
                    0 <= j < pre.snake.body@.len() - 1 implies pre.snake.body@[j].pos != head by {
                    assert(moved[j + 1].pos == pre.snake.body@[j].pos);
                }
                assert(!pre.self_collides(dir));
            }
        }
        if hit {
            return GameState::Over;
        }
        if head == self.apple {
            proof {
                assert(pre.open_space@.contains(pre.apple));
                assert(self.open_space.cells@.len() == pre.open_space.cells@.len() - 1);
            }
            let empty = self.open_space.is_empty();
            proof {
                if empty {
                    assert forall|p: TermPoint|
                        pre.open_space@.contains(p) implies p == head by {
                        if p != head {
                            assert(self.open_space@.contains(p));
                        }
                    }
                    assert(pre.fills_board(dir));
                } else {
                    let witness = self.open_space.cells@[0];
                    assert(self.open_space@.contains(witness));
                    assert(pre.open_space@.contains(witness) && witness != head);
                    assert(!pre.fills_board(dir));
                }
            }
            if empty {
                return GameState::Win;
            }
            self.snake.extend_body(old_tail);
            proof {
                lemma_area_bound(pre.height, pre.width);
            }
            self.score = self.score + 100;
            self.add_apple();
            proof {
                assert_continue_wf_eat(pre, dir, *self);
            }
            GameState::Continue
        } else {
            if !(old_tail.pos == head) {
                proof {
                    if !pre.open_space@.contains(head) {
                        assert(in_interior(head, pre.height, pre.width));
                        assert(occupies(pre.snake.body@, head));
                        let i = choose|i: int|
                            0 <= i < pre.snake.body@.len() && pre.snake.body@[i].pos == head;
                        if i < pre.snake.body@.len() - 1 {
                            assert(pre.self_collides(dir));
                        }
                        assert(false);
                    }
                    assert(self.open_space.cells@.len() == pre.open_space.cells@.len() - 1);
                    assert(!self.open_space@.contains(pre.tail().pos));
                }
                self.open_space.insert(old_tail.pos);
            } else {
                proof {
                    assert(self.open_space@ =~= pre.open_space@);
                }
            }
            proof {
                assert_continue_wf_move(pre, dir, *self);
            }
            GameState::Continue
        }
    }
}

/// The interior of any terminal-sized grid holds fewer cells than a `u64`
/// score of 100 per cell can overflow on.
proof fn lemma_area_bound(height: u16, width: u16)
    requires
        3 <= height,
        3 <= width,
    ensures
        (height - 2) * (width - 2) <= 65533 * 65533,
{
    assert((height - 2) * (width - 2) <= 65533 * 65533) by (nonlinear_arith)
        requires
            3 <= height <= 65535,
            3 <= width <= 65535,
    ;
}

/// Re-establishes well-formedness after a tick that moved without eating.
proof fn assert_continue_wf_move(pre: SnakeGame, dir: Dir, post: SnakeGame)
    requires
        pre.wf(),
        !SnakeGame::hits_border(pre.new_head_pos(dir), pre.height, pre.width),
        !pre.self_collides(dir),
        !pre.eats(dir),
        post.snake.body@ == pre.moved_body(dir),
        post.open_space.wf(),
        post.open_space@ == (if pre.new_head_pos(dir) == pre.tail().pos {
            pre.open_space@
        } else {
            pre.open_space@.remove(pre.new_head_pos(dir)).insert(pre.tail().pos)
        }),
        post.open_space.cells@.len() == pre.open_space.cells@.len(),
        post.apple == pre.apple,
        post.score == pre.score,
        post.height == pre.height,
        post.width == pre.width,
    ensures
        post.wf(),
{
    let body = pre.snake.body@;
    let n = body.len();
    let nh = pre.new_head_pos(dir);
    let tailp = pre.tail().pos;
    let moved = post.snake.body@;
    assert(moved.len() == n);
    assert(moved[0].pos == nh && moved[0].dir == dir);
    assert(forall|k: int| 1 <= k < n ==> moved[k] == body[k - 1]);
    assert(in_interior(nh, pre.height, pre.width));
    assert forall|a: int, b: int| 0 <= a < b < n implies moved[a].pos != moved[b].pos by {
        if a == 0 {
            assert(moved[b].pos == body[b - 1].pos);
        } else {
            assert(moved[a].pos == body[a - 1].pos);
            assert(moved[b].pos == body[b - 1].pos);
        }
    }
    assert(distinct_positions(moved));
    assert forall|i: int|
        0 <= i && i + 1 < n implies #[trigger] moved[i].pos == moved[i + 1].pos.advance_spec(
        moved[i].dir,
    ) by {
        if i == 0 {
            assert(moved[1] == body[0]);
        } else {
            assert(moved[i] == body[i - 1]);
            assert(moved[i + 1] == body[i]);
            assert(body[i - 1].pos == body[i].pos.advance_spec(body[i - 1].dir));
        }
    }
    assert(linked(moved));
    assert forall|i: int|
        0 <= i < n implies in_interior(#[trigger] moved[i].pos, pre.height, pre.width) by {
        if i > 0 {
            assert(moved[i].pos == body[i - 1].pos);
        }
    }
    assert forall|p: TermPoint|
        post.open_space@.contains(p) implies in_interior(p, pre.height, pre.width) by {
        if nh != tailp && p == tailp {
            assert(in_interior(body[n - 1].pos, pre.height, pre.width));
        } else {
            assert(pre.open_space@.contains(p));
        }
    }
    assert forall|i: int|
        0 <= i < n implies !post.open_space@.contains(#[trigger] moved[i].pos) by {
        if i == 0 {
            if nh == tailp {
                assert(!pre.open_space@.contains(body[n - 1].pos));
            }
        } else {
            assert(moved[i].pos == body[i - 1].pos);
            assert(!pre.open_space@.contains(body[i - 1].pos));
            if i - 1 < n - 1 {
                assert(body[i - 1].pos != body[n - 1].pos);
            }
        }
    }
    assert forall|p: TermPoint|
        in_interior(p, pre.height, pre.width) implies post.open_space@.contains(p) || occupies(
        moved,
        p,
    ) by {
        if p == nh {
            assert(moved[0].pos == p);
            assert(occupies(moved, p));
        } else if pre.open_space@.contains(p) {
            assert(post.open_space@.contains(p));
        } else {
            assert(occupies(body, p));
            let i = choose|i: int| 0 <= i < n && body[i].pos == p;
            if i < n - 1 {
                assert(moved[i + 1].pos == p);
                assert(occupies(moved, p));
            } else {
                assert(p == tailp);
                if nh == tailp {
                    assert(moved[0].pos == p);
                    assert(occupies(moved, p));
                } else {
                    assert(post.open_space@.contains(p));
                }
            }
        }
    }
    assert(pre.apple != nh);
    assert(post.open_space@.contains(post.apple));
    assert(post.wf());
}

/// Re-establishes well-formedness after a tick that ate the food and grew.
proof fn assert_continue_wf_eat(pre: SnakeGame, dir: Dir, post: SnakeGame)
    requires
        pre.wf(),
        !SnakeGame::hits_border(pre.new_head_pos(dir), pre.height, pre.width),
        !pre.self_collides(dir),
        pre.eats(dir),
        post.snake.body@ == pre.moved_body(dir).push(pre.tail()),
        post.open_space.wf(),
        post.open_space@ == pre.open_space@.remove(pre.new_head_pos(dir)),
        post.open_space.cells@.len() == pre.open_space.cells@.len() - 1,
        pre.open_space.cells@.len() >= 2,
        post.open_space@.contains(post.apple),
        post.score == pre.score + 100,
        post.height == pre.height,
        post.width == pre.width,
    ensures
        post.wf(),
{
    let body = pre.snake.body@;
    let n = body.len();
    let nh = pre.new_head_pos(dir);
    let tail = pre.tail();
    let grown = post.snake.body@;
    assert(grown.len() == n + 1);
    assert(grown[0].pos == nh && grown[0].dir == dir);
    assert(forall|k: int| 1 <= k < n ==> grown[k] == body[k - 1]);
    assert(grown[n as int] == tail);
    assert(in_interior(nh, pre.height, pre.width));
    // the food is an open cell, so the head did not land on the body
    assert(pre.open_space@.contains(nh));
    assert(tail.pos != nh);
    assert forall|a: int, b: int| 0 <= a < b < n + 1 implies grown[a].pos != grown[b].pos by {
        if a == 0 {
            if b < n {
                assert(grown[b].pos == body[b - 1].pos);
                assert(!pre.open_space@.contains(body[b - 1].pos));
            }
        } else {
            assert(grown[a].pos == body[a - 1].pos);
            if b < n {
                assert(grown[b].pos == body[b - 1].pos);
            } else {
                assert(grown[b].pos == body[n - 1].pos);
            }
        }
    }
    assert(distinct_positions(grown));
    assert forall|i: int|
        0 <= i && i + 1 < n + 1 implies #[trigger] grown[i].pos == grown[i + 1].pos.advance_spec(
        grown[i].dir,
    ) by {
        if i == 0 {
            assert(grown[1] == body[0]);
        } else {
            assert(grown[i] == body[i - 1]);
            assert(tail == body[n - 1]);
            assert(grown[i + 1] == body[i]);
            assert(body[i - 1].pos == body[i].pos.advance_spec(body[i - 1].dir));
        }
    }
    assert(linked(grown));
    assert forall|i: int|
        0 <= i < n + 1 implies in_interior(#[trigger] grown[i].pos, pre.height, pre.width) by {
        if 1 <= i && i < n {
            assert(grown[i].pos == body[i - 1].pos);
        } else if i == n {
            assert(grown[i].pos == body[n - 1].pos);
        }
    }
    assert forall|p: TermPoint|
        post.open_space@.contains(p) implies in_interior(p, pre.height, pre.width) by {
        assert(pre.open_space@.contains(p));
    }
    assert forall|i: int|
        0 <= i < n + 1 implies !post.open_space@.contains(#[trigger] grown[i].pos) by {
        if 1 <= i && i < n {
            assert(grown[i].pos == body[i - 1].pos);
            assert(!pre.open_space@.contains(body[i - 1].pos));
        } else if i == n {
            assert(!pre.open_space@.contains(body[n - 1].pos));
        }
    }
    assert forall|p: TermPoint|
        in_interior(p, pre.height, pre.width) implies post.open_space@.contains(p) || occupies(
        grown,
        p,
    ) by {
        if p == nh {
            assert(grown[0].pos == p);
            assert(occupies(grown, p));
        } else if pre.open_space@.contains(p) {
            assert(post.open_space@.contains(p));
        } else {
            assert(occupies(body, p));
            let i = choose|i: int| 0 <= i < n && body[i].pos == p;
            if i < n - 1 {
                assert(grown[i + 1].pos == p);
            } else {
                assert(grown[n as int].pos == p);
            }
            assert(occupies(grown, p));
        }
    }
    assert(post.wf());
}

/// A tick whose new head cell touches or crosses the border — row 0, the
/// last row, column 0, or the last column — always ends the game.
pub proof fn lemma_border_is_over(g: SnakeGame, dir: Dir)
    requires
        SnakeGame::hits_border(g.new_head_pos(dir), g.height, g.width),
    ensures
        g.step_spec(dir) == GameState::Over,
{
}

/// No spurious termination: a tick whose new head cell stays inside the
/// border and off the rest of the body, and does not take the last open
/// cell, always continues the game — however often it is repeated.
pub proof fn lemma_no_spurious_end(g: SnakeGame, dir: Dir)
    requires
        !SnakeGame::hits_border(g.new_head_pos(dir), g.height, g.width),
        !g.self_collides(dir),
        !(g.eats(dir) && g.fills_board(dir)),
    ensures
        g.step_spec(dir) == GameState::Continue,
{
}

/// In every well-formed game state, the open cells and the snake's cells
/// are disjoint, and the food lies on an open cell and never on the snake.
/// Together with `update_state`, which returns every well-formed state to a
/// well-formed state on Continue, this holds after every successful tick.
pub proof fn lemma_state_disjoint(g: SnakeGame)
    requires
        g.wf(),
    ensures
        forall|i: int|
            0 <= i < g.snake.body@.len() ==> !g.open_space@.contains(
                #[trigger] g.snake.body@[i].pos,
            ),
        g.open_space@.contains(g.apple),
        !occupies(g.snake.body@, g.apple),
{
    if occupies(g.snake.body@, g.apple) {
        let i = choose|i: int|
            0 <= i < g.snake.body@.len() && g.snake.body@[i].pos == g.apple;
        assert(!g.open_space@.contains(g.snake.body@[i].pos));
    }
}

} // verus!
