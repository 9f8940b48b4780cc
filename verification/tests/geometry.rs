use snake_game::Dir;
use snake_game::TermPoint;
use snake_game::UserInput;
use snake_game::resolve_direction;
use snake_game::BodySegment;
use snake_game::Snake;
use snake_game::OpenSpace;

#[test]
fn opposite_pairs() {
    assert!(Dir::Up.is_opposite(Dir::Down));
    assert!(Dir::Down.is_opposite(Dir::Up));
    assert!(Dir::Left.is_opposite(Dir::Right));
    assert!(Dir::Right.is_opposite(Dir::Left));

    assert!(!Dir::Up.is_opposite(Dir::Up));
    assert!(!Dir::Down.is_opposite(Dir::Down));
    assert!(!Dir::Left.is_opposite(Dir::Left));
    assert!(!Dir::Right.is_opposite(Dir::Right));

    assert!(!Dir::Up.is_opposite(Dir::Left));
    assert!(!Dir::Up.is_opposite(Dir::Right));
    assert!(!Dir::Down.is_opposite(Dir::Left));
    assert!(!Dir::Down.is_opposite(Dir::Right));
    assert!(!Dir::Left.is_opposite(Dir::Up));
    assert!(!Dir::Left.is_opposite(Dir::Down));
    assert!(!Dir::Right.is_opposite(Dir::Up));
    assert!(!Dir::Right.is_opposite(Dir::Down));
}

#[test]
fn opposite_of_each_direction() {
    assert_eq!(Dir::Up.opposite_of(), Dir::Down);
    assert_eq!(Dir::Down.opposite_of(), Dir::Up);
    assert_eq!(Dir::Left.opposite_of(), Dir::Right);
    assert_eq!(Dir::Right.opposite_of(), Dir::Left);

    for d in [Dir::Up, Dir::Down, Dir::Left, Dir::Right] {
        assert!(d.is_opposite(d.opposite_of()));
        assert!(!d.is_opposite(d));
    }
}

#[test]
fn advance_moves_one_cell() {
    let p = TermPoint::new(3, 4);
    assert_eq!(p.advance(Dir::Up), TermPoint::new(2, 4));
    assert_eq!(p.advance(Dir::Down), TermPoint::new(4, 4));
    assert_eq!(p.advance(Dir::Left), TermPoint::new(3, 3));
    assert_eq!(p.advance(Dir::Right), TermPoint::new(3, 5));
}

#[test]
fn snake_move_preserves_length() {
    let mut s = Snake::new(vec![
        BodySegment::new(1, 2, Dir::Right),
        BodySegment::new(1, 1, Dir::Right),
    ]);
    assert_eq!(s.body.len(), 2);
    s.move_body(Dir::Right);
    assert_eq!(s.body.len(), 2);
    assert_eq!(s.body[0].pos, TermPoint::new(1, 3));
    assert_eq!(s.body[0].dir, Dir::Right);
    assert_eq!(s.body[1].pos, TermPoint::new(1, 2));
    s.move_body(Dir::Down);
    assert_eq!(s.body.len(), 2);
    assert_eq!(s.body[0].pos, TermPoint::new(2, 3));
    assert_eq!(s.body[0].dir, Dir::Down);
    assert_eq!(s.body[1].pos, TermPoint::new(1, 3));
}

#[test]
fn snake_extend_grows_by_one_and_keeps_prior_segments() {
    let mut s = Snake::new(vec![
        BodySegment::new(1, 3, Dir::Right),
        BodySegment::new(1, 2, Dir::Right),
    ]);
    let tail = BodySegment::new(1, 1, Dir::Right);
    s.extend_body(tail);
    assert_eq!(s.body.len(), 3);
    assert_eq!(s.body[0].pos, TermPoint::new(1, 3));
    assert_eq!(s.body[1].pos, TermPoint::new(1, 2));
    assert_eq!(s.body[2].pos, TermPoint::new(1, 1));
}

#[test]
fn segment_glyphs() {
    assert_eq!(BodySegment::new(1, 1, Dir::Up).glyph(), '^');
    assert_eq!(BodySegment::new(1, 1, Dir::Down).glyph(), 'v');
    assert_eq!(BodySegment::new(1, 1, Dir::Left).glyph(), '<');
    assert_eq!(BodySegment::new(1, 1, Dir::Right).glyph(), '>');
}

#[test]
fn open_space_initialize_holds_every_interior_cell() {
    let s = OpenSpace::initialize(5, 6);
    assert_eq!(s.len(), 12);
    for row in 1..=3 {
        for col in 1..=4 {
            assert!(s.contains(TermPoint::new(row, col)));
        }
    }
    assert!(!s.contains(TermPoint::new(0, 1)));
    assert!(!s.contains(TermPoint::new(4, 1)));
    assert!(!s.contains(TermPoint::new(1, 0)));
    assert!(!s.contains(TermPoint::new(1, 5)));
}

#[test]
fn open_space_insert_and_remove_edit_membership() {
    let mut s = OpenSpace::empty();
    assert!(s.is_empty());
    let p = TermPoint::new(2, 3);
    s.insert(p);
    assert!(s.contains(p));
    assert_eq!(s.len(), 1);
    s.insert(p);
    assert_eq!(s.len(), 1);
    s.remove(TermPoint::new(9, 9));
    assert_eq!(s.len(), 1);
    s.remove(p);
    assert!(!s.contains(p));
    assert!(s.is_empty());
}

#[test]
fn open_space_pick_returns_a_member() {
    let mut s = OpenSpace::empty();
    s.insert(TermPoint::new(1, 1));
    s.insert(TermPoint::new(1, 2));
    s.insert(TermPoint::new(2, 1));
    for idx in 0..3 {
        let p = s.pick(idx);
        assert!(s.contains(p));
    }
    let p = s.pick_random();
    assert!(s.contains(p));
}

#[test]
fn user_input_to_dir() {
    assert_eq!(UserInput::Up.to_dir(), Some(Dir::Up));
    assert_eq!(UserInput::Down.to_dir(), Some(Dir::Down));
    assert_eq!(UserInput::Left.to_dir(), Some(Dir::Left));
    assert_eq!(UserInput::Right.to_dir(), Some(Dir::Right));
    assert_eq!(UserInput::Pause.to_dir(), None);
    assert_eq!(UserInput::Unknown.to_dir(), None);
    assert_eq!(UserInput::from_dir(Dir::Up).to_dir(), Some(Dir::Up));
    assert_eq!(UserInput::from_dir(Dir::Left).to_dir(), Some(Dir::Left));
}

#[test]
fn reversal_guard_substitutes_heading() {
    assert_eq!(resolve_direction(Dir::Right, UserInput::Left), Dir::Right);
    assert_eq!(resolve_direction(Dir::Left, UserInput::Right), Dir::Left);
    assert_eq!(resolve_direction(Dir::Up, UserInput::Down), Dir::Up);
    assert_eq!(resolve_direction(Dir::Down, UserInput::Up), Dir::Down);
}

#[test]
fn resolve_direction_passes_other_commands() {
    assert_eq!(resolve_direction(Dir::Right, UserInput::Up), Dir::Up);
    assert_eq!(resolve_direction(Dir::Right, UserInput::Down), Dir::Down);
    assert_eq!(resolve_direction(Dir::Right, UserInput::Right), Dir::Right);
    assert_eq!(resolve_direction(Dir::Up, UserInput::Left), Dir::Left);
    assert_eq!(resolve_direction(Dir::Right, UserInput::Unknown), Dir::Right);
    assert_eq!(resolve_direction(Dir::Right, UserInput::Pause), Dir::Right);
}
