use sudoku::tile::Tile;

fn all_values() -> Vec<u8> {
    vec![1, 2, 3, 4, 5, 6, 7, 8, 9]
}

#[test]
fn new_tile_is_blank() {
    let t = Tile::new(3, 7);
    assert_eq!(t.x, 3);
    assert_eq!(t.y, 7);
    assert!(!t.init);
    assert_eq!(t.assignment, None);
    assert_eq!(t.candidates, all_values());
    assert_eq!(t.eliminated, Vec::<u8>::new());
}

#[test]
fn new_with_eliminated_keeps_only_the_cross_outs() {
    let t = Tile::new(2, 2)
        .cross_out_value(2, 2, 4)
        .cross_out_value(2, 2, 8)
        .assign_value(2, 2, 5, true);
    let f = Tile::new_with_eliminated(&t);
    assert_eq!(f.x, 2);
    assert_eq!(f.y, 2);
    assert!(!f.init);
    assert_eq!(f.assignment, None);
    assert_eq!(f.candidates, all_values());
    assert_eq!(f.eliminated, vec![4, 8]);
}

#[test]
fn same_block_goes_by_thirds() {
    let t = Tile::new(4, 7);
    assert!(t.is_in_same_block(3, 6));
    assert!(t.is_in_same_block(5, 8));
    assert!(t.is_in_same_block(4, 7));
    assert!(!t.is_in_same_block(2, 7));
    assert!(!t.is_in_same_block(6, 7));
    assert!(!t.is_in_same_block(4, 5));
    assert!(!t.is_in_same_block(0, 0));
}

#[test]
fn assign_is_valid_unless_the_target_holds_a_value() {
    let blank = Tile::new(1, 1);
    assert!(blank.is_valid_assign_value(1, 1, 5));
    assert!(blank.is_valid_assign_value(0, 0, 5));
    let held = blank.assign_value(1, 1, 5, false);
    assert!(!held.is_valid_assign_value(1, 1, 5));
    assert!(!held.is_valid_assign_value(1, 1, 6));
    assert!(held.is_valid_assign_value(1, 2, 5));
    assert!(held.is_valid_assign_value(8, 8, 9));
}

#[test]
fn assign_is_invalid_out_of_range() {
    let t = Tile::new(1, 1);
    assert!(!t.is_valid_assign_value(9, 0, 5));
    assert!(!t.is_valid_assign_value(0, 9, 5));
    assert!(!t.is_valid_assign_value(0, 0, 0));
    assert!(!t.is_valid_assign_value(0, 0, 10));
    assert!(!t.is_valid_assign_value(255, 255, 255));
    assert!(t.is_valid_assign_value(8, 8, 1));
    assert!(t.is_valid_assign_value(0, 0, 9));
}

#[test]
fn assign_at_the_target_commits_the_value() {
    let t = Tile::new(4, 4).cross_out_value(4, 4, 2).assign_value(4, 4, 7, true);
    assert_eq!(t.x, 4);
    assert_eq!(t.y, 4);
    assert!(t.init);
    assert_eq!(t.assignment, Some(7));
    assert_eq!(t.candidates, vec![7]);
    assert_eq!(t.eliminated, vec![2]);
    let u = Tile::new(4, 4).assign_value(4, 4, 7, false);
    assert!(!u.init);
    assert_eq!(u.assignment, Some(7));
}

#[test]
fn assign_at_the_target_leaves_the_value_where_it_was_ruled_out() {
    let ruled_out = Tile::new(4, 4).assign_value(4, 0, 7, false).cross_out_value(4, 4, 2);
    assert_eq!(ruled_out.candidates, vec![1, 2, 3, 4, 5, 6, 8, 9]);
    let t = ruled_out.assign_value(4, 4, 7, false);
    assert_eq!(t.assignment, Some(7));
    assert!(!t.init);
    assert_eq!(t.candidates, vec![7]);
    assert_eq!(t.eliminated, vec![2]);
    assert!(t.is_guess());
    let clue = ruled_out.assign_value(4, 4, 7, true);
    assert!(clue.init);
    assert_eq!(clue.candidates, vec![7]);
}

#[test]
fn assign_elsewhere_narrows_the_tiles_that_see_it() {
    let t = Tile::new(4, 4);
    let without_7 = vec![1, 2, 3, 4, 5, 6, 8, 9];
    // same column, same row, same block
    assert_eq!(t.assign_value(4, 0, 7, false).candidates, without_7);
    assert_eq!(t.assign_value(8, 4, 7, false).candidates, without_7);
    assert_eq!(t.assign_value(3, 5, 7, false).candidates, without_7);
    // none of them
    let far = t.assign_value(0, 0, 7, true);
    assert_eq!(far.candidates, all_values());
    assert_eq!(far.assignment, None);
    assert!(!far.init);
    // the clue flag of the move is the target's alone
    let seen = t.assign_value(4, 0, 7, true);
    assert!(!seen.init);
    assert_eq!(seen.assignment, None);
}

#[test]
fn assign_elsewhere_takes_the_value_from_a_tile_that_holds_it() {
    let t = Tile::new(4, 4).assign_value(4, 4, 7, false).assign_value(4, 0, 7, false);
    assert_eq!(t.assignment, Some(7));
    assert_eq!(t.candidates, Vec::<u8>::new());
    assert!(!t.is_guess());
}

#[test]
fn unassign_is_valid_for_a_value_of_the_players() {
    let blank = Tile::new(1, 1);
    assert!(!blank.is_valid_unassign_value(1, 1));
    assert!(blank.is_valid_unassign_value(1, 2));
    let guess = blank.assign_value(1, 1, 5, false);
    assert!(guess.is_valid_unassign_value(1, 1));
    let clue = blank.assign_value(1, 1, 5, true);
    assert!(!clue.is_valid_unassign_value(1, 1));
    assert!(clue.is_valid_unassign_value(2, 1));
    assert!(!guess.is_valid_unassign_value(9, 1));
    assert!(!guess.is_valid_unassign_value(1, 9));
}

#[test]
fn cross_out_is_valid_for_an_open_value_of_an_empty_tile() {
    let blank = Tile::new(1, 1);
    assert!(blank.is_valid_cross_out_value(1, 1, 5));
    assert!(blank.is_valid_cross_out_value(0, 0, 5));
    // already crossed out
    let crossed = blank.cross_out_value(1, 1, 5);
    assert!(!crossed.is_valid_cross_out_value(1, 1, 5));
    assert!(crossed.is_valid_cross_out_value(1, 1, 6));
    // not a candidate any more
    let narrowed = blank.assign_value(1, 8, 5, false);
    assert!(!narrowed.is_valid_cross_out_value(1, 1, 5));
    assert!(narrowed.is_valid_cross_out_value(1, 1, 4));
    // holds a value, as a guess or as a clue
    let guess = blank.assign_value(1, 1, 5, false);
    assert!(!guess.is_valid_cross_out_value(1, 1, 5));
    assert!(!guess.is_valid_cross_out_value(1, 1, 6));
    let clue = blank.assign_value(1, 1, 5, true);
    assert!(!clue.is_valid_cross_out_value(1, 1, 5));
    // out of range
    assert!(!blank.is_valid_cross_out_value(9, 1, 5));
    assert!(!blank.is_valid_cross_out_value(1, 9, 5));
    assert!(!blank.is_valid_cross_out_value(1, 1, 0));
    assert!(!blank.is_valid_cross_out_value(1, 1, 10));
}

#[test]
fn cross_out_appends_at_the_target_only() {
    let t = Tile::new(6, 2);
    let a = t.cross_out_value(6, 2, 9);
    assert_eq!(a.eliminated, vec![9]);
    assert_eq!(a.candidates, all_values());
    assert_eq!(a.assignment, None);
    let b = a.cross_out_value(6, 2, 3);
    assert_eq!(b.eliminated, vec![9, 3]);
    let c = b.cross_out_value(6, 3, 1);
    assert_eq!(c.eliminated, vec![9, 3]);
    assert_eq!(c.x, 6);
    assert_eq!(c.y, 2);
}

#[test]
fn is_init_tells_clues_from_guesses() {
    assert!(!Tile::new(0, 0).is_init());
    assert!(Tile::new(0, 0).assign_value(0, 0, 1, true).is_init());
    assert!(!Tile::new(0, 0).assign_value(0, 0, 1, false).is_init());
}

#[test]
fn is_guess_needs_a_value_among_the_candidates() {
    assert!(!Tile::new(0, 0).is_guess());
    assert!(Tile::new(0, 0).assign_value(0, 0, 1, false).is_guess());
    assert!(Tile::new(0, 0).assign_value(0, 0, 1, true).is_guess());
    let conflict = Tile::new(0, 0).assign_value(0, 0, 1, false).assign_value(0, 5, 1, false);
    assert!(!conflict.is_guess());
}

#[test]
fn is_live_needs_a_candidate_not_crossed_out() {
    let t = Tile::new(0, 0).assign_value(0, 5, 1, false).cross_out_value(0, 0, 2);
    assert!(!t.is_live(1));
    assert!(!t.is_live(2));
    assert!(t.is_live(3));
    assert!(!t.is_live(0));
    assert!(!t.is_live(10));
}

#[test]
fn is_crossed_out_tells_what_the_player_crossed_out() {
    let t = Tile::new(0, 0).assign_value(0, 5, 1, false).cross_out_value(0, 0, 2);
    assert!(t.is_crossed_out(2));
    assert!(!t.is_crossed_out(1));
    assert!(!t.is_crossed_out(3));
    assert!(!Tile::new(0, 0).is_crossed_out(2));
}

#[test]
fn remaining_candidate_is_the_one_open_value() {
    let mut t = Tile::new(0, 0);
    for v in 1..8 {
        t = t.assign_value(0, 8, v, false);
    }
    // 8 and 9 are open
    assert!(!t.is_remaining_candidate(8));
    assert!(!t.is_remaining_candidate(9));
    let crossed = t.cross_out_value(0, 0, 8);
    assert!(crossed.is_remaining_candidate(9));
    assert!(!crossed.is_remaining_candidate(8));
    assert!(!crossed.is_remaining_candidate(1));
    let narrowed = t.assign_value(0, 8, 9, false);
    assert!(narrowed.is_remaining_candidate(8));
    assert!(!narrowed.is_remaining_candidate(9));
    // nothing open at all
    let none = narrowed.cross_out_value(0, 0, 8);
    assert!(!none.is_remaining_candidate(8));
    assert!(!Tile::new(0, 0).is_remaining_candidate(1));
}
