use sudoku::board::Board;
use sudoku::tile::Tile;

type Snapshot = Vec<(u8, u8, bool, Option<u8>, Vec<u8>, Vec<u8>)>;

fn snapshot(b: &Board) -> Snapshot {
    let mut s = Vec::new();
    for y in 0..9 {
        for x in 0..9 {
            let t = b.get(x, y).unwrap();
            s.push((t.x, t.y, t.init, t.assignment, t.candidates.clone(), t.eliminated.clone()));
        }
    }
    s
}

fn tile(b: &Board, x: u8, y: u8) -> &Tile {
    b.get(x, y).unwrap()
}

fn sees(x: u8, y: u8, tx: u8, ty: u8) -> bool {
    x == tx || y == ty || (x / 3 == tx / 3 && y / 3 == ty / 3)
}

fn all_values() -> Vec<u8> {
    vec![1, 2, 3, 4, 5, 6, 7, 8, 9]
}

#[test]
fn new_board_has_81_blank_tiles_in_row_major_order() {
    let b = Board::new();
    let s = snapshot(&b);
    assert_eq!(s.len(), 81);
    for y in 0..9u8 {
        for x in 0..9u8 {
            let i = (y as usize) * 9 + (x as usize);
            assert_eq!(s[i], (x, y, false, None, all_values(), Vec::new()));
        }
    }
}

#[test]
fn get_knows_the_cells_of_the_grid_only() {
    let b = Board::new().assign_value(7, 2, 4, false).unwrap();
    let t = b.get(7, 2).unwrap();
    assert_eq!((t.x, t.y, t.assignment), (7, 2, Some(4)));
    let u = b.get(2, 7).unwrap();
    assert_eq!((u.x, u.y, u.assignment), (2, 7, None));
    assert!(b.get(9, 0).is_none());
    assert!(b.get(0, 9).is_none());
    assert!(b.get(255, 255).is_none());
    assert!(b.get(8, 8).is_some());
}

#[test]
fn assign_then_cross_out_of_a_ruled_out_value_is_refused() {
    let b = Board::new().assign_value(0, 0, 5, false).unwrap();
    assert_eq!(tile(&b, 0, 0).assignment, Some(5));
    assert_eq!(tile(&b, 0, 0).candidates, vec![5]);
    assert!(!tile(&b, 0, 0).init);
    let without_5 = vec![1, 2, 3, 4, 6, 7, 8, 9];
    assert_eq!(tile(&b, 1, 0).candidates, without_5);
    assert_eq!(tile(&b, 0, 1).candidates, without_5);
    assert_eq!(tile(&b, 1, 1).candidates, without_5);
    assert!(b.cross_out_value(1, 0, 5).is_none());
    assert!(b.cross_out_value(1, 0, 4).is_some());
}

#[test]
fn assign_out_of_range_is_refused() {
    let b = Board::new();
    assert!(b.assign_value(9, 0, 5, false).is_none());
    assert!(b.assign_value(0, 9, 5, false).is_none());
    assert!(b.assign_value(0, 0, 0, false).is_none());
    assert!(b.assign_value(0, 0, 10, false).is_none());
    assert!(b.assign_value(200, 200, 200, true).is_none());
    assert!(!b.is_valid_assign_value(9, 0, 5));
    assert!(!b.is_valid_assign_value(0, 0, 0));
    assert!(b.is_valid_assign_value(8, 8, 9));
    assert!(b.assign_value(8, 8, 9, false).is_some());
    assert!(b.assign_value(0, 0, 1, true).is_some());
}

#[test]
fn unassign_and_cross_out_out_of_range_are_refused() {
    let b = Board::new().assign_value(0, 0, 5, false).unwrap();
    assert!(b.unassign_value(9, 0).is_none());
    assert!(b.unassign_value(0, 9).is_none());
    assert!(!b.is_valid_unassign_value(9, 0));
    assert!(b.cross_out_value(9, 1, 4).is_none());
    assert!(b.cross_out_value(1, 9, 4).is_none());
    assert!(b.cross_out_value(1, 1, 0).is_none());
    assert!(b.cross_out_value(1, 1, 10).is_none());
    assert!(!b.is_valid_cross_out_value(1, 1, 10));
}

#[test]
fn assign_to_a_cell_that_holds_a_value_is_refused() {
    let b = Board::new().assign_value(3, 3, 5, false).unwrap();
    for v in 0..=10u8 {
        assert!(b.assign_value(3, 3, v, false).is_none());
        assert!(b.assign_value(3, 3, v, true).is_none());
        assert!(!b.is_valid_assign_value(3, 3, v));
    }
    let c = Board::new().assign_value(3, 3, 5, true).unwrap();
    assert!(c.assign_value(3, 3, 5, false).is_none());
    assert!(c.assign_value(3, 3, 6, false).is_none());
}

#[test]
fn assign_takes_the_value_from_every_tile_that_sees_the_cell() {
    let before = Board::new().assign_value(8, 8, 2, false).unwrap();
    let before = before.cross_out_value(4, 5, 7).unwrap();
    let after = before.assign_value(4, 4, 7, false).unwrap();
    let mut narrowed = 0;
    for y in 0..9u8 {
        for x in 0..9u8 {
            let old = tile(&before, x, y);
            let new = tile(&after, x, y);
            if x == 4 && y == 4 {
                assert_eq!(new.assignment, Some(7));
                assert_eq!(new.candidates, vec![7]);
            } else if sees(x, y, 4, 4) {
                assert!(!new.candidates.contains(&7));
                let mut expected = old.candidates.clone();
                expected.retain(|&c| c != 7);
                assert_eq!(new.candidates, expected);
                assert_eq!(new.assignment, old.assignment);
                assert_eq!(new.eliminated, old.eliminated);
                narrowed += 1;
            } else {
                assert_eq!(new.candidates, old.candidates);
                assert_eq!(new.assignment, old.assignment);
                assert_eq!(new.init, old.init);
                assert_eq!(new.eliminated, old.eliminated);
            }
        }
    }
    assert_eq!(narrowed, 20);
    // the board that was asked is as it was
    assert_eq!(tile(&before, 4, 4).assignment, None);
    assert_eq!(tile(&before, 4, 0).candidates, all_values());
}

#[test]
fn assign_accepts_a_value_that_conflicts() {
    let b = Board::new().assign_value(0, 0, 5, false).unwrap();
    let c = b.assign_value(1, 0, 5, false).unwrap();
    assert_eq!(tile(&c, 0, 0).assignment, Some(5));
    assert_eq!(tile(&c, 1, 0).assignment, Some(5));
    // the cell that was assigned has the value as its one candidate; the
    // tile that held the value before has lost it
    assert_eq!(tile(&c, 1, 0).candidates, vec![5]);
    assert_eq!(tile(&c, 0, 0).candidates, Vec::<u8>::new());
    assert!(tile(&c, 1, 0).is_guess());
    assert!(!tile(&c, 0, 0).is_guess());
    assert_eq!(tile(&c, 2, 0).candidates, vec![1, 2, 3, 4, 6, 7, 8, 9]);
}

#[test]
fn unassign_needs_a_value_of_the_players() {
    let b = Board::new()
        .assign_value(0, 0, 5, true)
        .unwrap()
        .assign_value(1, 0, 6, false)
        .unwrap();
    assert!(b.unassign_value(0, 0).is_none());
    assert!(!b.is_valid_unassign_value(0, 0));
    assert!(b.unassign_value(2, 0).is_none());
    assert!(b.is_valid_unassign_value(1, 0));
    assert!(b.unassign_value(1, 0).is_some());
}

#[test]
fn a_clue_is_never_cleared() {
    let mut b = Board::new().assign_value(4, 4, 9, true).unwrap();
    assert!(b.unassign_value(4, 4).is_none());
    b = b.assign_value(4, 5, 1, false).unwrap();
    assert!(b.unassign_value(4, 4).is_none());
    b = b.cross_out_value(0, 0, 3).unwrap();
    assert!(b.unassign_value(4, 4).is_none());
    b = b.unassign_value(4, 5).unwrap();
    assert!(b.unassign_value(4, 4).is_none());
    b = b.assign_value(4, 0, 9, false).unwrap();
    assert!(b.unassign_value(4, 4).is_none());
    if let Some(filled) = b.autofill() {
        b = filled;
    }
    assert!(b.unassign_value(4, 4).is_none());
    let t = tile(&b, 4, 4);
    assert!(t.init);
    assert_eq!(t.assignment, Some(9));
}

#[test]
fn unassign_plays_the_other_assignments_again() {
    let b = Board::new()
        .assign_value(0, 0, 5, false)
        .unwrap()
        .assign_value(1, 0, 6, false)
        .unwrap()
        .assign_value(0, 1, 7, true)
        .unwrap();
    let u = b.unassign_value(0, 0).unwrap();
    let t = tile(&u, 0, 0);
    assert_eq!((t.init, t.assignment), (false, None));
    assert_eq!(t.candidates, vec![1, 2, 3, 4, 5, 8, 9]);
    let t = tile(&u, 1, 0);
    assert_eq!((t.init, t.assignment), (false, Some(6)));
    assert_eq!(t.candidates, vec![6]);
    let t = tile(&u, 0, 1);
    assert_eq!((t.init, t.assignment), (true, Some(7)));
    assert_eq!(t.candidates, vec![7]);
    assert_eq!(tile(&u, 2, 0).candidates, vec![1, 2, 3, 4, 5, 8, 9]);
    assert_eq!(tile(&u, 8, 8).candidates, all_values());
    // 5 is open again where only the cleared cell had ruled it out
    assert!(tile(&u, 8, 0).candidates.contains(&5));
    assert!(tile(&u, 0, 8).candidates.contains(&5));
}

#[test]
fn unassign_undoes_an_assignment() {
    let before = Board::new()
        .assign_value(4, 4, 3, true)
        .unwrap()
        .cross_out_value(0, 0, 7)
        .unwrap()
        .assign_value(8, 8, 1, false)
        .unwrap()
        .cross_out_value(5, 5, 9)
        .unwrap()
        .cross_out_value(2, 6, 4)
        .unwrap();
    let assigned = before.assign_value(2, 6, 8, false).unwrap();
    assert_ne!(snapshot(&assigned), snapshot(&before));
    let back = assigned.unassign_value(2, 6).unwrap();
    assert_eq!(snapshot(&back), snapshot(&before));
    assert_eq!(tile(&back, 2, 6).eliminated, vec![4]);
}

#[test]
fn unassign_undoes_an_assignment_that_conflicts() {
    let before = Board::new().assign_value(4, 4, 3, true).unwrap();
    let assigned = before.assign_value(4, 0, 3, false).unwrap();
    assert_eq!(tile(&assigned, 4, 4).candidates, Vec::<u8>::new());
    assert_eq!(tile(&assigned, 4, 0).candidates, vec![3]);
    let back = assigned.unassign_value(4, 0).unwrap();
    assert_eq!(snapshot(&back), snapshot(&before));
    assert_eq!(tile(&back, 4, 4).candidates, vec![3]);
}

#[test]
fn assignments_to_different_cells_can_be_made_in_either_order() {
    let one = Board::new()
        .assign_value(0, 0, 5, false)
        .unwrap()
        .assign_value(1, 0, 6, true)
        .unwrap()
        .assign_value(7, 7, 2, false)
        .unwrap();
    let other = Board::new()
        .assign_value(7, 7, 2, false)
        .unwrap()
        .assign_value(1, 0, 6, true)
        .unwrap()
        .assign_value(0, 0, 5, false)
        .unwrap();
    assert_eq!(snapshot(&one), snapshot(&other));
}

#[test]
fn the_later_of_two_values_that_conflict_keeps_its_candidate() {
    let one = Board::new().assign_value(0, 0, 5, false).unwrap();
    let one = one.assign_value(1, 0, 5, false).unwrap();
    let other = Board::new().assign_value(1, 0, 5, false).unwrap();
    let other = other.assign_value(0, 0, 5, false).unwrap();
    assert_eq!(tile(&one, 0, 0).candidates, Vec::<u8>::new());
    assert_eq!(tile(&one, 1, 0).candidates, vec![5]);
    assert_eq!(tile(&other, 0, 0).candidates, vec![5]);
    assert_eq!(tile(&other, 1, 0).candidates, Vec::<u8>::new());
    assert_ne!(snapshot(&one), snapshot(&other));
}

#[test]
fn unassign_undoes_an_assignment_on_a_board_with_conflicts_laid_out_in_order() {
    let before = Board::new().assign_value(0, 0, 5, false).unwrap();
    let before = before.assign_value(1, 0, 5, false).unwrap();
    let back = before.assign_value(8, 8, 1, false).unwrap().unassign_value(8, 8).unwrap();
    assert_eq!(snapshot(&back), snapshot(&before));
}

#[test]
fn unassign_lays_the_candidates_out_in_the_order_of_the_tiles() {
    let before = Board::new().assign_value(1, 0, 5, false).unwrap();
    let before = before.assign_value(0, 0, 5, false).unwrap();
    assert_eq!(tile(&before, 0, 0).candidates, vec![5]);
    assert_eq!(tile(&before, 1, 0).candidates, Vec::<u8>::new());
    let back = before.assign_value(8, 8, 1, false).unwrap().unassign_value(8, 8).unwrap();
    // the values are assigned again from the left: the later tile keeps its candidate
    assert_eq!(tile(&back, 0, 0).candidates, Vec::<u8>::new());
    assert_eq!(tile(&back, 1, 0).candidates, vec![5]);
    assert_eq!(tile(&back, 0, 0).assignment, Some(5));
    assert_eq!(tile(&back, 1, 0).assignment, Some(5));
    assert_eq!(tile(&back, 8, 8).assignment, None);
    assert_eq!(tile(&back, 2, 0).candidates, vec![1, 2, 3, 4, 6, 7, 8, 9]);
}

#[test]
fn cross_out_changes_the_target_only() {
    let before = Board::new().assign_value(0, 0, 5, false).unwrap();
    let after = before.cross_out_value(3, 3, 5).unwrap();
    let a = snapshot(&after);
    let b = snapshot(&before);
    for i in 0..81 {
        if i == 3 * 9 + 3 {
            assert_eq!(a[i].5, vec![5]);
            assert_eq!(a[i].4, b[i].4);
            assert_eq!(a[i].3, None);
        } else {
            assert_eq!(a[i], b[i]);
        }
    }
}

#[test]
fn cross_out_is_refused_twice_and_on_a_cell_that_holds_a_value() {
    let b = Board::new().cross_out_value(3, 3, 5).unwrap();
    assert!(b.cross_out_value(3, 3, 5).is_none());
    assert!(!b.is_valid_cross_out_value(3, 3, 5));
    assert!(b.is_valid_cross_out_value(3, 3, 6));
    let c = b.assign_value(3, 3, 6, false).unwrap();
    assert!(c.cross_out_value(3, 3, 7).is_none());
    assert!(c.cross_out_value(3, 3, 6).is_none());
    let d = Board::new().assign_value(3, 3, 6, true).unwrap();
    assert!(d.cross_out_value(3, 3, 7).is_none());
}

#[test]
fn cross_outs_outlast_assigning_and_clearing() {
    let b = Board::new()
        .cross_out_value(3, 3, 5)
        .unwrap()
        .cross_out_value(3, 3, 1)
        .unwrap()
        .assign_value(3, 3, 6, false)
        .unwrap();
    assert_eq!(tile(&b, 3, 3).eliminated, vec![5, 1]);
    let c = b.unassign_value(3, 3).unwrap();
    assert_eq!(tile(&c, 3, 3).eliminated, vec![5, 1]);
    assert_eq!(tile(&c, 3, 3).candidates, all_values());
}
