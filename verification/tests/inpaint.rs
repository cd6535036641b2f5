use sciimg::inpaint::find_larger;
use sciimg::inpaint::find_next_point;
use sciimg::inpaint::find_starting_point;
use sciimg::inpaint::get_num_good_neighbors;
use sciimg::inpaint::get_point_and_score_at_xy;
use sciimg::inpaint::Point;

// A 4x3 mask; `true` marks cells that still need filling.
fn sample_mask() -> Vec<bool> {
    vec![
        false, false, false, false, //
        false, true, true, false, //
        false, false, false, false,
    ]
}

#[test]
fn test_find_starting_point() {
    let mask = sample_mask();
    let start = find_starting_point(&mask, 4, 3);

    assert!(start.is_some());
    let start = start.unwrap();
    assert_eq!(start.x, 1);
    assert_eq!(start.y, 1);
    assert_eq!(start.score, 0);

    let clean = vec![false; 12];
    assert!(find_starting_point(&clean, 4, 3).is_none());
}

#[test]
fn test_get_num_good_neighbors() {
    let mask = sample_mask();
    // (1,1) has eight neighbors, of which only (2,1) is masked.
    assert_eq!(get_num_good_neighbors(&mask, 4, 3, 1, 1), 7);
    // The corner has three neighbors, one of which is masked.
    assert_eq!(get_num_good_neighbors(&mask, 4, 3, 0, 0), 2);
    // (0,1) has five neighbors; (1,1) is masked.
    assert_eq!(get_num_good_neighbors(&mask, 4, 3, 0, 1), 4);
}

#[test]
fn test_get_point_and_score_at_xy() {
    let mask = sample_mask();
    assert!(get_point_and_score_at_xy(&mask, 4, 3, 0, 0).is_none());
    assert!(get_point_and_score_at_xy(&mask, 4, 3, -1, 0).is_none());
    assert!(get_point_and_score_at_xy(&mask, 4, 3, 4, 0).is_none());
    let p = get_point_and_score_at_xy(&mask, 4, 3, 1, 1).unwrap();
    assert_eq!(p.x, 1);
    assert_eq!(p.y, 1);
    assert_eq!(p.score, 7);
}

#[test]
fn test_find_next_point() {
    let mask = sample_mask();
    // From (1,1) the only masked neighbor is (2,1).
    let nxt = find_next_point(&mask, 4, 3, 1, 1).unwrap();
    assert_eq!(nxt.x, 2);
    assert_eq!(nxt.y, 1);
    assert_eq!(nxt.score, 7);
    // From (3,0) the masked neighbor (2,1) is found diagonally.
    let diag = find_next_point(&mask, 4, 3, 3, 0).unwrap();
    assert_eq!(diag.x, 2);
    assert_eq!(diag.y, 1);
    // A grid with nothing left to fill yields nothing.
    let clean = vec![false; 12];
    assert!(find_next_point(&clean, 4, 3, 0, 2).is_none());
}

#[test]
fn test_find_larger() {
    let a = Point { x: 0, y: 0, score: 3 };
    let b = Point { x: 1, y: 1, score: 5 };
    let r = find_larger(Some(a), &b);
    assert_eq!((r.x, r.y, r.score), (1, 1, 5));
    let r2 = find_larger(Some(b), &a);
    assert_eq!((r2.x, r2.y, r2.score), (1, 1, 5));
    let r3 = find_larger(None, &a);
    assert_eq!((r3.x, r3.y, r3.score), (0, 0, 3));
    // A tie goes to the right-hand candidate.
    let c = Point { x: 2, y: 2, score: 3 };
    let r4 = find_larger(Some(a), &c);
    assert_eq!((r4.x, r4.y, r4.score), (2, 2, 3));
}
