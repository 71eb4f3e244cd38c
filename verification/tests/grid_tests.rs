use pathplan::grid::{Grid, GridError};

fn table() -> Vec<Vec<i32>> {
    vec![vec![1, 5, 5], vec![1, 2, 3]]
}

#[test]
fn from_rows_keeps_shape_and_weights() {
    let g = Grid::from_rows(&table()).unwrap();
    assert_eq!(g.rows(), 2);
    assert_eq!(g.cols(), 3);
    assert_eq!(g.get((0, 0)), 1);
    assert_eq!(g.get((0, 2)), 5);
    assert_eq!(g.get((1, 1)), 2);
    assert_eq!(g.get((1, 2)), 3);
}

#[test]
fn from_rows_fills_short_rows_with_zero() {
    let g = Grid::from_rows(&vec![vec![4, 5, 6], vec![7]]).unwrap();
    assert_eq!(g.rows(), 2);
    assert_eq!(g.cols(), 3);
    assert_eq!(g.get((1, 0)), 7);
    assert_eq!(g.get((1, 1)), 0);
    assert_eq!(g.get((1, 2)), 0);
}

#[test]
fn from_rows_cuts_long_rows() {
    let g = Grid::from_rows(&vec![vec![4, 5], vec![7, 8, 9], vec![]]).unwrap();
    assert_eq!(g.rows(), 3);
    assert_eq!(g.cols(), 2);
    assert_eq!(g.get((1, 1)), 8);
    assert_eq!(g.get((2, 0)), 0);
    assert_eq!(g.get((2, 1)), 0);
}

#[test]
fn from_rows_rejects_no_rows() {
    let rows: Vec<Vec<i32>> = Vec::new();
    assert!(matches!(Grid::from_rows(&rows), Err(GridError::Empty)));
}

#[test]
fn from_rows_rejects_empty_first_row() {
    let rows: Vec<Vec<i32>> = vec![vec![], vec![1, 2]];
    assert!(matches!(Grid::from_rows(&rows), Err(GridError::Empty)));
}

#[test]
fn from_rows_accepts_negative_weights() {
    let g = Grid::from_rows(&vec![vec![-3, 2]]).unwrap();
    assert_eq!(g.get((0, 0)), -3);
    assert_eq!(g.max_weight(), 2);
}

#[test]
fn contains_tells_cells_from_other_positions() {
    let g = Grid::from_rows(&table()).unwrap();
    assert!(g.contains((0, 0)));
    assert!(g.contains((1, 2)));
    assert!(!g.contains((2, 0)));
    assert!(!g.contains((0, 3)));
    assert!(!g.contains((usize::MAX, usize::MAX)));
}

#[test]
fn increment_adds_one_to_one_cell() {
    let mut g = Grid::from_rows(&table()).unwrap();
    g.increment((1, 1));
    assert_eq!(g.get((1, 1)), 3);
    g.increment((1, 1));
    assert_eq!(g.get((1, 1)), 4);
    assert_eq!(g.get((0, 0)), 1);
    assert_eq!(g.get((0, 1)), 5);
    assert_eq!(g.get((0, 2)), 5);
    assert_eq!(g.get((1, 0)), 1);
    assert_eq!(g.get((1, 2)), 3);
}

#[test]
fn clone_is_independent_of_its_source() {
    let g = Grid::from_rows(&table()).unwrap();
    let mut copy = g.clone();
    assert_eq!(copy.rows(), 2);
    assert_eq!(copy.cols(), 3);
    assert_eq!(copy.get((1, 2)), 3);
    copy.increment((0, 0));
    assert_eq!(copy.get((0, 0)), 2);
    assert_eq!(g.get((0, 0)), 1);
}

#[test]
fn max_weight_is_the_largest_cell() {
    let g = Grid::from_rows(&vec![vec![1, 9, 3], vec![4, 2, 8]]).unwrap();
    assert_eq!(g.max_weight(), 9);
    let h = Grid::from_rows(&vec![vec![-5, -9], vec![-7, -6]]).unwrap();
    assert_eq!(h.max_weight(), -5);
    let last = Grid::from_rows(&vec![vec![0, 0], vec![0, 1]]).unwrap();
    assert_eq!(last.max_weight(), 1);
}
