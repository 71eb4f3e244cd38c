use pathplan::grid::{Grid, GridError};
use pathplan::text::{grid_from_text, row_from_line, rows_from_text};

fn cells(g: &Grid) -> Vec<Vec<i32>> {
    let mut out = Vec::new();
    for r in 0..g.rows() {
        let mut row = Vec::new();
        for c in 0..g.cols() {
            row.push(g.get((r, c)));
        }
        out.push(row);
    }
    out
}

#[test]
fn text_rows_become_grid_rows() {
    let g = grid_from_text("1 2 3\n4 5 6").unwrap();
    assert_eq!(cells(&g), vec![vec![1, 2, 3], vec![4, 5, 6]]);
}

#[test]
fn text_is_trimmed_before_it_is_cut_into_lines() {
    let g = grid_from_text("  \n\n 1 2\n3 4\n\n  ").unwrap();
    assert_eq!(cells(&g), vec![vec![1, 2], vec![3, 4]]);
}

#[test]
fn words_that_are_no_number_count_as_zero() {
    let g = grid_from_text("1 x 3\n4 5.5 6\n99999999999 7 -").unwrap();
    assert_eq!(cells(&g), vec![vec![1, 0, 3], vec![4, 0, 6], vec![0, 7, 0]]);
}

#[test]
fn signs_are_read() {
    let g = grid_from_text("-3 +4 2147483647 -2147483648 2147483648").unwrap();
    assert_eq!(cells(&g), vec![vec![-3, 4, 2147483647, -2147483648, 0]]);
}

#[test]
fn first_line_fixes_the_width() {
    let g = grid_from_text("1 2 3\n4\n5 6 7 8 9").unwrap();
    assert_eq!(cells(&g), vec![vec![1, 2, 3], vec![4, 0, 0], vec![5, 6, 7]]);
}

#[test]
fn blank_line_inside_is_a_row_of_zeros() {
    let g = grid_from_text("1 2\n\n3 4").unwrap();
    assert_eq!(cells(&g), vec![vec![1, 2], vec![0, 0], vec![3, 4]]);
}

#[test]
fn any_white_space_separates_words_and_lines() {
    let g = grid_from_text("1\t2   3\r\n4 5\t\t6\r\n").unwrap();
    assert_eq!(cells(&g), vec![vec![1, 2, 3], vec![4, 5, 6]]);
}

#[test]
fn text_without_a_word_gives_no_grid() {
    assert!(matches!(grid_from_text(""), Err(GridError::Empty)));
    assert!(matches!(grid_from_text("   \n \t \n"), Err(GridError::Empty)));
}

#[test]
fn row_from_line_reads_each_word() {
    assert_eq!(row_from_line("  7   8 nine 10 "), vec![7, 8, 0, 10]);
    assert_eq!(row_from_line(""), Vec::<i32>::new());
    assert_eq!(row_from_line(" \t "), Vec::<i32>::new());
}

#[test]
fn rows_from_text_keeps_ragged_rows() {
    assert_eq!(rows_from_text("\n1 2\n3\n4 5 6\n"), vec![vec![1, 2], vec![3], vec![4, 5, 6]]);
    assert_eq!(rows_from_text(" \n "), Vec::<Vec<i32>>::new());
}
