use tetris::color::Color;
use tetris::geometry::Pos;
use tetris::grid::Grid;
use tetris::piece::Piece;
use tetris::shape::Shape;

fn piece(shape: Shape, rotation: usize, col: i16, row: i16) -> Piece {
    Piece { color: Color::Red, shape, pos: Pos(col, row), rotation }
}

fn fill_row(grid: &mut Grid, row: usize, color: Color) {
    for col in 0..8 {
        grid.0[row][col] = color;
    }
}

#[test]
fn grid_is_eight_by_sixteen() {
    assert_eq!(Grid::WIDTH, 8);
    assert_eq!(Grid::HEIGHT, 16);
    let grid = Grid::default();
    assert_eq!(grid.0.len(), 16);
    assert_eq!(grid.0[0].len(), 8);
}

#[test]
fn default_grid_is_empty() {
    let grid = Grid::default();
    for row in 0..16 {
        for col in 0..8 {
            assert!(grid.cell(col, row).is_empty());
        }
    }
}

#[test]
fn cell_reads_column_then_row() {
    let mut grid = Grid::default();
    grid.0[5][2] = Color::Cyan;
    assert_eq!(grid.cell(2, 5), Color::Cyan);
    assert_eq!(grid.cell(5, 2), Color::Empty);
}

#[test]
fn no_collision_in_the_open() {
    let grid = Grid::default();
    assert!(!grid.check_collision(&piece(Shape::I, 0, 3, 0)));
    assert!(!grid.check_collision(&piece(Shape::O, 0, 3, 7)));
}

#[test]
fn collision_with_the_left_wall() {
    let grid = Grid::default();
    // The vertical I holds column 2 of its mask.
    assert!(!grid.check_collision(&piece(Shape::I, 0, -2, 0)));
    assert!(grid.check_collision(&piece(Shape::I, 0, -3, 0)));
}

#[test]
fn collision_with_the_right_wall() {
    let grid = Grid::default();
    assert!(!grid.check_collision(&piece(Shape::I, 0, 5, 0)));
    assert!(grid.check_collision(&piece(Shape::I, 0, 6, 0)));
    assert!(!grid.check_collision(&piece(Shape::I, 1, 4, 0)));
    assert!(grid.check_collision(&piece(Shape::I, 1, 5, 0)));
}

#[test]
fn collision_with_the_floor() {
    let grid = Grid::default();
    assert!(!grid.check_collision(&piece(Shape::I, 0, 3, 12)));
    assert!(grid.check_collision(&piece(Shape::I, 0, 3, 13)));
    assert!(!grid.check_collision(&piece(Shape::I, 1, 3, 14)));
    assert!(grid.check_collision(&piece(Shape::I, 1, 3, 15)));
}

#[test]
fn rows_above_the_grid_are_free() {
    let grid = Grid::default();
    assert!(!grid.check_collision(&piece(Shape::I, 0, 3, -4)));
    assert!(!grid.check_collision(&piece(Shape::I, 0, 3, -2)));
    assert!(!grid.check_collision(&piece(Shape::T, 0, 0, -1000)));
}

#[test]
fn walls_reach_above_the_grid() {
    let grid = Grid::default();
    assert!(grid.check_collision(&piece(Shape::I, 0, 6, -4)));
    assert!(grid.check_collision(&piece(Shape::I, 0, -3, -4)));
}

#[test]
fn collision_with_a_taken_cell() {
    let mut grid = Grid::default();
    grid.0[9][5] = Color::Green;
    // The vertical I at column 3 holds column 5, rows 6 to 9.
    assert!(grid.check_collision(&piece(Shape::I, 0, 3, 6)));
    assert!(!grid.check_collision(&piece(Shape::I, 0, 3, 5)));
    assert!(!grid.check_collision(&piece(Shape::I, 0, 2, 6)));
}

#[test]
fn gray_cells_are_taken_too() {
    let mut grid = Grid::default();
    grid.0[3][4] = Color::Gray;
    assert!(grid.check_collision(&piece(Shape::O, 0, 3, 2)));
}

#[test]
fn check_collision_at_matches_check_collision() {
    let mut grid = Grid::default();
    grid.0[9][5] = Color::Green;
    for row in -5..18 {
        for col in -5..10 {
            for rotation in 0..4 {
                let block = piece(Shape::J, rotation, col, row);
                let mask = block.shape_rotation();
                assert_eq!(
                    grid.check_collision_at(&mask, col as i32, row as i32),
                    grid.check_collision(&block)
                );
            }
        }
    }
}

#[test]
fn check_collision_at_far_away() {
    let grid = Grid::default();
    let mask = Shape::O.rotation(0);
    assert!(grid.check_collision_at(&mask, i32::MAX, 0));
    assert!(grid.check_collision_at(&mask, i32::MIN, 0));
    assert!(grid.check_collision_at(&mask, 3, i32::MAX));
    assert!(!grid.check_collision_at(&mask, 3, i32::MIN));
}

#[test]
fn emplace_writes_the_four_blocks() {
    let mut grid = Grid::default();
    grid.emplace(&piece(Shape::T, 0, 2, 10));
    let mut expected = Grid::default();
    expected.0[10][3] = Color::Red;
    expected.0[11][2] = Color::Red;
    expected.0[11][3] = Color::Red;
    expected.0[11][4] = Color::Red;
    assert_eq!(grid, expected);
}

#[test]
fn emplace_keeps_the_other_cells() {
    let mut grid = Grid::default();
    grid.0[15][0] = Color::Purple;
    grid.0[11][3] = Color::Purple;
    grid.emplace(&Piece { color: Color::Yellow, ..piece(Shape::O, 0, 0, 13) });
    assert_eq!(grid.cell(0, 15), Color::Purple);
    assert_eq!(grid.cell(3, 11), Color::Purple);
    assert_eq!(grid.cell(1, 14), Color::Yellow);
    assert_eq!(grid.cell(2, 14), Color::Yellow);
    assert_eq!(grid.cell(1, 15), Color::Yellow);
    assert_eq!(grid.cell(2, 15), Color::Yellow);
}

#[test]
fn emplace_skips_blocks_above_the_grid() {
    let mut grid = Grid::default();
    grid.emplace(&piece(Shape::I, 0, 3, -2));
    let mut expected = Grid::default();
    expected.0[0][5] = Color::Red;
    expected.0[1][5] = Color::Red;
    assert_eq!(grid, expected);
}

#[test]
fn emplace_skips_blocks_beside_and_below_the_grid() {
    let mut grid = Grid::default();
    grid.emplace(&piece(Shape::I, 1, 6, 3));
    grid.emplace(&piece(Shape::I, 0, 0, 14));
    let mut expected = Grid::default();
    expected.0[4][6] = Color::Red;
    expected.0[4][7] = Color::Red;
    expected.0[14][2] = Color::Red;
    expected.0[15][2] = Color::Red;
    assert_eq!(grid, expected);
}

#[test]
fn emplace_wholly_outside_changes_nothing() {
    let mut grid = Grid::default();
    grid.emplace(&piece(Shape::O, 0, 10, 1));
    grid.emplace(&piece(Shape::O, 0, 3, -4));
    assert_eq!(grid, Grid::default());
}

#[test]
fn is_line_full_wants_every_cell_taken() {
    let mut grid = Grid::default();
    assert!(!grid.is_line_full(7));
    fill_row(&mut grid, 7, Color::White);
    assert!(grid.is_line_full(7));
    grid.0[7][7] = Color::Empty;
    assert!(!grid.is_line_full(7));
    grid.0[7][7] = Color::Gray;
    assert!(grid.is_line_full(7));
    grid.0[7][0] = Color::Empty;
    assert!(!grid.is_line_full(7));
}

#[test]
fn remove_line_shifts_the_rows_above_down() {
    let mut grid = Grid::default();
    grid.0[0][0] = Color::Red;
    grid.0[4][1] = Color::Cyan;
    grid.0[5][2] = Color::Green;
    grid.0[6][3] = Color::Purple;
    grid.remove_line(5);
    let mut expected = Grid::default();
    expected.0[1][0] = Color::Red;
    expected.0[5][1] = Color::Cyan;
    expected.0[6][3] = Color::Purple;
    assert_eq!(grid, expected);
}

#[test]
fn remove_line_at_the_top_blanks_it() {
    let mut grid = Grid::default();
    grid.0[0][0] = Color::Red;
    grid.0[1][1] = Color::Cyan;
    grid.remove_line(0);
    let mut expected = Grid::default();
    expected.0[1][1] = Color::Cyan;
    assert_eq!(grid, expected);
}

#[test]
fn remove_full_lines_on_an_empty_grid_changes_nothing() {
    let mut grid = Grid::default();
    grid.remove_full_lines();
    assert_eq!(grid, Grid::default());
}

#[test]
fn locking_a_piece_that_fills_a_row_clears_it() {
    let mut grid = Grid::default();
    // Row 15 is full but for columns 2 to 5; rows 13 and 14 hold a few blocks.
    for col in [0, 1, 6, 7] {
        grid.0[15][col] = Color::White;
    }
    grid.0[14][0] = Color::Cyan;
    grid.0[14][7] = Color::Green;
    grid.0[13][0] = Color::Purple;
    grid.emplace(&piece(Shape::I, 1, 2, 14));
    assert!(grid.is_line_full(15));
    grid.remove_full_lines();
    let mut expected = Grid::default();
    expected.0[15][0] = Color::Cyan;
    expected.0[15][7] = Color::Green;
    expected.0[14][0] = Color::Purple;
    assert_eq!(grid, expected);
}

#[test]
fn clearing_a_row_leaves_the_rows_below_alone() {
    let mut grid = Grid::default();
    grid.0[9][4] = Color::Red;
    fill_row(&mut grid, 10, Color::Yellow);
    grid.0[11][1] = Color::Cyan;
    grid.0[15][7] = Color::Green;
    grid.remove_full_lines();
    let mut expected = Grid::default();
    expected.0[10][4] = Color::Red;
    expected.0[11][1] = Color::Cyan;
    expected.0[15][7] = Color::Green;
    assert_eq!(grid, expected);
}

#[test]
fn clearing_the_only_block_row_leaves_it_empty() {
    let mut grid = Grid::default();
    fill_row(&mut grid, 15, Color::Yellow);
    grid.remove_full_lines();
    assert_eq!(grid, Grid::default());
}

#[test]
fn three_full_rows_clear_together() {
    let mut grid = Grid::default();
    grid.0[0][0] = Color::Red;
    grid.0[1][1] = Color::Green;
    grid.0[2][2] = Color::Cyan;
    fill_row(&mut grid, 3, Color::White);
    fill_row(&mut grid, 4, Color::Yellow);
    fill_row(&mut grid, 5, Color::Purple);
    grid.0[6][6] = Color::Red;
    grid.0[15][3] = Color::Green;
    grid.remove_full_lines();
    let mut expected = Grid::default();
    expected.0[3][0] = Color::Red;
    expected.0[4][1] = Color::Green;
    expected.0[5][2] = Color::Cyan;
    expected.0[6][6] = Color::Red;
    expected.0[15][3] = Color::Green;
    assert_eq!(grid, expected);
    assert_eq!(grid.0.len(), 16);
}

#[test]
fn full_rows_apart_clear_together() {
    let mut grid = Grid::default();
    grid.0[7][0] = Color::Red;
    fill_row(&mut grid, 8, Color::White);
    grid.0[9][1] = Color::Green;
    grid.0[10][2] = Color::Cyan;
    fill_row(&mut grid, 11, Color::Yellow);
    grid.0[12][3] = Color::Purple;
    fill_row(&mut grid, 15, Color::Yellow);
    grid.remove_full_lines();
    let mut expected = Grid::default();
    expected.0[10][0] = Color::Red;
    expected.0[11][1] = Color::Green;
    expected.0[12][2] = Color::Cyan;
    expected.0[13][3] = Color::Purple;
    assert_eq!(grid, expected);
}

#[test]
fn a_row_with_one_free_cell_stays() {
    let mut grid = Grid::default();
    fill_row(&mut grid, 15, Color::White);
    grid.0[15][4] = Color::Empty;
    grid.0[14][4] = Color::Red;
    let before = grid;
    grid.remove_full_lines();
    assert_eq!(grid, before);
}

#[test]
fn a_full_grid_clears_to_empty() {
    let mut grid = Grid::default();
    for row in 0..16 {
        fill_row(&mut grid, row, Color::Green);
    }
    grid.remove_full_lines();
    assert_eq!(grid, Grid::default());
}

#[test]
fn clearing_twice_is_clearing_once() {
    let mut grid = Grid::default();
    grid.0[2][2] = Color::Cyan;
    fill_row(&mut grid, 3, Color::White);
    fill_row(&mut grid, 9, Color::White);
    grid.0[12][1] = Color::Cyan;
    grid.remove_full_lines();
    let once = grid;
    grid.remove_full_lines();
    assert_eq!(grid, once);
}
