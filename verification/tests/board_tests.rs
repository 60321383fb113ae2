use minesweeper::grid::lays_mine;
use minesweeper::{Grid, GridDimensions, HiddenState, Square, SquareState, MINE_ODDS};

fn layout(rows: &[&str]) -> Vec<Vec<bool>> {
    rows.iter().map(|r| r.chars().map(|c| c == '*').collect()).collect()
}

fn grid(rows: &[&str]) -> Grid {
    Grid::from_mines(&layout(rows)).unwrap()
}

fn state(g: &Grid, x: usize, y: usize) -> SquareState {
    g.get(x, y).unwrap().state
}

fn mines_by_hand(g: &Grid, x: usize, y: usize) -> usize {
    let mut n = 0;
    for dx in -1i64..=1 {
        for dy in -1i64..=1 {
            if dx == 0 && dy == 0 {
                continue;
            }
            let i = x as i64 + dx;
            let j = y as i64 + dy;
            if i < 0 || j < 0 {
                continue;
            }
            if let Some(sq) = g.get(i as usize, j as usize) {
                if sq.state == SquareState::Bomb {
                    n += 1;
                }
            }
        }
    }
    n
}

fn counts_agree(g: &Grid) -> bool {
    for x in 0..g.rows() {
        for y in 0..g.cols() {
            let around = mines_by_hand(g, x, y);
            let ok = match state(g, x, y) {
                SquareState::Bomb => true,
                SquareState::Clear => around == 0,
                SquareState::Count(n) => n > 0 && n == around,
            };
            if !ok {
                return false;
            }
        }
    }
    true
}

#[test]
fn square_new_is_unselected() {
    let sq = Square::new(HiddenState::Flagged, SquareState::Count(3));
    assert_eq!(
        sq,
        Square { revealed: HiddenState::Flagged, selected: false, state: SquareState::Count(3) }
    );
}

#[test]
fn dimensions_keep_rows_and_columns() {
    let d = GridDimensions::new(3, 9);
    assert_eq!(d.x, 3);
    assert_eq!(d.y, 9);
}

#[test]
fn from_mines_counts_a_mined_column() {
    let g = grid(&["*..", "*..", "*.."]);
    assert_eq!(g.rows(), 3);
    assert_eq!(g.cols(), 3);
    for x in 0..3 {
        assert_eq!(state(&g, x, 0), SquareState::Bomb);
        assert_eq!(state(&g, x, 2), SquareState::Clear);
    }
    assert_eq!(state(&g, 0, 1), SquareState::Count(2));
    assert_eq!(state(&g, 1, 1), SquareState::Count(3));
    assert_eq!(state(&g, 2, 1), SquareState::Count(2));
}

#[test]
fn from_mines_counts_all_eight_neighbours() {
    let g = grid(&["***", "*.*", "***"]);
    assert_eq!(state(&g, 1, 1), SquareState::Count(8));
    assert_eq!(g.mines_around(1, 1), 8);
    assert_eq!(g.mines_around(0, 0), 2);
    assert_eq!(g.mines_around(0, 1), 4);
}

#[test]
fn from_mines_leaves_every_cell_hidden_and_unselected() {
    let g = grid(&["*.", ".."]);
    for x in 0..2 {
        for y in 0..2 {
            let sq = g.get(x, y).unwrap();
            assert_eq!(sq.revealed, HiddenState::Hidden);
            assert!(!sq.selected);
        }
    }
}

#[test]
fn from_mines_without_mines_is_all_clear() {
    let g = grid(&["...", "..."]);
    for x in 0..2 {
        for y in 0..3 {
            assert_eq!(state(&g, x, y), SquareState::Clear);
        }
    }
}

#[test]
fn from_mines_single_cell() {
    let g = grid(&["*"]);
    assert_eq!(state(&g, 0, 0), SquareState::Bomb);
    let g = grid(&["."]);
    assert_eq!(state(&g, 0, 0), SquareState::Clear);
}

#[test]
fn from_mines_refuses_no_rows() {
    assert!(Grid::from_mines(&Vec::new()).is_none());
}

#[test]
fn from_mines_refuses_no_columns() {
    assert!(Grid::from_mines(&vec![Vec::new()]).is_none());
    assert!(Grid::from_mines(&vec![Vec::new(), Vec::new()]).is_none());
}

#[test]
fn from_mines_refuses_ragged_rows() {
    assert!(Grid::from_mines(&vec![vec![false, true], vec![false]]).is_none());
    assert!(Grid::from_mines(&vec![vec![false], vec![false, true]]).is_none());
}

#[test]
fn from_mines_on_a_wide_board() {
    let g = grid(&["*....", ".....", "....*"]);
    assert_eq!(g.rows(), 3);
    assert_eq!(g.cols(), 5);
    assert_eq!(state(&g, 0, 1), SquareState::Count(1));
    assert_eq!(state(&g, 1, 0), SquareState::Count(1));
    assert_eq!(state(&g, 1, 1), SquareState::Count(1));
    assert_eq!(state(&g, 1, 2), SquareState::Clear);
    assert_eq!(state(&g, 1, 3), SquareState::Count(1));
    assert_eq!(state(&g, 1, 4), SquareState::Count(1));
    assert_eq!(state(&g, 2, 3), SquareState::Count(1));
    assert_eq!(state(&g, 0, 4), SquareState::Clear);
    assert!(counts_agree(&g));
}

#[test]
fn generated_boards_have_counts_that_agree_with_their_mines() {
    for _ in 0..50 {
        let g = Grid::new(GridDimensions::new(7, 5));
        assert_eq!(g.rows(), 7);
        assert_eq!(g.cols(), 5);
        assert!(counts_agree(&g));
        for x in 0..7 {
            for y in 0..5 {
                let sq = g.get(x, y).unwrap();
                assert_eq!(sq.revealed, HiddenState::Hidden);
                assert!(!sq.selected);
                assert_eq!(g.mines_around(x, y), mines_by_hand(&g, x, y));
            }
        }
    }
}

#[test]
fn generated_boards_with_other_odds_are_consistent() {
    for odds in [2u32, 3, 10] {
        let g = Grid::generate(GridDimensions::new(6, 9), odds);
        assert_eq!(g.rows(), 6);
        assert_eq!(g.cols(), 9);
        assert!(counts_agree(&g));
    }
}

#[test]
fn odds_of_one_mine_every_cell() {
    let g = Grid::generate(GridDimensions::new(4, 3), 1);
    for x in 0..4 {
        for y in 0..3 {
            assert_eq!(state(&g, x, y), SquareState::Bomb);
        }
    }
}

#[test]
fn default_odds_are_one_in_six() {
    assert_eq!(MINE_ODDS, 6);
    let mut mines = 0usize;
    let mut cells = 0usize;
    for _ in 0..40 {
        let g = Grid::new(GridDimensions::new(12, 12));
        for x in 0..12 {
            for y in 0..12 {
                cells += 1;
                if state(&g, x, y) == SquareState::Bomb {
                    mines += 1;
                }
            }
        }
    }
    // 5760 cells at one in six: 960 expected, far inside these bounds.
    assert!(mines * 10 > cells);
    assert!(mines * 4 < cells);
}

#[test]
fn neighbours_in_the_middle() {
    let g = grid(&["...", "...", "..."]);
    assert_eq!(
        g.neighbours(1, 1),
        vec![(0, 0), (0, 1), (0, 2), (1, 0), (1, 2), (2, 0), (2, 1), (2, 2)]
    );
}

#[test]
fn neighbours_at_corners_and_edges() {
    let g = grid(&["...", "...", "..."]);
    assert_eq!(g.neighbours(0, 0), vec![(0, 1), (1, 0), (1, 1)]);
    assert_eq!(g.neighbours(2, 2), vec![(1, 1), (1, 2), (2, 1)]);
    assert_eq!(g.neighbours(0, 1), vec![(0, 0), (0, 2), (1, 0), (1, 1), (1, 2)]);
    assert_eq!(g.neighbours(1, 2), vec![(0, 1), (0, 2), (1, 1), (2, 1), (2, 2)]);
}

#[test]
fn neighbours_on_a_board_that_is_not_square() {
    let g = grid(&["....", "...."]);
    assert_eq!(g.neighbours(1, 3), vec![(0, 2), (0, 3), (1, 2)]);
    assert_eq!(g.neighbours(0, 2), vec![(0, 1), (0, 3), (1, 1), (1, 2), (1, 3)]);
    let g = grid(&["..", "..", "..", ".."]);
    assert_eq!(g.neighbours(3, 1), vec![(2, 0), (2, 1), (3, 0)]);
    assert_eq!(g.neighbours(2, 0), vec![(1, 0), (1, 1), (2, 1), (3, 0), (3, 1)]);
}

#[test]
fn neighbours_of_a_single_cell_board() {
    let g = grid(&["."]);
    assert_eq!(g.neighbours(0, 0), Vec::new());
}

#[test]
fn neighbours_from_off_the_board() {
    let g = grid(&["..", ".."]);
    assert_eq!(g.neighbours(2, 0), vec![(1, 0), (1, 1)]);
    assert_eq!(g.neighbours(0, 2), vec![(0, 1), (1, 1)]);
    assert_eq!(g.neighbours(2, 2), vec![(1, 1)]);
    assert_eq!(g.neighbours(3, 0), Vec::new());
    assert_eq!(g.neighbours(usize::MAX, usize::MAX), Vec::new());
    assert_eq!(g.neighbours(usize::MAX, 0), Vec::new());
}

#[test]
fn adjacent_unrevealed_lists_hidden_neighbours_in_reading_order() {
    let mut g = grid(&["...", "...", "..."]);
    assert_eq!(
        g.get_adjacent_unrevealed_squares(1, 1),
        vec![
            vec![0, 0],
            vec![0, 1],
            vec![0, 2],
            vec![1, 0],
            vec![1, 2],
            vec![2, 0],
            vec![2, 1],
            vec![2, 2]
        ]
    );
    g.set_revealed(0, 1, HiddenState::Revealed);
    g.set_revealed(1, 2, HiddenState::Flagged);
    g.set_revealed(2, 2, HiddenState::Revealed);
    assert_eq!(
        g.get_adjacent_unrevealed_squares(1, 1),
        vec![vec![0, 0], vec![0, 2], vec![1, 0], vec![2, 0], vec![2, 1]]
    );
}

#[test]
fn adjacent_unrevealed_leaves_out_the_cell_itself() {
    let g = grid(&["..", ".."]);
    assert_eq!(g.get_adjacent_unrevealed_squares(0, 0), vec![vec![0, 1], vec![1, 0], vec![1, 1]]);
}

#[test]
fn adjacent_unrevealed_does_not_change_the_board() {
    let g = grid(&["*.", ".."]);
    let before: Vec<Option<Square>> =
        (0..2).flat_map(|x| (0..2).map(move |y| (x, y))).map(|(x, y)| g.get(x, y)).collect();
    let _ = g.get_adjacent_unrevealed_squares(0, 1);
    let after: Vec<Option<Square>> =
        (0..2).flat_map(|x| (0..2).map(move |y| (x, y))).map(|(x, y)| g.get(x, y)).collect();
    assert_eq!(before, after);
}

#[test]
fn adjacent_unrevealed_when_all_is_revealed() {
    let mut g = grid(&["..", ".."]);
    g.reveal_all();
    assert_eq!(g.get_adjacent_unrevealed_squares(0, 0), Vec::<Vec<usize>>::new());
}

#[test]
fn get_is_none_off_the_board() {
    let g = grid(&["..", ".."]);
    assert!(g.get(0, 0).is_some());
    assert!(g.get(1, 1).is_some());
    assert!(g.get(2, 0).is_none());
    assert!(g.get(0, 2).is_none());
    assert!(g.get(usize::MAX, usize::MAX).is_none());
}

#[test]
fn at_reads_a_cell() {
    let g = grid(&["*.", ".."]);
    assert_eq!(g.at(0, 0).state, SquareState::Bomb);
    assert_eq!(g.at(1, 1).state, SquareState::Count(1));
}

#[test]
fn set_revealed_changes_one_cell_only() {
    let mut g = grid(&["*.", ".."]);
    g.set_revealed(0, 1, HiddenState::Flagged);
    assert_eq!(g.at(0, 1).revealed, HiddenState::Flagged);
    assert_eq!(g.at(0, 1).state, SquareState::Count(1));
    assert_eq!(g.at(0, 0).revealed, HiddenState::Hidden);
    assert_eq!(g.at(1, 0).revealed, HiddenState::Hidden);
    assert_eq!(g.at(1, 1).revealed, HiddenState::Hidden);
}

#[test]
fn set_selected_changes_the_marker_only() {
    let mut g = grid(&["*.", ".."]);
    g.set_selected(1, 0, true);
    assert!(g.at(1, 0).selected);
    assert_eq!(g.at(1, 0).revealed, HiddenState::Hidden);
    assert!(!g.at(0, 0).selected);
    g.set_selected(1, 0, false);
    assert!(!g.at(1, 0).selected);
}

#[test]
fn square_mut_hands_out_the_cell() {
    let mut g = grid(&["*.", ".."]);
    {
        let sq = g.square_mut(1, 1);
        assert_eq!(sq.state, SquareState::Count(1));
        sq.selected = true;
    }
    assert!(g.at(1, 1).selected);
    assert!(!g.at(0, 1).selected);
}

#[test]
fn reveal_all_reveals_mines_flags_and_counts() {
    let mut g = grid(&["*.", ".."]);
    g.set_revealed(0, 0, HiddenState::Flagged);
    g.set_selected(1, 1, true);
    g.reveal_all();
    for x in 0..2 {
        for y in 0..2 {
            assert_eq!(g.at(x, y).revealed, HiddenState::Revealed);
        }
    }
    assert_eq!(g.at(0, 0).state, SquareState::Bomb);
    assert_eq!(g.at(0, 1).state, SquareState::Count(1));
    assert!(g.at(1, 1).selected);
}

#[test]
fn all_safe_revealed_ignores_mines() {
    let mut g = grid(&["*.", ".."]);
    assert!(!g.all_safe_revealed());
    g.set_revealed(0, 1, HiddenState::Revealed);
    g.set_revealed(1, 0, HiddenState::Revealed);
    assert!(!g.all_safe_revealed());
    g.set_revealed(1, 1, HiddenState::Flagged);
    assert!(!g.all_safe_revealed());
    g.set_revealed(1, 1, HiddenState::Revealed);
    assert!(g.all_safe_revealed());
    g.set_revealed(0, 0, HiddenState::Revealed);
    assert!(g.all_safe_revealed());
}

#[test]
fn all_safe_revealed_on_a_board_of_mines() {
    let g = grid(&["**", "**"]);
    assert!(g.all_safe_revealed());
}

#[test]
fn only_the_outcome_zero_lays_a_mine() {
    assert!(lays_mine(0));
    for drawn in [1u32, 2, 5, 6, u32::MAX] {
        assert!(!lays_mine(drawn));
    }
}

#[test]
fn boards_from_layouts_and_by_chance_are_well_formed() {
    assert!(grid(&["."]).is_well_formed());
    assert!(grid(&["*..", "...", "..."]).is_well_formed());
    assert!(Grid::new(GridDimensions::new(3, 8)).is_well_formed());
    assert!(Grid::generate(GridDimensions::new(1, 1), 1).is_well_formed());
}

#[test]
fn row_len_is_the_number_of_columns() {
    let g = grid(&["....", "...."]);
    assert_eq!(g.row_len(0), 4);
    assert_eq!(g.row_len(1), 4);
    assert_eq!(g.cols(), 4);
    assert_eq!(g.rows(), 2);
}
