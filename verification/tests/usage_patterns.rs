//! The expected usage pattern of the library: a caller repeatedly computes a
//! bitmap and draws it, here with the window loop replaced by assertions on
//! the command batches.

use simulate_lcd::color::lcd_dark_green;
use simulate_lcd::color::lcd_light_green;
use simulate_lcd::Bitmap;
use simulate_lcd::DrawCmd;
use simulate_lcd::LcdScreen;

fn count_fills(cmds: &[DrawCmd]) -> usize {
    cmds.iter().filter(|cmd| matches!(cmd, DrawCmd::Fill { .. })).count()
}

fn count_presents(cmds: &[DrawCmd]) -> usize {
    cmds.iter().filter(|cmd| matches!(cmd, DrawCmd::Present)).count()
}

#[test]
fn blank_screen_frames_only_present() {
    let mut screen =
        LcdScreen::new(50, 50, "LCD Example: Blank", lcd_dark_green(), lcd_light_green(), 10, 10)
            .unwrap();
    let blank = Bitmap::from_rows(&vec![vec![false; 50]; 50]).unwrap();
    for _frame in 0..3 {
        let cmds = screen.draw_bitmap(&blank);
        assert_eq!(count_fills(&cmds), 0);
        assert_eq!(count_presents(&cmds), 1);
        assert_eq!(*cmds.last().unwrap(), DrawCmd::Present);
    }
}

fn neighbour_count(bm: &[Vec<bool>], nrow: usize, ncol: usize) -> usize {
    let mut neighbours: usize = 0;
    for row_offset in -1i64..=1 {
        for col_offset in -1i64..=1 {
            let check_row = (nrow as i64) + row_offset;
            let check_col = (ncol as i64) + col_offset;
            if (check_row >= 0) && (check_col >= 0) {
                let check_row = check_row as usize;
                let check_col = check_col as usize;
                if (check_row != nrow) || (check_col != ncol) {
                    if let Some(row) = bm.get(check_row) {
                        if let Some(cell) = row.get(check_col) {
                            neighbours += *cell as usize;
                        }
                    }
                }
            }
        }
    }
    neighbours
}

fn next_state(old: &[Vec<bool>]) -> Vec<Vec<bool>> {
    let rows = old.len();
    let cols = if rows == 0 { 0 } else { old[0].len() };
    let mut new = vec![vec![false; cols]; rows];
    for nrow in 0..rows {
        for ncol in 0..cols {
            let n_neighbours = neighbour_count(old, nrow, ncol);
            if old[nrow][ncol] {
                if n_neighbours == 2 || n_neighbours == 3 {
                    new[nrow][ncol] = true;
                }
            } else if n_neighbours == 3 {
                new[nrow][ncol] = true;
            }
        }
    }
    new
}

#[test]
fn game_of_life_blinker_redraws_only_the_changed_dots() {
    let mut screen = LcdScreen::new(
        5,
        5,
        "LCD Example: Game of Life",
        lcd_dark_green(),
        lcd_light_green(),
        10,
        10,
    )
    .unwrap();

    // A vertical blinker in the middle of the board; it oscillates with
    // period two, swapping four cells per generation.
    let mut cells = vec![vec![false; 5]; 5];
    cells[1][2] = true;
    cells[2][2] = true;
    cells[3][2] = true;

    let cmds = screen.draw_bitmap(&Bitmap::from_rows(&cells).unwrap());
    assert_eq!(count_fills(&cmds), 3);
    assert_eq!(count_presents(&cmds), 1);

    for _generation in 0..4 {
        cells = next_state(&cells);
        let cmds = screen.draw_bitmap(&Bitmap::from_rows(&cells).unwrap());
        assert_eq!(count_fills(&cmds), 4);
        assert_eq!(count_presents(&cmds), 1);
        assert_eq!(*cmds.last().unwrap(), DrawCmd::Present);
    }

    assert!(screen.dot_on(1, 2));
    assert!(screen.dot_on(2, 2));
    assert!(screen.dot_on(3, 2));
    assert!(!screen.dot_on(2, 1));
    assert!(!screen.dot_on(2, 3));
}
