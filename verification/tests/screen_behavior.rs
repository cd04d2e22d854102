use simulate_lcd::color::lcd_dark_green;
use simulate_lcd::color::lcd_light_green;
use simulate_lcd::Bitmap;
use simulate_lcd::Color;
use simulate_lcd::DrawCmd;
use simulate_lcd::LcdError;
use simulate_lcd::LcdScreen;
use simulate_lcd::Rect;

#[test]
fn test_success() {
    let _screen = LcdScreen::new(
        10,
        10,
        "LCD Test: Success",
        lcd_dark_green(),
        lcd_light_green(),
        10,
        10,
    )
    .unwrap();
}

#[test]
fn construction_yields_all_dots_off() {
    let screen = LcdScreen::new(3, 5, "all off", lcd_dark_green(), lcd_light_green(), 7, 9).unwrap();
    assert_eq!(screen.rows(), 3);
    assert_eq!(screen.cols(), 5);
    assert_eq!(screen.dot_width(), 7);
    assert_eq!(screen.dot_height(), 9);
    assert_eq!(screen.window_size(), (35, 27));
    assert_eq!(screen.title().as_str(), "all off");
    for r in 0..3 {
        for c in 0..5 {
            assert!(!screen.dot_on(r, c));
        }
    }
}

#[test]
fn dot_rectangles_tile_the_window() {
    let screen = LcdScreen::new(4, 6, "tiling", lcd_dark_green(), lcd_light_green(), 11, 13).unwrap();
    for r in 0..4u32 {
        for c in 0..6u32 {
            let rect = screen.dot_rect(r as usize, c as usize);
            assert_eq!(
                rect,
                Rect { x: (c * 11) as i32, y: (r * 13) as i32, w: 11, h: 13 }
            );
        }
    }
}

#[test]
fn largest_valid_width_succeeds() {
    let screen = LcdScreen::new(1, 1, "widest", lcd_dark_green(), lcd_light_green(), i32::MAX as u32, 1).unwrap();
    assert_eq!(screen.window_size(), (i32::MAX as u32, 1));
}

#[test]
fn too_wide_fails_with_window_width_error() {
    let result = LcdScreen::new(
        10,
        3,
        "too wide",
        lcd_dark_green(),
        lcd_light_green(),
        1_000_000_000,
        10,
    );
    let err = result.err().unwrap();
    assert!(matches!(
        err,
        LcdError::WindowWidth { width: 3_000_000_000, cols: 3, dot_width: 1_000_000_000 }
    ));
}

#[test]
fn too_high_fails_with_window_height_error() {
    let result = LcdScreen::new(
        100000,
        10,
        "too high",
        lcd_dark_green(),
        lcd_light_green(),
        10,
        100000,
    );
    let err = result.err().unwrap();
    assert!(matches!(
        err,
        LcdError::WindowHeight { height: 10_000_000_000, rows: 100000, dot_height: 100000 }
    ));
}

#[test]
fn zero_width_fails_with_window_width_error() {
    let result = LcdScreen::new(2, 2, "no width", lcd_dark_green(), lcd_light_green(), 0, 10);
    let err = result.err().unwrap();
    assert!(matches!(err, LcdError::WindowWidth { width: 0, cols: 2, dot_width: 0 }));
}

#[test]
fn zero_rows_fails_with_window_height_error() {
    let result = LcdScreen::new(0, 2, "no rows", lcd_dark_green(), lcd_light_green(), 10, 10);
    let err = result.err().unwrap();
    assert!(matches!(err, LcdError::WindowHeight { height: 0, rows: 0, dot_height: 10 }));
}

#[test]
fn width_is_checked_before_height() {
    let result = LcdScreen::new(0, 0, "nothing", lcd_dark_green(), lcd_light_green(), 10, 10);
    let err = result.err().unwrap();
    assert!(matches!(err, LcdError::WindowWidth { width: 0, cols: 0, dot_width: 10 }));
}

#[test]
fn checkerboard_draw_fills_exactly_the_dots_turned_on() {
    let color_a = Color::rgb(10, 20, 30);
    let color_b = Color::rgb(40, 50, 60);
    let mut screen = LcdScreen::new(2, 2, "checkerboard", color_a, color_b, 100, 100).unwrap();
    let bm = Bitmap::from_rows(&vec![vec![true, false], vec![false, true]]).unwrap();

    let cmds = screen.draw_bitmap(&bm);

    assert_eq!(
        cmds,
        vec![
            DrawCmd::Fill { rect: Rect { x: 0, y: 0, w: 100, h: 100 }, color: color_a },
            DrawCmd::Fill { rect: Rect { x: 100, y: 100, w: 100, h: 100 }, color: color_a },
            DrawCmd::Present,
        ]
    );
    assert!(screen.dot_on(0, 0));
    assert!(!screen.dot_on(0, 1));
    assert!(!screen.dot_on(1, 0));
    assert!(screen.dot_on(1, 1));
}

#[test]
fn drawing_the_same_bitmap_again_fills_nothing_but_still_presents() {
    let mut screen =
        LcdScreen::new(2, 2, "idempotent", lcd_dark_green(), lcd_light_green(), 100, 100).unwrap();
    let bm = Bitmap::from_rows(&vec![vec![true, false], vec![false, true]]).unwrap();

    let first = screen.draw_bitmap(&bm);
    assert_eq!(first.len(), 3);

    let second = screen.draw_bitmap(&bm);
    assert_eq!(second, vec![DrawCmd::Present]);
}

#[test]
fn turning_off_one_dot_fills_only_that_dot_with_the_off_color() {
    let color_a = Color::rgb(1, 2, 3);
    let color_b = Color::rgb(4, 5, 6);
    let mut screen = LcdScreen::new(3, 3, "single diff", color_a, color_b, 10, 10).unwrap();

    let mut bm = Bitmap::new(3, 3);
    bm.set(1, 2, true);
    let _ = screen.draw_bitmap(&bm);
    assert!(screen.dot_on(1, 2));

    bm.set(1, 2, false);
    let cmds = screen.draw_bitmap(&bm);

    assert_eq!(
        cmds,
        vec![
            DrawCmd::Fill { rect: Rect { x: 20, y: 10, w: 10, h: 10 }, color: color_b },
            DrawCmd::Present,
        ]
    );
    for r in 0..3 {
        for c in 0..3 {
            assert!(!screen.dot_on(r, c));
        }
    }
}
