use simulate_lcd::Bitmap;

#[test]
fn new_bitmap_is_all_off() {
    let bm = Bitmap::new(2, 3);
    assert_eq!(bm.rows, 2);
    assert_eq!(bm.cols, 3);
    for r in 0..2 {
        for c in 0..3 {
            assert!(!bm.get(r, c));
        }
    }
}

#[test]
fn set_changes_only_the_addressed_cell() {
    let mut bm = Bitmap::new(2, 2);
    bm.set(0, 1, true);
    assert!(!bm.get(0, 0));
    assert!(bm.get(0, 1));
    assert!(!bm.get(1, 0));
    assert!(!bm.get(1, 1));
}

#[test]
fn from_rows_keeps_every_cell() {
    let bm = Bitmap::from_rows(&vec![vec![true, false, true], vec![false, true, false]]).unwrap();
    assert_eq!(bm.rows, 2);
    assert_eq!(bm.cols, 3);
    assert!(bm.get(0, 0));
    assert!(!bm.get(0, 1));
    assert!(bm.get(0, 2));
    assert!(!bm.get(1, 0));
    assert!(bm.get(1, 1));
    assert!(!bm.get(1, 2));
}

#[test]
fn from_rows_rejects_ragged_input() {
    let result = Bitmap::from_rows(&vec![vec![true, false], vec![false]]);
    assert!(result.is_none());
}

#[test]
fn from_rows_accepts_empty_input() {
    let bm = Bitmap::from_rows(&vec![]).unwrap();
    assert_eq!(bm.rows, 0);
    assert_eq!(bm.cols, 0);
}
