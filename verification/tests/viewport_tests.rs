use joshuto_ui::find_window;
use joshuto_ui::DEFAULT_MARGIN;

#[test]
fn near_top_pins_to_start() {
    assert_eq!(find_window(100, 5, 20, DEFAULT_MARGIN), Some((0, 20)));
}

#[test]
fn near_bottom_pins_to_end() {
    assert_eq!(find_window(100, 95, 20, DEFAULT_MARGIN), Some((80, 100)));
}

#[test]
fn middle_keeps_margin_above() {
    assert_eq!(find_window(100, 50, 20, DEFAULT_MARGIN), Some((42, 62)));
}

#[test]
fn empty_listing_has_no_window() {
    assert_eq!(find_window(0, 0, 20, DEFAULT_MARGIN), None);
}

#[test]
fn whole_listing_fits() {
    assert_eq!(find_window(5, 3, 20, DEFAULT_MARGIN), Some((0, 5)));
    assert_eq!(find_window(20, 19, 20, DEFAULT_MARGIN), Some((0, 20)));
}

#[test]
fn window_contains_selection() {
    for idx in 0..100 {
        let (start, end) = find_window(100, idx, 20, DEFAULT_MARGIN).unwrap();
        assert!(start <= idx && idx < end);
        assert!(end <= 100);
        assert!(end - start <= 20);
    }
}

#[test]
fn sticky_near_edges() {
    // One step inside the top zone leaves the window unchanged.
    assert_eq!(
        find_window(100, 3, 20, DEFAULT_MARGIN),
        find_window(100, 4, 20, DEFAULT_MARGIN)
    );
    // One step inside the bottom zone leaves the window unchanged.
    assert_eq!(
        find_window(100, 96, 20, DEFAULT_MARGIN),
        find_window(100, 97, 20, DEFAULT_MARGIN)
    );
}

#[test]
fn window_smaller_than_margin_follows_branch_order() {
    // With fewer rows than the margin the branch order still decides:
    // the selection sits above the top branch and below the bottom one,
    // so the window starts a margin above it.
    assert_eq!(find_window(100, 20, 5, 8), Some((12, 17)));
}
