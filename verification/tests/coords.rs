use kapollo::selection::coords::{auto_scroll, content_to_screen, normalize, screen_to_content};

#[test]
fn screen_to_content_adds_top_row() {
    assert_eq!(screen_to_content(0, 0), 0);
    assert_eq!(screen_to_content(10, 3), 13);
}

#[test]
fn content_to_screen_is_inverse_when_visible() {
    let top = 10;
    let height = 5;
    for screen_y in 0..height {
        let abs = screen_to_content(top, screen_y);
        assert_eq!(content_to_screen(top, abs, height), Some(screen_y));
    }
}

#[test]
fn content_to_screen_clamps_out_of_region() {
    assert_eq!(content_to_screen(10, 9, 5), None);
    assert_eq!(content_to_screen(10, 15, 5), None);
    assert_eq!(content_to_screen(10, 14, 5), Some(4));
}

#[test]
fn auto_scroll_up_past_top() {
    assert_eq!(auto_scroll(5, -1, 10, 100), 4);
}

#[test]
fn auto_scroll_down_past_bottom() {
    assert_eq!(auto_scroll(5, 10, 10, 100), 6);
}

#[test]
fn auto_scroll_within_bounds_is_noop() {
    assert_eq!(auto_scroll(5, 3, 10, 100), 5);
}

#[test]
fn auto_scroll_clamps_at_zero() {
    assert_eq!(auto_scroll(0, -1, 10, 100), 0);
}

#[test]
fn auto_scroll_clamps_at_max_top() {
    assert_eq!(auto_scroll(90, 10, 10, 100), 90);
}

#[test]
fn auto_scroll_handles_history_shorter_than_height() {
    assert_eq!(auto_scroll(0, 10, 10, 5), 0);
}

#[test]
fn normalize_orders_by_row_then_col() {
    assert_eq!(normalize((5, 2), (3, 9)), ((3, 9), (5, 2)));
    assert_eq!(normalize((3, 9), (5, 2)), ((3, 9), (5, 2)));
    assert_eq!(normalize((4, 8), (4, 2)), ((4, 2), (4, 8)));
}

#[test]
fn normalize_identity_when_already_ordered() {
    assert_eq!(normalize((1, 1), (1, 1)), ((1, 1), (1, 1)));
}

#[test]
fn round_trip_holds_across_a_scrolled_viewport() {
    for top in [0usize, 7, 1000] {
        for y in 0..24usize {
            assert_eq!(content_to_screen(top, screen_to_content(top, y), 24), Some(y));
        }
    }
}
