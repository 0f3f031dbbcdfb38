use kapollo::input::editing::{
    current_line_bounds, delete_word_before_start, word_boundary_left, word_boundary_right,
};

fn chars(s: &str) -> Vec<char> {
    s.chars().collect()
}

#[test]
fn line_bounds_single_line() {
    let c = chars("hello");
    assert_eq!(current_line_bounds(&c, 3), (0, 5));
}

#[test]
fn line_bounds_multiline_interior() {
    let c = chars("ab\ncde\nf");
    assert_eq!(current_line_bounds(&c, 4), (3, 6));
    assert_eq!(current_line_bounds(&c, 3), (3, 6));
    assert_eq!(current_line_bounds(&c, 7), (7, 8));
}

#[test]
fn word_left_stops_at_punctuation() {
    let c = chars("foo.bar");
    assert_eq!(word_boundary_left(&c, 7), 4);
    assert_eq!(word_boundary_left(&c, 4), 3);
    assert_eq!(word_boundary_left(&c, 3), 0);
    assert_eq!(word_boundary_left(&c, 0), 0);
}

#[test]
fn word_left_skips_leading_whitespace() {
    let c = chars("ls  -la");
    assert_eq!(word_boundary_left(&c, 7), 5);
    assert_eq!(word_boundary_left(&c, 5), 4);
    assert_eq!(word_boundary_left(&c, 4), 0);
}

#[test]
fn word_right_stops_at_punctuation() {
    let c = chars("foo.bar");
    assert_eq!(word_boundary_right(&c, 0), 3);
    assert_eq!(word_boundary_right(&c, 3), 4);
    assert_eq!(word_boundary_right(&c, 4), 7);
    assert_eq!(word_boundary_right(&c, 7), 7);
}

#[test]
fn delete_word_before_consumes_ws_then_run() {
    let c = chars("ls -la ");
    assert_eq!(delete_word_before_start(&c, 7), 3);
    assert_eq!(delete_word_before_start(&c, 3), 0);
}

#[test]
fn delete_word_before_at_start_is_noop() {
    let c = chars("abc");
    assert_eq!(delete_word_before_start(&c, 0), 0);
}

#[test]
fn line_bounds_clamp_a_cursor_past_the_end() {
    let c = chars("ab\ncd");
    assert_eq!(current_line_bounds(&c, 99), (3, 5));
}

#[test]
fn word_motion_treats_underscore_as_word() {
    let c = chars("a_b-c");
    assert_eq!(word_boundary_right(&c, 0), 3);
    assert_eq!(word_boundary_left(&c, 3), 0);
}
