use kapollo::ui::status::{fit, is_visible, truncate_cwd_middle, truncate_end};

#[test]
fn fit_is_exactly_width_columns() {
    for width in 0..60usize {
        let s = fit(width, "norm", "/home/user/projects/kapollo", Some("copied block"), Some(127));
        assert_eq!(s.chars().count(), width);
    }
}

#[test]
fn fit_lays_out_mode_cwd_message_and_exit() {
    let s = fit(40, "norm", "/tmp", Some("hi"), Some(0));
    assert_eq!(s, "norm | /tmp                     | hi | 0");
}

#[test]
fn fit_pads_mode_to_four_columns() {
    let s = fit(12, "1T", "/", None, None);
    assert_eq!(s, "1T   | /    ");
}

#[test]
fn fit_shrinks_message_before_cwd() {
    let s = fit(30, "norm", "/home/u", Some("a very long message indeed"), Some(-1));
    assert_eq!(s.chars().count(), 30);
    assert!(s.starts_with("norm | /home/u "));
    assert!(s.ends_with("| -1"));
    assert!(s.contains('…'));
}

#[test]
fn truncate_end_keeps_short_text() {
    assert_eq!(truncate_end("abc", 3), "abc");
    assert_eq!(truncate_end("abc def", 5), "abc…");
    assert_eq!(truncate_end("abc", 0), "");
}

#[test]
fn truncate_cwd_middle_keeps_the_tail() {
    assert_eq!(truncate_cwd_middle("/a/b/c", 10), "/a/b/c");
    assert_eq!(truncate_cwd_middle("/home/user/projects", 8), "/ho…ects");
    assert_eq!(truncate_cwd_middle("/home/user", 1), "…");
}

#[test]
fn status_bar_hidden_on_short_terminal() {
    assert!(is_visible(true, 10));
    assert!(!is_visible(true, 9));
    assert!(!is_visible(false, 40));
}
