use kapollo::hyperlink::osc8;

#[test]
fn wraps_text_in_osc8_open_and_close() {
    let s = osc8("https://example.com", "link");
    assert_eq!(s, "\x1b]8;;https://example.com\x1b\\link\x1b]8;;\x1b\\");
}

#[test]
fn close_sequence_has_empty_url() {
    let s = osc8("https://x", "y");
    assert!(s.ends_with("\x1b]8;;\x1b\\"));
}

#[test]
fn empty_url_and_text_still_balanced() {
    let s = osc8("", "");
    assert_eq!(s, "\x1b]8;;\x1b\\\x1b]8;;\x1b\\");
}
