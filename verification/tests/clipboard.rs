use kapollo::clipboard::{copy, osc52_frame, CopyError, CopyMethod};

#[test]
fn clipboard_frames_with_osc52_prefix_and_st_terminator() {
    let framed = osc52_frame(b"hi");
    assert!(framed.starts_with("\x1b]52;c;"));
    assert!(framed.ends_with("\x1b\\"));
}

#[test]
fn clipboard_encodes_payload_as_base64() {
    assert_eq!(osc52_frame(b"hello"), "\x1b]52;c;aGVsbG8=\x1b\\");
}

#[test]
fn clipboard_empty_payload_yields_empty_base64() {
    assert_eq!(osc52_frame(b""), "\x1b]52;c;\x1b\\");
}

#[test]
fn clipboard_handles_non_ascii_bytes() {
    assert_eq!(osc52_frame("é".as_bytes()), "\x1b]52;c;w6k=\x1b\\");
}

#[test]
fn copy_prefers_osc52_when_enabled() {
    let method = copy("hello", true, true).unwrap();
    assert_eq!(method, CopyMethod::Osc52(osc52_frame(b"hello")));
}

#[test]
fn copy_errors_when_no_method_enabled() {
    assert!(copy("hello", false, false).is_err());
    assert_eq!(copy("hello", false, false), Err(CopyError::NoMethodEnabled));
}

#[test]
fn copy_falls_back_to_local() {
    assert_eq!(copy("hello", false, true), Ok(CopyMethod::Local));
}
