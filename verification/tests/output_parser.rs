use kapollo::output::parser::{
    csi_boundary, osc_boundary, parse_exit_code, parse_osc7_cwd, percent_decode, Boundary, Performer,
    ProcessorEvent,
};

#[test]
fn exit_codes_parse_like_i32() {
    assert_eq!(parse_exit_code(b"0"), Some(0));
    assert_eq!(parse_exit_code(b" 7 "), Some(7));
    assert_eq!(parse_exit_code(b"+5"), Some(5));
    assert_eq!(parse_exit_code(b"-2147483648"), Some(i32::MIN));
    assert_eq!(parse_exit_code(b"2147483647"), Some(i32::MAX));
    assert_eq!(parse_exit_code(b"2147483648"), None);
    assert_eq!(parse_exit_code(b""), None);
    assert_eq!(parse_exit_code(b"-"), None);
    assert_eq!(parse_exit_code(b"1x"), None);
    assert_eq!(parse_exit_code(&[0xff, b'1']), None);
}

#[test]
fn percent_decoding_passes_bad_escapes_through() {
    assert_eq!(percent_decode("/a%20b"), "/a b");
    assert_eq!(percent_decode("/x%2"), "/x%2");
    assert_eq!(percent_decode("/x%zz"), "/x%zz");
    assert_eq!(percent_decode("%41%42"), "AB");
}

#[test]
fn osc7_payload_yields_the_decoded_path() {
    assert_eq!(parse_osc7_cwd(b"file://host/home/me/my%20dir"), Some("/home/me/my dir".to_string()));
    assert_eq!(parse_osc7_cwd(b"file:///tmp"), Some("/tmp".to_string()));
    assert_eq!(parse_osc7_cwd(b"file://host"), None);
    assert_eq!(parse_osc7_cwd(b"http://host/x"), None);
}

#[test]
fn osc133_marks_become_boundaries() {
    assert_eq!(osc_boundary(&[b"133", b"A"]), Some(Boundary::PromptStart));
    assert_eq!(osc_boundary(&[b"133", b"B"]), Some(Boundary::CommandStart));
    assert_eq!(osc_boundary(&[b"133", b"C"]), Some(Boundary::OutputStart));
    assert_eq!(osc_boundary(&[b"133", b"D", b"0"]), Some(Boundary::CommandEnd { exit_code: Some(0) }));
    assert_eq!(osc_boundary(&[b"133", b"D"]), Some(Boundary::CommandEnd { exit_code: None }));
    assert_eq!(osc_boundary(&[b"133", b"E"]), None);
    assert_eq!(osc_boundary(&[b"2", b"title"]), None);
    assert_eq!(osc_boundary(&[b"7", b"file://h/tmp"]), Some(Boundary::Cwd("/tmp".to_string())));
    assert_eq!(
        osc_boundary(&[b"7", b"file://h/home/me/my%20dir"]),
        Some(Boundary::Cwd("/home/me/my dir".to_string()))
    );
    assert_eq!(osc_boundary(&[b"7", b"file://h"]), None);
    assert_eq!(osc_boundary(&[b"7", b"nope"]), None);
}

#[test]
fn alt_screen_modes_become_boundaries() {
    assert_eq!(csi_boundary(b"?", Some(1049), 'h'), Some(Boundary::AltScreenEnter));
    assert_eq!(csi_boundary(b"?", Some(47), 'l'), Some(Boundary::AltScreenLeave));
    assert_eq!(csi_boundary(b"?", Some(1000), 'h'), None);
    assert_eq!(csi_boundary(b"", Some(1049), 'h'), None);
    assert_eq!(csi_boundary(b"?", Some(1047), 'm'), None);
}

#[test]
fn performer_collects_text_between_marks() {
    let mut p = Performer::new();
    p.osc_dispatch(&[b"133", b"C"], true);
    for c in "hé".chars() {
        p.print(c);
    }
    p.execute(b'\r');
    p.execute(b'\n');
    p.osc_dispatch(&[b"133", b"D", b"7"], false);
    p.print('x');
    let mut out = Vec::new();
    p.finish(&mut out);
    assert_eq!(
        out,
        vec![
            ProcessorEvent::Boundary(Boundary::OutputStart),
            ProcessorEvent::Output("hé\n".as_bytes().to_vec()),
            ProcessorEvent::Boundary(Boundary::CommandEnd { exit_code: Some(7) }),
            ProcessorEvent::Output(b"x".to_vec()),
        ]
    );
}
