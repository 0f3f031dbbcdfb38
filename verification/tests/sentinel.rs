use kapollo::output::parser::{Boundary, ProcessorEvent};
use kapollo::output::sentinel::SentinelScanner;

#[test]
fn emits_output_then_command_end() {
    let mut scanner = SentinelScanner::new("NONCE");
    let mut out = Vec::new();
    scanner.feed(b"world\nNONCE;0\n", &mut out);
    assert_eq!(
        out,
        vec![
            ProcessorEvent::Output(b"world\n".to_vec()),
            ProcessorEvent::Boundary(Boundary::CommandEnd { exit_code: Some(0) }),
        ]
    );
}

#[test]
fn handles_nonce_split_across_feeds() {
    let mut scanner = SentinelScanner::new("NONCE");
    let mut out = Vec::new();
    scanner.feed(b"out NO", &mut out);
    scanner.feed(b"NCE;3\n", &mut out);
    let merged: Vec<u8> = out
        .iter()
        .flat_map(|e| match e {
            ProcessorEvent::Output(b) => b.clone(),
            ProcessorEvent::Boundary(_) => Vec::new(),
        })
        .collect();
    assert_eq!(merged, b"out ");
    assert!(out.contains(&ProcessorEvent::Boundary(Boundary::CommandEnd { exit_code: Some(3) })));
}

#[test]
fn keeps_a_possible_nonce_prefix_pending() {
    let mut scanner = SentinelScanner::new("NONCE");
    let mut out = Vec::new();
    scanner.feed(b"abcdefgh", &mut out);
    assert_eq!(out, vec![ProcessorEvent::Output(b"abcd".to_vec())]);
    scanner.feed(b"", &mut out);
    assert_eq!(out.len(), 1);
}

#[test]
fn waits_for_the_newline_after_the_exit_code() {
    let mut scanner = SentinelScanner::new("N");
    let mut out = Vec::new();
    scanner.feed(b"xN;12", &mut out);
    assert_eq!(out, vec![ProcessorEvent::Output(b"x".to_vec())]);
    scanner.feed(b"7\nrest", &mut out);
    assert_eq!(
        out,
        vec![
            ProcessorEvent::Output(b"x".to_vec()),
            ProcessorEvent::Boundary(Boundary::CommandEnd { exit_code: Some(127) }),
            ProcessorEvent::Output(b"rest".to_vec()),
        ]
    );
}

#[test]
fn unparsable_exit_code_is_none() {
    let mut scanner = SentinelScanner::new("N");
    let mut out = Vec::new();
    scanner.feed(b"N;abc\nN; -4 \n", &mut out);
    assert_eq!(
        out,
        vec![
            ProcessorEvent::Boundary(Boundary::CommandEnd { exit_code: None }),
            ProcessorEvent::Boundary(Boundary::CommandEnd { exit_code: Some(-4) }),
        ]
    );
}

#[test]
fn sentinel_marker_without_exit_field_ends_the_command() {
    let mut s = SentinelScanner::new("NONCE");
    let mut out = Vec::new();
    s.feed(b"NONCE\n", &mut out);
    assert_eq!(out, vec![ProcessorEvent::Boundary(Boundary::CommandEnd { exit_code: None })]);
    let mut out = Vec::new();
    s.feed(b"NONCE;\nNONCE;7\n", &mut out);
    assert_eq!(
        out,
        vec![
            ProcessorEvent::Boundary(Boundary::CommandEnd { exit_code: None }),
            ProcessorEvent::Boundary(Boundary::CommandEnd { exit_code: Some(7) }),
        ]
    );
}
