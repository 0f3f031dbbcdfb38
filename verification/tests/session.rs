use kapollo::config::Caps;
use kapollo::output::parser::{Boundary, ProcessorEvent};
use kapollo::output::OutputProcessor;
use kapollo::pty::BoundaryMode;
use kapollo::session::ringbuf::OutputBuffer;
use kapollo::session::{Block, BlockState, BlockStore, Transcript};

fn caps(blocks: u64, bytes: u64) -> Caps {
    Caps { per_block_bytes: 0, per_block_lines: 0, transcript_bytes: bytes, transcript_blocks: blocks }
}

#[test]
fn buffer_keeps_the_tail_under_the_byte_cap() {
    let mut b = OutputBuffer::new(4, 0);
    b.push(b"ab");
    assert!(!b.truncated());
    b.push(b"cdef");
    assert_eq!(b.to_vec(), b"cdef".to_vec());
    assert!(b.truncated());
    assert_eq!(b.byte_len(), 4);
}

#[test]
fn buffer_drops_whole_leading_lines_under_the_line_cap() {
    let mut b = OutputBuffer::new(0, 2);
    b.push(b"one\ntwo\nthree\nfour");
    assert_eq!(b.to_vec(), b"two\nthree\nfour".to_vec());
    assert!(b.truncated());
}

#[test]
fn buffer_fast_path_for_a_flood() {
    let mut b = OutputBuffer::new(3, 0);
    b.push(b"abc");
    assert!(!b.truncated());
    let mut c = OutputBuffer::new(3, 0);
    c.push(b"x");
    c.push(b"abcdef");
    assert_eq!(c.to_vec(), b"def".to_vec());
    assert!(c.truncated());
}

#[test]
fn block_starts_running_and_closes() {
    let mut b = Block::new(7, "ls".to_string(), 0, 0);
    assert_eq!(b.state, BlockState::Running);
    assert!(b.duration().is_none());
    b.push_output(b"a\n");
    b.close(Some(2));
    assert_eq!(b.state, BlockState::Closed);
    assert_eq!(b.exit_code, Some(2));
    assert_eq!(b.output_lossy(), "a\n");
    assert_eq!(b.text_with_command(), "ls\na\n");
    assert!(b.duration().is_some());
    assert!(!b.truncated());
}

#[test]
fn transcript_evicts_oldest_blocks_past_the_count_cap() {
    let mut t = Transcript::new(caps(2, 1000));
    let a = t.begin_block("a".to_string());
    let b = t.begin_block("b".to_string());
    let c = t.begin_block("c".to_string());
    assert_eq!((a, b, c), (1, 2, 3));
    let ids: Vec<u64> = t.blocks().iter().map(|x| x.id).collect();
    assert_eq!(ids, vec![2, 3]);
    assert!(t.block(a).is_none());
    assert_eq!(t.block(c).unwrap().command, "c");
}

#[test]
fn transcript_evicts_by_bytes_but_keeps_one_block() {
    let mut t = Transcript::new(caps(10, 3));
    let a = t.begin_block("a".to_string());
    t.block_mut(a).unwrap().push_output(b"hello");
    assert_eq!(t.total_bytes(), 5);
    let b = t.begin_block("b".to_string());
    let ids: Vec<u64> = t.blocks().iter().map(|x| x.id).collect();
    assert_eq!(ids, vec![b]);
    assert_eq!(t.total_bytes(), 0);
}

#[test]
fn transcript_scrolling_clamps() {
    let mut t = Transcript::new(Caps::default());
    t.scroll_up(5);
    assert_eq!(t.scroll_offset(), 5);
    t.scroll_down(9);
    assert_eq!(t.scroll_offset(), 0);
    t.record_view(10, 25);
    t.page_up();
    assert_eq!(t.scroll_offset(), 10);
    t.page_up();
    t.page_up();
    assert_eq!(t.scroll_offset(), 25);
    t.page_down();
    assert_eq!(t.scroll_offset(), 15);
    t.scroll_to_bottom();
    assert_eq!(t.scroll_offset(), 0);
    t.scroll_to_top();
    assert_eq!(t.scroll_offset(), 25);
    t.set_scroll_offset(3);
    t.clear();
    assert_eq!(t.scroll_offset(), 0);
    assert!(t.blocks().is_empty());
}

#[test]
fn page_size_is_at_least_one_line() {
    let mut t = Transcript::new(Caps::default());
    t.record_view(0, 100);
    t.page_up();
    assert_eq!(t.scroll_offset(), 1);
}

#[test]
fn close_block_records_exit_code() {
    let mut t = Transcript::new(Caps::default());
    let a = t.begin_block("a".to_string());
    t.close_block(a, Some(1));
    let b = t.block(a).unwrap();
    assert_eq!(b.exit_code, Some(1));
    assert_eq!(b.state, BlockState::Closed);
    t.close_block(99, Some(3));
}

#[test]
fn store_evicts_and_forgets_the_oldest() {
    let mut s = BlockStore::new(&caps(2, 0));
    let a = s.begin("a".to_string(), None);
    let b = s.begin("b".to_string(), None);
    let c = s.begin("c".to_string(), None);
    assert_eq!(s.len(), 2);
    assert!(s.get(a).is_none());
    assert!(s.text(a).is_none());
    assert!(s.get(b).is_some());
    assert_eq!(s.last().unwrap().id, c);
    let ids: Vec<u64> = s.iter().iter().map(|x| x.id).collect();
    assert_eq!(ids, vec![b, c]);
}

#[test]
fn store_text_rows_and_duration() {
    let mut s = BlockStore::new(&Caps::default());
    assert!(s.is_empty());
    let a = s.begin("echo hi".to_string(), None);
    s.push_output(a, b"hi\n");
    s.set_start_row(a, 10);
    assert!(s.duration(a).is_none());
    s.seal(a, Some(0), 12);
    assert_eq!(s.text(a), Some("hi\n".to_string()));
    assert_eq!(s.text_with_command(a), Some("echo hi\nhi\n".to_string()));
    assert_eq!(s.block_at_row(10), Some(a));
    assert_eq!(s.block_at_row(11), Some(a));
    assert_eq!(s.block_at_row(12), None);
    assert_eq!(s.block_at_row(9), None);
    assert!(s.duration(a).is_some());
    let ranges = s.row_ranges();
    assert_eq!(ranges, vec![(a, 10..12)]);
    assert_eq!(s.get(a).unwrap().exit_code, Some(0));
}

#[test]
fn seal_never_ends_before_the_start_row() {
    let mut s = BlockStore::new(&Caps::default());
    let a = s.begin("x".to_string(), None);
    s.set_start_row(a, 20);
    s.seal(a, None, 5);
    assert_eq!(s.row_ranges(), vec![(a, 20..20)]);
}

#[test]
fn processor_captures_between_output_marks() {
    let mut t = Transcript::new(Caps::default());
    let id = t.begin_block("ls".to_string());
    let mut cur = Some(id);
    let mut p = OutputProcessor::for_mode(BoundaryMode::Osc133, "");
    let events = vec![
        ProcessorEvent::Output(b"ls\n".to_vec()),
        ProcessorEvent::Boundary(Boundary::OutputStart),
        ProcessorEvent::Output(b"file\n".to_vec()),
        ProcessorEvent::Boundary(Boundary::CommandEnd { exit_code: Some(0) }),
    ];
    let bounds = p.apply(events, &mut t, &mut cur);
    assert_eq!(bounds, vec![Boundary::OutputStart, Boundary::CommandEnd { exit_code: Some(0) }]);
    assert_eq!(cur, None);
    let b = t.block(id).unwrap();
    assert_eq!(b.output.to_vec(), b"file\n".to_vec());
    assert_eq!(b.state, BlockState::Closed);
    assert_eq!(b.exit_code, Some(0));
}

#[test]
fn processor_suspends_capture_in_the_alt_screen() {
    let mut t = Transcript::new(Caps::default());
    let id = t.begin_block("vim".to_string());
    let mut cur = Some(id);
    let mut p = OutputProcessor::sentinel("N");
    p.apply(vec![ProcessorEvent::Boundary(Boundary::AltScreenEnter)], &mut t, &mut cur);
    assert!(p.in_alt_screen());
    assert_eq!(t.block(id).unwrap().state, BlockState::Interactive);
    p.apply(vec![ProcessorEvent::Output(b"screen".to_vec())], &mut t, &mut cur);
    assert!(t.block(id).unwrap().output.is_empty());
    p.apply(vec![ProcessorEvent::Boundary(Boundary::AltScreenLeave)], &mut t, &mut cur);
    assert_eq!(t.block(id).unwrap().state, BlockState::Running);
    let mut events = Vec::new();
    p.scan_sentinel(b"tail\nN;1\n", &mut events);
    p.apply(events, &mut t, &mut cur);
    let b = t.block(id).unwrap();
    assert_eq!(b.output.to_vec(), b"tail\n".to_vec());
    assert_eq!(b.exit_code, Some(1));
}

#[test]
fn begin_command_resets_capture_by_mode() {
    let mut t = Transcript::new(Caps::default());
    let id = t.begin_block("a".to_string());
    let mut cur = Some(id);
    let mut p = OutputProcessor::osc133();
    p.apply(vec![ProcessorEvent::Boundary(Boundary::OutputStart)], &mut t, &mut cur);
    p.begin_command();
    p.apply(vec![ProcessorEvent::Output(b"x".to_vec())], &mut t, &mut cur);
    assert!(t.block(id).unwrap().output.is_empty());
}

#[test]
fn begin_block_keeps_the_new_block_and_never_reuses_ids() {
    let mut t = Transcript::new(caps(2, 1_000_000));
    let a = t.begin_block("a".to_string());
    let b = t.begin_block("b".to_string());
    let c = t.begin_block("c".to_string());
    assert_eq!((a, b, c), (1, 2, 3));
    let ids: Vec<u64> = t.blocks().iter().map(|x| x.id).collect();
    assert_eq!(ids, vec![2, 3]);
    let last = t.blocks().last().unwrap();
    assert_eq!((last.command.as_str(), last.state), ("c", BlockState::Running));
    t.clear();
    let d = t.begin_block("d".to_string());
    assert_eq!(d, 4);
    assert_eq!(t.blocks().len(), 1);
}

#[test]
fn buffer_history_keeps_a_tail_within_the_caps() {
    let mut b = OutputBuffer::new(6, 2);
    let mut all: Vec<u8> = Vec::new();
    for chunk in [&b"ab\n"[..], b"c", b"\nd\n", b"efg"] {
        b.push(chunk);
        all.extend_from_slice(chunk);
        let kept = b.to_vec();
        assert!(all.ends_with(&kept));
        assert!(kept.len() <= 6);
        assert!(kept.iter().filter(|&&x| x == b'\n').count() <= 2);
        assert_eq!(b.truncated(), kept != all);
    }
    assert_eq!(b.to_vec(), b"\nd\nefg".to_vec());
}

#[test]
fn page_scroll_keeps_context_lines_of_overlap() {
    let mut t = Transcript::new(Caps::default());
    t.record_view(10, 25);
    t.scroll_page_up(3);
    assert_eq!(t.scroll_offset(), 7);
    t.scroll_page_up(3);
    t.scroll_page_up(3);
    assert_eq!(t.scroll_offset(), 21);
    t.scroll_page_up(3);
    assert_eq!(t.scroll_offset(), 25);
    t.scroll_page_down(3);
    assert_eq!(t.scroll_offset(), 18);
    // the overlap never stops the page from moving
    t.scroll_page_down(20);
    assert_eq!(t.scroll_offset(), 17);
}
