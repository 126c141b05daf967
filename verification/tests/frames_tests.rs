use opencode_shell::SseParser;

fn push(p: &mut SseParser, bytes: &[u8]) -> Vec<Vec<u8>> {
    p.push_chunk(&bytes.to_vec())
}

#[test]
fn single_frame_one_chunk() {
    let mut p = SseParser::new();
    let evs = push(&mut p, b"data: {\"a\":1}\n\n");
    assert_eq!(evs, vec![b"{\"a\":1}".to_vec()]);
}

#[test]
fn rechunked_variants() {
    let stream = b"data: {\"a\":1}\n\n";
    for cut in 0..=stream.len() {
        let mut p = SseParser::new();
        let mut evs = push(&mut p, &stream[..cut]);
        evs.extend(push(&mut p, &stream[cut..]));
        assert_eq!(evs, vec![b"{\"a\":1}".to_vec()], "cut at {cut}");
    }
    // byte-by-byte
    let mut p = SseParser::new();
    let mut evs: Vec<Vec<u8>> = Vec::new();
    for b in stream.iter() {
        evs.extend(push(&mut p, &[*b]));
    }
    assert_eq!(evs, vec![b"{\"a\":1}".to_vec()]);
}

#[test]
fn two_data_lines_join_with_newline() {
    let mut p = SseParser::new();
    let evs = push(&mut p, b"data: foo\ndata: bar\n\n");
    assert_eq!(evs, vec![b"foo\nbar".to_vec()]);
}

#[test]
fn event_only_frame_emits_nothing() {
    let mut p = SseParser::new();
    let evs = push(&mut p, b"event: ping\n\n");
    assert!(evs.is_empty());
}

#[test]
fn event_field_is_not_forwarded() {
    let mut p = SseParser::new();
    let evs = push(&mut p, b"event: ping\ndata: x\n\n");
    assert_eq!(evs, vec![b"x".to_vec()]);
}

#[test]
fn partial_frame_waits_for_more() {
    let mut p = SseParser::new();
    assert!(push(&mut p, b"data: fo").is_empty());
    let evs = push(&mut p, b"o\n\n");
    assert_eq!(evs, vec![b"foo".to_vec()]);
}

#[test]
fn carriage_returns_are_stripped() {
    let mut p = SseParser::new();
    let evs = push(&mut p, b"data: a\r\ndata: b\n\n");
    assert_eq!(evs, vec![b"a\nb".to_vec()]);
}

#[test]
fn no_space_after_colon() {
    let mut p = SseParser::new();
    let evs = push(&mut p, b"data:x\n\n");
    assert_eq!(evs, vec![b"x".to_vec()]);
}

#[test]
fn leading_whitespace_is_trimmed() {
    let mut p = SseParser::new();
    let evs = push(&mut p, b"data: \t  x y\n\n");
    assert_eq!(evs, vec![b"x y".to_vec()]);
}

#[test]
fn empty_data_line_emits_empty_payload() {
    let mut p = SseParser::new();
    let evs = push(&mut p, b"data:\n\n");
    assert_eq!(evs, vec![Vec::<u8>::new()]);
}

#[test]
fn empty_frame_emits_nothing() {
    let mut p = SseParser::new();
    assert!(push(&mut p, b"\n\n").is_empty());
}

#[test]
fn two_frames_in_one_chunk() {
    let mut p = SseParser::new();
    let evs = push(&mut p, b"data: a\n\ndata: b\n\n");
    assert_eq!(evs, vec![b"a".to_vec(), b"b".to_vec()]);
}

#[test]
fn reset_drops_the_partial_frame() {
    let mut p = SseParser::new();
    assert!(push(&mut p, b"data: lost").is_empty());
    p.reset();
    let evs = push(&mut p, b"data: kept\n\n");
    assert_eq!(evs, vec![b"kept".to_vec()]);
}

#[test]
fn other_fields_are_ignored() {
    let mut p = SseParser::new();
    let evs = push(&mut p, b"id: 7\nretry: 100\ndata: x\n\n");
    assert_eq!(evs, vec![b"x".to_vec()]);
}
