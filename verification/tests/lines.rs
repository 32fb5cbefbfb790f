use pinch::lines::{LineSplitter, MAX_LINE_BYTES};

#[test]
fn splits_on_newline_and_trims_cr() {
    let mut sp = LineSplitter::default();
    assert_eq!(sp.push(b"one\r\ntwo\n"), vec!["one", "two"]);
    assert!(sp.finish().is_none());
}

#[test]
fn line_spanning_chunks_is_reassembled() {
    let mut sp = LineSplitter::default();
    assert!(sp.push(b"hel").is_empty());
    assert_eq!(sp.push(b"lo\nwor"), vec!["hello"]);
    assert_eq!(sp.push(b"ld\n"), vec!["world"]);
}

#[test]
fn trailing_line_without_newline_is_flushed_on_finish() {
    let mut sp = LineSplitter::default();
    assert!(sp.push(b"panicked at main.rs:3").is_empty());
    assert_eq!(sp.finish(), Some("panicked at main.rs:3".to_string()));
}

#[test]
fn oversized_line_is_cut_at_utf8_boundary() {
    let mut sp = LineSplitter::default();
    let mut data = vec![b'a'; MAX_LINE_BYTES - 1];
    data.extend_from_slice("é".as_bytes());
    let lines = sp.push(&data);
    assert_eq!(lines.len(), 1);
    assert_eq!(lines[0].len(), MAX_LINE_BYTES - 1);
    assert_eq!(sp.finish(), Some("é".to_string()));
}

#[test]
fn invalid_utf8_is_replaced_not_dropped() {
    let mut sp = LineSplitter::new();
    let lines = sp.push(b"a\xffb\n");
    assert_eq!(lines, vec!["a\u{FFFD}b"]);
}

#[test]
fn chunking_does_not_change_the_lines() {
    let data = b"alpha\nbeta  \r\ngamma\n\ndelta";
    let mut whole = LineSplitter::new();
    let mut all = whole.push(data);
    if let Some(rest) = whole.finish() {
        all.push(rest);
    }
    let mut parts = LineSplitter::new();
    let mut pieces = Vec::new();
    for b in data.iter() {
        pieces.extend(parts.push(&[*b]));
    }
    if let Some(rest) = parts.finish() {
        pieces.push(rest);
    }
    assert_eq!(all, pieces);
    assert_eq!(all, vec!["alpha", "beta", "gamma", "", "delta"]);
}

#[test]
fn oversized_ascii_line_is_cut_at_the_limit() {
    let mut sp = LineSplitter::new();
    let data = vec![b'x'; MAX_LINE_BYTES + 5];
    let lines = sp.push(&data);
    assert_eq!(lines.len(), 1);
    assert_eq!(lines[0].len(), MAX_LINE_BYTES);
    assert_eq!(sp.finish(), Some("xxxxx".to_string()));
}

#[test]
fn empty_finish_after_complete_lines() {
    let mut sp = LineSplitter::new();
    assert_eq!(sp.push(b"x\n"), vec!["x"]);
    assert_eq!(sp.finish(), None);
}
