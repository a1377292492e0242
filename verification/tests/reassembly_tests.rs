//! Tests of the per-channel line reassembly: chunk-boundary invariance,
//! empty reads, lossy decoding, and the scroll side effect.

use rtthost::channel::ChannelState;

fn fresh() -> ChannelState {
    ChannelState::new(None, false)
}

#[test]
fn chunked_appends_reassemble_lines() {
    let mut ch = fresh();
    ch.append_str("ab");
    assert_eq!(ch.messages, vec!["ab".to_string()]);
    assert!(!ch.last_line_done);
    ch.append_str("c\nde");
    assert_eq!(ch.messages, vec!["abc".to_string(), "de".to_string()]);
    assert!(!ch.last_line_done);
    ch.append_str("f\n");
    assert_eq!(ch.messages, vec!["abc".to_string(), "def".to_string()]);
    assert!(ch.last_line_done);
}

#[test]
fn one_chunk_equals_many_chunks() {
    let mut whole = fresh();
    whole.append_str("one\ntwo\nthree");
    let mut parts = fresh();
    parts.append_str("on");
    parts.append_str("e\ntw");
    parts.append_str("o\n");
    parts.append_str("three");
    assert_eq!(whole.messages, parts.messages);
    assert_eq!(whole.last_line_done, parts.last_line_done);
    assert_eq!(
        whole.messages,
        vec!["one".to_string(), "two".to_string(), "three".to_string()]
    );
}

#[test]
fn empty_chunk_is_a_no_op() {
    let mut ch = fresh();
    ch.append_str("partial");
    ch.scroll_up();
    let before_messages = ch.messages.clone();
    let before_done = ch.last_line_done;
    let before_scroll = ch.scroll_offset;
    ch.append_str("");
    ch.append_bytes(&[]);
    assert_eq!(ch.messages, before_messages);
    assert_eq!(ch.last_line_done, before_done);
    assert_eq!(ch.scroll_offset, before_scroll);
}

#[test]
fn terminator_only_on_fresh_channel() {
    let mut ch = fresh();
    ch.append_str("\n");
    assert_eq!(ch.messages, vec!["".to_string()]);
    assert!(ch.last_line_done);
}

#[test]
fn consecutive_terminators_make_empty_lines() {
    let mut ch = fresh();
    ch.append_str("a\n\n\nb");
    assert_eq!(
        ch.messages,
        vec!["a".to_string(), "".to_string(), "".to_string(), "b".to_string()]
    );
    assert!(!ch.last_line_done);
}

#[test]
fn invalid_bytes_decode_to_replacement_marker() {
    let mut ch = fresh();
    ch.append_bytes(&[0xff, 0xfe, b'\n']);
    assert_eq!(ch.messages.len(), 1);
    assert!(ch.last_line_done);
    assert!(ch.messages[0].contains('\u{FFFD}'));
    assert!(!ch.messages[0].is_empty());
}

#[test]
fn ascii_bytes_decode_to_themselves() {
    let mut ch = fresh();
    ch.append_bytes(b"boot\nready\n");
    assert_eq!(ch.messages, vec!["boot".to_string(), "ready".to_string()]);
    assert!(ch.last_line_done);
}

#[test]
fn scrolled_view_follows_completed_lines() {
    let mut ch = fresh();
    ch.append_str("a\nb\nc\n");
    ch.scroll_up();
    ch.scroll_up();
    assert_eq!(ch.scroll_offset, 2);
    // Two completed lines and one provisional line arrive: the offset moves
    // by the completed lines only.
    ch.append_str("d\ne\nf");
    assert_eq!(ch.scroll_offset, 4);
    // Closing the provisional line later also counts as one completed line.
    ch.append_str("\n");
    assert_eq!(ch.scroll_offset, 5);
}

#[test]
fn pinned_view_stays_pinned() {
    let mut ch = fresh();
    ch.append_str("a\nb\nc\n");
    assert_eq!(ch.scroll_offset, 0);
    ch.append_str("d\ne\n");
    assert_eq!(ch.scroll_offset, 0);
}

#[test]
fn scroll_down_at_bottom_is_a_no_op() {
    let mut ch = fresh();
    ch.append_str("a\nb\n");
    ch.scroll_down();
    assert_eq!(ch.scroll_offset, 0);
    ch.scroll_up();
    assert_eq!(ch.scroll_offset, 1);
    ch.scroll_down();
    assert_eq!(ch.scroll_offset, 0);
}
