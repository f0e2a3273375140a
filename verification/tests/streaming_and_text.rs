//! Tests of streaming-frame decoding, word wrapping and session mapping.

use forge::dtos::{Message, Role};
use forge::session::{map_message_from, map_message_to, MappedMessage};
use forge::stream::{decode_stream_frame, decode_stream_frames, FrameStep};
use forge::wrap::word_wrap;

fn frame(content: Option<&str>, role_only: bool) -> String {
    let delta = match (content, role_only) {
        (Some(c), _) => format!(r#"{{"content":"{}"}}"#, c),
        (None, true) => r#"{"role":"assistant"}"#.to_string(),
        (None, false) => "{}".to_string(),
    };
    format!(
        r#"{{"id":"s1","created":1,"model":"m","choices":[{{"index":0,"delta":{}}}]}}"#,
        delta
    )
}

#[test]
fn sentinel_ends_the_stream_and_is_not_emitted() {
    assert!(matches!(decode_stream_frame("[DONE]"), FrameStep::Finished));
    let frames = vec![
        frame(Some("Hel"), false),
        frame(Some("lo"), false),
        "[DONE]".to_string(),
        frame(Some("ignored"), false),
    ];
    let out = decode_stream_frames(&frames);
    assert_eq!(out.len(), 2);
    assert_eq!(out[0].as_ref().unwrap(), "Hel");
    assert_eq!(out[1].as_ref().unwrap(), "lo");
}

#[test]
fn role_only_and_empty_deltas_yield_nothing() {
    assert!(matches!(
        decode_stream_frame(&frame(None, true)),
        FrameStep::Skip
    ));
    assert!(matches!(
        decode_stream_frame(&frame(None, false)),
        FrameStep::Skip
    ));
    // A frame with no choices at all is also silent.
    let empty = r#"{"id":"s1","created":1,"model":"m","choices":[]}"#;
    assert!(matches!(decode_stream_frame(empty), FrameStep::Skip));
}

#[test]
fn malformed_frame_yields_one_failure_keeping_prior_fragments() {
    let frames = vec![
        frame(Some("keep"), false),
        "garbage".to_string(),
        frame(Some("more"), false),
        "[DONE]".to_string(),
    ];
    let out = decode_stream_frames(&frames);
    assert_eq!(out.len(), 3);
    assert_eq!(out[0].as_ref().unwrap(), "keep");
    assert!(out[1].is_err());
    assert_eq!(out[2].as_ref().unwrap(), "more");
}

#[test]
fn fragments_carry_the_delta_text() {
    match decode_stream_frame(&frame(Some("chunk"), false)) {
        FrameStep::Fragment(t) => assert_eq!(t, "chunk"),
        other => panic!("expected a fragment, got {:?}", other),
    }
}

#[test]
fn word_wrap_packs_greedily() {
    assert_eq!(word_wrap("hello world", 5), "hello\nworld");
    assert_eq!(word_wrap("one two three", 9), "one two\nthree");
    assert_eq!(word_wrap("one two three", 80), "one two three");
}

#[test]
fn word_wrap_hard_breaks_long_words() {
    assert_eq!(word_wrap("abcdefgh", 3), "abc\ndef\ngh");
}

#[test]
fn word_wrap_keeps_blank_lines() {
    assert_eq!(word_wrap("a\n\nb", 10), "a\n\nb");
    assert_eq!(word_wrap("  \n x ", 10), "\nx");
}

#[test]
fn session_mapping_round_trips_plain_turns() {
    let user = Message {
        role: Role::USER,
        content: Some("ask".to_string()),
        multi_content: None,
        tool_calls: None,
        tool_call_id: None,
        name: None,
    };
    let mapped = map_message_to(&user);
    assert!(matches!(&mapped, MappedMessage::User(c) if c == "ask"));
    let back = map_message_from(&mapped);
    assert_eq!(back.role, Role::USER);
    assert_eq!(back.content, Some("ask".to_string()));

    let agent_turn = Message {
        role: Role::ASSISTANT,
        content: Some("answer".to_string()),
        multi_content: None,
        tool_calls: None,
        tool_call_id: None,
        name: None,
    };
    assert!(matches!(
        map_message_to(&agent_turn),
        MappedMessage::Agent(c) if c == "answer"
    ));

    // Unsupported roles fall back to an empty user entry.
    let tool_turn = Message {
        role: Role::TOOL,
        content: Some("out".to_string()),
        multi_content: None,
        tool_calls: None,
        tool_call_id: None,
        name: None,
    };
    assert!(matches!(
        map_message_to(&tool_turn),
        MappedMessage::User(c) if c.is_empty()
    ));
}
