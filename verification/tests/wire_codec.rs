//! Tests of the wire codec: serialization, parsing and their round trip.

use forge::dtos::{
    CompletionRequest, FunctionCall, ImageUrl, Message, MultiContent, Role, ToolCall,
};
use forge::json_decode::message_from_json;
use forge::json_parse::is_valid_json;
use forge::json_response::{response_from_json, tool_from_json};
use forge::json_write::{message_to_json, request_to_json};

fn user_text(s: &str) -> Message {
    Message {
        role: Role::USER,
        content: Some(s.to_string()),
        multi_content: None,
        tool_calls: None,
        tool_call_id: None,
        name: None,
    }
}

#[test]
fn test_message_content_serialization() {
    // Simple text content serialization
    let msg_text = Message {
        role: Role::USER,
        content: Some("Hello, world!".to_string()),
        multi_content: None,
        tool_calls: None,
        tool_call_id: None,
        name: None,
    };
    let json_text = message_to_json(&msg_text);
    println!("Text message: {}", json_text);
    assert!(json_text.contains(r#""content":"Hello, world!""#));

    // Multi-content with text serialization
    let msg_multi_text = Message {
        role: Role::USER,
        content: None,
        multi_content: Some(vec![MultiContent {
            type_: "text".to_string(),
            text: Some("Describe this image".to_string()),
            image_url: None,
        }]),
        tool_calls: None,
        tool_call_id: None,
        name: None,
    };
    let json_multi_text = message_to_json(&msg_multi_text);
    println!("Multi-content text: {}", json_multi_text);
    assert!(json_multi_text.contains(r#""type":"text""#));
    assert!(json_multi_text.contains(r#""text":"Describe this image""#));

    // Multi-content with image serialization
    let msg_multi_image = Message {
        role: Role::USER,
        content: None,
        multi_content: Some(vec![MultiContent {
            type_: "image_url".to_string(),
            text: None,
            image_url: Some(ImageUrl {
                url: "data:image/png;base64,iVBORw0KG...".to_string(),
            }),
        }]),
        tool_calls: None,
        tool_call_id: None,
        name: None,
    };
    let json_multi_image = message_to_json(&msg_multi_image);
    println!("Multi-content image: {}", json_multi_image);
    assert!(json_multi_image.contains(r#""type":"image_url""#));
    assert!(json_multi_image.contains(r#""url":"data:image/png;base64,iVBORw0KG...""#));

    // Deserialize API response with simple text content
    let api_response = r#"{
        "role": "assistant",
        "content": "This is the AI response"
    }"#;
    let msg_response = message_from_json(api_response).unwrap();
    println!("Deserialized response: {:?}", msg_response);
    assert_eq!(
        msg_response.content,
        Some("This is the AI response".to_string())
    );
    assert!(msg_response.multi_content.is_none());
    assert_eq!(msg_response.role, Role::ASSISTANT);

    // Deserialize user message with simple text
    let user_message = r#"{
        "role": "user",
        "content": "What is the weather?"
    }"#;
    let msg_user = message_from_json(user_message).unwrap();
    println!("Deserialized user message: {:?}", msg_user);
    assert_eq!(msg_user.content, Some("What is the weather?".to_string()));
    assert!(msg_user.multi_content.is_none());
}

#[test]
fn string_content_deserializes_with_empty_multipart() {
    let m = message_from_json(r#"{"role":"user","content":"x"}"#).unwrap();
    assert_eq!(m.content, Some("x".to_string()));
    assert!(m.multi_content.is_none());
}

#[test]
fn two_block_multipart_round_trips_exactly() {
    let original = Message {
        role: Role::USER,
        content: None,
        multi_content: Some(vec![
            MultiContent {
                type_: "text".to_string(),
                text: Some("look at this".to_string()),
                image_url: None,
            },
            MultiContent {
                type_: "image_url".to_string(),
                text: None,
                image_url: Some(ImageUrl {
                    url: "data:image/jpg;base64,QUJD".to_string(),
                }),
            },
        ]),
        tool_calls: None,
        tool_call_id: None,
        name: None,
    };
    let wire = message_to_json(&original);
    let back = message_from_json(&wire).unwrap();
    assert_eq!(back.role, Role::USER);
    assert!(back.content.is_none());
    let blocks = back.multi_content.clone().unwrap();
    assert_eq!(blocks.len(), 2);
    assert_eq!(blocks[0].type_, "text");
    assert_eq!(blocks[0].text, Some("look at this".to_string()));
    assert!(blocks[0].image_url.is_none());
    assert_eq!(blocks[1].type_, "image_url");
    assert!(blocks[1].text.is_none());
    assert_eq!(
        blocks[1].image_url.as_ref().unwrap().url,
        "data:image/jpg;base64,QUJD"
    );
    // And the re-serialized form is byte-identical.
    assert_eq!(message_to_json(&back), wire);
}

#[test]
fn assistant_tool_call_message_round_trips() {
    let original = Message {
        role: Role::ASSISTANT,
        content: Some("calling".to_string()),
        multi_content: None,
        tool_calls: Some(vec![ToolCall {
            id: "call_1".to_string(),
            type_: "function".to_string(),
            function: FunctionCall {
                name: "echo".to_string(),
                arguments: r#"{"msg":"hi"}"#.to_string(),
            },
        }]),
        tool_call_id: None,
        name: None,
    };
    let wire = message_to_json(&original);
    let back = message_from_json(&wire).unwrap();
    assert_eq!(back.content, Some("calling".to_string()));
    let calls = back.tool_calls.unwrap();
    assert_eq!(calls.len(), 1);
    assert_eq!(calls[0].id, "call_1");
    assert_eq!(calls[0].function.name, "echo");
    assert_eq!(calls[0].function.arguments, r#"{"msg":"hi"}"#);
}

#[test]
fn escapes_round_trip() {
    let tricky = "a\"b\\c\nd\te\rf\u{1}g";
    let m = user_text(tricky);
    let wire = message_to_json(&m);
    let back = message_from_json(&wire).unwrap();
    assert_eq!(back.content, Some(tricky.to_string()));
}

#[test]
fn unicode_escapes_parse() {
    let m = message_from_json(r#"{"role":"user","content":"Aé"}"#).unwrap();
    assert_eq!(m.content, Some("A\u{e9}".to_string()));
    let p = message_from_json(r#"{"role":"user","content":"😀"}"#).unwrap();
    assert_eq!(p.content, Some("\u{1F600}".to_string()));
}

#[test]
fn content_null_means_absent() {
    let m = message_from_json(r#"{"role":"assistant","content":null,"tool_calls":null}"#).unwrap();
    assert!(m.content.is_none());
    assert!(m.multi_content.is_none());
    assert!(m.tool_calls.is_none());
}

#[test]
fn missing_role_is_rejected() {
    assert!(message_from_json(r#"{"content":"x"}"#).is_none());
    assert!(message_from_json(r#"{"role":"emperor","content":"x"}"#).is_none());
    assert!(message_from_json("{}").is_none());
    assert!(message_from_json("not json").is_none());
}

#[test]
fn request_serializes_exactly() {
    let req = CompletionRequest {
        model: "m".to_string(),
        messages: vec![user_text("hi")],
        tools: None,
        temperature: 700,
        top_p: Some(900),
        stream: Some(false),
    };
    assert_eq!(
        request_to_json(&req),
        r#"{"model":"m","messages":[{"role":"user","content":"hi"}],"temperature":0.7,"top_p":0.9,"stream":false}"#
    );
}

#[test]
fn thousandths_format_as_decimals() {
    let mut req = CompletionRequest {
        model: "m".to_string(),
        messages: vec![],
        tools: None,
        temperature: 50,
        top_p: Some(1000),
        stream: None,
    };
    assert_eq!(
        request_to_json(&req),
        r#"{"model":"m","messages":[],"temperature":0.05,"top_p":1}"#
    );
    req.temperature = 1250;
    req.top_p = None;
    assert_eq!(
        request_to_json(&req),
        r#"{"model":"m","messages":[],"temperature":1.25}"#
    );
}

#[test]
fn response_parses_and_skips_unknown_members() {
    let body = r#"{
        "id": "chat-1",
        "object": "chat.completion",
        "created": 1736000000,
        "model": "m",
        "usage": {"prompt_tokens": 10, "total": 1.5e3, "flags": [true, null, "x"]},
        "choices": [{"index": 0, "message": {"role": "assistant", "content": "hello"}}]
    }"#;
    let resp = response_from_json(body).unwrap();
    assert_eq!(resp.id, "chat-1");
    assert_eq!(resp.created, 1736000000);
    assert_eq!(resp.model, "m");
    assert_eq!(resp.choices.len(), 1);
    assert_eq!(resp.choices[0].index, 0);
    assert_eq!(
        resp.choices[0].message.content,
        Some("hello".to_string())
    );
}

#[test]
fn response_shape_errors_are_detected() {
    assert!(response_from_json("").is_none());
    assert!(response_from_json(r#"{"id":"x","model":"m","choices":[]}"#).is_none());
    assert!(response_from_json(r#"{"id":"x","created":1,"model":"m","choices":[]}"#).is_some());
    assert!(response_from_json(r#"{"id":"x","created":1,"model":"m","choices":[{}]}"#).is_none());
}

#[test]
fn json_validity_check() {
    assert!(is_valid_json(r#"{"a": 1, "b": [true, null, "s", -2.5e-3]}"#));
    assert!(is_valid_json("  42 "));
    assert!(is_valid_json(r#""str""#));
    assert!(!is_valid_json("{"));
    assert!(!is_valid_json("tru"));
    assert!(!is_valid_json("1 2"));
    assert!(!is_valid_json(""));
}

#[test]
fn tool_definition_shape_check_captures_raw_schema() {
    let good = r#"{"type":"function","function":{"name":"ls","description":"lists","parameters":{"type":"object","properties":{}}}}"#;
    let t = tool_from_json(good).unwrap();
    assert_eq!(t.type_, "function");
    assert_eq!(t.function.name, "ls");
    assert_eq!(t.function.description, "lists");
    assert_eq!(t.function.parameters, r#"{"type":"object","properties":{}}"#);

    assert!(tool_from_json(r#"{"type":"function"}"#).is_none());
    assert!(tool_from_json("nonsense").is_none());
}
