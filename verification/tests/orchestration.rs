//! Tests of the orchestration loop, the capability registry and the agent
//! builder.

use forge::agents::{Agent, AgentBuilder};
use forge::dtos::{FunctionCall, Message, Role, ToolCall};
use forge::errors::AgentError;
use forge::orchestrator::{LoopAction, Termination, ToolLoop, MAX_ITERATIONS};
use forge::tools_registry::ToolRegistry;

fn user_text(s: &str) -> Message {
    Message {
        role: Role::USER,
        content: Some(s.to_string()),
        multi_content: None,
        tool_calls: None,
        tool_call_id: None,
        name: None,
    }
}

fn call(id: &str, name: &str, arguments: &str) -> ToolCall {
    ToolCall {
        id: id.to_string(),
        type_: "function".to_string(),
        function: FunctionCall {
            name: name.to_string(),
            arguments: arguments.to_string(),
        },
    }
}

fn echo_definition() -> String {
    r#"{"type":"function","function":{"name":"echo","description":"repeats","parameters":{"type":"object"}}}"#.to_string()
}

fn agent_with(registry: ToolRegistry) -> Agent {
    AgentBuilder::new()
        .model("test/model".to_string())
        .tool_registry(registry)
        .build()
        .unwrap()
}

#[test]
fn empty_choices_is_a_protocol_error() {
    let resp = forge::dtos::CompletionResponse {
        id: "x".to_string(),
        created: 1,
        model: "m".to_string(),
        choices: vec![],
    };
    let err = forge::agents::extract_prompt_result(&resp).unwrap_err();
    assert!(matches!(err, AgentError::Protocol(_)));
    assert_eq!(err.message(), "No choices in response");
}

#[test]
fn builder_defaults_and_build() {
    let b = AgentBuilder::new();
    assert_eq!(b.url, "http://localhost:1234/v1");
    assert_eq!(b.api_key, "local");
    assert_eq!(b.temperature, 700);
    assert_eq!(b.top_p, 900);
    assert!(b.model.is_none());

    let err = AgentBuilder::new().build().unwrap_err();
    assert!(matches!(err, AgentError::Configuration(_)));
    assert_eq!(err.message(), "Model is required");

    let a = AgentBuilder::new().model("m".to_string()).build().unwrap();
    assert_eq!(a.model, "m");
    let b2 = AgentBuilder::convert_to_builder(&a);
    assert_eq!(b2.model, Some("m".to_string()));
}

#[test]
fn registry_lookup_and_overwrite() {
    let mut reg = ToolRegistry::new();
    reg.register("echo".to_string(), true, echo_definition());
    assert_eq!(reg.check_tool_callback("echo").unwrap(), true);

    // Last registration wins.
    reg.register("echo".to_string(), false, echo_definition());
    assert_eq!(reg.check_tool_callback("echo").unwrap(), false);
    assert_eq!(reg.len(), 1);

    let err = reg.check_tool_callback("missing").unwrap_err();
    assert!(matches!(err, AgentError::Capability(_)));
    assert_eq!(err.message(), "Tool 'missing' not found");
}

#[test]
fn registry_listing_omits_malformed_definitions() {
    let mut reg = ToolRegistry::new();
    reg.register("good".to_string(), true, echo_definition());
    reg.register("bad".to_string(), true, "not a definition".to_string());
    let defs = reg.get_tool_definitions();
    assert_eq!(defs.len(), 1);
    assert_eq!(defs[0].function.name, "echo");
}

#[test]
fn loop_without_registry_is_a_configuration_error() {
    let agent = AgentBuilder::new().model("m".to_string()).build().unwrap();
    let err = ToolLoop::start(agent, vec![user_text("hi")]).unwrap_err();
    assert!(matches!(err, AgentError::Configuration(_)));
    assert_eq!(err.message(), "No tool registry");
}

#[test]
fn first_request_prepends_system_prompt() {
    let mut reg = ToolRegistry::new();
    reg.register("echo".to_string(), true, echo_definition());
    let agent = AgentBuilder::new()
        .model("m".to_string())
        .system_prompt("sys prompt")
        .tool_registry(reg)
        .build()
        .unwrap();
    // History already holding a system entry is not deduplicated.
    let sneaky = Message {
        role: Role::SYSTEM,
        content: Some("old".to_string()),
        multi_content: None,
        tool_calls: None,
        tool_call_id: None,
        name: None,
    };
    let (_lp, req) = ToolLoop::start(agent, vec![sneaky, user_text("hi")]).unwrap();
    assert_eq!(req.messages.len(), 3);
    assert_eq!(req.messages[0].role, Role::SYSTEM);
    assert_eq!(req.messages[0].content, Some("sys prompt".to_string()));
    assert_eq!(req.messages[1].content, Some("old".to_string()));
    assert!(req.tools.is_some());
    assert_eq!(req.stream, Some(false));
}

#[test]
fn no_tool_calls_is_terminal_with_no_further_query() {
    let mut reg = ToolRegistry::new();
    reg.register("echo".to_string(), true, echo_definition());
    let (mut lp, _req) = ToolLoop::start(agent_with(reg), vec![user_text("hi")]).unwrap();
    let action = lp.on_model_response("the answer".to_string(), None).unwrap();
    match action {
        LoopAction::Done(Termination::NoToolCalls {
            text,
            stream_request,
        }) => {
            assert_eq!(text, "the answer");
            assert_eq!(stream_request.stream, Some(true));
            assert_eq!(stream_request.messages.len(), 2);
        }
        other => panic!("expected terminal answer, got {:?}", other),
    }
    assert_eq!(lp.iterations, 1);
}

#[test]
fn non_callback_capability_short_circuits_after_one_execution() {
    let mut reg = ToolRegistry::new();
    reg.register("shout".to_string(), false, echo_definition());
    reg.register("echo".to_string(), true, echo_definition());
    let (mut lp, _req) = ToolLoop::start(agent_with(reg), vec![user_text("hi")]).unwrap();
    // Two calls in the batch; the first capability's policy is off.
    let batch = vec![call("c1", "shout", "{}"), call("c2", "echo", "{}")];
    let action = lp
        .on_model_response("using tools".to_string(), Some(batch))
        .unwrap();
    match action {
        LoopAction::RunTool { name, .. } => assert_eq!(name, "shout"),
        other => panic!("expected a capability run, got {:?}", other),
    }
    let action = lp.on_tool_result("SHOUTED".to_string()).unwrap();
    match action {
        LoopAction::Done(Termination::ShortCircuit { result }) => {
            assert_eq!(result, "SHOUTED")
        }
        other => panic!("expected a short circuit, got {:?}", other),
    }
    // The second call of the batch was never admitted, and no tool-role
    // message was recorded.
    assert!(lp.history.iter().all(|m| m.role != Role::TOOL));
}

#[test]
fn iteration_limit_fails_after_the_cap_without_another_query() {
    let mut reg = ToolRegistry::new();
    reg.register("echo".to_string(), true, echo_definition());
    let (mut lp, _req) = ToolLoop::start(agent_with(reg), vec![user_text("hi")]).unwrap();
    for round in 1..=MAX_ITERATIONS {
        let action = lp
            .on_model_response(
                "more".to_string(),
                Some(vec![call("c", "echo", r#"{"msg":"hi"}"#)]),
            )
            .unwrap();
        assert!(matches!(action, LoopAction::RunTool { .. }));
        let after = lp.on_tool_result("hi".to_string());
        if round < MAX_ITERATIONS {
            match after.unwrap() {
                LoopAction::Query(req) => assert_eq!(req.stream, Some(false)),
                other => panic!("expected another query, got {:?}", other),
            }
        } else {
            let err = after.unwrap_err();
            assert!(matches!(err, AgentError::IterationLimit(_)));
            assert_eq!(err.message(), "Max iterations (15) reached");
        }
    }
    assert_eq!(lp.iterations, MAX_ITERATIONS);
}

#[test]
fn unknown_capability_fails_and_appends_no_tool_result() {
    let mut reg = ToolRegistry::new();
    reg.register("echo".to_string(), true, echo_definition());
    let (mut lp, _req) = ToolLoop::start(agent_with(reg), vec![user_text("hi")]).unwrap();
    let before = lp.history.len();
    let err = lp
        .on_model_response("hmm".to_string(), Some(vec![call("c", "nope", "{}")]))
        .unwrap_err();
    assert!(matches!(err, AgentError::Capability(_)));
    assert_eq!(err.message(), "Tool 'nope' not found");
    // Only the assistant turn was recorded; no tool-result message.
    assert_eq!(lp.history.len(), before + 1);
    assert!(lp.history.iter().all(|m| m.role != Role::TOOL));
}

#[test]
fn malformed_argument_json_is_a_capability_error() {
    let mut reg = ToolRegistry::new();
    reg.register("echo".to_string(), true, echo_definition());
    let (mut lp, _req) = ToolLoop::start(agent_with(reg), vec![user_text("hi")]).unwrap();
    let err = lp
        .on_model_response("hmm".to_string(), Some(vec![call("c", "echo", "{oops")]))
        .unwrap_err();
    assert!(matches!(err, AgentError::Capability(_)));
    assert_eq!(err.message(), "Invalid tool arguments");
}

#[test]
fn empty_batch_falls_back_to_the_assistant_text() {
    let mut reg = ToolRegistry::new();
    reg.register("echo".to_string(), true, echo_definition());
    let (mut lp, _req) = ToolLoop::start(agent_with(reg), vec![user_text("hi")]).unwrap();
    let action = lp
        .on_model_response("fallback".to_string(), Some(vec![]))
        .unwrap();
    match action {
        LoopAction::Done(Termination::BatchDrained { text }) => assert_eq!(text, "fallback"),
        other => panic!("expected the drained-batch fallback, got {:?}", other),
    }
}

#[test]
fn one_callback_iteration_extends_history_and_queries_again() {
    let mut reg = ToolRegistry::new();
    reg.register("echo".to_string(), true, echo_definition());
    let (mut lp, req1) = ToolLoop::start(agent_with(reg), vec![user_text("hi")]).unwrap();
    assert_eq!(req1.messages.len(), 2);
    assert_eq!(req1.messages[0].role, Role::SYSTEM);
    assert_eq!(req1.messages[1].role, Role::USER);

    let action = lp
        .on_model_response(
            "let me check".to_string(),
            Some(vec![call("call_9", "echo", r#"{"msg":"hi"}"#)]),
        )
        .unwrap();
    match action {
        LoopAction::RunTool { name, arguments } => {
            assert_eq!(name, "echo");
            assert_eq!(arguments, r#"{"msg":"hi"}"#);
        }
        other => panic!("expected a capability run, got {:?}", other),
    }

    let action = lp.on_tool_result("hi".to_string()).unwrap();
    let req2 = match action {
        LoopAction::Query(req) => req,
        other => panic!("expected a second model query, got {:?}", other),
    };
    // The request now shows: system, user, the assistant turn with its
    // call, and the tool result tagged with id and capability name.
    assert_eq!(req2.messages.len(), 4);
    assert_eq!(req2.messages[0].role, Role::SYSTEM);
    assert_eq!(req2.messages[1].role, Role::USER);
    assert_eq!(req2.messages[1].content, Some("hi".to_string()));
    assert_eq!(req2.messages[2].role, Role::ASSISTANT);
    assert_eq!(req2.messages[2].content, Some("let me check".to_string()));
    let calls = req2.messages[2].tool_calls.as_ref().unwrap();
    assert_eq!(calls.len(), 1);
    assert_eq!(calls[0].function.name, "echo");
    assert_eq!(req2.messages[3].role, Role::TOOL);
    assert_eq!(req2.messages[3].content, Some("hi".to_string()));
    assert_eq!(req2.messages[3].tool_call_id, Some("call_9".to_string()));
    assert_eq!(req2.messages[3].name, Some("echo".to_string()));
    assert_eq!(lp.iterations, 2);
}
