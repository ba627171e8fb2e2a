use ragent::agent_core::{AgentCore, ModelResponse, ResponseStatus};
use ragent::context::{extract_item_text, strip_reasoning_summary, ContextProjection, ContextSummaryMode};
use ragent::error::AgentError;
use ragent::event::{InputTokensDetails, OutputTokensDetails, SessionEvent, Usage};
use ragent::hooks::{ToolDefinition, ToolEntry, ToolOutput, ToolResult};
use ragent::ids::{SessionId, TurnId};
use ragent::item::{assistant_message, user_message, ContentPart, FunctionOutput, Item};
use ragent::json::{JsonNumber, JsonValue};
use ragent::request::FunctionTool;
use ragent::runner::{
    active_tools, add_usage, arguments_or_empty, check_session_open, find_tool, initial_draft, model_name_of,
    prepared_text, request_tools, result_from_action, terminal_event, tool_call_request, tool_output_item,
    tool_owner, ActivationLoop, TurnDecision,
};
use ragent::session::{SessionPhase, SessionStatus};

fn usage(i: i32, o: i32) -> Usage {
    Usage {
        input_tokens: i,
        output_tokens: o,
        total_tokens: i + o,
        input_tokens_details: InputTokensDetails { cached_tokens: 1 },
        output_tokens_details: OutputTokensDetails { reasoning_tokens: 2 },
    }
}

fn reasoning(summary: Vec<ContentPart>, content: Option<Vec<ContentPart>>) -> Item {
    Item::Reasoning { id: Some("rs_1".into()), status: None, content, summary, encrypted_content: Some("enc".into()) }
}

fn response(output: Vec<Item>) -> ModelResponse {
    ModelResponse { id: "resp_1".into(), status: ResponseStatus::Completed, error_message: None, output, usage: Some(usage(3, 4)) }
}

#[test]
fn test_p2_agent_core_step_pure() {
    let output = vec![
        reasoning(vec![ContentPart::SummaryText { text: "think".into() }], None),
        assistant_message("Hello".to_string()),
        Item::Message {
            id: None,
            status: None,
            role: ragent::item::MessageRole::Assistant,
            content: vec![ContentPart::Refusal { refusal: " no".into() }, ContentPart::InputText { text: "skip".into() }],
            phase: None,
        },
        Item::FunctionCall { id: None, call_id: "call_1".into(), name: "shell".into(), arguments: "{}".into(), status: None },
    ];
    let step = AgentCore::interpret_response(response(output)).unwrap();
    assert_eq!(step.text, "Hello no");
    assert_eq!(step.reasoning_text, "think");
    assert_eq!(step.function_calls.len(), 1);
    assert_eq!(step.function_calls[0].call_id, "call_1");
    assert_eq!(step.function_calls[0].name, "shell");
    assert_eq!(step.response_id.as_deref(), Some("resp_1"));
    assert_eq!(step.usage, Some(usage(3, 4)));
    assert_eq!(step.output_items.len(), 4);
}

#[test]
fn step_reasoning_falls_back_to_content_only_while_empty() {
    let out = vec![
        reasoning(vec![], Some(vec![ContentPart::ReasoningText { text: "hidden".into() }, ContentPart::PlainText { text: "raw".into() }])),
        reasoning(vec![], Some(vec![ContentPart::PlainText { text: "second".into() }])),
    ];
    let step = AgentCore::interpret_response(response(out)).unwrap();
    assert_eq!(step.reasoning_text, "raw");
    assert_eq!(step.text, "");
}

#[test]
fn failed_responses_are_errors() {
    let mut r = response(vec![]);
    r.error_message = Some("rate limited".into());
    assert!(matches!(AgentCore::interpret_response(r), Err(AgentError::ResponseFailed(m)) if m == "rate limited"));
    let mut r = response(vec![]);
    r.status = ResponseStatus::Failed;
    assert!(matches!(AgentCore::interpret_response(r), Err(AgentError::ResponseFailed(m)) if m == "Response status is failed"));
    let mut r = response(vec![]);
    r.status = ResponseStatus::Incomplete;
    assert!(AgentCore::interpret_response(r).is_ok());
}

#[test]
fn context_summary_filtering_behavior() {
    let items = vec![
        user_message("q".to_string()),
        reasoning(vec![ContentPart::SummaryText { text: "sum".into() }], Some(vec![ContentPart::ReasoningText { text: "c".into() }])),
    ];
    let projection = ContextProjection::new(items);
    let on = projection.to_input_items(ContextSummaryMode::On);
    assert_eq!(extract_item_text(&on[1]), "sum");
    let off = projection.to_input_items(ContextSummaryMode::Off);
    match &off[1] {
        Item::Reasoning { summary, content, encrypted_content, id, .. } => {
            assert!(summary.is_empty());
            assert!(content.is_none());
            assert_eq!(encrypted_content.as_deref(), Some("enc"));
            assert_eq!(id.as_deref(), Some("rs_1"));
        },
        _ => panic!("expected reasoning"),
    }
    assert_eq!(extract_item_text(&off[0]), "q");
    let stripped = strip_reasoning_summary(strip_reasoning_summary(reasoning(vec![ContentPart::SummaryText { text: "s".into() }], None)));
    assert_eq!(extract_item_text(&stripped), "");

    let tools = vec![FunctionTool { name: "t".into(), description: Some("d".into()), parameters: None }];
    let req = AgentCore::build_request("sys", &projection, "m", Some(0.5f64.to_bits()), Some(100), None, tools, ContextSummaryMode::Off);
    assert!(!req.stream);
    assert!(req.tool_choice_auto);
    assert_eq!(req.tools.as_ref().map(|t| t.len()), Some(1));
    assert_eq!(req.model, "m");
    assert_eq!(req.instructions, "sys");
    assert_eq!(req.input.len(), 2);
    let bare = AgentCore::build_request("sys", &projection, "m", None, None, None, vec![], ContextSummaryMode::On);
    assert!(bare.tools.is_none());
    assert!(!bare.tool_choice_auto);
}

fn entry(name: &str, enabled: bool, owner: Option<&str>) -> ToolEntry {
    ToolEntry {
        id: Some(format!("tool-{name}")),
        owner: owner.map(|o| o.to_string()),
        enabled,
        definition: ToolDefinition { name: name.into(), description: "desc".into(), parameters: JsonValue::Null },
    }
}

#[test]
fn test_activation_terminal_event_guarantee_on_error() {
    assert!(matches!(terminal_event(&AgentError::Cancelled), SessionEvent::ActivationCancelled));
    match terminal_event(&AgentError::ToolError("x".into())) {
        SessionEvent::ActivationFailed { error } => assert_eq!(error, "Tool error: x"),
        _ => panic!("expected failure"),
    }
    match terminal_event(&AgentError::ConfigError("ConfigRevision must specify a non-empty model".into())) {
        SessionEvent::ActivationFailed { error } => assert!(error.contains("non-empty model")),
        _ => panic!("expected failure"),
    }
}

#[test]
fn activation_loop_accumulates_usage_and_text() {
    let mut l = ActivationLoop::new();
    l.begin_turn(TurnId::new("turn_1".into()));
    let first = AgentCore::interpret_response(ModelResponse {
        id: "r1".into(),
        status: ResponseStatus::Completed,
        error_message: None,
        output: vec![
            assistant_message("partial".into()),
            Item::FunctionCall { id: None, call_id: "c".into(), name: "t".into(), arguments: "{}".into(), status: None },
        ],
        usage: Some(usage(1, 2)),
    }).unwrap();
    assert_eq!(l.on_step(&first), TurnDecision::RunTools);
    l.begin_turn(TurnId::new("turn_2".into()));
    let second = AgentCore::interpret_response(ModelResponse {
        id: "r2".into(),
        status: ResponseStatus::Completed,
        error_message: None,
        output: vec![],
        usage: Some(usage(10, 20)),
    }).unwrap();
    assert_eq!(l.on_step(&second), TurnDecision::Complete);
    assert_eq!(l.iteration, 2);
    assert_eq!(l.final_text, "partial");
    let total = l.usage.unwrap();
    assert_eq!(total.input_tokens, 11);
    assert_eq!(total.output_tokens, 22);
    assert_eq!(total.total_tokens, 33);
    assert_eq!(total.input_tokens_details.cached_tokens, 2);
    assert_eq!(total.output_tokens_details.reasoning_tokens, 4);
    assert_eq!(add_usage(&usage(1, 1), &usage(2, 2)).total_tokens, 6);
}

#[test]
fn runner_helpers() {
    let tools = vec![entry("a", false, Some("x")), entry("b", true, Some("x")), entry("c", true, None)];
    let active = active_tools(&tools);
    assert_eq!(active.len(), 2);
    assert_eq!(active[0].definition.name, "b");
    let offered = request_tools(&active);
    assert_eq!(offered[1].name, "c");
    assert_eq!(offered[1].description.as_deref(), Some("desc"));
    assert_eq!(find_tool(&active, &"c".to_string()).unwrap(), 1);
    assert!(matches!(find_tool(&active, &"zz".to_string()), Err(AgentError::ToolNotFound(n)) if n == "zz"));
    assert_eq!(tool_owner(&active[0]).unwrap(), "x");
    assert!(matches!(tool_owner(&active[1]), Err(AgentError::ToolError(m)) if m == "Tool has no owner"));
    let call = ragent::agent_core::AgentFunctionCall { call_id: "c1".into(), name: "b".into(), arguments: "not json".into() };
    let args = arguments_or_empty(None);
    assert!(matches!(&args, JsonValue::Object(m) if m.is_empty()));
    let req = tool_call_request(&call, &active[0], args);
    assert_eq!(req.tool_id, "tool-b");
    assert_eq!(req.call_id, "c1");
    let failed = result_from_action(Err(AgentError::HookRejected { hook: "tools.call".into(), reason: "denied".into() }));
    assert!(!failed.success);
    assert_eq!(failed.error.as_deref(), Some("Hook 'tools.call' rejected the operation: denied"));
    let unreadable = result_from_action(Ok(Err("missing field".into())));
    assert_eq!(unreadable.error.as_deref(), Some("missing field"));
    let item = tool_output_item(&"c1".to_string(), &ToolResult::ok(ToolOutput::Text("out".into())));
    assert!(matches!(item, Item::FunctionCallOutput { output: FunctionOutput::Text(t), .. } if t == "out"));
    let text = prepared_text(&JsonValue::Object(vec![("text".into(), JsonValue::String("new".into()))]), "old");
    assert_eq!(text, "new");
    assert_eq!(prepared_text(&JsonValue::Number(JsonNumber::PosInt(1)), "old"), "old");
    assert_eq!(model_name_of(&Some("gpt".into())).unwrap(), "gpt");
    assert!(matches!(model_name_of(&Some("  ".into())), Err(AgentError::ConfigError(_))));
    let d = initial_draft("p".into(), "m".into(), None, Some(5), None);
    assert!(d.tools.is_empty() && d.context.is_none());
    let mut st = SessionStatus::initial();
    assert!(check_session_open(&SessionId::new("s1".into()), &st).is_ok());
    st.phase = SessionPhase::Closed;
    match check_session_open(&SessionId::new("s1".into()), &st) {
        Err(AgentError::ToolError(m)) => assert_eq!(m, "Session s1 is not open (phase: Closed)"),
        _ => panic!("expected error"),
    }
}

#[test]
fn agent_error_messages() {
    assert_eq!(AgentError::MaxIterationsReached(12).message(), "Maximum iterations reached (12)");
    assert_eq!(AgentError::Cancelled.message(), "Operation cancelled");
    assert_eq!(
        AgentError::UnsupportedSessionVersion { found: Some(3), expected: 2 }.message(),
        "Unsupported session version: found 3, expected 2"
    );
    assert_eq!(AgentError::InvalidSessionId("x".into()).message(), "Invalid session id: x");
}

#[test]
fn rejects_invalid_model_parameters() {
    assert!(ragent::agent_core::check_model_request(Some("test"), Some(3.0f64.to_bits()), None, None, None).is_err());
    assert!(ragent::agent_core::check_model_request(Some("test"), Some(1.0f64.to_bits()), Some(10), Some(false), None).is_ok());
    assert_eq!(
        ragent::agent_core::check_model_request(None, None, None, None, None).unwrap_err(),
        "model must not be empty"
    );
    assert_eq!(
        ragent::agent_core::check_model_request(Some("test"), None, Some(0), None, None).unwrap_err(),
        "max_output_tokens must be positive"
    );
}

#[test]
fn rejects_streaming_and_background_model_requests() {
    assert!(ragent::agent_core::check_model_request(Some("test"), None, None, Some(true), None).is_err());
    assert!(ragent::agent_core::check_model_request(Some("test"), None, None, None, Some(true)).is_err());
}

#[test]
fn context_commit_rejects_unknown_tool_output() {
    let output = Item::FunctionCallOutput { id: None, call_id: "missing".into(), output: FunctionOutput::Text("result".into()), status: None };
    assert_eq!(
        ragent::context::check_context_commit(&vec![output]).unwrap_err(),
        "function output references unknown call_id 'missing'"
    );
}

#[test]
fn context_commit_accepts_matching_tool_output() {
    let call = Item::FunctionCall { id: None, call_id: "call-1".into(), name: "shell".into(), arguments: "{}".into(), status: None };
    let output = Item::FunctionCallOutput { id: None, call_id: "call-1".into(), output: FunctionOutput::Text("result".into()), status: None };
    assert!(ragent::context::check_context_commit(&vec![call, output]).is_ok());
    let dup = vec![
        Item::FunctionCall { id: None, call_id: "c".into(), name: "a".into(), arguments: "{}".into(), status: None },
        Item::FunctionCall { id: None, call_id: "c".into(), name: "b".into(), arguments: "{}".into(), status: None },
    ];
    assert_eq!(ragent::context::check_context_commit(&dup).unwrap_err(), "duplicate function call_id");
    let sys = vec![Item::Message { id: None, status: None, role: ragent::item::MessageRole::System, content: vec![], phase: None }];
    assert_eq!(ragent::context::check_context_commit(&sys).unwrap_err(), "system messages must stay outside context items");
}
