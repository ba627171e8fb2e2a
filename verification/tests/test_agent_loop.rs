use ragent::agent_loop::{next_stage, AgentStage};
use ragent::runner::{next_record, ActivationRecord, TurnDecision};
use ragent::agent_core::{ModelResponse, ResponseStatus};
use ragent::agent_event::{AgentEvent, TokenUsage};
use ragent::agent_loop::{
    agent_base_draft, agent_request, agent_tool_owner, check_agent_model, check_agent_response,
    check_continue_flag, check_init_control, check_prepared_call, check_response_payload, config_from_draft,
    context_view, continue_decision, finished_event, flow_move, function_calls_of, input_decision, input_payload,
    response_text_of, round_completed_event, skipped_call_output, tool_finished_event, turn_complete_payload,
    turn_completed_event, turn_draft, AgentRun, InputDecision, LoopMove, AGENT_SYSTEM_PROMPT, HOOK_CONTEXT_COMMIT,
};
use ragent::config::AgentConfig;
use ragent::error::AgentError;
use ragent::hooks::{
    FlowControl, ToolCallRequest, ToolDefinition, ToolEntry, ToolOutput, ToolResult, TransformResult,
};
use ragent::item::{assistant_message, user_message, ContentPart, FunctionOutput, Item, MessageRole};
use ragent::json::{JsonNumber, JsonValue};

fn obj(members: Vec<(&str, JsonValue)>) -> JsonValue {
    JsonValue::Object(members.into_iter().map(|(k, v)| (k.to_string(), v)).collect())
}

fn field<'a>(v: &'a JsonValue, key: &str) -> Option<&'a JsonValue> {
    match v {
        JsonValue::Object(m) => m.iter().find(|(k, _)| k == key).map(|(_, v)| v),
        _ => None,
    }
}

fn config() -> AgentConfig {
    AgentConfig::new("http://localhost".to_string(), "key".to_string(), "model-a".to_string())
}

fn tool(name: &str, enabled: bool, owner: Option<&str>) -> ToolEntry {
    ToolEntry {
        id: Some(format!("tool-{name}")),
        owner: owner.map(|o| o.to_string()),
        enabled,
        definition: ToolDefinition {
            name: name.to_string(),
            description: format!("{name} tool"),
            parameters: obj(vec![]),
        },
    }
}

#[test]
fn max_iterations_limit_is_kept_on_the_config() {
    let c = config().with_max_iterations(10);
    assert_eq!(c.max_iterations, 10);
    assert_eq!(config().max_iterations, 0);
}

#[test]
fn agent_needs_a_model_name() {
    assert!(check_agent_model(&config()).is_ok());
    let blank = AgentConfig::new("u".into(), "k".into(), "  ".into());
    match check_agent_model(&blank) {
        Err(AgentError::ToolError(m)) => {
            assert_eq!(m, "model name is not configured. Please specify [model] name in config.toml")
        },
        other => panic!("unexpected {other:?}"),
    }
}

#[test]
fn base_draft_starts_from_the_default_prompt() {
    let c = config().with_max_output_tokens(256);
    let d = agent_base_draft(&c);
    assert_eq!(d.system_prompt, AGENT_SYSTEM_PROMPT);
    assert_eq!(d.system_prompt, "你是一个高效、精准、善于深度思考的 AI 智能体助手");
    assert_eq!(d.model.name, "model-a");
    assert_eq!(d.model.max_output_tokens, Some(256));
    assert!(d.tools.is_empty());
    assert!(d.context.is_none());
    assert_eq!(HOOK_CONTEXT_COMMIT, "context.commit");
}

#[test]
fn prepared_draft_sets_the_model_parameters() {
    let mut d = agent_base_draft(&config());
    d.model.name = "model-b".to_string();
    d.model.max_output_tokens = Some(64);
    let c = config_from_draft(config().with_max_iterations(3), &d);
    assert_eq!(c.model, "model-b");
    assert_eq!(c.max_output_tokens, Some(64));
    assert_eq!(c.max_iterations, 3);
}

#[test]
fn init_must_continue() {
    assert!(check_init_control(FlowControl::Continue).is_ok());
    for control in [FlowControl::Skip, FlowControl::Stop] {
        match check_init_control(control) {
            Err(AgentError::HookRejected { hook, reason }) => {
                assert_eq!(hook, "agent.prepare");
                assert_eq!(reason, "agent initialization was skipped or stopped");
            },
            other => panic!("unexpected {other:?}"),
        }
    }
}

#[test]
fn flow_controls_move_the_loop() {
    assert_eq!(flow_move(FlowControl::Continue), LoopMove::Proceed);
    assert_eq!(flow_move(FlowControl::Skip), LoopMove::NextTurn);
    assert_eq!(flow_move(FlowControl::Stop), LoopMove::Stop);
}

#[test]
fn input_payload_and_decision() {
    let p = input_payload("hi".to_string(), true);
    assert!(matches!(field(&p, "text"), Some(JsonValue::String(t)) if t == "hi"));
    assert!(matches!(field(&p, "delayed"), Some(JsonValue::Bool(true))));

    let commit = input_decision(&TransformResult { payload: p, control: FlowControl::Continue }).unwrap();
    assert!(matches!(commit, InputDecision::Commit(t) if t == "hi"));
    let skip = TransformResult { payload: obj(vec![]), control: FlowControl::Skip };
    assert!(matches!(input_decision(&skip), Ok(InputDecision::Skip)));
    let stop = TransformResult { payload: obj(vec![]), control: FlowControl::Stop };
    assert!(matches!(input_decision(&stop), Ok(InputDecision::Stop)));
    let bad = TransformResult { payload: obj(vec![("text", JsonValue::Bool(true))]), control: FlowControl::Continue };
    match input_decision(&bad) {
        Err(AgentError::ToolError(m)) => assert_eq!(m, "input.prepare must return a string field 'text'"),
        other => panic!("unexpected {other:?}"),
    }
}

#[test]
fn context_view_lists_messages_with_their_text() {
    let items = vec![
        user_message("question".to_string()),
        Item::FunctionCall { id: None, call_id: "c1".into(), name: "shell".into(), arguments: "{}".into(), status: None },
        Item::Message {
            id: None,
            status: None,
            role: MessageRole::Assistant,
            content: vec![
                ContentPart::OutputText { text: "a".into(), annotations: vec![], logprobs: None },
                ContentPart::SummaryText { text: "hidden".into() },
                ContentPart::Refusal { refusal: "b".into() },
            ],
            phase: None,
        },
    ];
    let v = context_view(&items);
    assert!(matches!(field(&v, "items_count"), Some(JsonValue::Number(JsonNumber::PosInt(3)))));
    let recent = match field(&v, "recent_messages") {
        Some(JsonValue::Array(a)) => a,
        other => panic!("unexpected {other:?}"),
    };
    assert_eq!(recent.len(), 2);
    assert!(matches!(field(&recent[0], "role"), Some(JsonValue::String(r)) if r == "user"));
    assert!(matches!(field(&recent[0], "content"), Some(JsonValue::String(c)) if c == "question"));
    assert!(matches!(field(&recent[1], "role"), Some(JsonValue::String(r)) if r == "assistant"));
    assert!(matches!(field(&recent[1], "content"), Some(JsonValue::String(c)) if c == "a\nb"));
}

#[test]
fn run_counts_turns_usage_and_text() {
    let mut run = AgentRun::new();
    assert!(run.may_start_turn(0));
    assert!(run.may_start_turn(1));
    run.start_turn();
    assert_eq!(run.iteration, 1);
    assert!(!run.may_start_turn(1));
    assert!(run.may_start_turn(0));
    assert!(run.reported_total().is_none());

    run.add_usage(&Some(TokenUsage::new(3, 4, 7, 1, 2)));
    run.add_usage(&None);
    run.add_usage(&Some(TokenUsage::new(1, 1, 2, 0, 0)));
    assert_eq!(run.total_usage, TokenUsage::new(4, 5, 9, 1, 2));
    assert_eq!(run.reported_total(), Some(TokenUsage::new(4, 5, 9, 1, 2)));

    run.record_text(&"first".to_string());
    run.record_text(&String::new());
    assert_eq!(run.last_response_text, "first");

    match finished_event(&run) {
        AgentEvent::AgentFinished { total_usage } => assert_eq!(total_usage, Some(TokenUsage::new(4, 5, 9, 1, 2))),
        other => panic!("unexpected {other:?}"),
    }
    match round_completed_event(1, None, &AgentRun::new()) {
        AgentEvent::RoundCompleted { iteration, usage, total_usage } => {
            assert_eq!(iteration, 1);
            assert!(usage.is_none());
            assert!(total_usage.is_none());
        },
        other => panic!("unexpected {other:?}"),
    }
}

#[test]
fn turn_completed_reports_reasoning_only_when_present() {
    match turn_completed_event(2, "t".into(), String::new(), None) {
        AgentEvent::TurnCompleted { iteration, text, reasoning, usage } => {
            assert_eq!(iteration, 2);
            assert_eq!(text, "t");
            assert!(reasoning.is_none());
            assert!(usage.is_none());
        },
        other => panic!("unexpected {other:?}"),
    }
    match turn_completed_event(2, "t".into(), "why".into(), None) {
        AgentEvent::TurnCompleted { reasoning, .. } => assert_eq!(reasoning.as_deref(), Some("why")),
        other => panic!("unexpected {other:?}"),
    }
}

#[test]
fn turn_draft_and_request() {
    let mut base = agent_base_draft(&config());
    base.tools = vec![tool("shell", true, Some("ext")), tool("off", false, Some("ext"))];
    let draft = turn_draft(&base, JsonValue::Array(vec![]), obj(vec![("items_count", JsonValue::Null)]));
    assert_eq!(draft.tools.len(), 2);
    assert_eq!(draft.tools[1].definition.name, "off");
    let ctx = draft.context.as_ref().unwrap();
    assert!(matches!(field(ctx, "items"), Some(JsonValue::Array(a)) if a.is_empty()));
    assert!(field(ctx, "view").is_some());

    let active = vec![tool("shell", true, Some("ext"))];
    let req = agent_request(&draft, vec![user_message("x".into())], &active);
    assert_eq!(req.model, "model-a");
    assert_eq!(req.instructions, AGENT_SYSTEM_PROMPT);
    assert_eq!(req.input.len(), 1);
    assert_eq!(req.tools.as_ref().unwrap()[0].name, "shell");
    assert!(req.tool_choice_auto);
    assert!(!req.stream);

    let bare = agent_request(&draft, vec![], &vec![]);
    assert!(bare.tools.is_none());
    assert!(!bare.tool_choice_auto);
}

#[test]
fn failed_responses_fail_the_run() {
    let ok = ModelResponse { id: "r".into(), status: ResponseStatus::Completed, error_message: None, output: vec![], usage: None };
    assert!(check_agent_response(&ok).is_ok());
    let failed = ModelResponse { id: "r".into(), status: ResponseStatus::Failed, error_message: None, output: vec![], usage: None };
    match check_agent_response(&failed) {
        Err(AgentError::ResponseFailed(m)) => assert_eq!(m, "response status is failed"),
        other => panic!("unexpected {other:?}"),
    }
    let errored = ModelResponse {
        id: "r".into(),
        status: ResponseStatus::Failed,
        error_message: Some("boom".into()),
        output: vec![],
        usage: None,
    };
    match check_agent_response(&errored) {
        Err(AgentError::ResponseFailed(m)) => assert_eq!(m, "boom"),
        other => panic!("unexpected {other:?}"),
    }
}

#[test]
fn response_payload_checks_and_text() {
    let good = obj(vec![("text", JsonValue::String("hello".into())), ("items", JsonValue::Array(vec![]))]);
    assert!(check_response_payload(&good).is_none());
    assert_eq!(response_text_of(&good), "hello");
    let no_text = obj(vec![("items", JsonValue::Array(vec![]))]);
    assert_eq!(check_response_payload(&no_text).as_deref(), Some("text must be a string"));
    assert_eq!(response_text_of(&no_text), "");
    let no_items = obj(vec![("text", JsonValue::String("t".into()))]);
    assert_eq!(check_response_payload(&no_items).as_deref(), Some("missing items"));
}

#[test]
fn function_calls_are_taken_in_order() {
    let items = vec![
        assistant_message("x".into()),
        Item::FunctionCall { id: None, call_id: "c1".into(), name: "a".into(), arguments: "{}".into(), status: None },
        Item::FunctionCall { id: None, call_id: "c2".into(), name: "b".into(), arguments: "{\"k\":1}".into(), status: None },
    ];
    let calls = function_calls_of(&items);
    assert_eq!(calls.len(), 2);
    assert_eq!(calls[0].call_id, "c1");
    assert_eq!(calls[1].name, "b");
    assert_eq!(calls[1].arguments, "{\"k\":1}");
    assert!(function_calls_of(&vec![]).is_empty());
}

#[test]
fn prepared_calls_keep_their_ids_and_take_the_tool_name() {
    let t = tool("shell", true, Some("ext"));
    let initial = ToolCallRequest { call_id: "c1".into(), tool_id: "tool-shell".into(), name: "shell".into(), arguments: obj(vec![]) };
    let renamed = ToolCallRequest { call_id: "c1".into(), tool_id: "tool-shell".into(), name: "other".into(), arguments: JsonValue::Null };
    let call = check_prepared_call(&initial, renamed, &t).unwrap();
    assert_eq!(call.name, "shell");
    assert!(matches!(call.arguments, JsonValue::Null));
    let moved = ToolCallRequest { call_id: "c2".into(), tool_id: "tool-shell".into(), name: "shell".into(), arguments: JsonValue::Null };
    match check_prepared_call(&initial, moved, &t) {
        Err(AgentError::ToolError(m)) => assert_eq!(m, "tool.call.prepare cannot change call_id or tool_id"),
        other => panic!("unexpected {other:?}"),
    }
}

#[test]
fn skipped_calls_owners_and_finished_events() {
    match skipped_call_output("c9".into()) {
        Item::FunctionCallOutput { call_id, output: FunctionOutput::Text(t), id: None, status: None } => {
            assert_eq!(call_id, "c9");
            assert_eq!(t, "tool call skipped by extension");
        },
        other => panic!("unexpected {other:?}"),
    }
    assert_eq!(agent_tool_owner(&tool("a", true, Some("ext"))).unwrap(), "ext");
    match agent_tool_owner(&tool("a", true, None)) {
        Err(AgentError::ToolError(m)) => assert_eq!(m, "tool has no owner"),
        other => panic!("unexpected {other:?}"),
    }
    let result = ToolResult { success: false, output: ToolOutput::Text("bad".into()), error: None };
    match tool_finished_event("c1".into(), "shell".into(), &result, 12) {
        AgentEvent::ToolCallFinished { call_id, tool_name, output, is_error, duration_ms } => {
            assert_eq!(call_id, "c1");
            assert_eq!(tool_name, "shell");
            assert_eq!(output, "bad");
            assert!(is_error);
            assert_eq!(duration_ms, 12);
        },
        other => panic!("unexpected {other:?}"),
    }
}

#[test]
fn turn_complete_payload_and_decision() {
    let p = turn_complete_payload(4, true);
    assert!(matches!(field(&p, "iteration"), Some(JsonValue::Number(JsonNumber::PosInt(4)))));
    assert!(matches!(field(&p, "called_tools"), Some(JsonValue::Bool(true))));
    assert!(matches!(field(&p, "continue_loop"), Some(JsonValue::Bool(true))));
    assert!(check_continue_flag(&p).is_none());
    assert!(continue_decision(&p, false));

    let stop = obj(vec![("continue_loop", JsonValue::Bool(false))]);
    assert!(!continue_decision(&stop, true));
    let missing = obj(vec![]);
    assert_eq!(check_continue_flag(&missing).as_deref(), Some("continue_loop must be boolean"));
    assert!(continue_decision(&missing, true));
    assert!(!continue_decision(&missing, false));
}

#[test]
fn usage_can_be_added_only_within_i32() {
    let a = TokenUsage::new(1, 2, 3, 0, 0);
    assert!(a.can_add(&TokenUsage::new(1, 1, 2, 0, 0)));
    let big = TokenUsage::new(i32::MAX, 0, 0, 0, 0);
    assert!(!big.can_add(&a));
    let low = TokenUsage::new(0, 0, 0, i32::MIN, 0);
    assert!(!low.can_add(&TokenUsage::new(0, 0, 0, -1, 0)));
    assert!(low.can_add(&TokenUsage::new(0, 0, 0, 0, 0)));
}

fn outcome(flow: LoopMove, calls: usize, outputs: bool, go_on: bool) -> ragent::agent_loop::StageOutcome {
    ragent::agent_loop::StageOutcome { flow, calls, outputs, go_on }
}

#[test]
fn run_stages_follow_their_order() {
    let go = outcome(LoopMove::Proceed, 2, false, true);
    assert_eq!(next_stage(AgentStage::Inputs, &go), AgentStage::TurnStart);
    assert_eq!(next_stage(AgentStage::Inputs, &outcome(LoopMove::Proceed, 0, false, false)), AgentStage::Finish);
    assert_eq!(next_stage(AgentStage::TurnStart, &go), AgentStage::ModelRequest);
    assert_eq!(next_stage(AgentStage::ModelRequest, &go), AgentStage::ModelCall);
    assert_eq!(next_stage(AgentStage::ModelCall, &go), AgentStage::CommitResponse);
    assert_eq!(next_stage(AgentStage::CommitResponse, &go), AgentStage::ToolCall(0));
    assert_eq!(next_stage(AgentStage::CommitResponse, &outcome(LoopMove::Proceed, 0, false, true)), AgentStage::RoundEnd);
    assert_eq!(next_stage(AgentStage::ToolCall(0), &go), AgentStage::ToolCall(1));
    assert_eq!(next_stage(AgentStage::ToolCall(1), &outcome(LoopMove::Proceed, 2, true, true)), AgentStage::CommitTools);
    assert_eq!(next_stage(AgentStage::ToolCall(0), &outcome(LoopMove::Stop, 2, false, true)), AgentStage::Finish);
    assert_eq!(next_stage(AgentStage::ToolCall(0), &outcome(LoopMove::Stop, 2, true, true)), AgentStage::CommitTools);
    assert_eq!(next_stage(AgentStage::CommitTools, &outcome(LoopMove::NextTurn, 2, true, true)), AgentStage::Finish);
    assert_eq!(next_stage(AgentStage::CommitTools, &go), AgentStage::RoundEnd);
    assert_eq!(next_stage(AgentStage::RoundEnd, &go), AgentStage::Inputs);
    assert_eq!(next_stage(AgentStage::RoundEnd, &outcome(LoopMove::Proceed, 0, false, false)), AgentStage::Finish);
    assert_eq!(next_stage(AgentStage::ModelRequest, &outcome(LoopMove::NextTurn, 0, false, true)), AgentStage::Inputs);
    assert_eq!(next_stage(AgentStage::Finish, &go), AgentStage::Finish);
}

#[test]
fn activation_records_follow_their_order() {
    assert_eq!(next_record(ActivationRecord::Input, 0, TurnDecision::Complete), ActivationRecord::Start);
    assert_eq!(next_record(ActivationRecord::Start, 0, TurnDecision::Complete), ActivationRecord::TurnStart);
    assert_eq!(next_record(ActivationRecord::TurnStart, 0, TurnDecision::Complete), ActivationRecord::ModelOutput);
    assert_eq!(next_record(ActivationRecord::ModelOutput, 2, TurnDecision::RunTools), ActivationRecord::ToolCallStart(0));
    assert_eq!(next_record(ActivationRecord::ModelOutput, 0, TurnDecision::Complete), ActivationRecord::Complete);
    assert_eq!(next_record(ActivationRecord::ToolCallStart(0), 2, TurnDecision::RunTools), ActivationRecord::ToolOutput(0));
    assert_eq!(next_record(ActivationRecord::ToolOutput(0), 2, TurnDecision::RunTools), ActivationRecord::ToolCallStart(1));
    assert_eq!(next_record(ActivationRecord::ToolOutput(1), 2, TurnDecision::RunTools), ActivationRecord::TurnStart);
    assert_eq!(next_record(ActivationRecord::Complete, 0, TurnDecision::Complete), ActivationRecord::Complete);
}
