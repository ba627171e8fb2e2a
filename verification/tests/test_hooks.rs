use ragent::error::AgentError;
use ragent::hook_manager::{
    action_outcome, check_core_payload, draft_step, extension_error, find_action_owner, observe_outcome,
    subscribers, transform_step, validate_agent_draft, validate_subscriptions, DraftAnswer, PayloadRule,
    SubscriberRef,
};
use ragent::hooks::{
    AgentDraft, ExtensionMetadata, FlowControl, HookAction, HookFailurePolicy, HookKind, HookRequest,
    HookResult, HookSubscription, ModelDraft, ToolDefinition, ToolEntry, ToolOutput, ToolResult,
    HOOK_AGENT_PREPARE, HOOK_TOOLS_CALL,
};
use ragent::item::{ContentPart, FunctionOutput, ImageDetail};
use ragent::json::{JsonNumber, JsonValue};

fn sub(hook: &str, kind: HookKind, priority: i32, failure: HookFailurePolicy) -> HookSubscription {
    HookSubscription { hook: hook.to_string(), kind, priority, failure }
}

fn ext(id: &str, subs: Vec<HookSubscription>) -> ExtensionMetadata {
    ExtensionMetadata { id: id.to_string(), version: "0.1.0".to_string(), subscriptions: subs }
}

fn obj(members: Vec<(&str, JsonValue)>) -> JsonValue {
    JsonValue::Object(members.into_iter().map(|(k, v)| (k.to_string(), v)).collect())
}

fn text_payload(t: &str) -> JsonValue {
    obj(vec![("text", JsonValue::String(t.to_string()))])
}

#[test]
fn subscribers_run_by_priority_then_load_order() {
    let plugins = vec![
        ext("a", vec![
            sub("x", HookKind::Transform, 10, HookFailurePolicy::Abort),
            sub("x", HookKind::Action, 0, HookFailurePolicy::Abort),
            sub("x", HookKind::Transform, -5, HookFailurePolicy::Ignore),
        ]),
        ext("b", vec![sub("x", HookKind::Transform, 10, HookFailurePolicy::Abort)]),
        ext("c", vec![sub("y", HookKind::Transform, 1, HookFailurePolicy::Abort)]),
    ];
    let subs = subscribers(&plugins, "x", HookKind::Transform);
    let order: Vec<(usize, usize, i32)> = subs.iter().map(|s| (s.plugin, s.sub, s.priority)).collect();
    assert_eq!(order, vec![(0, 2, -5), (0, 0, 10), (1, 0, 10)]);
    assert_eq!(subs[0].failure, HookFailurePolicy::Ignore);
    assert!(subscribers(&plugins, "z", HookKind::Transform).is_empty());
    let actions = subscribers(&plugins, "x", HookKind::Action);
    assert_eq!(actions, vec![SubscriberRef { plugin: 0, sub: 1, priority: 0, failure: HookFailurePolicy::Abort }]);
}

#[test]
fn subscriptions_are_validated() {
    let ok = vec![ext("a", vec![sub("x", HookKind::Transform, 0, HookFailurePolicy::Abort), sub("x", HookKind::Action, 0, HookFailurePolicy::Abort)])];
    assert!(validate_subscriptions(&ok).is_ok());
    let blank = vec![ext("  ", vec![])];
    match validate_subscriptions(&blank) {
        Err(AgentError::ToolError(m)) => assert_eq!(m, "extension id must not be empty"),
        _ => panic!("expected error"),
    }
    let dup = vec![ext("a", vec![sub("x", HookKind::Transform, 0, HookFailurePolicy::Abort), sub("x", HookKind::Transform, 5, HookFailurePolicy::Ignore)])];
    match validate_subscriptions(&dup) {
        Err(AgentError::ToolError(m)) => assert_eq!(m, "extension 'a' declares hook 'x' more than once"),
        _ => panic!("expected error"),
    }
}

#[test]
fn transform_chain_steps() {
    let hook = "input.prepare";
    let keep = transform_step(hook, "e", HookFailurePolicy::Abort, PayloadRule::Any, text_payload("a"),
        Ok(HookResult { action: HookAction::Unchanged, payload: None, reason: None })).unwrap();
    assert!(matches!(keep, (JsonValue::Object(_), None)));
    let replaced = transform_step(hook, "e", HookFailurePolicy::Abort, PayloadRule::NonEmptyText, text_payload("a"),
        Ok(HookResult { action: HookAction::Continue, payload: Some(text_payload("b")), reason: None })).unwrap();
    match replaced.0 {
        JsonValue::Object(m) => assert!(matches!(&m[0].1, JsonValue::String(s) if s == "b")),
        _ => panic!("expected object"),
    }
    let err = transform_step(hook, "e", HookFailurePolicy::Abort, PayloadRule::NonEmptyText, text_payload("a"),
        Ok(HookResult { action: HookAction::Continue, payload: Some(text_payload("")), reason: None })).unwrap_err();
    match err {
        AgentError::ToolError(m) => assert_eq!(m, "extension 'e' failed at 'input.prepare': text must be a non-empty string"),
        _ => panic!("expected tool error"),
    }
    let ignored = transform_step(hook, "e", HookFailurePolicy::Ignore, PayloadRule::NonEmptyText, text_payload("a"),
        Ok(HookResult { action: HookAction::Continue, payload: Some(text_payload("")), reason: None })).unwrap();
    assert!(ignored.1.is_none());
    let missing = transform_step(hook, "e", HookFailurePolicy::Ignore, PayloadRule::Any, text_payload("a"),
        Ok(HookResult { action: HookAction::Continue, payload: None, reason: None })).unwrap_err();
    assert!(matches!(missing, AgentError::ToolError(m) if m.ends_with("continue requires payload")));
    let rejected = transform_step(hook, "e", HookFailurePolicy::Ignore, PayloadRule::Any, text_payload("a"),
        Ok(HookResult { action: HookAction::Reject, payload: None, reason: None })).unwrap_err();
    assert!(matches!(rejected, AgentError::HookRejected { hook: h, reason: r } if h == hook && r == "e"));
    let stop = transform_step(hook, "e", HookFailurePolicy::Abort, PayloadRule::Any, JsonValue::Null,
        Ok(HookResult { action: HookAction::Stop, payload: None, reason: None })).unwrap();
    assert_eq!(stop.1, Some(FlowControl::Stop));
    let failed = transform_step(hook, "e", HookFailurePolicy::Abort, PayloadRule::Any, JsonValue::Null, Err("trap".into())).unwrap_err();
    assert!(matches!(failed, AgentError::ToolError(m) if m == "extension 'e' failed at 'input.prepare': trap"));
    let skipped = transform_step(hook, "e", HookFailurePolicy::Ignore, PayloadRule::Any, JsonValue::Null, Err("trap".into())).unwrap();
    assert!(skipped.1.is_none());
    assert!(check_core_payload(hook, PayloadRule::NonEmptyText, &text_payload("x")).is_ok());
    match check_core_payload(hook, PayloadRule::NonEmptyText, &JsonValue::Null) {
        Err(AgentError::ToolError(m)) => assert_eq!(m, "core produced invalid payload for 'input.prepare': text must be a non-empty string"),
        _ => panic!("expected error"),
    }
}

#[test]
fn action_and_observer_answers() {
    let v = action_outcome("tools.call", "own", "own", Ok(HookResult { action: HookAction::Continue, payload: Some(JsonValue::Bool(true)), reason: None })).unwrap();
    assert!(matches!(v, JsonValue::Bool(true)));
    let e = action_outcome("tools.call", "own", "own", Ok(HookResult { action: HookAction::Skip, payload: None, reason: None })).unwrap_err();
    assert!(matches!(e, AgentError::ToolError(m) if m == "extension 'own' failed at 'tools.call': action cannot return skip"));
    let r = action_outcome("tools.call", "own", "own", Ok(HookResult { action: HookAction::Reject, payload: None, reason: Some("no".into()) })).unwrap_err();
    assert!(matches!(r, AgentError::HookRejected { reason, .. } if reason == "no"));
    assert!(observe_outcome("h", "e", HookFailurePolicy::Ignore, Err("x".into())).is_ok());
    assert!(observe_outcome("h", "e", HookFailurePolicy::Abort, Err("x".into())).is_err());
    let plugins = vec![ext("a", vec![]), ext("b", vec![])];
    let subs = vec![
        SubscriberRef { plugin: 0, sub: 0, priority: 0, failure: HookFailurePolicy::Abort },
        SubscriberRef { plugin: 1, sub: 0, priority: 1, failure: HookFailurePolicy::Abort },
    ];
    assert_eq!(find_action_owner(&plugins, &subs, "b", "tools.call").unwrap().plugin, 1);
    match find_action_owner(&plugins, &subs, "c", "tools.call") {
        Err(AgentError::ToolError(m)) => assert_eq!(m, "extension 'c' does not own action 'tools.call'"),
        _ => panic!("expected error"),
    }
    assert!(matches!(extension_error("x", "h", "boom"), AgentError::ToolError(m) if m == "extension 'x' failed at 'h': boom"));
}

fn tool(id: Option<&str>, owner: Option<&str>, name: &str) -> ToolEntry {
    ToolEntry {
        id: id.map(|s| s.to_string()),
        owner: owner.map(|s| s.to_string()),
        enabled: true,
        definition: ToolDefinition {
            name: name.to_string(),
            description: "d".to_string(),
            parameters: obj(vec![("type", JsonValue::String("object".into()))]),
        },
    }
}

fn draft(tools: Vec<ToolEntry>) -> AgentDraft {
    AgentDraft { system_prompt: "sys".into(), model: ModelDraft::new("m".into()), tools, context: None }
}

#[test]
fn agent_drafts_are_validated_and_tools_owned() {
    let plugins = vec![ext("fe", vec![sub(HOOK_TOOLS_CALL, HookKind::Action, 0, HookFailurePolicy::Abort)]), ext("other", vec![])];
    let before = draft(vec![tool(Some("tool-1"), Some("fe"), "write_file")]);
    let after = draft(vec![tool(Some("tool-1"), None, "write_file"), tool(None, None, "replace_in_file")]);
    let (r, next) = validate_agent_draft(&before, after, "fe", &plugins, 2);
    let d = r.unwrap();
    assert_eq!(next, 3);
    assert_eq!(d.tools[0].id.as_deref(), Some("tool-1"));
    assert_eq!(d.tools[0].owner.as_deref(), Some("fe"));
    assert_eq!(d.tools[1].id.as_deref(), Some("tool-2"));
    assert_eq!(d.tools[1].owner.as_deref(), Some("fe"));

    let (r, next) = validate_agent_draft(&before, draft(vec![tool(None, None, "x")]), "other", &plugins, 5);
    assert_eq!(r.unwrap_err(), "extension 'other' added a tool without owning tools.call");
    assert_eq!(next, 5);
    let (r, _) = validate_agent_draft(&before, draft(vec![tool(Some("tool-9"), None, "x")]), "fe", &plugins, 1);
    assert_eq!(r.unwrap_err(), "extension supplied unknown tool id 'tool-9'");
    let (r, next) = validate_agent_draft(&before, draft(vec![tool(None, None, "x"), tool(None, None, "x")]), "fe", &plugins, 1);
    assert_eq!(r.unwrap_err(), "duplicate tool name");
    assert_eq!(next, 3);
    let mut bad = draft(vec![]);
    bad.model.max_output_tokens = Some(0);
    assert_eq!(validate_agent_draft(&before, bad, "fe", &plugins, 1).0.unwrap_err(), "max_output_tokens must be positive");
    let mut hot = draft(vec![]);
    hot.model.temperature_bits = Some(2.5f64.to_bits());
    assert_eq!(validate_agent_draft(&before, hot, "fe", &plugins, 1).0.unwrap_err(), "temperature must be between 0 and 2");
    for ok in [0.0f64, -0.0f64, 0.7f64, 2.0f64] {
        let mut d = draft(vec![]);
        d.model.temperature_bits = Some(ok.to_bits());
        assert!(validate_agent_draft(&before, d, "fe", &plugins, 1).0.is_ok());
    }
    for bad in [f64::NAN, f64::INFINITY, -0.1f64, 2.0000001f64] {
        let mut d = draft(vec![]);
        d.model.temperature_bits = Some(bad.to_bits());
        assert!(validate_agent_draft(&before, d, "fe", &plugins, 1).0.is_err());
    }
    let mut blank = draft(vec![]);
    blank.system_prompt = " \n".into();
    assert_eq!(validate_agent_draft(&before, blank, "fe", &plugins, 1).0.unwrap_err(), "system_prompt must not be empty");
    let mut no_schema = tool(None, None, "x");
    no_schema.definition.parameters = JsonValue::Null;
    assert_eq!(validate_agent_draft(&before, draft(vec![no_schema]), "fe", &plugins, 1).0.unwrap_err(), "tool parameters must be a JSON schema object");
    let mut with_ctx = draft(vec![]);
    with_ctx.context = Some(JsonValue::Bool(true));
    let kept = validate_agent_draft(&before, with_ctx, "fe", &plugins, 1).0.unwrap();
    assert!(kept.context.is_none());
}

#[test]
fn draft_chain_step() {
    let plugins = vec![ext("fe", vec![sub(HOOK_TOOLS_CALL, HookKind::Action, 0, HookFailurePolicy::Abort)])];
    let before = draft(vec![]);
    let answer = DraftAnswer { action: HookAction::Continue, draft: Some(Ok(draft(vec![tool(None, None, "t")]))), reason: None };
    let (r, next) = draft_step(HOOK_AGENT_PREPARE, "fe", HookFailurePolicy::Abort, &plugins, before, Ok(answer), 1);
    let (d, control) = r.unwrap();
    assert!(control.is_none());
    assert_eq!(d.tools[0].id.as_deref(), Some("tool-1"));
    assert_eq!(next, 2);
    let answer = DraftAnswer { action: HookAction::Continue, draft: Some(Err("bad json".into())), reason: None };
    let (r, _) = draft_step(HOOK_AGENT_PREPARE, "fe", HookFailurePolicy::Abort, &plugins, draft(vec![]), Ok(answer), 1);
    assert!(matches!(r, Err(AgentError::ToolError(m)) if m == "extension 'fe' failed at 'agent.prepare': bad json"));
    let answer = DraftAnswer { action: HookAction::Skip, draft: None, reason: None };
    let (r, _) = draft_step(HOOK_AGENT_PREPARE, "fe", HookFailurePolicy::Abort, &plugins, draft(vec![]), Ok(answer), 1);
    assert_eq!(r.unwrap().1, Some(FlowControl::Skip));
}

#[test]
fn tool_output_display_and_results() {
    assert_eq!(ToolOutput::Text("plain".into()).to_display_string(), "plain");
    let parts = ToolOutput::Parts(vec![
        ContentPart::InputText { text: "a".into() },
        ContentPart::InputImage { image_url: Some("u".into()), detail: ImageDetail::Auto },
        ContentPart::OutputText { text: "b".into(), annotations: vec![], logprobs: None },
    ]);
    assert_eq!(parts.to_display_string(), "a\nb");
    let images = ToolOutput::Parts(vec![ContentPart::InputImage { image_url: None, detail: ImageDetail::Low }]);
    assert_eq!(images.to_display_string(), "[1 content part(s)]");
    assert!(matches!(ToolOutput::Text("t".into()).to_function_output(), FunctionOutput::Text(t) if t == "t"));
    let ok = ToolResult::ok(ToolOutput::Text("fine".into()));
    assert!(ok.success && ok.error.is_none());
    let err = ToolResult::err("broken".into());
    assert!(!err.success);
    assert_eq!(err.error.as_deref(), Some("broken"));
    assert_eq!(err.output.to_display_string(), "broken");
    let req = HookRequest::new("tools.call", 7, Some(2), JsonValue::Number(JsonNumber::PosInt(1)));
    assert_eq!(req.protocol_version, 1);
    assert_eq!(req.invocation_id, 7);
}
