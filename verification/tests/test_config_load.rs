use ragent::agent_core::AgentFunctionCall;
use ragent::config_load::{remove_key, resolve_config, resolve_parsed, ModelBlock, ResolvedConfig};
use ragent::context::ContextSummaryMode;
use ragent::error::AgentError;
use ragent::hooks::{ToolDefinition, ToolEntry};
use ragent::json::{json_get, JsonNumber, JsonValue};
use ragent::request::{ReasoningEffort, ReasoningSummary};
use ragent::runner::{prepare_run_tool_call, prepare_tool_call};

fn resolve(global: Option<&str>, project: Option<&str>) -> Result<ResolvedConfig, AgentError> {
    resolve_config(global, project, "\"global.toml\"", "\"project.toml\"")
}

fn message(r: Result<ResolvedConfig, AgentError>) -> String {
    match r {
        Err(AgentError::ToolError(m)) => m,
        Err(e) => panic!("unexpected error {e:?}"),
        Ok(_) => panic!("expected error"),
    }
}

fn model(c: &ResolvedConfig) -> &ModelBlock {
    c.model.as_ref().expect("settings should exist")
}

fn text_of<'a>(v: &'a JsonValue, key: &str) -> &'a str {
    match json_get(v, key) {
        Some(JsonValue::String(s)) => s.as_str(),
        other => panic!("no text at {key}: {other:?}"),
    }
}

#[test]
fn resolve_config_reads_model_block_from_config_toml() {
    let config_toml = r#"
[model]
name = "gemini-2.5-pro"
temperature = 0.4
max_output_tokens = 4096

[model.reasoning]
effort = "high"
summary = "concise"

[[extensions]]
name = "shell"
path = "extensions/shell.wasm"
enabled = false
"#;
    let c = resolve(Some(config_toml), None).unwrap();
    let m = model(&c);
    assert_eq!(m.name.as_deref(), Some("gemini-2.5-pro"));
    assert!(matches!(&m.temperature, Some(JsonNumber::Float(t)) if t == "0.4"));
    assert_eq!(m.max_output_tokens, Some(4096));
    let r = m.reasoning.unwrap();
    assert_eq!(r.effort, Some(ReasoningEffort::High));
    assert_eq!(r.summary, Some(ReasoningSummary::Concise));
    assert_eq!(r.context_summary, None);
    assert_eq!(c.extensions.len(), 1);
    assert_eq!(c.extensions[0].name, "shell");
    assert_eq!(c.extensions[0].path, "extensions/shell.wasm");
    assert!(!c.extensions[0].enabled);
    assert!(matches!(c.extensions[0].config, JsonValue::Null));
}

#[test]
fn config_loads_context_summary_modes_from_config_toml() {
    let off = r#"
[model]
name = "gemini-3.7-flash"

[model.reasoning]
effort = "high"
summary = "detailed"
context_summary = "off"
"#;
    let c = resolve(Some(off), None).unwrap();
    let r = model(&c).reasoning.unwrap();
    assert_eq!(r.effort, Some(ReasoningEffort::High));
    assert_eq!(r.summary, Some(ReasoningSummary::Detailed));
    assert_eq!(r.context_summary, Some(ContextSummaryMode::Off));
    let on = r#"
[model.reasoning]
context_summary = "on"
"#;
    let c = resolve(Some(on), None).unwrap();
    let m = model(&c);
    assert_eq!(m.name, None);
    assert_eq!(m.reasoning.unwrap().context_summary, Some(ContextSummaryMode::On));
}

#[test]
fn project_config_overrides_global_config_leaf_nodes() {
    let global_config = r#"
[model]
name = "global-model"
temperature = 0.7
max_output_tokens = 2048

[model.reasoning]
effort = "medium"
summary = "auto"
"#;
    let project_config = r#"
[model]
name = "project-model"
temperature = 0.2

[model.reasoning]
effort = "high"
"#;
    let c = resolve(Some(global_config), Some(project_config)).unwrap();
    let m = model(&c);
    assert_eq!(m.name.as_deref(), Some("project-model"));
    assert!(matches!(&m.temperature, Some(JsonNumber::Float(t)) if t == "0.2"));
    assert_eq!(m.max_output_tokens, Some(2048));
    let r = m.reasoning.expect("reasoning should exist");
    assert_eq!(r.effort, Some(ReasoningEffort::High));
    assert_eq!(r.summary, Some(ReasoningSummary::Auto));
}

#[test]
fn test_project_config_deep_merge_and_strict_validation() {
    let global_config = r#"
[model]
name = "global-model"
temperature = 0.7

[[extensions]]
name = "dummy"
path = "/cfg/extensions/dummy.wasm"
enabled = true
[extensions.config]
key1 = "global_val"
"#;
    let project_config_valid = r#"
[model]
name = "project-model"

[[extensions]]
name = "dummy"
enabled = false
[extensions.config]
key2 = "project_val"
"#;
    let c = resolve(Some(global_config), Some(project_config_valid)).unwrap();
    let m = model(&c);
    assert_eq!(m.name.as_deref(), Some("project-model"));
    assert!(matches!(&m.temperature, Some(JsonNumber::Float(t)) if t == "0.7"));
    assert_eq!(c.extensions.len(), 1);
    assert_eq!(c.extensions[0].name, "dummy");
    assert!(!c.extensions[0].enabled);
    assert_eq!(text_of(&c.extensions[0].config, "key1"), "global_val");
    assert_eq!(text_of(&c.extensions[0].config, "key2"), "project_val");

    let project_config_invalid = r#"
[[extensions]]
name = "unknown_ext_never_in_global"
enabled = true
"#;
    let m = message(resolve(Some(global_config), Some(project_config_invalid)));
    assert!(m.contains("does not exist in global config"));
    assert_eq!(
        m,
        "extension 'unknown_ext_never_in_global' in project config \"project.toml\" does not exist in global config"
    );

    let project_config_disallowed_path = r#"
[[extensions]]
name = "dummy"
path = "/some/disallowed/path.wasm"
"#;
    let m = message(resolve(Some(global_config), Some(project_config_disallowed_path)));
    assert!(m.contains("invalid extension configuration in project config"));
}

#[test]
fn resolve_config_rejects_duplicates_and_bad_values() {
    let global = r#"
[[extensions]]
name = "shell"
path = "shell.wasm"
"#;
    let dup = r#"
[[extensions]]
name = "shell"
enabled = true

[[extensions]]
name = "shell"
enabled = false
"#;
    let m = message(resolve(Some(global), Some(dup)));
    assert_eq!(m, "duplicate extension name 'shell' in project config \"project.toml\"");

    let global_dup = r#"
[[extensions]]
name = "shell"
path = "a.wasm"

[[extensions]]
name = "shell"
path = "b.wasm"
"#;
    assert_eq!(message(resolve(Some(global_dup), None)), "duplicate extension name 'shell' in global config");

    let missing_path = "[[extensions]]\nname = \"shell\"\n";
    assert_eq!(
        message(resolve(Some(missing_path), None)),
        "failed to deserialize global config \"global.toml\": invalid `extensions`"
    );
    let big_tokens = "[model]\nmax_output_tokens = 3000000000\n";
    assert_eq!(
        message(resolve(Some(big_tokens), None)),
        "failed to deserialize global config \"global.toml\": invalid `model`"
    );
    let bad_effort = "[model.reasoning]\neffort = \"extreme\"\n";
    assert_eq!(
        message(resolve(Some(bad_effort), None)),
        "failed to deserialize global config \"global.toml\": invalid `model`"
    );
    let project_bad_model = "[model]\nname = 5\n";
    assert_eq!(
        message(resolve(Some(global), Some(project_bad_model))),
        "failed to deserialize merged config: invalid `model`"
    );
    let m = message(resolve(Some("[model\nname = 1"), None));
    assert!(m.starts_with("failed to parse \"global.toml\": "));
    assert!(m.len() > "failed to parse \"global.toml\": ".len());
    let m = message(resolve(Some(global), Some("= broken")));
    assert!(m.starts_with("invalid extension configuration in project config \"project.toml\": "));
}

#[test]
fn resolve_config_without_files_is_empty() {
    let c = resolve(None, None).unwrap();
    assert!(c.model.is_none());
    assert!(c.extensions.is_empty());
    let c = resolve(None, Some("[model]\nmax_output_tokens = -5\n")).unwrap();
    assert_eq!(model(&c).max_output_tokens, Some(-5));
    assert!(c.extensions.is_empty());
}

#[test]
fn remove_key_keeps_other_members() {
    let v = JsonValue::Object(vec![
        ("extensions".to_string(), JsonValue::Bool(true)),
        ("model".to_string(), JsonValue::Null),
    ]);
    match remove_key(&v, "extensions") {
        JsonValue::Object(m) => {
            assert_eq!(m.len(), 1);
            assert_eq!(m[0].0, "model");
        },
        other => panic!("unexpected {other:?}"),
    }
}

fn tool(name: &str) -> ToolEntry {
    ToolEntry {
        id: Some(format!("ext/{name}")),
        owner: Some("ext".to_string()),
        enabled: true,
        definition: ToolDefinition {
            name: name.to_string(),
            description: String::new(),
            parameters: JsonValue::Null,
        },
    }
}

fn call(name: &str, arguments: &str) -> AgentFunctionCall {
    AgentFunctionCall { call_id: "call_1".to_string(), name: name.to_string(), arguments: arguments.to_string() }
}

#[test]
fn prepare_tool_call_reads_arguments_as_json() {
    let active = vec![tool("read"), tool("shell"), tool("shell")];
    let (i, req) = prepare_tool_call(&call("shell", "{\"command\":\"ls\",\"n\":-3}"), &active).unwrap();
    assert_eq!(i, 1);
    assert_eq!(req.call_id, "call_1");
    assert_eq!(req.tool_id, "ext/shell");
    assert_eq!(req.name, "shell");
    assert_eq!(text_of(&req.arguments, "command"), "ls");
    assert!(matches!(json_get(&req.arguments, "n"), Some(JsonValue::Number(JsonNumber::NegInt(-3)))));

    match prepare_tool_call(&call("shell", "not json"), &active) {
        Err(AgentError::ToolError(m)) => assert!(m.starts_with("invalid tool arguments: ") && m.len() > 24),
        other => panic!("unexpected {other:?}"),
    }
    match prepare_tool_call(&call("missing", "not json"), &active) {
        Err(AgentError::ToolNotFound(n)) => assert_eq!(n, "missing"),
        other => panic!("unexpected {other:?}"),
    }
}

#[test]
fn prepare_run_tool_call_falls_back_to_empty_arguments() {
    let active = vec![tool("shell")];
    let (i, req) = prepare_run_tool_call(&call("shell", "{oops"), &active).unwrap();
    assert_eq!(i, 0);
    assert!(matches!(&req.arguments, JsonValue::Object(m) if m.is_empty()));
    let (_, req) = prepare_run_tool_call(&call("shell", "[1, true]"), &active).unwrap();
    match &req.arguments {
        JsonValue::Array(a) => {
            assert_eq!(a.len(), 2);
            assert!(matches!(a[0], JsonValue::Number(JsonNumber::PosInt(1))));
            assert!(matches!(a[1], JsonValue::Bool(true)));
        },
        other => panic!("unexpected {other:?}"),
    }
    match prepare_run_tool_call(&call("other", "{}"), &active) {
        Err(AgentError::ToolNotFound(n)) => assert_eq!(n, "other"),
        other => panic!("unexpected {other:?}"),
    }
}

#[test]
fn resolve_parsed_reports_the_parsers_message() {
    let global = JsonValue::Object(vec![(
        "model".to_string(),
        JsonValue::Object(vec![("name".to_string(), JsonValue::String("m".to_string()))]),
    )]);
    let r = resolve_parsed(&global, Some(Err("boom".to_string())), "g", "p");
    assert_eq!(message(r), "invalid extension configuration in project config p: boom");
    let c = resolve_parsed(&global, None, "g", "p").unwrap();
    assert_eq!(model(&c).name.as_deref(), Some("m"));
    let project = JsonValue::Object(vec![(
        "model".to_string(),
        JsonValue::Object(vec![("max_output_tokens".to_string(), JsonValue::Number(JsonNumber::PosInt(7)))]),
    )]);
    let c = resolve_parsed(&global, Some(Ok(project)), "g", "p").unwrap();
    assert_eq!(model(&c).name.as_deref(), Some("m"));
    assert_eq!(model(&c).max_output_tokens, Some(7));
    let r = resolve_parsed(&JsonValue::Bool(true), None, "g", "p");
    assert_eq!(message(r), "failed to deserialize global config g: expected a table");
}
