use ragent::config::{AgentConfig, ModelReasoningSettings, ModelSettings};
use ragent::context::ContextSummaryMode;
use ragent::error::AgentError;
use ragent::ext_config::{
    apply_project_overrides, check_global_names, check_new_extension, check_project_items, default_enabled,
    enabled_items, join_path, ExtensionConfigItem, ProjectExtensionItem,
};
use ragent::json::{json_eq, merge_json, JsonNumber, JsonValue};
use ragent::request::{ReasoningConfig, ReasoningEffort, ReasoningSummary};

fn obj(members: Vec<(&str, JsonValue)>) -> JsonValue {
    JsonValue::Object(members.into_iter().map(|(k, v)| (k.to_string(), v)).collect())
}

fn num(n: u64) -> JsonValue {
    JsonValue::Number(JsonNumber::PosInt(n))
}

fn s(t: &str) -> JsonValue {
    JsonValue::String(t.to_string())
}

fn item(name: &str, path: &str, config: JsonValue) -> ExtensionConfigItem {
    ExtensionConfigItem { name: name.into(), path: path.into(), enabled: default_enabled(), config }
}

#[test]
fn project_config_extension_restrictions_and_overrides() {
    let global = vec![
        item("shell", "shell.wasm", obj(vec![("key1", s("val1")), ("nested", obj(vec![("a", num(1)), ("b", num(2))]))])),
        item("file_editor", "file_editor.wasm", JsonValue::Null),
    ];
    assert!(check_global_names(&global).is_ok());
    let project = vec![
        ProjectExtensionItem { name: "file_editor".into(), enabled: Some(false), config: None },
        ProjectExtensionItem {
            name: "shell".into(),
            enabled: None,
            config: Some(obj(vec![("key2", s("val2")), ("nested", obj(vec![("b", num(3)), ("c", num(4))]))])),
        },
    ];
    assert!(check_project_items(&project, &global, "\".ragent/config.toml\"").is_ok());
    let merged = apply_project_overrides(global, &project);
    let enabled = enabled_items(merged);
    assert_eq!(enabled.len(), 1);
    assert_eq!(enabled[0].name, "shell");
    let expected = obj(vec![
        ("key1", s("val1")),
        ("nested", obj(vec![("a", num(1)), ("b", num(3)), ("c", num(4))])),
        ("key2", s("val2")),
    ]);
    assert!(json_eq(&enabled[0].config, &expected));

    let global = vec![item("shell", "a", JsonValue::Null)];
    let unknown = vec![ProjectExtensionItem { name: "unknown_ext".into(), enabled: Some(true), config: None }];
    match check_project_items(&unknown, &global, "p") {
        Err(AgentError::ToolError(m)) => {
            assert!(m.contains("does not exist in global config"));
            assert_eq!(m, "extension 'unknown_ext' in project config p does not exist in global config");
        },
        _ => panic!("expected error"),
    }
    let dup = vec![
        ProjectExtensionItem { name: "shell".into(), enabled: Some(true), config: None },
        ProjectExtensionItem { name: "shell".into(), enabled: Some(false), config: None },
    ];
    match check_project_items(&dup, &global, "p") {
        Err(AgentError::ToolError(m)) => assert!(m.contains("duplicate extension name")),
        _ => panic!("expected error"),
    }
    let global_dup = vec![item("shell", "a", JsonValue::Null), item("shell", "b", JsonValue::Null)];
    match check_global_names(&global_dup) {
        Err(AgentError::ToolError(m)) => assert_eq!(m, "duplicate extension name 'shell' in global config"),
        _ => panic!("expected error"),
    }
}

#[test]
fn deep_merge_replaces_leaves_and_keeps_other_keys() {
    let base = obj(vec![("a", num(1)), ("t", obj(vec![("x", num(1)), ("y", num(2))])), ("arr", JsonValue::Array(vec![num(1)]))]);
    let over = obj(vec![("t", obj(vec![("y", num(9))])), ("arr", JsonValue::Array(vec![num(2), num(3)])), ("new", JsonValue::Bool(true))]);
    let merged = merge_json(&base, &over);
    let expected = obj(vec![
        ("a", num(1)),
        ("t", obj(vec![("x", num(1)), ("y", num(9))])),
        ("arr", JsonValue::Array(vec![num(2), num(3)])),
        ("new", JsonValue::Bool(true)),
    ]);
    assert!(json_eq(&merged, &expected));
    assert!(json_eq(&merge_json(&num(1), &s("x")), &s("x")));
    assert!(json_eq(&merge_json(&obj(vec![("a", num(1))]), &JsonValue::Null), &JsonValue::Null));
}

#[test]
fn extension_paths_and_ids() {
    assert_eq!(join_path("/home/u/.config/ragent", "extensions/shell.wasm"), "/home/u/.config/ragent/extensions/shell.wasm");
    assert_eq!(join_path("/cfg/", "a.wasm"), "/cfg/a.wasm");
    assert_eq!(join_path("/cfg", "/abs/a.wasm"), "/abs/a.wasm");
    assert_eq!(join_path("", "a.wasm"), "a.wasm");
    let loaded = vec!["shell".to_string()];
    assert!(check_new_extension(&loaded, &"file_editor".to_string()).is_ok());
    match check_new_extension(&loaded, &"shell".to_string()) {
        Err(AgentError::ToolError(m)) => assert_eq!(m, "duplicate extension id 'shell'"),
        _ => panic!("expected error"),
    }
}

#[test]
fn config_loads_model_settings_and_reasoning_from_config_toml() {
    let mut config = AgentConfig::new("https://example.com".into(), "k".into(), String::new());
    let settings = ModelSettings {
        name: Some("gpt-4o".into()),
        temperature_bits: Some(0.7f64.to_bits()),
        max_output_tokens: Some(2048),
        reasoning: Some(ModelReasoningSettings {
            effort: Some(ReasoningEffort::High),
            summary: Some(ReasoningSummary::Detailed),
            context_summary: Some(ContextSummaryMode::On),
        }),
    };
    config.apply_model_settings(&settings);
    assert_eq!(config.model, "gpt-4o");
    assert_eq!(config.temperature_bits.map(f64::from_bits), Some(0.7));
    assert_eq!(config.max_output_tokens, Some(2048));
    assert_eq!(config.reasoning, Some(ReasoningConfig { effort: Some(ReasoningEffort::High), summary: Some(ReasoningSummary::Detailed) }));
    assert_eq!(config.context_summary, ContextSummaryMode::On);
}

#[test]
fn cli_model_override_takes_precedence_over_global_and_project_config() {
    let config = AgentConfig::new("u".into(), "k".into(), "base".into()).with_model("cli-model".into());
    let mut c = config;
    c.apply_model_settings(&ModelSettings { name: Some("global-model".into()), temperature_bits: None, max_output_tokens: None, reasoning: None });
    c.apply_model_settings(&ModelSettings { name: Some("project-model".into()), temperature_bits: None, max_output_tokens: None, reasoning: None });
    assert_eq!(c.model, "cli-model");
    assert_eq!(c.model_override.as_deref(), Some("cli-model"));
    let cleared = c.with_model_override(None);
    assert_eq!(cleared.model, "cli-model");
    assert!(cleared.model_override.is_none());
}

#[test]
fn config_builders_and_context_summary_modes() {
    let c = AgentConfig::new("u".into(), "k".into(), "m".into());
    assert_eq!(c.context_summary, ContextSummaryMode::Off);
    assert_eq!(ContextSummaryMode::Off.as_str(), "off");
    assert_eq!(ContextSummaryMode::On.as_str(), "on");
    let c = c.with_reasoning_effort(ReasoningEffort::Low).with_reasoning_summary(ReasoningSummary::Auto);
    assert_eq!(c.reasoning, Some(ReasoningConfig { effort: Some(ReasoningEffort::Low), summary: Some(ReasoningSummary::Auto) }));
    let c = c.with_max_output_tokens(10).with_context_summary(ContextSummaryMode::On).with_temperature_bits(1.0f64.to_bits());
    assert_eq!(c.max_output_tokens, Some(10));
    assert_eq!(c.context_summary, ContextSummaryMode::On);
    let mut c2 = c;
    c2.apply_model_settings(&ModelSettings {
        name: None,
        temperature_bits: None,
        max_output_tokens: None,
        reasoning: Some(ModelReasoningSettings { effort: None, summary: None, context_summary: Some(ContextSummaryMode::Off) }),
    });
    assert_eq!(c2.context_summary, ContextSummaryMode::Off);
    assert_eq!(c2.reasoning, Some(ReasoningConfig { effort: Some(ReasoningEffort::Low), summary: Some(ReasoningSummary::Auto) }));
    let from: ModelReasoningSettings = ModelReasoningSettings::from(ReasoningConfig { effort: Some(ReasoningEffort::Xhigh), summary: None });
    assert_eq!(from.context_summary, None);
    assert_eq!(from.effort, Some(ReasoningEffort::Xhigh));
}
