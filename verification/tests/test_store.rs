use ragent::canonical::{canonical_text, hex_encode};
use ragent::cli_support::WorkspaceSpec;
use ragent::config_revision::{compute_ref, plan_ensure_config, ConfigDecision, ConfigRevision};
use ragent::context::ContextSummaryMode;
use ragent::ext_config::ExtensionConfigItem;
use ragent::ids::{ConfigRef, SessionId, WorkspaceId};
use ragent::json::{JsonNumber, JsonValue};
use ragent::session::{SessionPhase, SessionSpec, SessionStatus};
use ragent::store::{plan_create_session, StoreError};

fn obj(members: Vec<(&str, JsonValue)>) -> JsonValue {
    JsonValue::Object(members.into_iter().map(|(k, v)| (k.to_string(), v)).collect())
}

fn template(model: Option<&str>) -> JsonValue {
    match model {
        Some(m) => obj(vec![("model", JsonValue::String(m.to_string()))]),
        None => obj(vec![]),
    }
}

#[test]
fn test_p1_workspace_and_content_addressed_config() {
    let ws = WorkspaceSpec::new("/tmp/ws".to_string());
    assert_eq!(ws.format_version, 1);
    assert!(ws.id.as_str().starts_with("ws_"));
    assert_eq!(ws.root, "/tmp/ws");
    let again = WorkspaceSpec::with_id(ws.id.clone(), "/tmp/ws".to_string());
    assert_eq!(again.id, ws.id);

    let tpl = obj(vec![
        ("model", JsonValue::String("test-model".into())),
        ("temperature", JsonValue::Number(JsonNumber::Float("0.5".into()))),
        ("stream", JsonValue::Bool(false)),
    ]);
    let cfg_rev = ConfigRevision::new(tpl, vec![], ContextSummaryMode::Off);
    let cfg_ref = cfg_rev.config_ref.clone();
    assert!(cfg_ref.as_str().starts_with("sha256:"));
    assert_eq!(cfg_ref.as_str().len(), "sha256:".len() + 64);
    assert_eq!(plan_ensure_config(&cfg_rev, None).unwrap(), ConfigDecision::Insert);
    assert_eq!(plan_ensure_config(&cfg_rev, Some(&cfg_rev)).unwrap(), ConfigDecision::AlreadyStored);

    let reordered = obj(vec![
        ("stream", JsonValue::Bool(false)),
        ("temperature", JsonValue::Number(JsonNumber::Float("0.5".into()))),
        ("model", JsonValue::String("test-model".into())),
    ]);
    let same = ConfigRevision::new(reordered, vec![], ContextSummaryMode::Off);
    assert_eq!(same.config_ref, cfg_ref);
    let other_mode = ConfigRevision::new(template(Some("test-model")), vec![], ContextSummaryMode::On);
    assert_ne!(other_mode.config_ref, cfg_ref);
}

#[test]
fn test_ensure_config_validates_hash_and_rejects_tampered_ref_or_collision() {
    let mut cfg = ConfigRevision::new(template(Some("model-a")), vec![], ContextSummaryMode::Off);
    let ref1 = cfg.config_ref.clone();
    assert_eq!(plan_ensure_config(&cfg, None).unwrap(), ConfigDecision::Insert);

    cfg.config_ref = ConfigRef::new("sha256:0000000000000000000000000000000000000000000000000000000000000000".to_string());
    match plan_ensure_config(&cfg, None) {
        Err(StoreError::ConstraintViolation(m)) => assert!(m.contains("ConfigRef mismatch")),
        _ => panic!("expected mismatch"),
    }

    let mut tampered = ConfigRevision::new(template(Some("model-DIFFERENT")), vec![], ContextSummaryMode::Off);
    tampered.config_ref = ref1.clone();
    match plan_ensure_config(&tampered, None) {
        Err(StoreError::ConstraintViolation(m)) => assert!(m.contains("ConfigRef mismatch")),
        _ => panic!("expected mismatch"),
    }

    let stored = ConfigRevision::new(template(Some("model-a")), vec![], ContextSummaryMode::Off);
    let mut colliding = ConfigRevision::new(template(Some("model-a")), vec![], ContextSummaryMode::Off);
    colliding.extensions = vec![];
    assert_eq!(plan_ensure_config(&colliding, Some(&stored)).unwrap(), ConfigDecision::AlreadyStored);
    let different = ConfigRevision::new(
        template(Some("model-a")),
        vec![ExtensionConfigItem { name: "x".into(), path: "x.wasm".into(), enabled: true, config: JsonValue::Null }],
        ContextSummaryMode::Off,
    );
    let mut claimed = ConfigRevision::new(template(Some("model-a")), vec![], ContextSummaryMode::Off);
    claimed.config_ref = ref1.clone();
    match plan_ensure_config(&claimed, Some(&different)) {
        Err(StoreError::ConstraintViolation(m)) => assert!(m.contains("ConfigRef collision")),
        _ => panic!("expected collision"),
    }
}

#[test]
fn test_config_revision_rejects_empty_model() {
    let invalid = ConfigRevision::new(template(None), vec![], ContextSummaryMode::Off);
    match plan_ensure_config(&invalid, None) {
        Err(StoreError::ConstraintViolation(m)) => assert!(m.contains("requires a non-empty model name")),
        _ => panic!("expected error"),
    }
    let blank = ConfigRevision::new(template(Some("   ")), vec![], ContextSummaryMode::Off);
    match plan_ensure_config(&blank, None) {
        Err(StoreError::ConstraintViolation(m)) => assert!(m.contains("requires a non-empty model name")),
        _ => panic!("expected error"),
    }
}

#[test]
fn canonical_json_sorts_keys_and_escapes_strings() {
    let v = obj(vec![
        ("b", JsonValue::Array(vec![JsonValue::Null, JsonValue::Bool(true), JsonValue::Number(JsonNumber::NegInt(-3))])),
        ("a", JsonValue::String("q\"\n\u{1}".into())),
        ("c", obj(vec![("z", JsonValue::Number(JsonNumber::PosInt(1))), ("y", obj(vec![]))])),
    ]);
    assert_eq!(canonical_text(&v), "{\"a\":\"q\\\"\\n\\u0001\",\"b\":[null,true,-3],\"c\":{\"y\":{},\"z\":1}}");
    assert_eq!(hex_encode(&[0u8, 15, 16, 255]), "000f10ff");
    let empty_ref = compute_ref(1, &obj(vec![]), &vec![], ContextSummaryMode::Off);
    assert!(empty_ref.as_str().starts_with("sha256:"));
}

#[test]
fn test_p1_session_spec_immutable_and_initial_status() {
    let session_id = SessionId::generate();
    let spec = SessionSpec::new(
        session_id.clone(),
        "Initial basic prompt".to_string(),
        ConfigRef::new("sha256:abc".to_string()),
        WorkspaceId::new("ws_1".to_string()),
    );
    assert_eq!(spec.id, session_id);
    assert_eq!(spec.basic_system_prompt, "Initial basic prompt");
    assert_eq!(spec.sources.len(), 0);

    let status = SessionStatus::initial();
    assert_eq!(status.phase, SessionPhase::Open);
    assert_eq!(status.local_item_count, 0);
    assert_eq!(status.batch_count, 0);
    assert_eq!(status.event_count, 1);
    assert!(status.active_activation_id.is_none());

    let (env, st) = plan_create_session(&spec, true, true, false, None, None).unwrap();
    assert_eq!(env.event_seq.as_u64(), 0);
    assert_eq!(st.event_count, 1);
    assert!(matches!(plan_create_session(&spec, false, true, false, None, None), Err(StoreError::WorkspaceNotFound(_))));
    assert!(matches!(plan_create_session(&spec, true, false, false, None, None), Err(StoreError::ConfigNotFound(_))));
    match plan_create_session(&spec, true, true, true, None, None) {
        Err(StoreError::SessionAlreadyExists(id)) => assert_eq!(id.0, spec.id.0),
        other => panic!("unexpected {other:?}"),
    }
}

#[test]
fn canonical_text_and_reference_ignore_member_order() {
    let a = obj(vec![
        ("model", JsonValue::String("m".into())),
        ("stream", JsonValue::Bool(false)),
        ("max_output_tokens", JsonValue::Number(JsonNumber::PosInt(64))),
    ]);
    let b = obj(vec![
        ("stream", JsonValue::Bool(false)),
        ("max_output_tokens", JsonValue::Number(JsonNumber::PosInt(64))),
        ("model", JsonValue::String("m".into())),
    ]);
    assert_eq!(canonical_text(&a), canonical_text(&b));
    assert_eq!(
        canonical_text(&a),
        "{\"max_output_tokens\":64,\"model\":\"m\",\"stream\":false}"
    );
    let ra = compute_ref(1, &a, &vec![], ContextSummaryMode::Off);
    let rb = compute_ref(1, &b, &vec![], ContextSummaryMode::Off);
    assert_eq!(ra.as_str(), rb.as_str());
}

#[test]
fn canonical_text_ignores_member_order_at_depth() {
    let inner_a = obj(vec![("y", JsonValue::Null), ("x", JsonValue::Array(vec![JsonValue::Bool(true)]))]);
    let inner_b = obj(vec![("x", JsonValue::Array(vec![JsonValue::Bool(true)])), ("y", JsonValue::Null)]);
    let a = obj(vec![("b", JsonValue::Array(vec![inner_a])), ("a", JsonValue::String("s".into()))]);
    let b = obj(vec![("a", JsonValue::String("s".into())), ("b", JsonValue::Array(vec![inner_b]))]);
    assert_eq!(canonical_text(&a), canonical_text(&b));
    assert_eq!(canonical_text(&a), "{\"a\":\"s\",\"b\":[{\"x\":[true],\"y\":null}]}");
}

#[test]
fn config_refs_are_sha256_and_64_hex_digits() {
    let r = compute_ref(1, &obj(vec![("model", JsonValue::String("m".into()))]), &vec![], ContextSummaryMode::Off);
    let s = r.as_str();
    assert_eq!(s.len(), 71);
    assert!(s.starts_with("sha256:"));
    assert!(s[7..].chars().all(|c| c.is_ascii_digit() || ('a'..='f').contains(&c)));
}
