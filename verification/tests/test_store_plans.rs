use ragent::batch::{ItemBatch, ItemBatchKind};
use ragent::event::{InputTokensDetails, OutputTokensDetails, SessionEvent, SessionEventEnvelope, Usage};
use ragent::ids::{ActivationId, ConfigRef, SessionId, TurnId, WorkspaceId};
use ragent::item::{user_message, FunctionOutput, Item};
use ragent::projection::rebuild_session_status_from_facts;
use ragent::session::{SessionPhase, SessionSpec, SessionStatus};
use ragent::store::{
    check_schema_version, plan_append_event, plan_commit_input, plan_commit_model_output,
    plan_commit_tool_output, plan_create_session, rebuild_counted, select_cached_status, StoreError, SCHEMA_MAJOR,
    SCHEMA_MINOR,
};

fn spec() -> SessionSpec {
    SessionSpec::new(
        SessionId::new("sess_plans".to_string()),
        "Prompt".to_string(),
        ConfigRef::new("sha256:cfg".to_string()),
        WorkspaceId::new("ws_1".to_string()),
    )
}

/// The facts and status of a session after the original's commit sequence:
/// two input items, a reasoning item and a function call, one tool output,
/// and the activation's completion.
fn committed_session() -> (SessionSpec, Vec<ItemBatch>, Vec<SessionEventEnvelope>, SessionStatus) {
    let spec = spec();
    let mut batches = Vec::new();
    let mut events = Vec::new();
    let (created, status) = plan_create_session(&spec, true, true, false, None, None).unwrap();
    events.push(created);

    let act_id = ActivationId::new("act_1".to_string());
    let input_items = vec![
        user_message("First user message".to_string()),
        user_message("Second user message".to_string()),
    ];
    let (input_batch, input_env, status) =
        plan_commit_input(status, &spec.id, &act_id, &spec.default_config_ref, input_items, None, None).unwrap();
    assert_eq!(input_batch.batch_seq.0, 0);
    assert_eq!(input_batch.first_local_item_seq.0, 0);
    assert_eq!(input_batch.last_local_item_seq().0, 1);
    assert_eq!(input_batch.items.len(), 2);
    assert_eq!(input_batch.kind, ItemBatchKind::Input);
    assert_eq!(input_env.event_seq.0, 1);
    assert!(matches!(input_env.event, SessionEvent::ActivationRequested { .. }));
    assert_eq!(status.active_activation_id.as_ref().map(|a| a.0.as_str()), Some("act_1"));
    assert_eq!(status.local_item_count, 2);
    assert_eq!(status.batch_count, 1);
    assert_eq!(status.event_count, 2);
    batches.push(input_batch);
    events.push(input_env);

    let turn_id = TurnId::new("turn_1".to_string());
    let model_items = vec![
        Item::Reasoning {
            id: Some("rs_1".into()),
            status: None,
            content: None,
            summary: vec![],
            encrypted_content: Some("enc_1".into()),
        },
        Item::FunctionCall {
            id: Some("fc_1".into()),
            call_id: "call_1".into(),
            name: "shell".into(),
            arguments: r#"{"command":"ls"}"#.into(),
            status: None,
        },
    ];
    let usage = Usage {
        input_tokens: 50,
        output_tokens: 20,
        total_tokens: 70,
        input_tokens_details: InputTokensDetails { cached_tokens: 0 },
        output_tokens_details: OutputTokensDetails { reasoning_tokens: 10 },
    };
    let (model_batch, model_env, status) = plan_commit_model_output(
        status,
        &spec.id,
        &act_id,
        &turn_id,
        Some("resp_123".into()),
        model_items,
        Some(usage),
    );
    assert_eq!(model_batch.batch_seq.0, 1);
    assert_eq!(model_batch.first_local_item_seq.0, 2);
    assert_eq!(model_batch.last_local_item_seq().0, 3);
    assert_eq!(model_batch.items.len(), 2);
    assert_eq!(model_batch.kind, ItemBatchKind::ModelOutput);
    assert_eq!(model_env.event_seq.0, 2);
    assert!(matches!(model_env.event, SessionEvent::TurnCompleted { .. }));
    batches.push(model_batch);
    events.push(model_env);

    let tool_items = vec![Item::FunctionCallOutput {
        id: None,
        call_id: "call_1".into(),
        output: FunctionOutput::Text("file1.txt\nfile2.txt".into()),
        status: None,
    }];
    let (tool_batch, tool_env, status) = plan_commit_tool_output(
        status,
        &spec.id,
        &act_id,
        &turn_id,
        "call_1",
        "shell",
        true,
        Some(15),
        tool_items,
    );
    assert_eq!(tool_batch.batch_seq.0, 2);
    assert_eq!(tool_batch.first_local_item_seq.0, 4);
    assert_eq!(tool_batch.last_local_item_seq().0, 4);
    assert_eq!(tool_batch.items.len(), 1);
    assert_eq!(tool_batch.kind, ItemBatchKind::ToolOutput);
    assert_eq!(tool_env.event_seq.0, 3);
    assert!(matches!(tool_env.event, SessionEvent::ToolCallFinished { .. }));
    batches.push(tool_batch);
    events.push(tool_env);

    let (fin_env, status) = plan_append_event(
        status,
        &spec.id,
        SessionEvent::ActivationCompleted { usage: None },
        Some(act_id),
        Some(turn_id),
    );
    assert_eq!(fin_env.event_seq.0, 4);
    events.push(fin_env);
    (spec, batches, events, status)
}

#[test]
fn test_p1_batch_and_event_atomic_commits_and_sequences() {
    let (_spec, batches, events, status) = committed_session();
    assert_eq!(status.phase, SessionPhase::Open);
    assert_eq!(status.local_item_count, 5);
    assert_eq!(status.batch_count, 3);
    assert_eq!(status.event_count, 5);
    assert!(status.active_activation_id.is_none());
    assert_eq!(batches.iter().map(|b| b.items.len()).sum::<usize>(), 5);
    assert_eq!(batches.len(), 3);
    assert_eq!(events.len(), 5);
}

#[test]
fn test_normal_commits_advance_sequences_incrementally() {
    let (spec, batches, events, status) = committed_session();
    let rebuilt = rebuild_session_status_from_facts(&spec, &batches, &events).unwrap();
    assert_eq!(rebuilt.phase, status.phase);
    assert_eq!(rebuilt.active_activation_id.is_none(), status.active_activation_id.is_none());
    assert_eq!(rebuilt.last_error, status.last_error);
    assert_eq!(rebuilt.event_count, status.event_count);
    assert_eq!(rebuilt.batch_count, status.batch_count);
    assert_eq!(rebuilt.local_item_count, status.local_item_count);
}

#[test]
fn test_p1_rebuild_status_from_empty_status_table() {
    let (spec, batches, events, status) = committed_session();
    // No stored projection: the status is rebuilt from the facts.
    assert!(select_cached_status(None, status.event_count, status.batch_count).is_none());
    let rebuilt = rebuild_session_status_from_facts(&spec, &batches, &events).unwrap();
    assert_eq!(rebuilt.phase, status.phase);
    assert_eq!(rebuilt.local_item_count, status.local_item_count);
    assert_eq!(rebuilt.batch_count, status.batch_count);
    assert_eq!(rebuilt.event_count, status.event_count);
}

#[test]
fn test_lagging_projection_rebuilds_automatically_on_query_and_commit() {
    let (_spec, _batches, _events, status) = committed_session();
    let (events, batches) = (status.event_count, status.batch_count);
    // A projection made before the last event lags and is not used.
    assert!(select_cached_status(Some((events - 1, batches, Some(status))), events, batches).is_none());
    let (_s, _b, _e, current) = committed_session();
    let used = select_cached_status(Some((events, batches, Some(current))), events, batches).unwrap();
    assert_eq!(used.event_count, 5);
}

#[test]
fn test_corrupted_status_payload_json_rebuilds_automatically() {
    let spec = spec();
    let (created, status) = plan_create_session(&spec, true, true, false, None, None).unwrap();
    let act_id = ActivationId::new("act_corrupt".to_string());
    let (batch, env, _) = plan_commit_input(
        status,
        &spec.id,
        &act_id,
        &spec.default_config_ref,
        vec![user_message("Hello".to_string())],
        None,
        None,
    )
    .unwrap();
    let batches = vec![batch];
    let events = vec![created, env];
    // A payload that could not be read counts as no projection, even with
    // counters that match the stored facts: the status is rebuilt from them.
    assert!(select_cached_status(Some((2, 1, None)), 2, 1).is_none());
    let status = rebuild_session_status_from_facts(&spec, &batches, &events).unwrap();
    assert_eq!(status.phase, SessionPhase::Open);
    assert_eq!(status.local_item_count, 1);
    assert_eq!(status.batch_count, 1);
    assert_eq!(status.event_count, 2);
    assert_eq!(status.active_activation_id.as_ref().map(|a| a.0.as_str()), Some("act_corrupt"));
}

#[test]
fn test_p0_rejects_unsupported_schema_version() {
    let major = (SCHEMA_MAJOR + 1).to_string();
    let minor = SCHEMA_MINOR.to_string();
    match check_schema_version(Some(major.as_str()), Some(minor.as_str())) {
        Err(StoreError::UnsupportedSchemaVersion { found_major, expected_major, .. }) => {
            assert_eq!(found_major, SCHEMA_MAJOR + 1);
            assert_eq!(expected_major, SCHEMA_MAJOR);
        },
        other => panic!("Expected UnsupportedSchemaVersion, got {:?}", other),
    }
    assert!(matches!(check_schema_version(None, None), Ok(true)));
    let current = SCHEMA_MAJOR.to_string();
    assert!(matches!(check_schema_version(Some(current.as_str()), None), Ok(false)));
    assert!(matches!(check_schema_version(Some("x"), None), Err(StoreError::ConstraintViolation(_))));
}

#[test]
fn rebuild_counted_counts_each_rebuild_once() {
    let (spec, batches, events, status) = committed_session();
    let (rebuilt, n) = rebuild_counted(&spec, &batches, &events, 4).unwrap();
    assert_eq!(n, 5);
    assert_eq!(rebuilt.event_count, status.event_count);
    assert_eq!(rebuilt.batch_count, status.batch_count);
    assert_eq!(rebuilt.local_item_count, status.local_item_count);
    let (_, wrapped) = rebuild_counted(&spec, &batches, &events, u64::MAX).unwrap();
    assert_eq!(wrapped, 0);
    match rebuild_counted(&spec, &batches, &Vec::new(), 0) {
        Err(StoreError::Projection(_)) => {},
        other => panic!("unexpected {other:?}"),
    }
}
