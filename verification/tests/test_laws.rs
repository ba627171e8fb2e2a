use ragent::agent_context::AgentContext;
use ragent::batch::ItemBatchKind;
use ragent::cli::parse_cli_args;
use ragent::error::AgentError;
use ragent::hook_manager::{shutdown_outcome, shutdown_step, ShutdownAction, ShutdownState};
use ragent::item::{assistant_message, commit_candidate, user_message, Item, MessageRole};
use ragent::session::SessionStatus;
use ragent::store::{check_event_room, check_room, StoreError};

fn args(v: &[&str]) -> Vec<String> {
    v.iter().map(|s| s.to_string()).collect()
}

#[test]
fn option_moved_back_parses_the_same() {
    let forward = args(&["ragent", "hello", "world", "-m", "gpt-4o"]);
    let back = args(&["ragent", "-m", "gpt-4o", "hello", "world"]);
    let a = parse_cli_args(&forward).unwrap();
    let b = parse_cli_args(&back).unwrap();
    assert_eq!(format!("{a:?}"), format!("{b:?}"));
    assert_eq!(b.custom_model.as_deref(), Some("gpt-4o"));
    let middle = args(&["ragent", "hello", "-m", "gpt-4o", "world"]);
    assert_eq!(format!("{:?}", parse_cli_args(&middle).unwrap()), format!("{a:?}"));
}

#[test]
fn room_checks_refuse_exhausted_counters() {
    let mut status = SessionStatus::initial();
    assert!(check_room(&status, 3).is_ok());
    assert!(check_event_room(&status).is_ok());
    status.local_item_count = u64::MAX - 2;
    assert!(check_room(&status, 2).is_ok());
    match check_room(&status, 3) {
        Err(StoreError::ConstraintViolation(m)) => assert_eq!(m, "session counters are exhausted"),
        other => panic!("unexpected {other:?}"),
    }
    status.local_item_count = 0;
    status.batch_count = u64::MAX;
    assert!(check_room(&status, 1).is_err());
    assert!(check_event_room(&status).is_ok());
    status.event_count = u64::MAX;
    match check_event_room(&status) {
        Err(StoreError::ConstraintViolation(m)) => assert_eq!(m, "session counters are exhausted"),
        other => panic!("unexpected {other:?}"),
    }
}

fn texts(items: &[Item]) -> Vec<String> {
    items.iter().map(|i| format!("{i:?}")).collect()
}

#[test]
fn commit_candidate_appends_pending_items() {
    let current = vec![user_message("a".to_string()), assistant_message("b".to_string())];
    let pending = vec![user_message("c".to_string())];
    let next = commit_candidate(&current, &pending);
    assert_eq!(next.len(), 3);
    assert_eq!(texts(&next[..2]), texts(&current));
    assert_eq!(texts(&next[2..]), texts(&pending));
    assert_eq!(commit_candidate(&current, &Vec::new()).len(), 2);
}

#[test]
fn context_only_grows_over_commits() {
    let mut context = AgentContext::new(None);
    context.add_items(vec![user_message("first".to_string())]);
    let before = texts(&context.to_items());
    for turn in ["second", "third"] {
        let pending = vec![
            assistant_message(turn.to_string()),
            Item::Message {
                id: None,
                status: None,
                role: MessageRole::System,
                content: vec![],
                phase: None,
            },
        ];
        let next = commit_candidate(&context.to_items(), &pending);
        context.replace_items(next);
    }
    let after = texts(&context.to_items());
    assert_eq!(after.len(), 3);
    assert_eq!(after[..1], before[..]);
    assert!(context.items().iter().all(|i| !matches!(i, Item::Message { role: MessageRole::System, .. })));
}

#[test]
fn shutdown_happens_once() {
    let (state, action) = shutdown_step(ShutdownState::Running);
    assert_eq!(state, ShutdownState::ShutDown);
    assert_eq!(action, ShutdownAction::ShutDownAll);
    let (state, action) = shutdown_step(state);
    assert_eq!(state, ShutdownState::ShutDown);
    assert_eq!(action, ShutdownAction::Nothing);
}

#[test]
fn shutdown_outcome_reports_first_failure() {
    let results = vec![
        Ok(()),
        Err(AgentError::ToolError("plugin2: injected shutdown failure".to_string())),
        Err(AgentError::ToolError("plugin3: other".to_string())),
    ];
    match shutdown_outcome(results) {
        Err(AgentError::ToolError(m)) => assert!(m.contains("injected shutdown failure")),
        other => panic!("unexpected {other:?}"),
    }
    assert!(shutdown_outcome(vec![Ok(()), Ok(())]).is_ok());
    assert!(shutdown_outcome(Vec::new()).is_ok());
}

#[test]
fn batch_kinds_have_distinct_names() {
    let kinds = [ItemBatchKind::Input, ItemBatchKind::ModelOutput, ItemBatchKind::ToolOutput];
    let names: Vec<&str> = kinds.iter().map(|k| k.as_str()).collect();
    assert_eq!(names, vec!["input", "model_output", "tool_output"]);
    for (i, a) in names.iter().enumerate() {
        for (j, b) in names.iter().enumerate() {
            assert_eq!(a == b, i == j);
        }
    }
}
