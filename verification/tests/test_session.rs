use ragent::error::AgentError;
use ragent::item::{user_message, ContentPart, Item, MessageRole};
use ragent::session::session_tmp_dir;
use ragent::session_files::{
    build_basic_system_prompt, check_session_schema, generate_id_at, recent_order, truncate_title,
    validate_session_id, InMemoryLock, SessionData, SessionStore, DEFAULT_SESSION_TITLE,
    SESSION_SCHEMA_VERSION, SESSION_SYSTEM_PROMPT, lock_file_busy,
};

#[test]
fn session_store_crud_and_rejects_path_traversal() {
    let store = SessionStore::new("/tmp/ragent_sessions".to_string());
    let mut session = SessionData::new("sess_test".to_string(), "test-model".to_string()).unwrap();
    session.update_from_context(vec![user_message("What is Rust?".to_string())]);
    assert_eq!(session.schema_version, SESSION_SCHEMA_VERSION);
    assert_eq!(session.meta.item_count, 1);
    assert_eq!(session.meta.title, "What is Rust?");
    assert_eq!(store.session_file_path("sess_test").unwrap(), "/tmp/ragent_sessions/sess_test.json");

    assert!(matches!(store.session_file_path("../escape"), Err(AgentError::InvalidSessionId(_))));
    assert!(matches!(
        SessionData::new("../escape".to_string(), "model".to_string()),
        Err(AgentError::InvalidSessionId(_))
    ));
}

#[test]
fn session_store_rejects_unsupported_schema_version() {
    let found = u64::from(SESSION_SCHEMA_VERSION + 1);
    assert!(matches!(
        check_session_schema(Some(found)),
        Err(AgentError::UnsupportedSessionVersion { found: Some(f), expected: SESSION_SCHEMA_VERSION }) if f == found
    ));
    assert!(check_session_schema(Some(u64::from(SESSION_SCHEMA_VERSION))).is_ok());
    assert!(matches!(
        check_session_schema(None),
        Err(AgentError::UnsupportedSessionVersion { found: None, .. })
    ));
    let mut session = SessionData::new("sess_version".to_string(), "m".to_string()).unwrap();
    assert!(session.validate_schema_version().is_ok());
    session.schema_version = SESSION_SCHEMA_VERSION + 1;
    assert!(session.validate_schema_version().is_err());
}

#[test]
fn session_temp_dir_helpers_and_validation() {
    assert_eq!(session_tmp_dir("sess_abc_123"), "/tmp/ragent/sess_abc_123");
    assert!(validate_session_id("sess_123_abc-DEF").is_ok());
    assert!(validate_session_id("../escape").is_err());
    assert!(validate_session_id("").is_err());
    assert!(validate_session_id("  ok_id  ").is_ok());
    assert!(validate_session_id(&"a".repeat(65)).is_err());
    assert!(validate_session_id(&"a".repeat(64)).is_ok());
    match validate_session_id("  bad/id ") {
        Err(AgentError::InvalidSessionId(m)) => assert_eq!(m, "bad/id"),
        _ => panic!("expected an invalid id"),
    }
}

#[test]
fn basic_system_prompt_is_complete_when_session_is_created() {
    let prompt = build_basic_system_prompt("sess_123").unwrap();
    assert!(prompt.starts_with(SESSION_SYSTEM_PROMPT));
    assert!(prompt.contains("/tmp/ragent/sess_123"));
    assert_eq!(prompt.matches("## 会话临时目录 (session_tmp)").count(), 1);
    assert!(prompt.contains("workspace"));
    let session = SessionData::new("sess_123".to_string(), "m".to_string()).unwrap();
    assert_eq!(session.basic_system_prompt(), prompt);
    assert_eq!(session.meta.title, DEFAULT_SESSION_TITLE);
}

#[test]
fn session_title_comes_from_first_user_text_and_is_truncated() {
    assert_eq!(truncate_title("  a\tb\nc  ", 40), "a b c");
    let long = "x".repeat(45);
    assert_eq!(truncate_title(&long, 40), format!("{}...", "x".repeat(40)));
    let mut session = SessionData::new("sess_t".to_string(), "m".to_string()).unwrap();
    let items = vec![
        Item::Message {
            id: None,
            status: None,
            role: MessageRole::Assistant,
            content: vec![ContentPart::OutputText { text: "ignored".into(), annotations: vec![], logprobs: None }],
            phase: None,
        },
        Item::Message {
            id: None,
            status: None,
            role: MessageRole::User,
            content: vec![ContentPart::InputText { text: "   ".into() }, ContentPart::InputText { text: "real question".into() }],
            phase: None,
        },
    ];
    session.update_at(items, 77);
    assert_eq!(session.meta.title, "real question");
    assert_eq!(session.meta.updated_at, 77);
    assert_eq!(session.meta.item_count, 2);
    session.update_at(vec![user_message("later".to_string())], 78);
    assert_eq!(session.meta.title, "real question");
}

#[test]
fn generated_session_ids_have_hex_time_and_suffix() {
    assert_eq!(generate_id_at(0), "sess_0_0000");
    let now: u64 = 0x1234;
    let expected = format!("sess_{:x}_{:04x}", now, (now ^ (now << 13)) % 0xffff);
    assert_eq!(generate_id_at(now), expected);
    assert!(SessionData::generate_id().starts_with("sess_"));
}

#[test]
fn session_list_order_is_latest_first_and_stable() {
    assert_eq!(recent_order(&vec![5, 9, 5, 1, 9]), vec![1, 4, 0, 2, 3]);
    assert_eq!(recent_order(&vec![]), Vec::<usize>::new());
}

#[test]
fn test_store_level_global_runner_lock_rejects_different_sessions() {
    let mut lock = InMemoryLock::new();
    assert!(lock.acquire("sess_a").is_ok());
    match lock.acquire("sess_b") {
        Err(AgentError::SessionLocked(m)) => {
            assert!(m.contains("Another activation (sess_a) is currently running in this store"));
        },
        _ => panic!("expected the lock to be held"),
    }
    lock.release();
    assert!(lock.acquire("sess_b").is_ok());
    assert_eq!(lock.active.as_deref(), Some("sess_b"));
    match lock_file_busy("sess_b") {
        AgentError::SessionLocked(m) => assert!(m.contains("Another activation is currently running in this store")),
        _ => panic!("expected a lock error"),
    }
}

#[test]
fn session_store_paths() {
    assert_eq!(SessionStore::default_dir(), ".ragent/sessions");
    let s = SessionStore::new("base/".to_string());
    assert_eq!(s.base_dir(), "base/");
    assert_eq!(s.session_file_path("abc").unwrap(), "base/abc.json");
}

#[test]
fn session_temp_dir_is_named_after_the_session() {
    let session = SessionData::new("sess_tmp".to_string(), "m".to_string()).unwrap();
    assert_eq!(session.temp_dir(), "/tmp/ragent/sess_tmp");
    assert_eq!(session.temp_dir(), session_tmp_dir("sess_tmp"));
}

#[test]
fn session_store_clone_keeps_its_directory() {
    let store = SessionStore::new("base_dir".to_string());
    let copy = store.clone();
    assert_eq!(copy.base_dir(), "base_dir");
    assert_eq!(store.base_dir(), "base_dir");
}
