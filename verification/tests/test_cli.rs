use ragent::cli::{parse_cli_args, CliCommand};
use ragent::cli_support::{event_progress, resolve_store_path, run_result_text};
use ragent::event::{SessionEvent, SessionEventEnvelope, Usage, InputTokensDetails, OutputTokensDetails};
use ragent::ids::{ActivationId, BatchSeq, EventSeq, SessionId};

#[test]
fn cli_parses_model_override_options() {
    // 1. -m <model>
    let args = vec![
        "ragent".into(),
        "帮我写个脚本".into(),
        "-m".into(),
        "gpt-4o".into(),
    ];
    let parsed = parse_cli_args(&args).unwrap();
    assert_eq!(parsed.custom_model.as_deref(), Some("gpt-4o"));
    match parsed.command {
        CliCommand::RunNew { prompt, .. } => assert_eq!(prompt, "帮我写个脚本"),
        _ => panic!("unexpected command"),
    }

    // 2. -m before prompt
    let args = vec![
        "ragent".into(),
        "-m".into(),
        "gpt-4o-mini".into(),
        "写一个快速排序".into(),
    ];
    let parsed = parse_cli_args(&args).unwrap();
    assert_eq!(parsed.custom_model.as_deref(), Some("gpt-4o-mini"));
    match parsed.command {
        CliCommand::RunNew { prompt, .. } => assert_eq!(prompt, "写一个快速排序"),
        _ => panic!("unexpected command"),
    }

    // 3. --model <model>
    let args = vec![
        "ragent".into(),
        "--model".into(),
        "sonnet-3-5".into(),
        "分析当前目录".into(),
    ];
    let parsed = parse_cli_args(&args).unwrap();
    assert_eq!(parsed.custom_model.as_deref(), Some("sonnet-3-5"));

    // 4. --model=val and -m=val
    let args = vec![
        "ragent".into(),
        "--model=gemini-2.5-pro".into(),
        "测试".into(),
    ];
    let parsed = parse_cli_args(&args).unwrap();
    assert_eq!(parsed.custom_model.as_deref(), Some("gemini-2.5-pro"));

    let args = vec!["ragent".into(), "-m=deepseek-r1".into(), "测试".into()];
    let parsed = parse_cli_args(&args).unwrap();
    assert_eq!(parsed.custom_model.as_deref(), Some("deepseek-r1"));

    // 5. s run with -m and -d
    let args = vec![
        "ragent".into(),
        "s".into(),
        "sess_12345".into(),
        "继续".into(),
        "-m".into(),
        "custom-model".into(),
        "-d".into(),
        "/tmp/store".into(),
    ];
    let parsed = parse_cli_args(&args).unwrap();
    assert_eq!(parsed.custom_model.as_deref(), Some("custom-model"));
    assert_eq!(parsed.custom_dir.as_deref(), Some("/tmp/store"));
    match parsed.command {
        CliCommand::SessionRun { session_id, input } => {
            assert_eq!(session_id, "sess_12345");
            assert_eq!(input, "继续");
        }
        _ => panic!("unexpected command"),
    }

    // 6. s subcommands with -m
    let args = vec![
        "ragent".into(),
        "s".into(),
        "list".into(),
        "-m".into(),
        "gpt-4o".into(),
    ];
    let parsed = parse_cli_args(&args).unwrap();
    assert_eq!(parsed.custom_model.as_deref(), Some("gpt-4o"));
    assert!(matches!(parsed.command, CliCommand::SessionList));

    let args = vec![
        "ragent".into(),
        "s".into(),
        "view".into(),
        "sess_abc".into(),
        "--model=gpt-4o".into(),
    ];
    let parsed = parse_cli_args(&args).unwrap();
    assert_eq!(parsed.custom_model.as_deref(), Some("gpt-4o"));
    match parsed.command {
        CliCommand::SessionShow { session_id } => assert_eq!(session_id, "sess_abc"),
        _ => panic!("unexpected command"),
    }

    // 7. Error cases for -m / --model
    let args = vec!["ragent".into(), "测试".into(), "-m".into()];
    assert!(parse_cli_args(&args).is_err());

    let args = vec!["ragent".into(), "测试".into(), "--model".into()];
    assert!(parse_cli_args(&args).is_err());

    let args = vec!["ragent".into(), "测试".into(), "-m".into(), "".into()];
    assert!(parse_cli_args(&args).is_err());

    let args = vec!["ragent".into(), "测试".into(), "--model=".into()];
    assert!(parse_cli_args(&args).is_err());

    let args = vec!["ragent".into(), "测试".into(), "-m=".into()];
    assert!(parse_cli_args(&args).is_err());
}


#[test]
fn cli_rejects_unknown_session_subcommand_arguments() {
    let args: Vec<String> = vec!["ragent".into(), "s".into(), "view".into()];
    assert!(parse_cli_args(&args).is_err());
    let args: Vec<String> = vec!["ragent".into()];
    let parsed = parse_cli_args(&args).unwrap();
    assert!(matches!(parsed.command, CliCommand::Help));
}

#[test]
fn store_path_resolution() {
    assert_eq!(resolve_store_path(None), ".ragent/store/control.sqlite3");
    assert_eq!(resolve_store_path(Some("/tmp/store".to_string())), "/tmp/store/control.sqlite3");
    assert_eq!(resolve_store_path(Some("/tmp/store/".to_string())), "/tmp/store/control.sqlite3");
    assert_eq!(resolve_store_path(Some("/tmp/a.sqlite3".to_string())), "/tmp/a.sqlite3");
    assert_eq!(resolve_store_path(Some("data/x.db".to_string())), "data/x.db");
    assert_eq!(resolve_store_path(Some("data/.db".to_string())), "data/.db/control.sqlite3");
    assert_eq!(resolve_store_path(Some("x.db/.".to_string())), "x.db/.");
    assert_eq!(resolve_store_path(Some("a/..".to_string())), "a/../control.sqlite3");
}

fn envelope(event: SessionEvent) -> SessionEventEnvelope {
    SessionEventEnvelope::new(
        EventSeq::new(1),
        SessionId::new("sess_x".to_string()),
        Some(ActivationId::new("act_x".to_string())),
        None,
        event,
    )
}

#[test]
fn event_progress_lines() {
    let (t, err) = event_progress(&envelope(SessionEvent::ActivationStarted));
    assert_eq!(t, "[Event] 激活开始执行\n");
    assert!(!err);
    let usage = Usage {
        input_tokens: 10,
        output_tokens: 5,
        total_tokens: 15,
        input_tokens_details: InputTokensDetails { cached_tokens: 0 },
        output_tokens_details: OutputTokensDetails { reasoning_tokens: 0 },
    };
    let (t, _) = event_progress(&envelope(SessionEvent::TurnCompleted {
        response_id: None,
        output_batch_seq: None,
        usage: Some(usage),
    }));
    assert_eq!(t, "[Event] 模型推理完成 (耗费 Token: total=15, in=10, out=5)\n");
    let (t, _) = event_progress(&envelope(SessionEvent::ToolCallFinished {
        call_id: "c1".into(),
        name: "shell".into(),
        success: true,
        duration_ms: Some(12),
        output_batch_seq: BatchSeq::new(3),
    }));
    assert_eq!(t, "[Event] 工具执行完成: shell (success: true, 12ms)\n");
    let (t, err) = event_progress(&envelope(SessionEvent::ActivationFailed { error: "boom".into() }));
    assert_eq!(t, "\n[Event] 激活失败: boom\n");
    assert!(err);
    let (t, _) = event_progress(&envelope(SessionEvent::SessionClosed));
    assert_eq!(t, "");
    assert_eq!(run_result_text(""), "");
    assert_eq!(run_result_text("done"), "\n=== 回答 ===\ndone\n");
}

fn strings(v: &[&str]) -> Vec<String> {
    v.iter().map(|s| s.to_string()).collect()
}

#[test]
fn option_pairs_may_stand_anywhere_between_words() {
    let a = parse_cli_args(&strings(&["ragent", "-m", "m1", "hello", "world"])).unwrap();
    let b = parse_cli_args(&strings(&["ragent", "hello", "-m", "m1", "world"])).unwrap();
    let c = parse_cli_args(&strings(&["ragent", "hello", "world", "-d", "dir", "-m", "m1"])).unwrap();
    let d = parse_cli_args(&strings(&["ragent", "-m", "m1", "-d", "dir", "hello", "world"])).unwrap();
    for p in [&a, &b] {
        assert_eq!(p.custom_model.as_deref(), Some("m1"));
        assert!(matches!(&p.command, CliCommand::RunNew { prompt, .. } if prompt == "hello world"));
    }
    for p in [&c, &d] {
        assert_eq!(p.custom_model.as_deref(), Some("m1"));
        assert_eq!(p.custom_dir.as_deref(), Some("dir"));
        assert!(matches!(&p.command, CliCommand::RunNew { prompt, .. } if prompt == "hello world"));
    }
}
