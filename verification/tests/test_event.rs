use ragent::agent_event::{AgentEvent, ConsoleEventHandler, EventHandler, NoopEventHandler, TokenUsage};
use ragent::event::{InputTokensDetails, OutputTokensDetails, Usage};

#[test]
fn token_usage_aggregation_and_formatting() {
    let mut total = TokenUsage::zero();
    let u1 = TokenUsage::new(100, 50, 150, 30, 20);
    let u2 = TokenUsage::new(200, 80, 280, 50, 40);

    total.add(&u1);
    assert_eq!(total.input_tokens, 100);
    assert_eq!(total.output_tokens, 50);
    assert_eq!(total.total_tokens, 150);
    assert_eq!(total.cached_tokens, 30);
    assert_eq!(total.reasoning_tokens, 20);

    total.add(&u2);
    assert_eq!(total.input_tokens, 300);
    assert_eq!(total.output_tokens, 130);
    assert_eq!(total.total_tokens, 430);
    assert_eq!(total.cached_tokens, 80);
    assert_eq!(total.reasoning_tokens, 60);

    assert_eq!(
        total.formatted_details(),
        "总计: 430 (输入: 300, 输出: 130, 缓存: 80, 思考: 60)"
    );
}

#[test]
fn token_usage_from_response_usage_and_negative_counts() {
    let usage = Usage {
        input_tokens: 7,
        output_tokens: 3,
        total_tokens: 10,
        input_tokens_details: InputTokensDetails { cached_tokens: 2 },
        output_tokens_details: OutputTokensDetails { reasoning_tokens: 1 },
    };
    let t: TokenUsage = TokenUsage::from(usage);
    assert_eq!(t, TokenUsage::new(7, 3, 10, 2, 1));
    assert_eq!(
        TokenUsage::new(-1, 0, -12, 0, 0).formatted_details(),
        "总计: -12 (输入: -1, 输出: 0, 缓存: 0, 思考: 0)"
    );
}

#[test]
fn console_handler_renders_each_event() {
    let h = ConsoleEventHandler::new();
    assert!(h.show_tool_output);
    let r = h.render(&AgentEvent::MessageReceived { content: "hi".into(), is_delayed: true });
    assert_eq!(r.text, "\n>>> 收到 [延时消息]: hi\n");
    assert!(!r.to_stderr);
    let r = h.render(&AgentEvent::TurnStarted { iteration: 3 });
    assert_eq!(r.text, "\n--- [Agent 轮次 3] 模型思考/回复中 ---\n");
    let r = h.render(&AgentEvent::TurnCompleted {
        iteration: 1,
        text: "answer".into(),
        reasoning: Some("  why \n".into()),
        usage: Some(TokenUsage::new(1, 2, 3, 0, 0)),
    });
    assert_eq!(
        r.text,
        "\n--- [思考摘要] ---:\nwhy\n--- [摘要结束] ---\nanswer\n[Token 用量] 总计: 3 (输入: 1, 输出: 2, 缓存: 0, 思考: 0)\n"
    );
    let r = h.render(&AgentEvent::TurnCompleted { iteration: 1, text: String::new(), reasoning: Some("   ".into()), usage: None });
    assert_eq!(r.text, "\n");
    let r = h.render(&AgentEvent::ToolCallStarted { call_id: "c".into(), tool_name: "shell".into(), arguments: " {\"a\":1} ".into() });
    assert_eq!(r.text, "\n[Tool 准备执行] -> 工具: shell | 参数: {\"a\":1}\n");
    let long: String = std::iter::repeat('x').take(305).collect();
    let r = h.render(&AgentEvent::ToolCallFinished {
        call_id: "c".into(),
        tool_name: "shell".into(),
        output: long,
        is_error: false,
        duration_ms: 42,
    });
    let expected = format!(
        "[Tool 执行完成] -> 工具: shell (成功 - 42ms)\n[Tool 输出预览]:\n{}... (共 305 字符)\n",
        "x".repeat(300)
    );
    assert_eq!(r.text, expected);
    let quiet = ConsoleEventHandler { show_tool_output: false };
    let r = quiet.render(&AgentEvent::ToolCallFinished {
        call_id: "c".into(),
        tool_name: "t".into(),
        output: "ignored".into(),
        is_error: true,
        duration_ms: 1,
    });
    assert_eq!(r.text, "[Tool 执行完成] -> 工具: t (失败 - 1ms)\n");
    let r = h.render(&AgentEvent::RoundCompleted { iteration: 2, usage: None, total_usage: None });
    assert_eq!(r.text, "=== [轮次 2 完成] ===\n\n");
    let r = h.render(&AgentEvent::AgentFinished { total_usage: Some(TokenUsage::new(1, 1, 2, 0, 0)) });
    assert_eq!(r.text, "\n=== Agent 执行流程结束 ===\n[Token 总量] 总计: 2 (输入: 1, 输出: 1, 缓存: 0, 思考: 0)\n");
    let r = h.render(&AgentEvent::Error { error: "bad".into() });
    assert_eq!(r.text, "\n[Agent 错误]: bad\n");
    assert!(r.to_stderr);
    NoopEventHandler.on_event(&AgentEvent::Error { error: "ignored".into() });
}
