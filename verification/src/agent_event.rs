use vstd::prelude::*;
use crate::cli::{trim_chars, trim_str, trimmed};
use crate::event::Usage;
use crate::text::{decimal, push_i64_decimal, push_str, push_u64_decimal, signed_decimal, str_chars};

verus! {

/// Token counts of a request or of a whole run.
#[derive(Debug, Clone, Copy, PartialEq, Eq, Structural)]
pub struct TokenUsage {
    pub input_tokens: i32,
    pub output_tokens: i32,
    pub total_tokens: i32,
    /// Input tokens served from the cache.
    pub cached_tokens: i32,
    /// Output tokens spent on reasoning.
    pub reasoning_tokens: i32,
}

/// The token counts of a model response's usage.
pub open spec fn usage_tokens(u: Usage) -> TokenUsage {
    TokenUsage {
        input_tokens: u.input_tokens,
        output_tokens: u.output_tokens,
        total_tokens: u.total_tokens,
        cached_tokens: u.input_tokens_details.cached_tokens,
        reasoning_tokens: u.output_tokens_details.reasoning_tokens,
    }
}

/// The field-wise sum of two usages fits in `i32`.
pub open spec fn sum_fits(a: TokenUsage, b: TokenUsage) -> bool {
    &&& i32::MIN <= a.input_tokens + b.input_tokens <= i32::MAX
    &&& i32::MIN <= a.output_tokens + b.output_tokens <= i32::MAX
    &&& i32::MIN <= a.total_tokens + b.total_tokens <= i32::MAX
    &&& i32::MIN <= a.cached_tokens + b.cached_tokens <= i32::MAX
    &&& i32::MIN <= a.reasoning_tokens + b.reasoning_tokens <= i32::MAX
}

/// The field-wise sum of two usages.
pub open spec fn usage_sum(a: TokenUsage, b: TokenUsage) -> TokenUsage {
    TokenUsage {
        input_tokens: (a.input_tokens + b.input_tokens) as i32,
        output_tokens: (a.output_tokens + b.output_tokens) as i32,
        total_tokens: (a.total_tokens + b.total_tokens) as i32,
        cached_tokens: (a.cached_tokens + b.cached_tokens) as i32,
        reasoning_tokens: (a.reasoning_tokens + b.reasoning_tokens) as i32,
    }
}

/// The display form "总计: T (输入: I, 输出: O, 缓存: C, 思考: R)".
pub open spec fn usage_details(u: TokenUsage) -> Seq<char> {
    "总计: "@ + signed_decimal(u.total_tokens as int) + " (输入: "@ + signed_decimal(
        u.input_tokens as int,
    ) + ", 输出: "@ + signed_decimal(u.output_tokens as int) + ", 缓存: "@ + signed_decimal(
        u.cached_tokens as int,
    ) + ", 思考: "@ + signed_decimal(u.reasoning_tokens as int) + ")"@
}

impl TokenUsage {
    pub fn new(
        input_tokens: i32,
        output_tokens: i32,
        total_tokens: i32,
        cached_tokens: i32,
        reasoning_tokens: i32,
    ) -> (r: Self)
        ensures
            r == (TokenUsage { input_tokens, output_tokens, total_tokens, cached_tokens, reasoning_tokens }),
    {
        TokenUsage { input_tokens, output_tokens, total_tokens, cached_tokens, reasoning_tokens }
    }

    /// All counts zero.
    pub fn zero() -> (r: Self)
        ensures
            r == (TokenUsage { input_tokens: 0, output_tokens: 0, total_tokens: 0, cached_tokens: 0, reasoning_tokens: 0 }),
    {
        TokenUsage { input_tokens: 0, output_tokens: 0, total_tokens: 0, cached_tokens: 0, reasoning_tokens: 0 }
    }

    /// The counts of a model response's usage.
    pub fn from_usage(u: &Usage) -> (r: Self)
        ensures
            r == usage_tokens(*u),
    {
        TokenUsage {
            input_tokens: u.input_tokens,
            output_tokens: u.output_tokens,
            total_tokens: u.total_tokens,
            cached_tokens: u.input_tokens_details.cached_tokens,
            reasoning_tokens: u.output_tokens_details.reasoning_tokens,
        }
    }

    /// Whether `rhs` can be added to these counts without leaving `i32`.
    pub fn can_add(&self, rhs: &TokenUsage) -> (r: bool)
        ensures
            r == sum_fits(*self, *rhs),
    {
        let min: i64 = i32::MIN as i64;
        let max: i64 = i32::MAX as i64;
        let a: i64 = self.input_tokens as i64 + rhs.input_tokens as i64;
        let b: i64 = self.output_tokens as i64 + rhs.output_tokens as i64;
        let c: i64 = self.total_tokens as i64 + rhs.total_tokens as i64;
        let d: i64 = self.cached_tokens as i64 + rhs.cached_tokens as i64;
        let e: i64 = self.reasoning_tokens as i64 + rhs.reasoning_tokens as i64;
        min <= a && a <= max && min <= b && b <= max && min <= c && c <= max && min <= d && d <= max && min <= e
            && e <= max
    }

    /// Adds `rhs` field by field.
    pub fn add(&mut self, rhs: &TokenUsage)
        requires
            sum_fits(*old(self), *rhs),
        ensures
            *final(self) == usage_sum(*old(self), *rhs),
    {
        self.input_tokens = self.input_tokens + rhs.input_tokens;
        self.output_tokens = self.output_tokens + rhs.output_tokens;
        self.total_tokens = self.total_tokens + rhs.total_tokens;
        self.cached_tokens = self.cached_tokens + rhs.cached_tokens;
        self.reasoning_tokens = self.reasoning_tokens + rhs.reasoning_tokens;
    }

    /// The display form (see `usage_details`).
    pub fn formatted_details(&self) -> (r: String)
        ensures
            r@ == usage_details(*self),
    {
        let mut s = String::new();
        push_str(&mut s, "总计: ");
        push_i64_decimal(&mut s, self.total_tokens as i64);
        push_str(&mut s, " (输入: ");
        push_i64_decimal(&mut s, self.input_tokens as i64);
        push_str(&mut s, ", 输出: ");
        push_i64_decimal(&mut s, self.output_tokens as i64);
        push_str(&mut s, ", 缓存: ");
        push_i64_decimal(&mut s, self.cached_tokens as i64);
        push_str(&mut s, ", 思考: ");
        push_i64_decimal(&mut s, self.reasoning_tokens as i64);
        push_str(&mut s, ")");
        proof {
            assert(s@ =~= usage_details(*self));
        }
        s
    }
}

impl From<Usage> for TokenUsage {
    fn from(u: Usage) -> (r: Self) {
        TokenUsage::from_usage(&u)
    }
}

impl vstd::std_specs::convert::FromSpecImpl<Usage> for TokenUsage {
    open spec fn obeys_from_spec() -> bool {
        true
    }

    open spec fn from_spec(u: Usage) -> TokenUsage {
        usage_tokens(u)
    }
}

/// What happens during a run of the agent, as its handlers see it.
#[derive(Debug)]
pub enum AgentEvent {
    MessageReceived { content: String, is_delayed: bool },
    TurnStarted { iteration: usize },
    TurnCompleted { iteration: usize, text: String, reasoning: Option<String>, usage: Option<TokenUsage> },
    ToolCallStarted { call_id: String, tool_name: String, arguments: String },
    ToolCallFinished { call_id: String, tool_name: String, output: String, is_error: bool, duration_ms: u128 },
    RoundCompleted { iteration: usize, usage: Option<TokenUsage>, total_usage: Option<TokenUsage> },
    AgentFinished { total_usage: Option<TokenUsage> },
    Error { error: String },
}

/// Receives the events of a run.
pub trait EventHandler {
    fn on_event(&self, event: &AgentEvent);
}

/// A handler that ignores every event.
pub struct NoopEventHandler;

impl EventHandler for NoopEventHandler {
    fn on_event(&self, event: &AgentEvent) {
    }
}

/// Text for people, one block per event; tool output is previewed when
/// `show_tool_output` is set.
pub struct ConsoleEventHandler {
    pub show_tool_output: bool,
}

/// The text that the console handler writes for an event, and whether it
/// goes to the error stream.
pub struct ConsoleText {
    pub text: String,
    pub to_stderr: bool,
}

/// The longest prefix of tool output that is shown.
pub const PREVIEW_CHARS: usize = 300;

/// The preview of a tool output: the first 300 characters trimmed, with an
/// ellipsis and the total count when the output is longer; else all of it
/// trimmed.
pub open spec fn output_preview(output: Seq<char>) -> Seq<char> {
    if output.len() > 300 {
        trimmed(output.subrange(0, 300)) + "... (共 "@ + decimal(output.len()) + " 字符)"@
    } else {
        trimmed(output)
    }
}

/// The text the console handler writes for `e`.
pub open spec fn console_text(show_tool_output: bool, e: AgentEvent) -> Seq<char> {
    match e {
        AgentEvent::MessageReceived { content, is_delayed } => "\n>>> 收到 "@ + (if is_delayed {
            "[延时消息]"@
        } else {
            "[及时消息]"@
        }) + ": "@ + content@ + "\n"@,
        AgentEvent::TurnStarted { iteration } => "\n--- [Agent 轮次 "@ + decimal(iteration as nat)
            + "] 模型思考/回复中 ---\n"@,
        AgentEvent::TurnCompleted { text, reasoning, usage, .. } => (match reasoning {
            Some(r) => if trimmed(r@).len() > 0 {
                "\n--- [思考摘要] ---:\n"@ + trimmed(r@) + "\n--- [摘要结束] ---\n"@
            } else {
                Seq::empty()
            },
            None => Seq::empty(),
        }) + (if text@.len() > 0 {
            text@ + "\n"@
        } else {
            "\n"@
        }) + (match usage {
            Some(u) => "[Token 用量] "@ + usage_details(u) + "\n"@,
            None => Seq::empty(),
        }),
        AgentEvent::ToolCallStarted { tool_name, arguments, .. } => "\n[Tool 准备执行] -> 工具: "@
            + tool_name@ + " | 参数: "@ + trimmed(arguments@) + "\n"@,
        AgentEvent::ToolCallFinished { tool_name, output, is_error, duration_ms, .. } => "[Tool 执行完成] -> 工具: "@
            + tool_name@ + " ("@ + (if is_error {
            "失败"@
        } else {
            "成功"@
        }) + " - "@ + decimal(duration_ms as nat) + "ms)\n"@ + (if show_tool_output {
            "[Tool 输出预览]:\n"@ + output_preview(output@) + "\n"@
        } else {
            Seq::empty()
        }),
        AgentEvent::RoundCompleted { iteration, total_usage, .. } => "=== [轮次 "@ + decimal(
            iteration as nat,
        ) + " 完成] ===\n"@ + (match total_usage {
            Some(t) => "[Token 累计] "@ + usage_details(t) + "\n\n"@,
            None => "\n"@,
        }),
        AgentEvent::AgentFinished { total_usage } => "\n=== Agent 执行流程结束 ===\n"@ + (match total_usage {
            Some(t) => "[Token 总量] "@ + usage_details(t) + "\n"@,
            None => Seq::empty(),
        }),
        AgentEvent::Error { error } => "\n[Agent 错误]: "@ + error@ + "\n"@,
    }
}

fn push_u128_decimal(s: &mut String, n: u128)
    ensures
        final(s)@ == old(s)@ + decimal(n as nat),
    decreases n,
{
    if n < 10 {
        push_u64_decimal(s, n as u64);
    } else {
        push_u128_decimal(s, n / 10);
        push_u64_decimal(s, (n % 10) as u64);
        assert(decimal((n % 10) as nat) == seq![crate::text::digit_char((n % 10) as nat)]);
        assert(old(s)@ + decimal((n / 10) as nat) + decimal((n % 10) as nat) =~= old(s)@ + decimal(n as nat));
    }
}

/// Appends the preview of a tool output.
fn push_preview(s: &mut String, output: &str)
    ensures
        final(s)@ == old(s)@ + output_preview(output@),
{
    let cs = str_chars(output);
    if cs.len() > PREVIEW_CHARS {
        let head = trim_chars(&cs.as_slice()[0..300]);
        push_str(s, head.as_str());
        push_str(s, "... (共 ");
        push_u64_decimal(s, cs.len() as u64);
        push_str(s, " 字符)");
        proof {
            assert(old(s)@ + trimmed(cs@.subrange(0, 300)) + "... (共 "@ + decimal(cs@.len()) + " 字符)"@
                =~= old(s)@ + output_preview(output@));
        }
    } else {
        let t = trim_chars(cs.as_slice());
        push_str(s, t.as_str());
    }
}

impl ConsoleEventHandler {
    pub fn new() -> (r: Self)
        ensures
            r.show_tool_output,
    {
        ConsoleEventHandler { show_tool_output: true }
    }

    /// What the handler writes for `event`: to the error stream for errors,
    /// to the output stream otherwise.
    pub fn render(&self, event: &AgentEvent) -> (r: ConsoleText)
        ensures
            r.text@ == console_text(self.show_tool_output, *event),
            r.to_stderr == (*event is Error),
    {
        let mut s = String::new();
        let mut to_stderr = false;
        match event {
            AgentEvent::MessageReceived { content, is_delayed } => {
                push_str(&mut s, "\n>>> 收到 ");
                push_str(&mut s, if *is_delayed { "[延时消息]" } else { "[及时消息]" });
                push_str(&mut s, ": ");
                push_str(&mut s, content.as_str());
                push_str(&mut s, "\n");
            },
            AgentEvent::TurnStarted { iteration } => {
                push_str(&mut s, "\n--- [Agent 轮次 ");
                push_u64_decimal(&mut s, *iteration as u64);
                push_str(&mut s, "] 模型思考/回复中 ---\n");
            },
            AgentEvent::TurnCompleted { text, reasoning, usage, .. } => {
                match reasoning {
                    Some(r) => {
                        let t = trim_str(r.as_str());
                        if t.as_str().unicode_len() > 0 {
                            push_str(&mut s, "\n--- [思考摘要] ---:\n");
                            push_str(&mut s, t.as_str());
                            push_str(&mut s, "\n--- [摘要结束] ---\n");
                        }
                    },
                    None => {},
                }
                let ghost after_reasoning = s@;
                if text.as_str().unicode_len() > 0 {
                    push_str(&mut s, text.as_str());
                }
                push_str(&mut s, "\n");
                let ghost after_text = s@;
                match usage {
                    Some(u) => {
                        push_str(&mut s, "[Token 用量] ");
                        let d = u.formatted_details();
                        push_str(&mut s, d.as_str());
                        push_str(&mut s, "\n");
                    },
                    None => {},
                }
            },
            AgentEvent::ToolCallStarted { tool_name, arguments, .. } => {
                push_str(&mut s, "\n[Tool 准备执行] -> 工具: ");
                push_str(&mut s, tool_name.as_str());
                push_str(&mut s, " | 参数: ");
                let a = trim_str(arguments.as_str());
                push_str(&mut s, a.as_str());
                push_str(&mut s, "\n");
            },
            AgentEvent::ToolCallFinished { tool_name, output, is_error, duration_ms, .. } => {
                push_str(&mut s, "[Tool 执行完成] -> 工具: ");
                push_str(&mut s, tool_name.as_str());
                push_str(&mut s, " (");
                push_str(&mut s, if *is_error { "失败" } else { "成功" });
                push_str(&mut s, " - ");
                push_u128_decimal(&mut s, *duration_ms);
                push_str(&mut s, "ms)\n");
                if self.show_tool_output {
                    push_str(&mut s, "[Tool 输出预览]:\n");
                    push_preview(&mut s, output.as_str());
                    push_str(&mut s, "\n");
                }
            },
            AgentEvent::RoundCompleted { iteration, total_usage, .. } => {
                push_str(&mut s, "=== [轮次 ");
                push_u64_decimal(&mut s, *iteration as u64);
                push_str(&mut s, " 完成] ===\n");
                match total_usage {
                    Some(t) => {
                        push_str(&mut s, "[Token 累计] ");
                        let d = t.formatted_details();
                        push_str(&mut s, d.as_str());
                        push_str(&mut s, "\n\n");
                    },
                    None => push_str(&mut s, "\n"),
                }
            },
            AgentEvent::AgentFinished { total_usage } => {
                push_str(&mut s, "\n=== Agent 执行流程结束 ===\n");
                match total_usage {
                    Some(t) => {
                        push_str(&mut s, "[Token 总量] ");
                        let d = t.formatted_details();
                        push_str(&mut s, d.as_str());
                        push_str(&mut s, "\n");
                    },
                    None => {},
                }
            },
            AgentEvent::Error { error } => {
                push_str(&mut s, "\n[Agent 错误]: ");
                push_str(&mut s, error.as_str());
                push_str(&mut s, "\n");
                to_stderr = true;
            },
        }
        proof {
            assert(s@ =~= console_text(self.show_tool_output, *event));
        }
        ConsoleText { text: s, to_stderr }
    }
}

} // verus!
