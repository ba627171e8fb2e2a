use vstd::prelude::*;
use crate::cli::join;
use crate::item::{clone_parts, output_view, parts_view, ContentPart, FunctionOutput, OutputView};
use crate::json::{JsonValue, JsonView};
use crate::request::ReasoningConfig;
use crate::text::{decimal, push_str, push_u64_decimal};

verus! {

pub const HOOK_AGENT_PREPARE: &'static str = "agent.prepare";
pub const HOOK_INPUT_PREPARE: &'static str = "input.prepare";
pub const HOOK_TURN_PREPARE: &'static str = "turn.prepare";
pub const HOOK_MODEL_REQUEST_PREPARE: &'static str = "model.request.prepare";
pub const HOOK_MODEL_RESPONSE_OBSERVE: &'static str = "model.response.observe";
pub const HOOK_MODEL_RESPONSE_PREPARE: &'static str = "model.response.prepare";
pub const HOOK_TOOL_CALL_PREPARE: &'static str = "tool.call.prepare";
pub const HOOK_TOOLS_CALL: &'static str = "tools.call";
pub const HOOK_TOOL_RESULT_PREPARE: &'static str = "tool.result.prepare";
pub const HOOK_CONTEXT_APPEND_PREPARE: &'static str = "context.append.prepare";
pub const HOOK_TURN_COMPLETE: &'static str = "turn.complete";
pub const HOOK_AGENT_ERROR: &'static str = "agent.error";
pub const HOOK_AGENT_SHUTDOWN: &'static str = "agent.shutdown";

/// How an extension takes part in a hook.
#[derive(Debug, Clone, Copy, PartialEq, Eq, Structural)]
pub enum HookKind {
    /// Rewrites the payload in a chain.
    Transform,
    /// Performs the hook's work; one owner is called.
    Action,
    /// Is told about the payload; its answer is not used.
    Observer,
}

/// What a failing subscriber does to the hook.
#[derive(Debug, Clone, Copy, PartialEq, Eq, Structural)]
pub enum HookFailurePolicy {
    /// The failure fails the hook (the default).
    Abort,
    /// The failing subscriber is passed over.
    Ignore,
}

impl HookFailurePolicy {
    /// The policy a subscription has when it names none.
    pub fn default_policy() -> (r: Self)
        ensures
            r == HookFailurePolicy::Abort,
    {
        HookFailurePolicy::Abort
    }
}

/// One hook that an extension subscribes to.
#[derive(Debug)]
pub struct HookSubscription {
    pub hook: String,
    pub kind: HookKind,
    /// Lower priorities run first.
    pub priority: i32,
    pub failure: HookFailurePolicy,
}

/// What an extension declares about itself.
#[derive(Debug)]
pub struct ExtensionMetadata {
    pub id: String,
    pub version: String,
    pub subscriptions: Vec<HookSubscription>,
}

/// One invocation of a hook, as an extension receives it.
#[derive(Debug)]
pub struct HookRequest {
    pub hook: String,
    pub protocol_version: u32,
    pub invocation_id: u64,
    pub iteration: Option<usize>,
    pub payload: JsonValue,
}

impl HookRequest {
    /// A request of the current protocol version.
    pub fn new(hook: &str, invocation_id: u64, iteration: Option<usize>, payload: JsonValue) -> (r: Self)
        ensures
            r.hook@ == hook@,
            r.protocol_version == 1,
            r.invocation_id == invocation_id,
            r.iteration == iteration,
            r.payload == payload,
    {
        HookRequest {
            hook: hook.to_string(),
            protocol_version: 1,
            invocation_id,
            iteration,
            payload,
        }
    }
}

/// An extension's answer to a hook.
#[derive(Debug, Clone, Copy, PartialEq, Eq, Structural)]
pub enum HookAction {
    Continue,
    Unchanged,
    Reject,
    Skip,
    Stop,
}

/// An extension's answer with its payload and reason.
#[derive(Debug)]
pub struct HookResult {
    pub action: HookAction,
    pub payload: Option<JsonValue>,
    pub reason: Option<String>,
}

/// How the agent loop goes on after a transform chain.
#[derive(Debug, Clone, Copy, PartialEq, Eq, Structural)]
pub enum FlowControl {
    Continue,
    Skip,
    Stop,
}

/// The payload that a transform chain produced and how to go on.
#[derive(Debug)]
pub struct TransformResult {
    pub payload: JsonValue,
    pub control: FlowControl,
}

/// Model parameters that extensions may rewrite. A temperature is carried as
/// the IEEE 754 binary64 encoding of its value.
#[derive(Debug)]
pub struct ModelDraft {
    pub name: String,
    pub temperature_bits: Option<u64>,
    pub max_output_tokens: Option<i32>,
    pub reasoning: Option<ReasoningConfig>,
}

impl ModelDraft {
    /// A draft for `name` with no other parameter set.
    pub fn new(name: String) -> (r: Self)
        ensures
            r.name == name,
            r.temperature_bits is None,
            r.max_output_tokens is None,
            r.reasoning is None,
    {
        ModelDraft { name, temperature_bits: None, max_output_tokens: None, reasoning: None }
    }
}

/// The agent setup that the `agent.prepare` hook rewrites.
#[derive(Debug)]
pub struct AgentDraft {
    pub system_prompt: String,
    pub model: ModelDraft,
    pub tools: Vec<ToolEntry>,
    pub context: Option<JsonValue>,
}

/// A tool of the agent, with the extension that owns it.
#[derive(Debug)]
pub struct ToolEntry {
    pub id: Option<String>,
    pub owner: Option<String>,
    pub enabled: bool,
    pub definition: ToolDefinition,
}

/// What a tool entry is enabled as when it does not say.
pub fn default_true() -> (r: bool)
    ensures
        r,
{
    true
}

/// The answer of an extension asked for its tools.
#[derive(Debug)]
pub struct ToolsListResult {
    pub tools: Vec<ToolDefinition>,
}

/// The model facing description of a tool.
#[derive(Debug)]
pub struct ToolDefinition {
    pub name: String,
    pub description: String,
    pub parameters: JsonValue,
}

/// A call of a tool, as its owner receives it.
#[derive(Debug)]
pub struct ToolCallRequest {
    pub call_id: String,
    pub tool_id: String,
    pub name: String,
    pub arguments: JsonValue,
}

/// What a tool returned: text or content parts.
#[derive(Debug)]
pub enum ToolOutput {
    Text(String),
    Parts(Vec<ContentPart>),
}

/// The text of a part as a tool output shows it.
pub open spec fn part_display_text(p: ContentPart) -> Option<Seq<char>> {
    match p {
        ContentPart::InputText { text } => Some(text@),
        ContentPart::PlainText { text } => Some(text@),
        ContentPart::OutputText { text, .. } => Some(text@),
        _ => None,
    }
}

/// The texts of the parts that have one, in order.
pub open spec fn display_texts(parts: Seq<ContentPart>) -> Seq<Seq<char>>
    decreases parts.len(),
{
    if parts.len() == 0 {
        Seq::empty()
    } else {
        let prev = display_texts(parts.drop_last());
        match part_display_text(parts.last()) {
            Some(t) => prev.push(t),
            None => prev,
        }
    }
}

/// The display text of a tool output: its text; the texts of its parts, one
/// per line; or a count of its parts when none has text.
pub open spec fn tool_output_display(o: ToolOutput) -> Seq<char> {
    match o {
        ToolOutput::Text(t) => t@,
        ToolOutput::Parts(parts) => {
            let texts = display_texts(parts@);
            if texts.len() == 0 {
                "["@ + decimal(parts@.len()) + " content part(s)]"@
            } else {
                join(texts, "\n"@)
            }
        },
    }
}

/// A tool output over mathematical values.
pub open spec fn tool_output_view(o: ToolOutput) -> OutputView {
    match o {
        ToolOutput::Text(t) => OutputView::Text(t@),
        ToolOutput::Parts(p) => OutputView::Content(parts_view(p@)),
    }
}

impl ToolOutput {
    /// The output as one text (see `tool_output_display`).
    pub fn to_display_string(&self) -> (r: String)
        ensures
            r@ == tool_output_display(*self),
    {
        match self {
            ToolOutput::Text(t) => t.clone(),
            ToolOutput::Parts(parts) => {
                let mut out = String::new();
                let mut any = false;
                let mut i: usize = 0;
                while i < parts.len()
                    invariant
                        i <= parts@.len(),
                        any == (display_texts(parts@.subrange(0, i as int)).len() > 0),
                        out@ == join(display_texts(parts@.subrange(0, i as int)), "\n"@),
                    decreases parts@.len() - i,
                {
                    let ghost pre = parts@.subrange(0, i as int);
                    let ghost post = parts@.subrange(0, i + 1);
                    assert(post.drop_last() =~= pre);
                    let t: Option<&str> = match &parts[i] {
                        ContentPart::InputText { text } => Some(text.as_str()),
                        ContentPart::PlainText { text } => Some(text.as_str()),
                        ContentPart::OutputText { text, .. } => Some(text.as_str()),
                        _ => None,
                    };
                    match t {
                        Some(t) => {
                            let ghost prev = display_texts(pre);
                            if any {
                                push_str(&mut out, "\n");
                            }
                            push_str(&mut out, t);
                            any = true;
                            proof {
                                reveal_strlit("\n");
                                let now = prev.push(t@);
                                assert(now.drop_last() =~= prev);
                                if prev.len() == 0 {
                                    assert(out@ =~= join(now, "\n"@));
                                } else {
                                    assert(out@ =~= join(prev, "\n"@) + "\n"@ + t@);
                                }
                            }
                        },
                        None => {},
                    }
                    i = i + 1;
                }
                assert(parts@.subrange(0, parts@.len() as int) =~= parts@);
                if !any {
                    let mut s = String::new();
                    push_str(&mut s, "[");
                    push_u64_decimal(&mut s, parts.len() as u64);
                    push_str(&mut s, " content part(s)]");
                    s
                } else {
                    out
                }
            },
        }
    }

    /// The output as the output of a function call item.
    pub fn to_function_output(&self) -> (r: FunctionOutput)
        ensures
            output_view(r) == tool_output_view(*self),
    {
        match self {
            ToolOutput::Text(t) => FunctionOutput::Text(t.clone()),
            ToolOutput::Parts(p) => FunctionOutput::Content(clone_parts(p)),
        }
    }
}

/// The outcome of a tool call.
#[derive(Debug)]
pub struct ToolResult {
    pub success: bool,
    pub output: ToolOutput,
    pub error: Option<String>,
}

impl ToolResult {
    /// A successful result.
    pub fn ok(output: ToolOutput) -> (r: Self)
        ensures
            r.success,
            r.output == output,
            r.error is None,
    {
        ToolResult { success: true, output, error: None }
    }

    /// A failed result whose output is the error text.
    pub fn err(error: String) -> (r: Self)
        ensures
            !r.success,
            r.output matches ToolOutput::Text(t) && t@ == error@,
            r.error == Some(error),
    {
        let shown = error.clone();
        ToolResult { success: false, output: ToolOutput::Text(shown), error: Some(error) }
    }
}

} // verus!
