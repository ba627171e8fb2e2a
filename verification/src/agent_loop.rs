use vstd::prelude::*;
use crate::agent_core::{call_view, step_calls, AgentFunctionCall, ModelResponse, ResponseStatus};
use crate::agent_event::{sum_fits, usage_sum, AgentEvent, TokenUsage};
use crate::cli::{blank, is_blank, join};
use crate::config::AgentConfig;
use crate::error::AgentError;
use crate::hooks::{AgentDraft, FlowControl, ModelDraft, ToolCallRequest, ToolEntry, ToolResult, TransformResult};
use crate::item::{ContentPart, FunctionOutput, Item, MessageRole};
use crate::json::{clone_json, field, json_get, json_view, json_views, lemma_json_views_index, JsonNumber, JsonValue, JsonView, NumberView};
use crate::request::ModelRequest;
use crate::runner::{offered, request_tools};
use crate::text::push_str;

verus! {

/// The system prompt an agent starts from before extensions change it.
pub const AGENT_SYSTEM_PROMPT: &'static str = "你是一个高效、精准、善于深度思考的 AI 智能体助手";

/// The hook that sees every commit to an agent's context.
pub const HOOK_CONTEXT_COMMIT: &'static str = "context.commit";

// ---------------------------------------------------------------------------
// Small JSON objects

fn object2(k0: String, v0: JsonValue, k1: String, v1: JsonValue) -> (r: JsonValue)
    ensures
        json_view(r) == JsonView::Object(seq![(k0@, json_view(v0)), (k1@, json_view(v1))]),
{
    let ghost e0 = (k0@, json_view(v0));
    let ghost e1 = (k1@, json_view(v1));
    let mut m: Vec<(String, JsonValue)> = Vec::new();
    m.push((k0, v0));
    m.push((k1, v1));
    proof {
        assert(crate::json::member_views(m@, 0) =~= Seq::<(Seq<char>, JsonView)>::empty());
        assert(crate::json::member_views(m@, 1) =~= seq![e0]);
        assert(crate::json::member_views(m@, 2) =~= seq![e0, e1]);
    }
    JsonValue::Object(m)
}

fn object3(k0: String, v0: JsonValue, k1: String, v1: JsonValue, k2: String, v2: JsonValue) -> (r: JsonValue)
    ensures
        json_view(r) == JsonView::Object(
            seq![(k0@, json_view(v0)), (k1@, json_view(v1)), (k2@, json_view(v2))],
        ),
{
    let ghost e0 = (k0@, json_view(v0));
    let ghost e1 = (k1@, json_view(v1));
    let ghost e2 = (k2@, json_view(v2));
    let mut m: Vec<(String, JsonValue)> = Vec::new();
    m.push((k0, v0));
    m.push((k1, v1));
    m.push((k2, v2));
    proof {
        assert(crate::json::member_views(m@, 0) =~= Seq::<(Seq<char>, JsonView)>::empty());
        assert(crate::json::member_views(m@, 1) =~= seq![e0]);
        assert(crate::json::member_views(m@, 2) =~= seq![e0, e1]);
        assert(crate::json::member_views(m@, 3) =~= seq![e0, e1, e2]);
    }
    JsonValue::Object(m)
}

// ---------------------------------------------------------------------------
// Start-up

pub open spec fn unconfigured_model_text() -> Seq<char> {
    "model name is not configured. Please specify [model] name in config.toml"@
}

/// An agent needs a model name.
pub fn check_agent_model(config: &AgentConfig) -> (r: Result<(), AgentError>)
    ensures
        !blank(config.model@) ==> r is Ok,
        blank(config.model@) ==> (r matches Err(AgentError::ToolError(m)) && m@ == unconfigured_model_text()),
{
    if is_blank(config.model.as_str()) {
        let m = String::from_str("model name is not configured. Please specify [model] name in config.toml");
        proof {
            reveal_strlit("model name is not configured. Please specify [model] name in config.toml");
        }
        return Err(AgentError::ToolError(m));
    }
    Ok(())
}

/// The draft an agent hands `agent.prepare`: the default prompt, the
/// configured model parameters and no tools.
pub fn agent_base_draft(config: &AgentConfig) -> (r: AgentDraft)
    ensures
        r.system_prompt@ == AGENT_SYSTEM_PROMPT@,
        r.model == (ModelDraft {
            name: config.model,
            temperature_bits: config.temperature_bits,
            max_output_tokens: config.max_output_tokens,
            reasoning: config.reasoning,
        }),
        r.tools@.len() == 0,
        r.context is None,
{
    AgentDraft {
        system_prompt: AGENT_SYSTEM_PROMPT.to_string(),
        model: ModelDraft {
            name: config.model.clone(),
            temperature_bits: config.temperature_bits,
            max_output_tokens: config.max_output_tokens,
            reasoning: config.reasoning,
        },
        tools: Vec::new(),
        context: None,
    }
}

pub open spec fn init_stopped_text() -> Seq<char> {
    "agent initialization was skipped or stopped"@
}

/// `agent.prepare` must let the agent start.
pub fn check_init_control(control: FlowControl) -> (r: Result<(), AgentError>)
    ensures
        control == FlowControl::Continue ==> r is Ok,
        control != FlowControl::Continue ==> (r matches Err(AgentError::HookRejected { hook, reason }) && hook@
            == crate::hooks::HOOK_AGENT_PREPARE@ && reason@ == init_stopped_text()),
{
    if control == FlowControl::Continue {
        return Ok(());
    }
    let reason = String::from_str("agent initialization was skipped or stopped");
    proof {
        reveal_strlit("agent initialization was skipped or stopped");
    }
    Err(AgentError::HookRejected { hook: crate::hooks::HOOK_AGENT_PREPARE.to_string(), reason })
}

/// The configuration after the prepared draft: its model and parameters.
pub fn config_from_draft(config: AgentConfig, draft: &AgentDraft) -> (r: AgentConfig)
    ensures
        r == (AgentConfig {
            model: draft.model.name,
            temperature_bits: draft.model.temperature_bits,
            max_output_tokens: draft.model.max_output_tokens,
            reasoning: draft.model.reasoning,
            ..config
        }),
{
    AgentConfig {
        model: draft.model.name.clone(),
        temperature_bits: draft.model.temperature_bits,
        max_output_tokens: draft.model.max_output_tokens,
        reasoning: draft.model.reasoning,
        ..config
    }
}

// ---------------------------------------------------------------------------
// Flow control

/// What the loop does after a chain ended with a flow control.
#[derive(Debug, Clone, Copy, PartialEq, Eq, Structural)]
pub enum LoopMove {
    /// Go on with this turn.
    Proceed,
    /// Leave this turn and start the next one.
    NextTurn,
    /// End the run.
    Stop,
}

pub fn flow_move(control: FlowControl) -> (r: LoopMove)
    ensures
        r == (match control {
            FlowControl::Continue => LoopMove::Proceed,
            FlowControl::Skip => LoopMove::NextTurn,
            FlowControl::Stop => LoopMove::Stop,
        }),
{
    match control {
        FlowControl::Continue => LoopMove::Proceed,
        FlowControl::Skip => LoopMove::NextTurn,
        FlowControl::Stop => LoopMove::Stop,
    }
}

// ---------------------------------------------------------------------------
// Input

/// The `input.prepare` payload of an input text.
pub fn input_payload(text: String, delayed: bool) -> (r: JsonValue)
    ensures
        json_view(r) == JsonView::Object(
            seq![("delayed"@, JsonView::Bool(delayed)), ("text"@, JsonView::String(text@))],
        ),
{
    proof {
        reveal_strlit("delayed");
        reveal_strlit("text");
    }
    object2("delayed".to_string(), JsonValue::Bool(delayed), "text".to_string(), JsonValue::String(text))
}

/// What becomes of an input once `input.prepare` ran.
#[derive(Debug)]
pub enum InputDecision {
    /// Commit a user message with this text.
    Commit(String),
    /// Drop the input.
    Skip,
    /// End the run.
    Stop,
}

pub open spec fn no_text_field_text() -> Seq<char> {
    "input.prepare must return a string field 'text'"@
}

/// The input to commit after `input.prepare`, if any.
pub fn input_decision(result: &TransformResult) -> (r: Result<InputDecision, AgentError>)
    ensures
        result.control == FlowControl::Stop ==> r matches Ok(InputDecision::Stop),
        result.control == FlowControl::Skip ==> r matches Ok(InputDecision::Skip),
        result.control == FlowControl::Continue ==> match field(json_view(result.payload), "text"@) {
            Some(JsonView::String(t)) => r matches Ok(InputDecision::Commit(s)) && s@ == t,
            _ => r matches Err(AgentError::ToolError(m)) && m@ == no_text_field_text(),
        },
{
    match result.control {
        FlowControl::Stop => Ok(InputDecision::Stop),
        FlowControl::Skip => Ok(InputDecision::Skip),
        FlowControl::Continue => {
            proof {
                reveal_strlit("text");
            }
            match json_get(&result.payload, "text") {
                Some(JsonValue::String(t)) => Ok(InputDecision::Commit(t.clone())),
                _ => {
                    let m = String::from_str("input.prepare must return a string field 'text'");
                    proof {
                        reveal_strlit("input.prepare must return a string field 'text'");
                    }
                    Err(AgentError::ToolError(m))
                },
            }
        },
    }
}

// ---------------------------------------------------------------------------
// The context view offered to `turn.prepare`

pub open spec fn role_name(r: MessageRole) -> Seq<char> {
    match r {
        MessageRole::User => "user"@,
        MessageRole::Assistant => "assistant"@,
        MessageRole::System => "system"@,
        MessageRole::Developer => "developer"@,
    }
}

/// The text a message part shows in the context view, if any.
pub open spec fn view_part_text(p: ContentPart) -> Option<Seq<char>> {
    match p {
        ContentPart::InputText { text } => Some(text@),
        ContentPart::OutputText { text, .. } => Some(text@),
        ContentPart::PlainText { text } => Some(text@),
        ContentPart::Refusal { refusal } => Some(refusal@),
        _ => None,
    }
}

pub open spec fn view_part_texts(parts: Seq<ContentPart>) -> Seq<Seq<char>>
    decreases parts.len(),
{
    if parts.len() == 0 {
        Seq::empty()
    } else {
        let prev = view_part_texts(parts.drop_last());
        match view_part_text(parts.last()) {
            Some(t) => prev.push(t),
            None => prev,
        }
    }
}

/// A message as the context view shows it.
pub open spec fn message_entry(role: MessageRole, parts: Seq<ContentPart>) -> JsonView {
    JsonView::Object(
        seq![
            ("content"@, JsonView::String(join(view_part_texts(parts), "\n"@))),
            ("role"@, JsonView::String(role_name(role))),
        ],
    )
}

/// The messages of `items`, in order, as the context view shows them.
pub open spec fn view_messages(items: Seq<Item>) -> Seq<JsonView>
    decreases items.len(),
{
    if items.len() == 0 {
        Seq::empty()
    } else {
        let prev = view_messages(items.drop_last());
        match items.last() {
            Item::Message { role, content, .. } => prev.push(message_entry(role, content@)),
            _ => prev,
        }
    }
}

/// The summary of a context that `turn.prepare` sees beside its items.
pub open spec fn context_view_spec(items: Seq<Item>) -> JsonView {
    JsonView::Object(
        seq![
            ("items_count"@, JsonView::Number(NumberView::PosInt(items.len() as u64))),
            ("recent_messages"@, JsonView::Array(view_messages(items))),
        ],
    )
}

fn view_text(parts: &Vec<ContentPart>) -> (r: String)
    ensures
        r@ == join(view_part_texts(parts@), "\n"@),
{
    let mut out = String::new();
    let mut any = false;
    let mut i: usize = 0;
    while i < parts.len()
        invariant
            i <= parts@.len(),
            any == (view_part_texts(parts@.subrange(0, i as int)).len() > 0),
            out@ == join(view_part_texts(parts@.subrange(0, i as int)), "\n"@),
        decreases parts@.len() - i,
    {
        let ghost pre = parts@.subrange(0, i as int);
        let ghost post = parts@.subrange(0, i + 1);
        assert(post.drop_last() =~= pre);
        let t: Option<&str> = match &parts[i] {
            ContentPart::InputText { text } => Some(text.as_str()),
            ContentPart::OutputText { text, .. } => Some(text.as_str()),
            ContentPart::PlainText { text } => Some(text.as_str()),
            ContentPart::Refusal { refusal } => Some(refusal.as_str()),
            _ => None,
        };
        match t {
            Some(t) => {
                let ghost prev = view_part_texts(pre);
                if any {
                    push_str(&mut out, "\n");
                }
                push_str(&mut out, t);
                any = true;
                proof {
                    reveal_strlit("\n");
                    let now = prev.push(t@);
                    assert(now.drop_last() =~= prev);
                    assert(out@ =~= join(now, "\n"@));
                }
            },
            None => {},
        }
        i = i + 1;
    }
    assert(parts@.subrange(0, parts@.len() as int) =~= parts@);
    out
}

fn role_text(r: MessageRole) -> (s: String)
    ensures
        s@ == role_name(r),
{
    match r {
        MessageRole::User => {
            proof { reveal_strlit("user"); }
            String::from_str("user")
        },
        MessageRole::Assistant => {
            proof { reveal_strlit("assistant"); }
            String::from_str("assistant")
        },
        MessageRole::System => {
            proof { reveal_strlit("system"); }
            String::from_str("system")
        },
        MessageRole::Developer => {
            proof { reveal_strlit("developer"); }
            String::from_str("developer")
        },
    }
}

fn message_entry_json(role: MessageRole, parts: &Vec<ContentPart>) -> (r: JsonValue)
    ensures
        json_view(r) == message_entry(role, parts@),
{
    proof {
        reveal_strlit("content");
        reveal_strlit("role");
    }
    object2(
        "content".to_string(),
        JsonValue::String(view_text(parts)),
        "role".to_string(),
        JsonValue::String(role_text(role)),
    )
}

/// The summary of a context that `turn.prepare` sees: the number of items
/// and each message with its role and text.
pub fn context_view(items: &[Item]) -> (r: JsonValue)
    ensures
        json_view(r) == context_view_spec(items@),
{
    let mut recent: Vec<JsonValue> = Vec::new();
    let mut i: usize = 0;
    while i < items.len()
        invariant
            i <= items@.len(),
            recent@.len() == view_messages(items@.subrange(0, i as int)).len(),
            forall|k: int| 0 <= k < recent@.len() ==> json_view(#[trigger] recent@[k]) == view_messages(
                items@.subrange(0, i as int),
            )[k],
        decreases items@.len() - i,
    {
        let ghost pre = items@.subrange(0, i as int);
        let ghost post = items@.subrange(0, i + 1);
        assert(post.drop_last() =~= pre);
        let ghost before = recent@;
        match &items[i] {
            Item::Message { role, content, .. } => {
                let e = message_entry_json(*role, content);
                recent.push(e);
                proof {
                    assert forall|k: int| 0 <= k < recent@.len() implies json_view(#[trigger] recent@[k])
                        == view_messages(post)[k] by {
                        if k < before.len() {
                            assert(recent@[k] == before[k]);
                        }
                    }
                }
            },
            _ => {},
        }
        i = i + 1;
    }
    assert(items@.subrange(0, items@.len() as int) =~= items@);
    proof {
        lemma_json_views_index(recent@, recent@.len());
        assert(json_views(recent@, recent@.len()) =~= view_messages(items@));
    }
    let count = items.len() as u64;
    proof {
        reveal_strlit("items_count");
        reveal_strlit("recent_messages");
    }
    object2(
        "items_count".to_string(),
        JsonValue::Number(JsonNumber::PosInt(count)),
        "recent_messages".to_string(),
        JsonValue::Array(recent),
    )
}

// ---------------------------------------------------------------------------
// The run

/// The state of an agent run that outlives a turn.
#[derive(Debug)]
pub struct AgentRun {
    /// Turns started so far.
    pub iteration: usize,
    /// The last non-empty text the model answered.
    pub last_response_text: String,
    /// Token usage summed over the turns.
    pub total_usage: TokenUsage,
}

/// Whether a run that started `iteration` turns may start another under
/// `max_iterations`; a limit of 0 leaves the loop unlimited.
pub open spec fn turn_allowed(iteration: usize, max_iterations: usize) -> bool {
    max_iterations == 0 || iteration < max_iterations
}

/// A limit of 0 never stops a run, and under any other limit a turn that is
/// allowed to start stays within it.
pub proof fn lemma_turn_limit(iteration: usize, max_iterations: usize)
    ensures
        max_iterations == 0 ==> turn_allowed(iteration, max_iterations),
        max_iterations > 0 && turn_allowed(iteration, max_iterations) ==> iteration + 1 <= max_iterations,
        max_iterations > 0 && iteration >= max_iterations ==> !turn_allowed(iteration, max_iterations),
{
}

impl AgentRun {
    pub fn new() -> (r: Self)
        ensures
            r.iteration == 0,
            r.last_response_text@ == Seq::<char>::empty(),
            r.total_usage == (TokenUsage {
                input_tokens: 0,
                output_tokens: 0,
                total_tokens: 0,
                cached_tokens: 0,
                reasoning_tokens: 0,
            }),
    {
        AgentRun { iteration: 0, last_response_text: String::new(), total_usage: TokenUsage::zero() }
    }

    /// Whether another turn may start under `max_iterations` (0: no limit).
    pub fn may_start_turn(&self, max_iterations: usize) -> (r: bool)
        ensures
            r == turn_allowed(self.iteration, max_iterations),
    {
        !(max_iterations > 0 && self.iteration >= max_iterations)
    }

    pub fn start_turn(&mut self)
        requires
            old(self).iteration < usize::MAX,
        ensures
            final(self).iteration == old(self).iteration + 1,
            final(self).last_response_text == old(self).last_response_text,
            final(self).total_usage == old(self).total_usage,
    {
        self.iteration = self.iteration + 1;
    }

    /// Adds a turn's usage, if it reported one.
    pub fn add_usage(&mut self, usage: &Option<TokenUsage>)
        requires
            usage matches Some(u) ==> sum_fits(old(self).total_usage, *u),
        ensures
            final(self).total_usage == (match usage {
                Some(u) => usage_sum(old(self).total_usage, *u),
                None => old(self).total_usage,
            }),
            final(self).iteration == old(self).iteration,
            final(self).last_response_text == old(self).last_response_text,
    {
        match usage {
            Some(u) => self.total_usage.add(u),
            None => {},
        }
    }

    /// Keeps a turn's text when it is not empty.
    pub fn record_text(&mut self, text: &String)
        ensures
            final(self).last_response_text@ == (if text@.len() > 0 {
                text@
            } else {
                old(self).last_response_text@
            }),
            final(self).iteration == old(self).iteration,
            final(self).total_usage == old(self).total_usage,
    {
        if text.as_str().unicode_len() > 0 {
            self.last_response_text = text.clone();
        }
    }

    /// The total usage as events report it: only once some token was counted.
    pub fn reported_total(&self) -> (r: Option<TokenUsage>)
        ensures
            r == (if self.total_usage.total_tokens > 0 {
                Some(self.total_usage)
            } else {
                None::<TokenUsage>
            }),
    {
        if self.total_usage.total_tokens > 0 {
            Some(self.total_usage)
        } else {
            None
        }
    }
}

/// The event of a finished turn; the reasoning is reported when there is any.
pub fn turn_completed_event(iteration: usize, text: String, reasoning: String, usage: Option<TokenUsage>) -> (r:
    AgentEvent)
    ensures
        r == (AgentEvent::TurnCompleted {
            iteration,
            text,
            reasoning: if reasoning@.len() > 0 {
                Some(reasoning)
            } else {
                None
            },
            usage,
        }),
{
    let reasoning = if reasoning.as_str().unicode_len() > 0 {
        Some(reasoning)
    } else {
        None
    };
    AgentEvent::TurnCompleted { iteration, text, reasoning, usage }
}

/// The event of a finished round of turn and tool calls.
pub fn round_completed_event(iteration: usize, usage: Option<TokenUsage>, run: &AgentRun) -> (r: AgentEvent)
    ensures
        r == (AgentEvent::RoundCompleted {
            iteration,
            usage,
            total_usage: if run.total_usage.total_tokens > 0 {
                Some(run.total_usage)
            } else {
                None
            },
        }),
{
    AgentEvent::RoundCompleted { iteration, usage, total_usage: run.reported_total() }
}

/// The event of a finished run.
pub fn finished_event(run: &AgentRun) -> (r: AgentEvent)
    ensures
        r == (AgentEvent::AgentFinished {
            total_usage: if run.total_usage.total_tokens > 0 {
                Some(run.total_usage)
            } else {
                None
            },
        }),
{
    AgentEvent::AgentFinished { total_usage: run.reported_total() }
}

// ---------------------------------------------------------------------------
// A turn

/// The draft of a turn: the base draft with the context it runs on.
pub fn turn_draft(base: &AgentDraft, items: JsonValue, view: JsonValue) -> (r: AgentDraft)
    ensures
        r.system_prompt == base.system_prompt,
        r.model == base.model,
        r.tools@.len() == base.tools@.len(),
        forall|i: int| 0 <= i < r.tools@.len() ==> crate::runner::same_tool(#[trigger] r.tools@[i], base.tools@[i]),
        r.context matches Some(c) && json_view(c) == JsonView::Object(
            seq![("items"@, json_view(items)), ("view"@, json_view(view))],
        ),
{
    let mut tools: Vec<ToolEntry> = Vec::new();
    let mut i: usize = 0;
    while i < base.tools.len()
        invariant
            i <= base.tools@.len(),
            tools@.len() == i,
            forall|k: int| 0 <= k < i ==> crate::runner::same_tool(#[trigger] tools@[k], base.tools@[k]),
        decreases base.tools@.len() - i,
    {
        let t = &base.tools[i];
        tools.push(
            ToolEntry {
                id: crate::item::clone_opt_string(&t.id),
                owner: crate::item::clone_opt_string(&t.owner),
                enabled: t.enabled,
                definition: crate::hooks::ToolDefinition {
                    name: t.definition.name.clone(),
                    description: t.definition.description.clone(),
                    parameters: clone_json(&t.definition.parameters),
                },
            },
        );
        i = i + 1;
    }
    proof {
        reveal_strlit("items");
        reveal_strlit("view");
    }
    let context = object2("items".to_string(), items, "view".to_string(), view);
    AgentDraft {
        system_prompt: base.system_prompt.clone(),
        model: ModelDraft {
            name: base.model.name.clone(),
            temperature_bits: base.model.temperature_bits,
            max_output_tokens: base.model.max_output_tokens,
            reasoning: base.model.reasoning,
        },
        tools,
        context: Some(context),
    }
}

/// The model request of a turn: the context items as input, the draft's
/// prompt and model parameters, and the active tools with an automatic tool
/// choice when there are any; never streaming.
pub fn agent_request(draft: &AgentDraft, items: Vec<Item>, active: &Vec<ToolEntry>) -> (r: ModelRequest)
    ensures
        r.input == items,
        r.model == draft.model.name,
        r.instructions == draft.system_prompt,
        active@.len() > 0 ==> (r.tools matches Some(t) && t@.len() == active@.len() && forall|i: int|
            0 <= i < t@.len() ==> offered(active@[i], #[trigger] t@[i])),
        active@.len() == 0 ==> r.tools is None,
        r.tool_choice_auto == (active@.len() > 0),
        r.temperature_bits == draft.model.temperature_bits,
        r.max_output_tokens == draft.model.max_output_tokens,
        r.reasoning == draft.model.reasoning,
        !r.stream,
{
    let has_tools = active.len() > 0;
    ModelRequest {
        input: items,
        model: draft.model.name.clone(),
        instructions: draft.system_prompt.clone(),
        tools: if has_tools { Some(request_tools(active)) } else { None },
        tool_choice_auto: has_tools,
        temperature_bits: draft.model.temperature_bits,
        max_output_tokens: draft.model.max_output_tokens,
        reasoning: draft.model.reasoning,
        stream: false,
    }
}

pub open spec fn agent_response_failure(r: ModelResponse) -> Option<Seq<char>> {
    match r.error_message {
        Some(m) => Some(m@),
        None => if r.status is Failed {
            Some("response status is failed"@)
        } else {
            None
        },
    }
}

/// A response that reports an error, or a failed status, fails the run.
pub fn check_agent_response(response: &ModelResponse) -> (r: Result<(), AgentError>)
    ensures
        agent_response_failure(*response) is None ==> r is Ok,
        agent_response_failure(*response) matches Some(m) ==> (r matches Err(AgentError::ResponseFailed(e)) && e@
            == m),
{
    match &response.error_message {
        Some(m) => return Err(AgentError::ResponseFailed(m.clone())),
        None => {},
    }
    if let ResponseStatus::Failed = response.status {
        let m = String::from_str("response status is failed");
        proof {
            reveal_strlit("response status is failed");
        }
        return Err(AgentError::ResponseFailed(m));
    }
    Ok(())
}

/// What `model.response.prepare` must hand back, as far as it can be seen
/// without reading the items: a string `text` and an `items` field.
pub open spec fn response_payload_problem(v: JsonView) -> Option<Seq<char>> {
    if !(field(v, "text"@) matches Some(JsonView::String(_))) {
        Some("text must be a string"@)
    } else if field(v, "items"@) is None {
        Some("missing items"@)
    } else {
        None
    }
}

pub fn check_response_payload(v: &JsonValue) -> (r: Option<String>)
    ensures
        match response_payload_problem(json_view(*v)) {
            Some(m) => r matches Some(s) && s@ == m,
            None => r is None,
        },
{
    proof {
        reveal_strlit("text");
        reveal_strlit("items");
    }
    match json_get(v, "text") {
        Some(JsonValue::String(_)) => {},
        _ => {
            proof {
                reveal_strlit("text must be a string");
            }
            return Some(String::from_str("text must be a string"));
        },
    }
    if json_get(v, "items").is_none() {
        proof {
            reveal_strlit("missing items");
        }
        return Some(String::from_str("missing items"));
    }
    None
}

/// The text `model.response.prepare` settled on; empty when it gave none.
pub fn response_text_of(v: &JsonValue) -> (r: String)
    ensures
        field(json_view(*v), "text"@) matches Some(JsonView::String(t)) ==> r@ == t,
        !(field(json_view(*v), "text"@) matches Some(JsonView::String(_))) ==> r@.len() == 0,
{
    proof {
        reveal_strlit("text");
    }
    match json_get(v, "text") {
        Some(JsonValue::String(t)) => t.clone(),
        _ => String::new(),
    }
}

/// The function calls among `items`, in order.
pub fn function_calls_of(items: &Vec<Item>) -> (r: Vec<AgentFunctionCall>)
    ensures
        r@.map_values(|c: AgentFunctionCall| call_view(c)) == step_calls(items@),
{
    let mut calls: Vec<AgentFunctionCall> = Vec::new();
    let mut i: usize = 0;
    while i < items.len()
        invariant
            i <= items@.len(),
            calls@.map_values(|c: AgentFunctionCall| call_view(c)) == step_calls(items@.subrange(0, i as int)),
        decreases items@.len() - i,
    {
        let ghost pre = items@.subrange(0, i as int);
        let ghost post = items@.subrange(0, i + 1);
        assert(post.drop_last() =~= pre);
        let ghost before = calls@;
        match &items[i] {
            Item::FunctionCall { call_id, name, arguments, .. } => {
                calls.push(
                    AgentFunctionCall { call_id: call_id.clone(), name: name.clone(), arguments: arguments.clone() },
                );
                assert(calls@.map_values(|c: AgentFunctionCall| call_view(c)) =~= before.map_values(
                    |c: AgentFunctionCall| call_view(c),
                ).push((call_id@, name@, arguments@)));
            },
            _ => {},
        }
        i = i + 1;
    }
    assert(items@.subrange(0, items@.len() as int) =~= items@);
    calls
}

// ---------------------------------------------------------------------------
// Tool calls

pub open spec fn changed_call_text() -> Seq<char> {
    "tool.call.prepare cannot change call_id or tool_id"@
}

/// The call `tool.call.prepare` settled on: it may not change the call or
/// tool id, and it is addressed to the tool by the tool's own name.
pub fn check_prepared_call(initial: &ToolCallRequest, prepared: ToolCallRequest, tool: &ToolEntry) -> (r: Result<
    ToolCallRequest,
    AgentError,
>)
    ensures
        (prepared.call_id@ != initial.call_id@ || prepared.tool_id@ != initial.tool_id@) ==> (r matches Err(
            AgentError::ToolError(m),
        ) && m@ == changed_call_text()),
        (prepared.call_id@ == initial.call_id@ && prepared.tool_id@ == initial.tool_id@) ==> r == Ok::<
            ToolCallRequest,
            AgentError,
        >(ToolCallRequest { name: tool.definition.name, ..prepared }),
{
    if prepared.call_id != initial.call_id || prepared.tool_id != initial.tool_id {
        let m = String::from_str("tool.call.prepare cannot change call_id or tool_id");
        proof {
            reveal_strlit("tool.call.prepare cannot change call_id or tool_id");
        }
        return Err(AgentError::ToolError(m));
    }
    Ok(ToolCallRequest { name: tool.definition.name.clone(), ..prepared })
}

pub open spec fn skipped_call_text() -> Seq<char> {
    "tool call skipped by extension"@
}

/// The output recorded for a call that `tool.call.prepare` skipped.
pub fn skipped_call_output(call_id: String) -> (r: Item)
    ensures
        r matches Item::FunctionCallOutput { id: None, call_id: c, output: FunctionOutput::Text(t), status: None }
            && c == call_id && t@ == skipped_call_text(),
{
    let t = String::from_str("tool call skipped by extension");
    proof {
        reveal_strlit("tool call skipped by extension");
    }
    Item::FunctionCallOutput { id: None, call_id, output: FunctionOutput::Text(t), status: None }
}

/// The extension that owns a tool, or the refusal of a tool without one.
pub fn agent_tool_owner(tool: &ToolEntry) -> (r: Result<String, AgentError>)
    ensures
        tool.owner is Some ==> r == Ok::<String, AgentError>(tool.owner->Some_0),
        tool.owner is None ==> (r matches Err(AgentError::ToolError(m)) && m@ == "tool has no owner"@),
{
    match &tool.owner {
        Some(o) => Ok(o.clone()),
        None => {
            let m = String::from_str("tool has no owner");
            proof {
                reveal_strlit("tool has no owner");
            }
            Err(AgentError::ToolError(m))
        },
    }
}

/// The event of a finished tool call.
pub fn tool_finished_event(call_id: String, tool_name: String, result: &ToolResult, duration_ms: u128) -> (r:
    AgentEvent)
    ensures
        r matches AgentEvent::ToolCallFinished { call_id: c, tool_name: n, output, is_error, duration_ms: d }
            && c == call_id && n == tool_name && output@ == crate::hooks::tool_output_display(result.output)
            && is_error == !result.success && d == duration_ms,
{
    AgentEvent::ToolCallFinished {
        call_id,
        tool_name,
        output: result.output.to_display_string(),
        is_error: !result.success,
        duration_ms,
    }
}

// ---------------------------------------------------------------------------
// The order of a run

/// Where an agent run stands: what it does next.
#[derive(Debug, Clone, Copy, PartialEq, Eq, Structural)]
pub enum AgentStage {
    /// Take the waiting immediate inputs, then start a turn if the limit
    /// allows one.
    Inputs,
    /// `TurnStarted`, then `turn.prepare`.
    TurnStart,
    /// Build the model request and run `model.request.prepare`.
    ModelRequest,
    /// Call the model, then `model.response.prepare`.
    ModelCall,
    /// Commit the response to the context, then `TurnCompleted`.
    CommitResponse,
    /// Run the function call at this index.
    ToolCall(usize),
    /// Commit the outputs of the turn's calls.
    CommitTools,
    /// `RoundCompleted`, `turn.complete`, and a delayed input when no tool ran.
    RoundEnd,
    /// `AgentFinished`.
    Finish,
}

/// What a stage found: how its hook chain ended (or, for the inputs and a
/// call, whether one of them stopped the run), how many function calls the
/// turn's response holds, whether calls left outputs, and whether the run
/// goes on (a turn may start, or another round follows).
pub struct StageOutcome {
    pub flow: LoopMove,
    pub calls: usize,
    pub outputs: bool,
    pub go_on: bool,
}

/// The stage after `stage` ended with `o`.
pub open spec fn stage_after(stage: AgentStage, o: StageOutcome) -> AgentStage {
    match stage {
        AgentStage::Inputs => if o.flow == LoopMove::Stop || !o.go_on {
            AgentStage::Finish
        } else {
            AgentStage::TurnStart
        },
        AgentStage::TurnStart => match o.flow {
            LoopMove::Stop => AgentStage::Finish,
            LoopMove::NextTurn => AgentStage::Inputs,
            LoopMove::Proceed => AgentStage::ModelRequest,
        },
        AgentStage::ModelRequest => match o.flow {
            LoopMove::Stop => AgentStage::Finish,
            LoopMove::NextTurn => AgentStage::Inputs,
            LoopMove::Proceed => AgentStage::ModelCall,
        },
        AgentStage::ModelCall => match o.flow {
            LoopMove::Stop => AgentStage::Finish,
            LoopMove::NextTurn => AgentStage::Inputs,
            LoopMove::Proceed => AgentStage::CommitResponse,
        },
        AgentStage::CommitResponse => match o.flow {
            LoopMove::Stop => AgentStage::Finish,
            LoopMove::NextTurn => AgentStage::Inputs,
            LoopMove::Proceed => if o.calls > 0 {
                AgentStage::ToolCall(0)
            } else {
                AgentStage::RoundEnd
            },
        },
        AgentStage::ToolCall(k) => if o.flow == LoopMove::Stop || k + 1 >= o.calls {
            if o.outputs {
                AgentStage::CommitTools
            } else if o.flow == LoopMove::Stop {
                AgentStage::Finish
            } else {
                AgentStage::RoundEnd
            }
        } else {
            AgentStage::ToolCall((k + 1) as usize)
        },
        AgentStage::CommitTools => if o.flow == LoopMove::Proceed {
            AgentStage::RoundEnd
        } else {
            AgentStage::Finish
        },
        AgentStage::RoundEnd => if o.flow == LoopMove::Stop || !o.go_on {
            AgentStage::Finish
        } else {
            AgentStage::Inputs
        },
        AgentStage::Finish => AgentStage::Finish,
    }
}

/// The stage after `stage` ended with `o` (see `stage_after`).
pub fn next_stage(stage: AgentStage, o: &StageOutcome) -> (r: AgentStage)
    ensures
        r == stage_after(stage, *o),
{
    match stage {
        AgentStage::Inputs => if o.flow == LoopMove::Stop || !o.go_on {
            AgentStage::Finish
        } else {
            AgentStage::TurnStart
        },
        AgentStage::TurnStart | AgentStage::ModelRequest | AgentStage::ModelCall => match o.flow {
            LoopMove::Stop => AgentStage::Finish,
            LoopMove::NextTurn => AgentStage::Inputs,
            LoopMove::Proceed => match stage {
                AgentStage::TurnStart => AgentStage::ModelRequest,
                AgentStage::ModelRequest => AgentStage::ModelCall,
                _ => AgentStage::CommitResponse,
            },
        },
        AgentStage::CommitResponse => match o.flow {
            LoopMove::Stop => AgentStage::Finish,
            LoopMove::NextTurn => AgentStage::Inputs,
            LoopMove::Proceed => if o.calls > 0 {
                AgentStage::ToolCall(0)
            } else {
                AgentStage::RoundEnd
            },
        },
        AgentStage::ToolCall(k) => if o.flow == LoopMove::Stop || k >= o.calls || k + 1 >= o.calls {
            if o.outputs {
                AgentStage::CommitTools
            } else if o.flow == LoopMove::Stop {
                AgentStage::Finish
            } else {
                AgentStage::RoundEnd
            }
        } else {
            AgentStage::ToolCall(k + 1)
        },
        AgentStage::CommitTools => if o.flow == LoopMove::Proceed {
            AgentStage::RoundEnd
        } else {
            AgentStage::Finish
        },
        AgentStage::RoundEnd => if o.flow == LoopMove::Stop || !o.go_on {
            AgentStage::Finish
        } else {
            AgentStage::Inputs
        },
        AgentStage::Finish => AgentStage::Finish,
    }
}

/// The order of a run: a turn's stages follow one another (start, request,
/// model call, commit); a stage whose chain was skipped goes back to the
/// inputs, one that was stopped finishes the run; the calls of a turn run in
/// index order right after its response was committed; outputs are
/// committed only after calls; a round ends only after the response was
/// committed or the calls were done; and a finished run stays finished.
pub proof fn lemma_stage_order(stage: AgentStage, o: StageOutcome)
    ensures
        stage_after(stage, o) == AgentStage::ModelRequest ==> stage == AgentStage::TurnStart,
        stage_after(stage, o) == AgentStage::ModelCall ==> stage == AgentStage::ModelRequest,
        stage_after(stage, o) == AgentStage::CommitResponse ==> stage == AgentStage::ModelCall,
        stage_after(stage, o) == AgentStage::TurnStart ==> stage == AgentStage::Inputs,
        stage_after(stage, o) matches AgentStage::ToolCall(k) ==> (k == 0 && stage == AgentStage::CommitResponse
            && o.calls > 0) || (k > 0 && stage == AgentStage::ToolCall((k - 1) as usize) && k < o.calls),
        stage_after(stage, o) == AgentStage::CommitTools ==> stage is ToolCall && o.outputs,
        stage_after(stage, o) == AgentStage::RoundEnd ==> stage is CommitResponse || stage is ToolCall
            || stage is CommitTools,
        stage != AgentStage::Finish && o.flow == LoopMove::Stop && !(stage is ToolCall && o.outputs)
            ==> stage_after(stage, o) == AgentStage::Finish,
        o.flow == LoopMove::NextTurn && (stage is TurnStart || stage is ModelRequest || stage is ModelCall
            || stage is CommitResponse) ==> stage_after(stage, o) == AgentStage::Inputs,
        stage == AgentStage::Finish ==> stage_after(stage, o) == AgentStage::Finish,
{
}

// ---------------------------------------------------------------------------
// End of a turn

/// The `turn.complete` payload: by default the loop goes on exactly when
/// tools were called.
pub fn turn_complete_payload(iteration: usize, called_tools: bool) -> (r: JsonValue)
    ensures
        json_view(r) == JsonView::Object(
            seq![
                ("called_tools"@, JsonView::Bool(called_tools)),
                ("continue_loop"@, JsonView::Bool(called_tools)),
                ("iteration"@, JsonView::Number(NumberView::PosInt(iteration as u64))),
            ],
        ),
{
    proof {
        reveal_strlit("called_tools");
        reveal_strlit("continue_loop");
        reveal_strlit("iteration");
    }
    object3(
        "called_tools".to_string(),
        JsonValue::Bool(called_tools),
        "continue_loop".to_string(),
        JsonValue::Bool(called_tools),
        "iteration".to_string(),
        JsonValue::Number(JsonNumber::PosInt(iteration as u64)),
    )
}

/// `turn.complete` must keep `continue_loop` a boolean.
pub fn check_continue_flag(v: &JsonValue) -> (r: Option<String>)
    ensures
        field(json_view(*v), "continue_loop"@) matches Some(JsonView::Bool(_)) ==> r is None,
        !(field(json_view(*v), "continue_loop"@) matches Some(JsonView::Bool(_))) ==> (r matches Some(m) && m@
            == "continue_loop must be boolean"@),
{
    proof {
        reveal_strlit("continue_loop");
    }
    match json_get(v, "continue_loop") {
        Some(JsonValue::Bool(_)) => None,
        _ => {
            proof {
                reveal_strlit("continue_loop must be boolean");
            }
            Some(String::from_str("continue_loop must be boolean"))
        },
    }
}

/// Whether another turn follows, as `turn.complete` decided; whether tools
/// were called when it left no boolean.
pub fn continue_decision(v: &JsonValue, called_tools: bool) -> (r: bool)
    ensures
        field(json_view(*v), "continue_loop"@) matches Some(JsonView::Bool(b)) ==> r == b,
        !(field(json_view(*v), "continue_loop"@) matches Some(JsonView::Bool(_))) ==> r == called_tools,
{
    proof {
        reveal_strlit("continue_loop");
    }
    match json_get(v, "continue_loop") {
        Some(JsonValue::Bool(b)) => *b,
        _ => called_tools,
    }
}

} // verus!
