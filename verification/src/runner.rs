use vstd::prelude::*;
use crate::agent_core::{AgentCoreStepResult, AgentFunctionCall};
use crate::cli::{blank, is_blank};
use crate::error::{agent_error_text, AgentError};
use crate::event::{InputTokensDetails, OutputTokensDetails, SessionEvent, Usage};
use crate::hooks::{tool_output_view, AgentDraft, ModelDraft, ToolCallRequest, ToolEntry, ToolResult};
use crate::ids::{ActivationId, SessionId, TurnId};
use crate::item::{output_view, sv, Item, OutputView};
use crate::json::{clone_json, field, json_get, json_view, JsonValue, JsonView};
use crate::request::{function_tool_view, FunctionTool, ReasoningConfig};
use crate::session::{SessionPhase, SessionStatus};
use crate::text::push_str;
use crate::json_text::{json_document, parse_json_document};

verus! {

/// What a finished activation leaves behind.
#[derive(Debug)]
pub struct SessionRunResult {
    pub activation_id: ActivationId,
    pub final_text: String,
    pub total_usage: Option<Usage>,
    pub items: Vec<Item>,
    pub status: SessionStatus,
}

/// The name of a phase as `{:?}` writes it.
pub open spec fn phase_name(p: SessionPhase) -> Seq<char> {
    match p {
        SessionPhase::Open => "Open"@,
        SessionPhase::Closed => "Closed"@,
        SessionPhase::Archived => "Archived"@,
        SessionPhase::Corrupted => "Corrupted"@,
    }
}

pub open spec fn not_open_text(id: Seq<char>, p: SessionPhase) -> Seq<char> {
    "Session "@ + id + " is not open (phase: "@ + phase_name(p) + ")"@
}

/// A run needs the session open.
pub fn check_session_open(session_id: &SessionId, status: &SessionStatus) -> (r: Result<(), AgentError>)
    ensures
        status.phase == SessionPhase::Open ==> r is Ok,
        status.phase != SessionPhase::Open ==> (r matches Err(AgentError::ToolError(m)) && m@ == not_open_text(
            session_id.0@,
            status.phase,
        )),
{
    if status.phase == SessionPhase::Open {
        return Ok(());
    }
    let mut m = String::new();
    push_str(&mut m, "Session ");
    push_str(&mut m, session_id.as_str());
    push_str(&mut m, " is not open (phase: ");
    push_str(
        &mut m,
        match status.phase {
            SessionPhase::Open => "Open",
            SessionPhase::Closed => "Closed",
            SessionPhase::Archived => "Archived",
            SessionPhase::Corrupted => "Corrupted",
        },
    );
    push_str(&mut m, ")");
    proof {
        assert(m@ =~= not_open_text(session_id.0@, status.phase));
    }
    Err(AgentError::ToolError(m))
}

/// A session left with an active activation by a crashed process is
/// recovered before a new run.
pub fn needs_recovery(status: &SessionStatus) -> (r: bool)
    ensures
        r == status.active_activation_id is Some,
{
    status.active_activation_id.is_some()
}

/// The input text after `input.prepare`: the payload's `text` when it is a
/// string, else the original input.
pub fn prepared_text(payload: &JsonValue, input_text: &str) -> (r: String)
    ensures
        field(json_view(*payload), "text"@) matches Some(JsonView::String(t)) ==> r@ == t,
        !(field(json_view(*payload), "text"@) matches Some(JsonView::String(_))) ==> r@ == input_text@,
{
    let r = match json_get(payload, "text") {
        Some(JsonValue::String(t)) => t.clone(),
        _ => input_text.to_string(),
    };
    proof { reveal_strlit("text"); }
    r
}

/// The model of a frozen configuration, which a run needs non-blank.
pub fn model_name_of(model: &Option<String>) -> (r: Result<String, AgentError>)
    ensures
        model matches Some(m) && !blank(m@) ==> r == Ok::<String, AgentError>(model->Some_0),
        !(model matches Some(m) && !blank(m@)) ==> (r matches Err(AgentError::ConfigError(e)) && e@
            == "ConfigRevision must specify a non-empty model"@),
{
    match model {
        Some(m) => {
            if !is_blank(m.as_str()) {
                return Ok(m.clone());
            }
        },
        None => {},
    }
    Err(AgentError::ConfigError("ConfigRevision must specify a non-empty model".to_string()))
}

/// The draft that `agent.prepare` starts from: the session's prompt, the
/// frozen model parameters, no tools and no context.
pub fn initial_draft(
    system_prompt: String,
    model_name: String,
    temperature_bits: Option<u64>,
    max_output_tokens: Option<i32>,
    reasoning: Option<ReasoningConfig>,
) -> (r: AgentDraft)
    ensures
        r.system_prompt == system_prompt,
        r.model == (ModelDraft { name: model_name, temperature_bits, max_output_tokens, reasoning }),
        r.tools@.len() == 0,
        r.context is None,
{
    AgentDraft {
        system_prompt,
        model: ModelDraft { name: model_name, temperature_bits, max_output_tokens, reasoning },
        tools: Vec::new(),
        context: None,
    }
}

/// A tool entry and a copy of it agree in every field.
pub open spec fn same_tool(a: ToolEntry, b: ToolEntry) -> bool {
    &&& a.id == b.id
    &&& a.owner == b.owner
    &&& a.enabled == b.enabled
    &&& a.definition.name == b.definition.name
    &&& a.definition.description == b.definition.description
    &&& json_view(a.definition.parameters) == json_view(b.definition.parameters)
}

/// The indices of the enabled tools, in order.
pub open spec fn enabled_indices(tools: Seq<ToolEntry>, n: nat) -> Seq<int>
    decreases n,
{
    if n == 0 || n > tools.len() {
        Seq::empty()
    } else if tools[n - 1].enabled {
        enabled_indices(tools, (n - 1) as nat).push(n - 1)
    } else {
        enabled_indices(tools, (n - 1) as nat)
    }
}

fn clone_tool(t: &ToolEntry) -> (r: ToolEntry)
    ensures
        same_tool(r, *t),
{
    ToolEntry {
        id: match &t.id {
            Some(x) => Some(x.clone()),
            None => None,
        },
        owner: match &t.owner {
            Some(x) => Some(x.clone()),
            None => None,
        },
        enabled: t.enabled,
        definition: crate::hooks::ToolDefinition {
            name: t.definition.name.clone(),
            description: t.definition.description.clone(),
            parameters: clone_json(&t.definition.parameters),
        },
    }
}

/// The enabled tools of a draft, in order.
pub fn active_tools(tools: &Vec<ToolEntry>) -> (r: Vec<ToolEntry>)
    ensures
        r@.len() == enabled_indices(tools@, tools@.len()).len(),
        forall|i: int| 0 <= i < r@.len() ==> same_tool(#[trigger] r@[i], tools@[enabled_indices(tools@, tools@.len())[i]]),
{
    let mut out: Vec<ToolEntry> = Vec::new();
    let mut i: usize = 0;
    while i < tools.len()
        invariant
            i <= tools@.len(),
            out@.len() == enabled_indices(tools@, i as nat).len(),
            forall|j: int| 0 <= j < out@.len() ==> same_tool(#[trigger] out@[j], tools@[enabled_indices(tools@, i as nat)[j]]),
        decreases tools@.len() - i,
    {
        if tools[i].enabled {
            out.push(clone_tool(&tools[i]));
        }
        i = i + 1;
    }
    out
}

/// The function tool the model is offered for a tool entry.
pub open spec fn offered(t: ToolEntry, f: FunctionTool) -> bool {
    &&& f.name@ == t.definition.name@
    &&& f.description == Some(t.definition.description)
    &&& f.parameters matches Some(p) && json_view(p) == json_view(t.definition.parameters)
}

/// The tools of a model request, one per active tool, in order.
pub fn request_tools(active: &Vec<ToolEntry>) -> (r: Vec<FunctionTool>)
    ensures
        r@.len() == active@.len(),
        forall|i: int| 0 <= i < r@.len() ==> offered(active@[i], #[trigger] r@[i]),
{
    let mut out: Vec<FunctionTool> = Vec::new();
    let mut i: usize = 0;
    while i < active.len()
        invariant
            i <= active@.len(),
            out@.len() == i,
            forall|j: int| 0 <= j < i ==> offered(active@[j], #[trigger] out@[j]),
        decreases active@.len() - i,
    {
        let t = &active[i];
        out.push(
            FunctionTool {
                name: t.definition.name.clone(),
                description: Some(t.definition.description.clone()),
                parameters: Some(clone_json(&t.definition.parameters)),
            },
        );
        i = i + 1;
    }
    out
}

/// The field-wise sum of two usages fits in `i32`.
pub open spec fn usage_sum_fits(a: Usage, b: Usage) -> bool {
    &&& i32::MIN <= a.input_tokens + b.input_tokens <= i32::MAX
    &&& i32::MIN <= a.output_tokens + b.output_tokens <= i32::MAX
    &&& i32::MIN <= a.total_tokens + b.total_tokens <= i32::MAX
    &&& i32::MIN <= a.input_tokens_details.cached_tokens + b.input_tokens_details.cached_tokens <= i32::MAX
    &&& i32::MIN <= a.output_tokens_details.reasoning_tokens + b.output_tokens_details.reasoning_tokens
        <= i32::MAX
}

/// The field-wise sum of two usages.
pub open spec fn usage_plus(a: Usage, b: Usage) -> Usage {
    Usage {
        input_tokens: (a.input_tokens + b.input_tokens) as i32,
        output_tokens: (a.output_tokens + b.output_tokens) as i32,
        total_tokens: (a.total_tokens + b.total_tokens) as i32,
        input_tokens_details: InputTokensDetails {
            cached_tokens: (a.input_tokens_details.cached_tokens + b.input_tokens_details.cached_tokens) as i32,
        },
        output_tokens_details: OutputTokensDetails {
            reasoning_tokens: (a.output_tokens_details.reasoning_tokens
                + b.output_tokens_details.reasoning_tokens) as i32,
        },
    }
}

/// Adds two usages field by field.
pub fn add_usage(a: &Usage, b: &Usage) -> (r: Usage)
    requires
        usage_sum_fits(*a, *b),
    ensures
        r == usage_plus(*a, *b),
{
    Usage {
        input_tokens: a.input_tokens + b.input_tokens,
        output_tokens: a.output_tokens + b.output_tokens,
        total_tokens: a.total_tokens + b.total_tokens,
        input_tokens_details: InputTokensDetails {
            cached_tokens: a.input_tokens_details.cached_tokens + b.input_tokens_details.cached_tokens,
        },
        output_tokens_details: OutputTokensDetails {
            reasoning_tokens: a.output_tokens_details.reasoning_tokens + b.output_tokens_details.reasoning_tokens,
        },
    }
}

/// The accumulated usage after a step reporting `step`.
pub open spec fn accumulated(acc: Option<Usage>, step: Option<Usage>) -> Option<Usage> {
    match step {
        None => acc,
        Some(s) => match acc {
            None => Some(s),
            Some(a) => Some(usage_plus(a, s)),
        },
    }
}

/// The state that an activation carries from turn to turn.
pub struct ActivationLoop {
    /// Turns started so far.
    pub iteration: usize,
    /// The turn under way, if any.
    pub turn_id: Option<TurnId>,
    /// The text of the last turn that produced text.
    pub final_text: String,
    /// The usage summed over the turns.
    pub usage: Option<Usage>,
}

/// What the activation does after a model step.
#[derive(Debug, Clone, Copy, PartialEq, Eq, Structural)]
pub enum TurnDecision {
    /// Run the step's function calls, then start another turn.
    RunTools,
    /// The model called no function: the activation is complete.
    Complete,
}

impl ActivationLoop {
    /// No turn yet, no text, no usage.
    pub fn new() -> (r: Self)
        ensures
            r.iteration == 0,
            r.turn_id is None,
            r.final_text@ == Seq::<char>::empty(),
            r.usage is None,
    {
        ActivationLoop { iteration: 0, turn_id: None, final_text: String::new(), usage: None }
    }

    /// Starts the turn `turn_id`.
    pub fn begin_turn(&mut self, turn_id: TurnId)
        requires
            old(self).iteration < usize::MAX,
        ensures
            final(self).iteration == old(self).iteration + 1,
            final(self).turn_id == Some(turn_id),
            final(self).final_text == old(self).final_text,
            final(self).usage == old(self).usage,
    {
        self.iteration = self.iteration + 1;
        self.turn_id = Some(turn_id);
    }

    /// Whether a step's usage can be added to the activation's usage.
    pub fn can_take(&self, usage: &Option<Usage>) -> (r: bool)
        ensures
            r == (match (self.usage, *usage) {
                (Some(a), Some(s)) => usage_sum_fits(a, s),
                _ => true,
            }),
    {
        match (&self.usage, usage) {
            (Some(a), Some(b)) => {
                let min: i64 = i32::MIN as i64;
                let max: i64 = i32::MAX as i64;
                let x: i64 = a.input_tokens as i64 + b.input_tokens as i64;
                let y: i64 = a.output_tokens as i64 + b.output_tokens as i64;
                let z: i64 = a.total_tokens as i64 + b.total_tokens as i64;
                let c: i64 = a.input_tokens_details.cached_tokens as i64 + b.input_tokens_details.cached_tokens as i64;
                let d: i64 = a.output_tokens_details.reasoning_tokens as i64
                    + b.output_tokens_details.reasoning_tokens as i64;
                min <= x && x <= max && min <= y && y <= max && min <= z && z <= max && min <= c && c <= max
                    && min <= d && d <= max
            },
            _ => true,
        }
    }

    /// Takes in a model step: adds its usage, keeps its text when it has
    /// any, and decides whether tools run or the activation completes.
    pub fn on_step(&mut self, step: &AgentCoreStepResult) -> (r: TurnDecision)
        requires
            old(self).usage matches Some(a) && step.usage matches Some(s) ==> usage_sum_fits(a, s),
        ensures
            final(self).usage == accumulated(old(self).usage, step.usage),
            final(self).final_text@ == (if step.text@.len() > 0 {
                step.text@
            } else {
                old(self).final_text@
            }),
            final(self).iteration == old(self).iteration,
            final(self).turn_id == old(self).turn_id,
            r == (if step.function_calls@.len() > 0 {
                TurnDecision::RunTools
            } else {
                TurnDecision::Complete
            }),
    {
        match &step.usage {
            Some(s) => {
                let next = match &self.usage {
                    Some(a) => add_usage(a, s),
                    None => *s,
                };
                self.usage = Some(next);
            },
            None => {},
        }
        if step.text.as_str().unicode_len() > 0 {
            self.final_text = step.text.clone();
        }
        if step.function_calls.len() > 0 {
            TurnDecision::RunTools
        } else {
            TurnDecision::Complete
        }
    }
}

/// What an activation records next, in the order in which it records it.
#[derive(Debug, Clone, Copy, PartialEq, Eq, Structural)]
pub enum ActivationRecord {
    /// The input batch and `ActivationRequested`.
    Input,
    /// `ActivationStarted`.
    Start,
    /// `TurnStarted`, followed by one model step.
    TurnStart,
    /// The model's output batch and `TurnCompleted`.
    ModelOutput,
    /// `ToolCallStarted` for the function call at this index, followed by
    /// running it.
    ToolCallStart(usize),
    /// The output batch of the function call at this index and `ToolCallFinished`.
    ToolOutput(usize),
    /// `ActivationCompleted`.
    Complete,
}

/// The record that follows `done`, where the turn's model step asked for
/// `calls` function calls and the loop decided `decision` on it: each turn
/// starts, records the model's output, then starts and records each call in
/// order before the next turn, until a step calls no function.
pub open spec fn record_after(done: ActivationRecord, calls: nat, decision: TurnDecision) -> ActivationRecord {
    match done {
        ActivationRecord::Input => ActivationRecord::Start,
        ActivationRecord::Start => ActivationRecord::TurnStart,
        ActivationRecord::TurnStart => ActivationRecord::ModelOutput,
        ActivationRecord::ModelOutput => if decision == TurnDecision::Complete {
            ActivationRecord::Complete
        } else if calls > 0 {
            ActivationRecord::ToolCallStart(0)
        } else {
            ActivationRecord::TurnStart
        },
        ActivationRecord::ToolCallStart(k) => ActivationRecord::ToolOutput(k),
        ActivationRecord::ToolOutput(k) => if k + 1 < calls {
            ActivationRecord::ToolCallStart((k + 1) as usize)
        } else {
            ActivationRecord::TurnStart
        },
        ActivationRecord::Complete => ActivationRecord::Complete,
    }
}

/// The record that follows `done` (see `record_after`).
pub fn next_record(done: ActivationRecord, calls: usize, decision: TurnDecision) -> (r: ActivationRecord)
    ensures
        r == record_after(done, calls as nat, decision),
{
    match done {
        ActivationRecord::Input => ActivationRecord::Start,
        ActivationRecord::Start => ActivationRecord::TurnStart,
        ActivationRecord::TurnStart => ActivationRecord::ModelOutput,
        ActivationRecord::ModelOutput => {
            if decision == TurnDecision::Complete {
                ActivationRecord::Complete
            } else if calls > 0 {
                ActivationRecord::ToolCallStart(0)
            } else {
                ActivationRecord::TurnStart
            }
        },
        ActivationRecord::ToolCallStart(k) => ActivationRecord::ToolOutput(k),
        ActivationRecord::ToolOutput(k) => {
            if k < calls && k + 1 < calls {
                ActivationRecord::ToolCallStart(k + 1)
            } else {
                ActivationRecord::TurnStart
            }
        },
        ActivationRecord::Complete => ActivationRecord::Complete,
    }
}

/// The order of an activation's records: a model output comes right after
/// its turn's start and only then; each call's output comes right after its
/// start and only then; the calls of a turn start in index order, the first
/// right after the model output; the activation completes only right after a
/// model output on which the loop decided to complete, and stays complete.
pub proof fn lemma_record_order(done: ActivationRecord, calls: nat, decision: TurnDecision)
    requires
        calls <= usize::MAX,
    ensures
        record_after(done, calls, decision) == ActivationRecord::ModelOutput <==> done == ActivationRecord::TurnStart,
        record_after(done, calls, decision) matches ActivationRecord::ToolOutput(k) ==> done
            == ActivationRecord::ToolCallStart(k),
        done matches ActivationRecord::ToolCallStart(k) ==> record_after(done, calls, decision)
            == ActivationRecord::ToolOutput(k),
        record_after(done, calls, decision) matches ActivationRecord::ToolCallStart(k) ==> (k == 0 && done
            == ActivationRecord::ModelOutput && decision == TurnDecision::RunTools) || (k > 0 && done
            == ActivationRecord::ToolOutput((k - 1) as usize)),
        record_after(done, calls, decision) == ActivationRecord::Complete ==> (done == ActivationRecord::ModelOutput
            && decision == TurnDecision::Complete) || done == ActivationRecord::Complete,
        record_after(done, calls, decision) == ActivationRecord::TurnStart ==> done == ActivationRecord::Start
            || (done == ActivationRecord::ModelOutput && decision == TurnDecision::RunTools && calls == 0)
            || (done matches ActivationRecord::ToolOutput(k) && k + 1 >= calls),
{
}

/// The event that ends an activation that failed with `err`: cancelled, or
/// failed with the error's message.
pub fn terminal_event(err: &AgentError) -> (r: SessionEvent)
    ensures
        *err is Cancelled ==> r is ActivationCancelled,
        !(*err is Cancelled) ==> (r matches SessionEvent::ActivationFailed { error } && (agent_error_text(
            *err,
        ) matches Some(t) ==> error@ == t)),
{
    match err {
        AgentError::Cancelled => SessionEvent::ActivationCancelled,
        _ => SessionEvent::ActivationFailed { error: err.message() },
    }
}

/// The first active tool named `name`.
pub fn find_tool(active: &Vec<ToolEntry>, name: &String) -> (r: Result<usize, AgentError>)
    ensures
        r matches Ok(i) ==> i < active@.len() && active@[i as int].definition.name@ == name@ && forall|j: int|
            0 <= j < i ==> (#[trigger] active@[j]).definition.name@ != name@,
        r is Err ==> (r matches Err(AgentError::ToolNotFound(n)) && n@ == name@) && forall|j: int|
            0 <= j < active@.len() ==> (#[trigger] active@[j]).definition.name@ != name@,
{
    let mut i: usize = 0;
    while i < active.len()
        invariant
            i <= active@.len(),
            forall|j: int| 0 <= j < i ==> (#[trigger] active@[j]).definition.name@ != name@,
        decreases active@.len() - i,
    {
        if active[i].definition.name == *name {
            return Ok(i);
        }
        i = i + 1;
    }
    Err(AgentError::ToolNotFound(name.clone()))
}

/// The arguments of a call: what they parsed to, or an empty object.
pub fn arguments_or_empty(parsed: Option<JsonValue>) -> (r: JsonValue)
    ensures
        parsed is Some ==> r == parsed->Some_0,
        parsed is None ==> json_view(r) == JsonView::Object(Seq::empty()),
{
    match parsed {
        Some(v) => v,
        None => {
            let r = JsonValue::Object(Vec::new());
            assert(crate::json::member_views(Seq::<(String, JsonValue)>::empty(), 0) =~= Seq::empty());
            r
        },
    }
}

/// The request that the owner of `tool` receives for `call`.
pub fn tool_call_request(call: &AgentFunctionCall, tool: &ToolEntry, arguments: JsonValue) -> (r: ToolCallRequest)
    ensures
        r.call_id == call.call_id,
        r.tool_id@ == (match tool.id {
            Some(x) => x@,
            None => Seq::<char>::empty(),
        }),
        r.name == call.name,
        r.arguments == arguments,
{
    ToolCallRequest {
        call_id: call.call_id.clone(),
        tool_id: match &tool.id {
            Some(x) => x.clone(),
            None => String::new(),
        },
        name: call.name.clone(),
        arguments,
    }
}

/// Some active tool is named `name`.
pub open spec fn has_tool(active: Seq<ToolEntry>, name: Seq<char>) -> bool {
    exists|j: int| 0 <= j < active.len() && (#[trigger] active[j]).definition.name@ == name
}

/// `i` is the first active tool named `name`.
pub open spec fn first_tool(active: Seq<ToolEntry>, name: Seq<char>, i: int) -> bool {
    &&& 0 <= i < active.len()
    &&& active[i].definition.name@ == name
    &&& forall|j: int| 0 <= j < i ==> (#[trigger] active[j]).definition.name@ != name
}

/// `req` is the request for `call` to `tool` with arguments `args`.
pub open spec fn request_for(req: ToolCallRequest, call: AgentFunctionCall, tool: ToolEntry, args: JsonView) -> bool {
    &&& req.call_id == call.call_id
    &&& req.name == call.name
    &&& req.tool_id@ == (match tool.id {
        Some(x) => x@,
        None => Seq::<char>::empty(),
    })
    &&& json_view(req.arguments) == args
}

/// The prefix of the error for arguments that are not JSON.
pub open spec fn invalid_arguments_prefix() -> Seq<char> {
    "invalid tool arguments: "@
}

/// The request for a call that the model made: the first active tool of the
/// call's name, and the call's arguments read as JSON. Fails when no tool
/// has that name, or else when the arguments are not one JSON document.
pub fn prepare_tool_call(call: &AgentFunctionCall, active: &Vec<ToolEntry>) -> (r: Result<(usize, ToolCallRequest), AgentError>)
    ensures
        r is Ok <==> has_tool(active@, call.name@) && json_document(call.arguments@) is Some,
        r matches Ok((i, req)) ==> first_tool(active@, call.name@, i as int) && request_for(
            req,
            *call,
            active@[i as int],
            json_document(call.arguments@)->Some_0,
        ),
        !has_tool(active@, call.name@) ==> (r matches Err(AgentError::ToolNotFound(n)) && n@ == call.name@),
        has_tool(active@, call.name@) && json_document(call.arguments@) is None ==> (r matches Err(
            AgentError::ToolError(m),
        ) && m@.len() >= invalid_arguments_prefix().len() && m@.subrange(0, invalid_arguments_prefix().len() as int)
            == invalid_arguments_prefix()),
{
    let i = match find_tool(active, &call.name) {
        Ok(i) => i,
        Err(e) => {
            assert(!has_tool(active@, call.name@));
            return Err(e);
        },
    };
    assert(has_tool(active@, call.name@)) by {
        assert(active@[i as int].definition.name@ == call.name@);
    }
    match parse_json_document(call.arguments.as_str()) {
        Ok(arguments) => {
            let req = tool_call_request(call, &active[i], arguments);
            Ok((i, req))
        },
        Err(e) => {
            let mut m = String::new();
            push_str(&mut m, "invalid tool arguments: ");
            push_str(&mut m, e.as_str());
            assert(m@.subrange(0, invalid_arguments_prefix().len() as int) =~= invalid_arguments_prefix());
            Err(AgentError::ToolError(m))
        },
    }
}

/// The request for a call as a session run makes it: like
/// `prepare_tool_call`, except that arguments that are not JSON stand as an
/// empty object.
pub fn prepare_run_tool_call(call: &AgentFunctionCall, active: &Vec<ToolEntry>) -> (r: Result<(usize, ToolCallRequest), AgentError>)
    ensures
        r is Ok <==> has_tool(active@, call.name@),
        r matches Ok((i, req)) ==> first_tool(active@, call.name@, i as int) && request_for(
            req,
            *call,
            active@[i as int],
            match json_document(call.arguments@) {
                Some(a) => a,
                None => JsonView::Object(Seq::empty()),
            },
        ),
        r matches Err(e) ==> (e matches AgentError::ToolNotFound(n) && n@ == call.name@),
{
    let i = find_tool(active, &call.name)?;
    assert(has_tool(active@, call.name@)) by {
        assert(active@[i as int].definition.name@ == call.name@);
    }
    let parsed = match parse_json_document(call.arguments.as_str()) {
        Ok(v) => Some(v),
        Err(_) => None,
    };
    let req = tool_call_request(call, &active[i], arguments_or_empty(parsed));
    Ok((i, req))
}

/// The extension that runs a tool.
pub fn tool_owner(tool: &ToolEntry) -> (r: Result<String, AgentError>)
    ensures
        tool.owner is Some ==> r == Ok::<String, AgentError>(tool.owner->Some_0),
        tool.owner is None ==> (r matches Err(AgentError::ToolError(m)) && m@ == "Tool has no owner"@),
{
    match &tool.owner {
        Some(o) => Ok(o.clone()),
        None => Err(AgentError::ToolError("Tool has no owner".to_string())),
    }
}

/// The result of a tool call from the action's outcome: the result the
/// owner returned; a failed result with the reason when it could not be
/// read, or with the error's message when the action failed.
pub fn result_from_action(outcome: Result<Result<ToolResult, String>, AgentError>) -> (r: ToolResult)
    ensures
        outcome matches Ok(Ok(t)) ==> r == t,
        outcome matches Ok(Err(e)) ==> !r.success && r.error == Some(e),
        outcome matches Err(err) ==> !r.success && (r.error matches Some(m) && (agent_error_text(err) matches Some(
            t,
        ) ==> m@ == t)),
{
    match outcome {
        Ok(Ok(t)) => t,
        Ok(Err(e)) => ToolResult::err(e),
        Err(err) => ToolResult::err(err.message()),
    }
}

/// The item that records a tool's result in the context.
pub fn tool_output_item(call_id: &String, result: &ToolResult) -> (r: Item)
    ensures
        r matches Item::FunctionCallOutput { id: None, call_id: c, output, status: None } && c == *call_id
            && output_view(output) == tool_output_view(result.output),
{
    Item::FunctionCallOutput {
        id: None,
        call_id: call_id.clone(),
        output: result.output.to_function_output(),
        status: None,
    }
}

} // verus!
