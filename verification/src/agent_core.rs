use vstd::prelude::*;
use crate::context::{projected_view, reasoning_text, push_reasoning_text, ContextProjection, ContextSummaryMode};
use crate::error::AgentError;
use crate::event::Usage;
use crate::item::{ContentPart, Item};
use crate::request::{function_tools_view, model_request_view, FunctionTool, ModelRequest, ReasoningConfig};
use crate::text::push_str;
use crate::hook_manager::temperature_bits_valid;

verus! {

/// A function call that the model asked for.
#[derive(Debug)]
pub struct AgentFunctionCall {
    pub call_id: String,
    pub name: String,
    pub arguments: String,
}

/// Status of a model response.
#[derive(Debug)]
pub enum ResponseStatus {
    Queued,
    InProgress,
    Completed,
    Failed,
    Incomplete,
    Other(String),
}

/// The parts of a model response that a step reads.
#[derive(Debug)]
pub struct ModelResponse {
    pub id: String,
    pub status: ResponseStatus,
    /// The message of the response's error, when it has one.
    pub error_message: Option<String>,
    pub output: Vec<Item>,
    pub usage: Option<Usage>,
}

/// What one model step produced.
#[derive(Debug)]
pub struct AgentCoreStepResult {
    pub output_items: Vec<Item>,
    pub function_calls: Vec<AgentFunctionCall>,
    pub response_id: Option<String>,
    pub usage: Option<Usage>,
    pub text: String,
    pub reasoning_text: String,
}

/// The stateless core of the agent loop: one model step.
pub struct AgentCore;

/// Text that a part of an output message contributes to a step's text.
pub open spec fn response_part_text(p: ContentPart) -> Seq<char> {
    match p {
        ContentPart::OutputText { text, .. } => text@,
        ContentPart::PlainText { text } => text@,
        ContentPart::Refusal { refusal } => refusal@,
        _ => Seq::empty(),
    }
}

pub open spec fn response_text(parts: Seq<ContentPart>) -> Seq<char>
    decreases parts.len(),
{
    if parts.len() == 0 {
        Seq::empty()
    } else {
        response_text(parts.drop_last()) + response_part_text(parts.last())
    }
}

/// The text of a step: the text parts and refusals of its output messages.
pub open spec fn step_text(items: Seq<Item>) -> Seq<char>
    decreases items.len(),
{
    if items.len() == 0 {
        Seq::empty()
    } else {
        step_text(items.drop_last()) + match items.last() {
            Item::Message { content, .. } => response_text(content@),
            _ => Seq::empty(),
        }
    }
}

/// The reasoning text of a step: each reasoning item adds its summary text;
/// its content text is added instead when no reasoning text has been
/// gathered so far.
pub open spec fn step_reasoning(items: Seq<Item>) -> Seq<char>
    decreases items.len(),
{
    if items.len() == 0 {
        Seq::empty()
    } else {
        let prev = step_reasoning(items.drop_last());
        match items.last() {
            Item::Reasoning { summary, content, .. } => {
                let r = prev + reasoning_text(summary@);
                if r.len() == 0 && content is Some {
                    r + reasoning_text(content->0@)
                } else {
                    r
                }
            },
            _ => prev,
        }
    }
}

/// The function calls of a step, as (call id, name, arguments), in order.
pub open spec fn step_calls(items: Seq<Item>) -> Seq<(Seq<char>, Seq<char>, Seq<char>)>
    decreases items.len(),
{
    if items.len() == 0 {
        Seq::empty()
    } else {
        let prev = step_calls(items.drop_last());
        match items.last() {
            Item::FunctionCall { call_id, name, arguments, .. } => prev.push(
                (call_id@, name@, arguments@),
            ),
            _ => prev,
        }
    }
}

pub open spec fn call_view(c: AgentFunctionCall) -> (Seq<char>, Seq<char>, Seq<char>) {
    (c.call_id@, c.name@, c.arguments@)
}

/// The error of a response, if it failed: its own error message first, then
/// a failed status.
pub open spec fn response_failure(r: ModelResponse) -> Option<Seq<char>> {
    match r.error_message {
        Some(m) => Some(m@),
        None => if r.status is Failed {
            Some("Response status is failed"@)
        } else {
            None
        },
    }
}

/// Appends the step text of message parts.
fn push_response_text(out: &mut String, parts: &Vec<ContentPart>)
    ensures
        final(out)@ == old(out)@ + response_text(parts@),
{
    let mut i: usize = 0;
    while i < parts.len()
        invariant
            i <= parts@.len(),
            out@ == old(out)@ + response_text(parts@.subrange(0, i as int)),
        decreases parts@.len() - i,
    {
        let ghost pre = parts@.subrange(0, i as int);
        let ghost post = parts@.subrange(0, i + 1);
        assert(post.drop_last() =~= pre);
        match &parts[i] {
            ContentPart::OutputText { text, .. } => push_str(out, text.as_str()),
            ContentPart::PlainText { text } => push_str(out, text.as_str()),
            ContentPart::Refusal { refusal } => push_str(out, refusal.as_str()),
            _ => {},
        }
        i = i + 1;
        assert(out@ =~= old(out)@ + response_text(post));
    }
    assert(parts@.subrange(0, parts@.len() as int) =~= parts@);
}

impl AgentCore {
    /// The request of one step: the projected context as input, the tools
    /// with an automatic tool choice when there are any, and no streaming.
    pub fn build_request(
        instructions: &str,
        projection: &ContextProjection,
        model_name: &str,
        temperature_bits: Option<u64>,
        max_output_tokens: Option<i32>,
        reasoning: Option<ReasoningConfig>,
        tools: Vec<FunctionTool>,
        summary_mode: ContextSummaryMode,
    ) -> (r: ModelRequest)
        ensures
            model_request_view(r).input == projected_view(projection.spec_items(), summary_mode),
            r.model@ == model_name@,
            r.instructions@ == instructions@,
            tools@.len() > 0 ==> (r.tools matches Some(t) && function_tools_view(t@)
                == function_tools_view(tools@)),
            tools@.len() == 0 ==> r.tools is None,
            r.tool_choice_auto == (tools@.len() > 0),
            r.temperature_bits == temperature_bits,
            r.max_output_tokens == max_output_tokens,
            r.reasoning == reasoning,
            !r.stream,
    {
        let input = projection.to_input_items(summary_mode);
        let has_tools = tools.len() > 0;
        ModelRequest {
            input,
            model: model_name.to_string(),
            instructions: instructions.to_string(),
            tools: if has_tools { Some(tools) } else { None },
            tool_choice_auto: has_tools,
            temperature_bits,
            max_output_tokens,
            reasoning,
            stream: false,
        }
    }

    /// Reads a model response: fails when it reports an error or a failed
    /// status; otherwise gathers its text, reasoning text and function calls.
    pub fn interpret_response(response: ModelResponse) -> (r: Result<AgentCoreStepResult, AgentError>)
        ensures
            response_failure(response) matches Some(m) ==> (r matches Err(AgentError::ResponseFailed(
                e,
            )) && e@ == m),
            response_failure(response) is None ==> (r matches Ok(s) && {
                &&& s.output_items == response.output
                &&& s.function_calls@.map_values(|c: AgentFunctionCall| call_view(c))
                    == step_calls(response.output@)
                &&& s.response_id == Some(response.id)
                &&& s.usage == response.usage
                &&& s.text@ == step_text(response.output@)
                &&& s.reasoning_text@ == step_reasoning(response.output@)
            }),
    {
        if let Some(m) = response.error_message {
            return Err(AgentError::ResponseFailed(m));
        }
        if let ResponseStatus::Failed = response.status {
            return Err(AgentError::ResponseFailed("Response status is failed".to_string()));
        }
        let output = response.output;
        let mut function_calls: Vec<AgentFunctionCall> = Vec::new();
        let mut text = String::new();
        let mut reasoning = String::new();
        let mut i: usize = 0;
        while i < output.len()
            invariant
                i <= output@.len(),
                text@ == step_text(output@.subrange(0, i as int)),
                reasoning@ == step_reasoning(output@.subrange(0, i as int)),
                function_calls@.map_values(|c: AgentFunctionCall| call_view(c)) == step_calls(
                    output@.subrange(0, i as int),
                ),
            decreases output@.len() - i,
        {
            let ghost pre = output@.subrange(0, i as int);
            let ghost post = output@.subrange(0, i + 1);
            assert(post.drop_last() =~= pre);
            let ghost calls_before = function_calls@;
            match &output[i] {
                Item::Message { content, .. } => {
                    push_response_text(&mut text, content);
                },
                Item::Reasoning { summary, content, .. } => {
                    push_reasoning_text(&mut reasoning, summary);
                    if reasoning.as_str().unicode_len() == 0 {
                        if let Some(c) = content {
                            push_reasoning_text(&mut reasoning, c);
                        }
                    }
                },
                Item::FunctionCall { call_id, name, arguments, .. } => {
                    function_calls.push(
                        AgentFunctionCall {
                            call_id: call_id.clone(),
                            name: name.clone(),
                            arguments: arguments.clone(),
                        },
                    );
                    assert(function_calls@.map_values(|c: AgentFunctionCall| call_view(c))
                        =~= calls_before.map_values(|c: AgentFunctionCall| call_view(c)).push(
                        (call_id@, name@, arguments@),
                    ));
                },
                _ => {},
            }
            proof {
                match output@[i as int] {
                    Item::Message { .. } => {},
                    _ => {
                        assert(text@ =~= step_text(pre) + Seq::<char>::empty());
                    },
                }
            }
            i = i + 1;
        }
        assert(output@.subrange(0, output@.len() as int) =~= output@);
        Ok(
            AgentCoreStepResult {
                output_items: output,
                function_calls,
                response_id: Some(response.id),
                usage: response.usage,
                text,
                reasoning_text: reasoning,
            },
        )
    }
}

/// Why a model request cannot be sent in the non-streaming loop, if it
/// cannot: a missing model, a temperature outside [0, 2], a non-positive
/// token limit, streaming, or a background response.
pub open spec fn request_problem(
    model: Option<Seq<char>>,
    temperature_bits: Option<u64>,
    max_output_tokens: Option<i32>,
    stream: Option<bool>,
    background: Option<bool>,
) -> Option<Seq<char>> {
    if !(model matches Some(m) && m.len() > 0) {
        Some("model must not be empty"@)
    } else if temperature_bits matches Some(b) && !temperature_bits_valid(b) {
        Some("temperature must be between 0 and 2"@)
    } else if max_output_tokens matches Some(v) && v <= 0 {
        Some("max_output_tokens must be positive"@)
    } else if stream == Some(true) {
        Some("stream must be false for non-streaming model I/O"@)
    } else if background == Some(true) {
        Some("background responses are not supported by the Agent loop"@)
    } else {
        None
    }
}

/// Checks the parameters of a model request (see `request_problem`).
pub fn check_model_request(
    model: Option<&str>,
    temperature_bits: Option<u64>,
    max_output_tokens: Option<i32>,
    stream: Option<bool>,
    background: Option<bool>,
) -> (r: Result<(), String>)
    ensures
        match request_problem(
            match model {
                Some(m) => Some(m@),
                None => None,
            },
            temperature_bits,
            max_output_tokens,
            stream,
            background,
        ) {
            Some(m) => r matches Err(e) && e@ == m,
            None => r is Ok,
        },
{
    let has_model = match model {
        Some(m) => m.unicode_len() > 0,
        None => false,
    };
    if !has_model {
        return Err("model must not be empty".to_string());
    }
    if let Some(b) = temperature_bits {
        if !(b <= 0x4000_0000_0000_0000u64 || b == 0x8000_0000_0000_0000u64) {
            return Err("temperature must be between 0 and 2".to_string());
        }
    }
    if let Some(v) = max_output_tokens {
        if v <= 0 {
            return Err("max_output_tokens must be positive".to_string());
        }
    }
    if stream == Some(true) {
        return Err("stream must be false for non-streaming model I/O".to_string());
    }
    if background == Some(true) {
        return Err("background responses are not supported by the Agent loop".to_string());
    }
    Ok(())
}

} // verus!
