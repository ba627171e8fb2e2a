use vstd::prelude::*;
use crate::item::{items_view, sv, Item, ItemView};
use crate::json::{json_view, JsonValue, JsonView};

verus! {

/// How much effort a reasoning model spends.
#[derive(Debug, Clone, Copy, PartialEq, Eq, Structural)]
pub enum ReasoningEffort {
    /// No reasoning effort (`none` on the wire).
    Disabled,
    Low,
    Medium,
    High,
    Xhigh,
}

/// How a reasoning model summarises its reasoning.
#[derive(Debug, Clone, Copy, PartialEq, Eq, Structural)]
pub enum ReasoningSummary {
    Concise,
    Detailed,
    Auto,
}

/// Reasoning parameters of a model request.
#[derive(Debug, Clone, Copy, PartialEq, Eq, Structural)]
pub struct ReasoningConfig {
    pub effort: Option<ReasoningEffort>,
    pub summary: Option<ReasoningSummary>,
}

/// A function tool offered to the model.
#[derive(Debug)]
pub struct FunctionTool {
    pub name: String,
    pub description: Option<String>,
    pub parameters: Option<JsonValue>,
}

/// A function tool over mathematical values.
pub struct FunctionToolView {
    pub name: Seq<char>,
    pub description: Option<Seq<char>>,
    pub parameters: Option<JsonView>,
}

pub open spec fn function_tool_view(t: FunctionTool) -> FunctionToolView {
    FunctionToolView {
        name: t.name@,
        description: sv(t.description),
        parameters: match t.parameters {
            Some(p) => Some(json_view(p)),
            None => None,
        },
    }
}

pub open spec fn function_tools_view(s: Seq<FunctionTool>) -> Seq<FunctionToolView> {
    s.map_values(|t: FunctionTool| function_tool_view(t))
}

/// A non-streaming model request. A temperature is carried as the IEEE 754
/// binary64 encoding of its value.
#[derive(Debug)]
pub struct ModelRequest {
    pub input: Vec<Item>,
    pub model: String,
    pub instructions: String,
    pub tools: Option<Vec<FunctionTool>>,
    /// Whether the tool choice is the automatic one; only set with tools.
    pub tool_choice_auto: bool,
    pub temperature_bits: Option<u64>,
    pub max_output_tokens: Option<i32>,
    pub reasoning: Option<ReasoningConfig>,
    pub stream: bool,
}

/// A model request over mathematical values.
pub struct ModelRequestView {
    pub input: Seq<ItemView>,
    pub model: Seq<char>,
    pub instructions: Seq<char>,
    pub tools: Option<Seq<FunctionToolView>>,
    pub tool_choice_auto: bool,
    pub temperature_bits: Option<u64>,
    pub max_output_tokens: Option<i32>,
    pub reasoning: Option<ReasoningConfig>,
    pub stream: bool,
}

pub open spec fn model_request_view(r: ModelRequest) -> ModelRequestView {
    ModelRequestView {
        input: items_view(r.input@),
        model: r.model@,
        instructions: r.instructions@,
        tools: match r.tools {
            Some(t) => Some(function_tools_view(t@)),
            None => None,
        },
        tool_choice_auto: r.tool_choice_auto,
        temperature_bits: r.temperature_bits,
        max_output_tokens: r.max_output_tokens,
        reasoning: r.reasoning,
        stream: r.stream,
    }
}

} // verus!
