use vstd::prelude::*;
use crate::context::ContextSummaryMode;
use crate::request::{ReasoningConfig, ReasoningEffort, ReasoningSummary};

verus! {

/// The `[model.reasoning]` block of a configuration file.
#[derive(Debug, Clone, Copy, PartialEq, Eq, Structural)]
pub struct ModelReasoningSettings {
    pub effort: Option<ReasoningEffort>,
    pub summary: Option<ReasoningSummary>,
    pub context_summary: Option<ContextSummaryMode>,
}

impl From<ReasoningConfig> for ModelReasoningSettings {
    fn from(c: ReasoningConfig) -> (r: Self) {
        ModelReasoningSettings { effort: c.effort, summary: c.summary, context_summary: None }
    }
}

impl vstd::std_specs::convert::FromSpecImpl<ReasoningConfig> for ModelReasoningSettings {
    open spec fn obeys_from_spec() -> bool {
        true
    }

    open spec fn from_spec(c: ReasoningConfig) -> ModelReasoningSettings {
        ModelReasoningSettings { effort: c.effort, summary: c.summary, context_summary: None }
    }
}

/// The `[model]` block of a configuration file. A temperature is carried as
/// the IEEE 754 binary64 encoding of its value.
#[derive(Debug)]
pub struct ModelSettings {
    pub name: Option<String>,
    pub temperature_bits: Option<u64>,
    pub max_output_tokens: Option<i32>,
    pub reasoning: Option<ModelReasoningSettings>,
}

/// How the agent reaches its model and what it asks of it. A temperature is
/// carried as the IEEE 754 binary64 encoding of its value.
#[derive(Debug)]
pub struct AgentConfig {
    pub base_url: String,
    pub api_key: String,
    pub model: String,
    /// A model named explicitly; configuration files do not replace it.
    pub model_override: Option<String>,
    pub temperature_bits: Option<u64>,
    pub max_output_tokens: Option<i32>,
    pub reasoning: Option<ReasoningConfig>,
    pub context_summary: ContextSummaryMode,
    /// The most turns an agent run takes; 0 leaves the loop unlimited.
    pub max_iterations: usize,
}

/// The configuration after the `[model]` block `s` is applied to `c`: the
/// name unless a model was named explicitly, each other value that the
/// block sets, reasoning when it sets an effort or a summary, and the
/// context summary mode when it sets one.
pub open spec fn applied(c: AgentConfig, s: ModelSettings) -> AgentConfig {
    AgentConfig {
        model: if c.model_override is None && s.name is Some {
            s.name->Some_0
        } else {
            c.model
        },
        temperature_bits: if s.temperature_bits is Some {
            s.temperature_bits
        } else {
            c.temperature_bits
        },
        max_output_tokens: if s.max_output_tokens is Some {
            s.max_output_tokens
        } else {
            c.max_output_tokens
        },
        reasoning: match s.reasoning {
            Some(r) => if r.effort is Some || r.summary is Some {
                Some(ReasoningConfig { effort: r.effort, summary: r.summary })
            } else {
                c.reasoning
            },
            None => c.reasoning,
        },
        context_summary: match s.reasoning {
            Some(r) => match r.context_summary {
                Some(m) => m,
                None => c.context_summary,
            },
            None => c.context_summary,
        },
        ..c
    }
}

/// The configuration with `model` named explicitly.
pub open spec fn with_model_spec(c: AgentConfig, model: String) -> AgentConfig {
    AgentConfig { model, model_override: Some(model), ..c }
}

impl AgentConfig {
    /// A configuration with no optional value set and summaries off.
    pub fn new(base_url: String, api_key: String, model: String) -> (r: Self)
        ensures
            r == (AgentConfig {
                base_url,
                api_key,
                model,
                model_override: None,
                temperature_bits: None,
                max_output_tokens: None,
                reasoning: None,
                context_summary: ContextSummaryMode::Off,
                max_iterations: 0,
            }),
    {
        AgentConfig {
            base_url,
            api_key,
            model,
            model_override: None,
            temperature_bits: None,
            max_output_tokens: None,
            reasoning: None,
            context_summary: ContextSummaryMode::default_mode(),
            max_iterations: 0,
        }
    }

    /// Applies a `[model]` block (see `applied`).
    pub fn apply_model_settings(&mut self, settings: &ModelSettings)
        ensures
            *final(self) == applied(*old(self), *settings),
    {
        if self.model_override.is_none() {
            if let Some(name) = &settings.name {
                self.model = name.clone();
            }
        }
        if settings.temperature_bits.is_some() {
            self.temperature_bits = settings.temperature_bits;
        }
        if settings.max_output_tokens.is_some() {
            self.max_output_tokens = settings.max_output_tokens;
        }
        if let Some(r) = &settings.reasoning {
            if r.effort.is_some() || r.summary.is_some() {
                self.reasoning = Some(ReasoningConfig { effort: r.effort, summary: r.summary });
            }
            if let Some(mode) = r.context_summary {
                self.context_summary = mode;
            }
        }
    }

    /// Names the model explicitly; configuration files do not replace it.
    pub fn with_model(self, model: String) -> (r: Self)
        ensures
            r == with_model_spec(self, model),
    {
        let m = model.clone();
        AgentConfig { model, model_override: Some(m), ..self }
    }

    /// Sets or clears the explicit model; a named model also becomes the model.
    pub fn with_model_override(self, model: Option<String>) -> (r: Self)
        ensures
            r == (AgentConfig {
                model: match model {
                    Some(m) => m,
                    None => self.model,
                },
                model_override: model,
                ..self
            }),
    {
        let current = match &model {
            Some(m) => m.clone(),
            None => self.model,
        };
        AgentConfig { model: current, model_override: model, ..self }
    }

    /// Sets the temperature (by its binary64 encoding).
    pub fn with_temperature_bits(self, bits: u64) -> (r: Self)
        ensures
            r == (AgentConfig { temperature_bits: Some(bits), ..self }),
    {
        AgentConfig { temperature_bits: Some(bits), ..self }
    }

    /// Limits an agent run to `max_iterations` turns (0: no limit).
    pub fn with_max_iterations(self, max_iterations: usize) -> (r: Self)
        ensures
            r == (AgentConfig { max_iterations, ..self }),
    {
        AgentConfig { max_iterations, ..self }
    }

    pub fn with_max_output_tokens(self, max_tokens: i32) -> (r: Self)
        ensures
            r == (AgentConfig { max_output_tokens: Some(max_tokens), ..self }),
    {
        AgentConfig { max_output_tokens: Some(max_tokens), ..self }
    }

    pub fn with_reasoning(self, reasoning: ReasoningConfig) -> (r: Self)
        ensures
            r == (AgentConfig { reasoning: Some(reasoning), ..self }),
    {
        AgentConfig { reasoning: Some(reasoning), ..self }
    }

    /// Sets the reasoning effort, keeping a summary already set.
    pub fn with_reasoning_effort(self, effort: ReasoningEffort) -> (r: Self)
        ensures
            r == (AgentConfig {
                reasoning: Some(ReasoningConfig {
                    effort: Some(effort),
                    summary: match self.reasoning {
                        Some(c) => c.summary,
                        None => None,
                    },
                }),
                ..self
            }),
    {
        let summary = match self.reasoning {
            Some(c) => c.summary,
            None => None,
        };
        AgentConfig { reasoning: Some(ReasoningConfig { effort: Some(effort), summary }), ..self }
    }

    /// Sets the reasoning summary, keeping an effort already set.
    pub fn with_reasoning_summary(self, summary: ReasoningSummary) -> (r: Self)
        ensures
            r == (AgentConfig {
                reasoning: Some(ReasoningConfig {
                    effort: match self.reasoning {
                        Some(c) => c.effort,
                        None => None,
                    },
                    summary: Some(summary),
                }),
                ..self
            }),
    {
        let effort = match self.reasoning {
            Some(c) => c.effort,
            None => None,
        };
        AgentConfig { reasoning: Some(ReasoningConfig { effort, summary: Some(summary) }), ..self }
    }

    pub fn with_context_summary(self, mode: ContextSummaryMode) -> (r: Self)
        ensures
            r == (AgentConfig { context_summary: mode, ..self }),
    {
        AgentConfig { context_summary: mode, ..self }
    }
}

/// A model named explicitly survives any `[model]` block applied later.
pub proof fn lemma_override_survives_settings(c: AgentConfig, model: String, s: ModelSettings)
    ensures
        applied(with_model_spec(c, model), s).model == model,
        applied(with_model_spec(c, model), s).model_override == Some(model),
{
}

/// Without an explicit model, a `[model]` block that names one sets it.
pub proof fn lemma_settings_name_applies(c: AgentConfig, s: ModelSettings)
    requires
        c.model_override is None,
        s.name is Some,
    ensures
        applied(c, s).model == s.name->Some_0,
{
}

/// Applying the same `[model]` block twice changes nothing more.
pub proof fn lemma_apply_idempotent(c: AgentConfig, s: ModelSettings)
    ensures
        applied(applied(c, s), s) == applied(c, s),
{
}

} // verus!
