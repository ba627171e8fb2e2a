use vstd::prelude::*;
use crate::text::{decimal, push_str, push_u64_decimal};
use openresponses_rust::StreamingError;

verus! {

#[verifier::external_type_specification]
#[verifier::external_body]
pub struct ExStreamingError(openresponses_rust::StreamingError);

/// Errors of the agent loop and its collaborators.
#[derive(Debug)]
pub enum AgentError {
    /// The model endpoint could not be reached or answered badly.
    Streaming(Box<StreamingError>),
    /// The model answered with an error or a failed status.
    ResponseFailed(String),
    /// An environment variable could not be read; holds the reason as text.
    EnvError(String),
    ToolError(String),
    ToolNotFound(String),
    ChannelError(String),
    InvalidSessionId(String),
    JsonError(serde_json::Error),
    MaxIterationsReached(usize),
    HookRejected { hook: String, reason: String },
    /// The run was cancelled by its caller.
    Cancelled,
    /// Another run holds the session's lock.
    SessionLocked(String),
    /// The frozen configuration cannot drive a run.
    ConfigError(String),
    /// A stored session has another schema version than this build reads.
    UnsupportedSessionVersion { found: Option<u64>, expected: u32 },
}

/// The display text of a streaming error.
#[verifier::external_body]
fn streaming_error_text(e: &StreamingError) -> String {
    format!("{}", e)
}

/// The display text of a JSON error.
#[verifier::external_body]
fn json_error_text(e: &serde_json::Error) -> String {
    format!("{}", e)
}

/// The message of each error whose text the library composes itself; `None`
/// for the two variants that carry an outside error and show its own text.
pub open spec fn agent_error_text(e: AgentError) -> Option<Seq<char>> {
    match e {
        AgentError::Streaming(_) => None,
        AgentError::JsonError(_) => None,
        AgentError::ResponseFailed(s) => Some("Model response failed: "@ + s@),
        AgentError::EnvError(s) => Some("Environment variable error: "@ + s@),
        AgentError::ToolError(s) => Some("Tool error: "@ + s@),
        AgentError::ToolNotFound(s) => Some("Tool not found: "@ + s@),
        AgentError::ChannelError(s) => Some("Channel send error: "@ + s@),
        AgentError::InvalidSessionId(s) => Some("Invalid session id: "@ + s@),
        AgentError::MaxIterationsReached(n) => Some(
            "Maximum iterations reached ("@ + decimal(n as nat) + ")"@,
        ),
        AgentError::HookRejected { hook, reason } => Some(
            "Hook '"@ + hook@ + "' rejected the operation: "@ + reason@,
        ),
        AgentError::Cancelled => Some("Operation cancelled"@),
        AgentError::SessionLocked(s) => Some("Session locked: "@ + s@),
        AgentError::ConfigError(s) => Some("Configuration error: "@ + s@),
        AgentError::UnsupportedSessionVersion { found, expected } => Some(
            "Unsupported session version: found "@ + (match found {
                Some(v) => decimal(v as nat),
                None => "none"@,
            }) + ", expected "@ + decimal(expected as nat),
        ),
    }
}

impl AgentError {
    /// The human readable message of the error.
    pub fn message(&self) -> (r: String)
        ensures
            agent_error_text(*self) matches Some(t) ==> r@ == t,
            *self is Streaming ==> r@.take(17) == "Streaming error: "@,
            *self is JsonError ==> r@.take(42)
                == "JSON serialization/deserialization error: "@,
    {
        let mut out = String::new();
        match self {
            AgentError::Streaming(e) => {
                push_str(&mut out, "Streaming error: ");
                let t = streaming_error_text(&**e);
                push_str(&mut out, t.as_str());
                proof { reveal_strlit("Streaming error: "); }
            },
            AgentError::JsonError(e) => {
                push_str(&mut out, "JSON serialization/deserialization error: ");
                let t = json_error_text(e);
                push_str(&mut out, t.as_str());
                proof { reveal_strlit("JSON serialization/deserialization error: "); }
            },
            AgentError::ResponseFailed(s) => {
                push_str(&mut out, "Model response failed: ");
                push_str(&mut out, s.as_str());
            },
            AgentError::EnvError(s) => {
                push_str(&mut out, "Environment variable error: ");
                push_str(&mut out, s.as_str());
            },
            AgentError::ToolError(s) => {
                push_str(&mut out, "Tool error: ");
                push_str(&mut out, s.as_str());
            },
            AgentError::ToolNotFound(s) => {
                push_str(&mut out, "Tool not found: ");
                push_str(&mut out, s.as_str());
            },
            AgentError::ChannelError(s) => {
                push_str(&mut out, "Channel send error: ");
                push_str(&mut out, s.as_str());
            },
            AgentError::InvalidSessionId(s) => {
                push_str(&mut out, "Invalid session id: ");
                push_str(&mut out, s.as_str());
            },
            AgentError::MaxIterationsReached(n) => {
                push_str(&mut out, "Maximum iterations reached (");
                push_u64_decimal(&mut out, *n as u64);
                push_str(&mut out, ")");
            },
            AgentError::HookRejected { hook, reason } => {
                push_str(&mut out, "Hook '");
                push_str(&mut out, hook.as_str());
                push_str(&mut out, "' rejected the operation: ");
                push_str(&mut out, reason.as_str());
            },
            AgentError::Cancelled => {
                push_str(&mut out, "Operation cancelled");
            },
            AgentError::SessionLocked(s) => {
                push_str(&mut out, "Session locked: ");
                push_str(&mut out, s.as_str());
            },
            AgentError::ConfigError(s) => {
                push_str(&mut out, "Configuration error: ");
                push_str(&mut out, s.as_str());
            },
            AgentError::UnsupportedSessionVersion { found, expected } => {
                push_str(&mut out, "Unsupported session version: found ");
                match found {
                    Some(v) => push_u64_decimal(&mut out, *v),
                    None => push_str(&mut out, "none"),
                }
                push_str(&mut out, ", expected ");
                push_u64_decimal(&mut out, *expected as u64);
            },
        }
        proof {
            assert(Seq::<char>::empty() + out@ =~= out@);
        }
        out
    }
}

} // verus!
