use vstd::prelude::*;
use crate::ids::{generated_id_shape, ActivationId, BatchSeq, CommandId, ConfigRef, EventId, EventSeq, SessionId, TurnId};
use crate::time::{now_utc, UtcTime};

verus! {

/// Cached input tokens of a response.
#[derive(Debug, Clone, Copy, PartialEq, Eq, Structural)]
pub struct InputTokensDetails {
    pub cached_tokens: i32,
}

/// Reasoning tokens of a response.
#[derive(Debug, Clone, Copy, PartialEq, Eq, Structural)]
pub struct OutputTokensDetails {
    pub reasoning_tokens: i32,
}

/// Token accounting that a model response reports.
#[derive(Debug, Clone, Copy, PartialEq, Eq, Structural)]
pub struct Usage {
    pub input_tokens: i32,
    pub output_tokens: i32,
    pub total_tokens: i32,
    pub input_tokens_details: InputTokensDetails,
    pub output_tokens_details: OutputTokensDetails,
}

/// A fact recorded in a session's event log.
#[derive(Debug)]
pub enum SessionEvent {
    SessionCreated { command_id: Option<CommandId>, idempotency_key: Option<String> },
    SessionClosed,
    SessionArchived,
    ActivationRequested {
        config_ref: ConfigRef,
        command_id: Option<CommandId>,
        idempotency_key: Option<String>,
        input_batch_seq: BatchSeq,
    },
    ActivationStarted,
    TurnStarted,
    TurnCompleted {
        response_id: Option<String>,
        output_batch_seq: Option<BatchSeq>,
        usage: Option<Usage>,
    },
    ToolCallStarted { call_id: String, name: String },
    ToolCallFinished {
        call_id: String,
        name: String,
        success: bool,
        duration_ms: Option<u64>,
        output_batch_seq: BatchSeq,
    },
    ActivationCompleted { usage: Option<Usage> },
    ActivationFailed { error: String },
    ActivationCancelled,
    ActivationInterrupted { reason: String },
}

/// The snake-case name under which an event kind is stored.
pub open spec fn event_kind_name(e: SessionEvent) -> Seq<char> {
    match e {
        SessionEvent::SessionCreated { .. } => "session_created"@,
        SessionEvent::SessionClosed => "session_closed"@,
        SessionEvent::SessionArchived => "session_archived"@,
        SessionEvent::ActivationRequested { .. } => "activation_requested"@,
        SessionEvent::ActivationStarted => "activation_started"@,
        SessionEvent::TurnStarted => "turn_started"@,
        SessionEvent::TurnCompleted { .. } => "turn_completed"@,
        SessionEvent::ToolCallStarted { .. } => "tool_call_started"@,
        SessionEvent::ToolCallFinished { .. } => "tool_call_finished"@,
        SessionEvent::ActivationCompleted { .. } => "activation_completed"@,
        SessionEvent::ActivationFailed { .. } => "activation_failed"@,
        SessionEvent::ActivationCancelled => "activation_cancelled"@,
        SessionEvent::ActivationInterrupted { .. } => "activation_interrupted"@,
    }
}

impl SessionEvent {
    pub fn kind_str(&self) -> (r: &'static str)
        ensures
            r@ == event_kind_name(*self),
    {
        match self {
            SessionEvent::SessionCreated { .. } => "session_created",
            SessionEvent::SessionClosed => "session_closed",
            SessionEvent::SessionArchived => "session_archived",
            SessionEvent::ActivationRequested { .. } => "activation_requested",
            SessionEvent::ActivationStarted => "activation_started",
            SessionEvent::TurnStarted => "turn_started",
            SessionEvent::TurnCompleted { .. } => "turn_completed",
            SessionEvent::ToolCallStarted { .. } => "tool_call_started",
            SessionEvent::ToolCallFinished { .. } => "tool_call_finished",
            SessionEvent::ActivationCompleted { .. } => "activation_completed",
            SessionEvent::ActivationFailed { .. } => "activation_failed",
            SessionEvent::ActivationCancelled => "activation_cancelled",
            SessionEvent::ActivationInterrupted { .. } => "activation_interrupted",
        }
    }
}

/// An event together with its position and context in the session log.
#[derive(Debug)]
pub struct SessionEventEnvelope {
    pub format_version: u32,
    pub event_seq: EventSeq,
    pub event_id: EventId,
    pub session_id: SessionId,
    pub activation_id: Option<ActivationId>,
    pub turn_id: Option<TurnId>,
    pub created_at: UtcTime,
    pub event: SessionEvent,
}

impl SessionEventEnvelope {
    /// Wraps `event` at position `event_seq`, with a fresh event id and the
    /// current time.
    pub fn new(
        event_seq: EventSeq,
        session_id: SessionId,
        activation_id: Option<ActivationId>,
        turn_id: Option<TurnId>,
        event: SessionEvent,
    ) -> (r: Self)
        ensures
            r.format_version == 1,
            r.event_seq == event_seq,
            generated_id_shape("evt"@, r.event_id.0@),
            r.session_id == session_id,
            r.activation_id == activation_id,
            r.turn_id == turn_id,
            r.event == event,
    {
        SessionEventEnvelope {
            format_version: 1,
            event_seq,
            event_id: EventId::generate(),
            session_id,
            activation_id,
            turn_id,
            created_at: now_utc(),
            event,
        }
    }
}

} // verus!
