use vstd::prelude::*;
use crate::batch::{ActivationRequestMeta, ItemBatch, ItemBatchKind};
use crate::event::{SessionEvent, SessionEventEnvelope, Usage};
use crate::ids::{ActivationId, BatchSeq, CommandId, ConfigRef, EventSeq, LocalItemSeq, SessionId, TurnId, WorkspaceId};
use crate::item::Item;
use crate::projection::{ProjectionError, ReplayState, apply_event, rebuild_spec, replay_upto, items_before, total_items, event_gap_from, batch_gap_from};
use crate::session::{SessionPhase, SessionSpec, SessionStatus};

verus! {

#[verifier::external_type_specification]
#[verifier::external_body]
pub struct ExSqliteError(rusqlite::Error);

#[verifier::external_type_specification]
#[verifier::external_body]
pub struct ExJsonError(serde_json::Error);

#[verifier::external_type_specification]
#[verifier::external_body]
pub struct ExIoError(std::io::Error);

/// Why a store operation failed.
#[derive(Debug)]
pub enum StoreError {
    Sqlite(rusqlite::Error),
    Json(serde_json::Error),
    Io(std::io::Error),
    UnsupportedSchemaVersion {
        found_major: u32,
        found_minor: u32,
        expected_major: u32,
        expected_minor: u32,
    },
    SessionNotFound(SessionId),
    SessionAlreadyExists(SessionId),
    WorkspaceNotFound(WorkspaceId),
    ConfigNotFound(ConfigRef),
    SessionNotOpen { session_id: SessionId, phase: SessionPhase },
    ActiveActivationConflict { session_id: SessionId, active_id: ActivationId },
    Projection(ProjectionError),
    IntegrityCheckFailed(String),
    ConstraintViolation(String),
}


/// The status after one more event, as the store updates it incrementally.
pub open spec fn status_after_event(st: SessionStatus, env: SessionEventEnvelope) -> SessionStatus {
    let r = apply_event(
        ReplayState {
            phase: st.phase,
            active_activation_id: st.active_activation_id,
            last_error: st.last_error,
            updated_at: st.updated_at,
        },
        env,
    );
    SessionStatus {
        phase: r.phase,
        active_activation_id: r.active_activation_id,
        last_error: r.last_error,
        updated_at: r.updated_at,
        event_count: (st.event_count + 1) as u64,
        ..st
    }
}

/// The status after one more batch of `n` items, before its event.
pub open spec fn status_after_batch(st: SessionStatus, n: nat) -> SessionStatus {
    SessionStatus {
        local_item_count: (st.local_item_count + n) as u64,
        effective_context_item_count: (st.local_item_count + n) as u64,
        batch_count: (st.batch_count + 1) as u64,
        ..st
    }
}

proof fn lemma_event_gap_none(events: Seq<SessionEventEnvelope>, i: int)
    requires
        0 <= i <= events.len(),
        event_gap_from(events, i) is None,
    ensures
        forall|j: int| i <= j < events.len() ==> (#[trigger] events[j]).event_seq.0 == j,
    decreases events.len() - i,
{
    if i < events.len() {
        lemma_event_gap_none(events, i + 1);
    }
}

proof fn lemma_event_gap_all(events: Seq<SessionEventEnvelope>, i: int)
    requires
        0 <= i <= events.len(),
        forall|j: int| i <= j < events.len() ==> (#[trigger] events[j]).event_seq.0 == j,
    ensures
        event_gap_from(events, i) is None,
    decreases events.len() - i,
{
    if i < events.len() {
        lemma_event_gap_all(events, i + 1);
    }
}

proof fn lemma_items_before_push(batches: Seq<ItemBatch>, b: ItemBatch, i: int)
    requires
        0 <= i <= batches.len(),
    ensures
        items_before(batches.push(b), i) == items_before(batches, i),
    decreases i,
{
    if i > 0 {
        lemma_items_before_push(batches, b, i - 1);
    }
}

proof fn lemma_batch_gap_none(batches: Seq<ItemBatch>, i: int)
    requires
        0 <= i <= batches.len(),
        batch_gap_from(batches, i) is None,
    ensures
        forall|j: int|
            i <= j < batches.len() ==> (#[trigger] batches[j]).batch_seq.0 == j
                && batches[j].first_local_item_seq.0 == items_before(batches, j),
    decreases batches.len() - i,
{
    if i < batches.len() {
        lemma_batch_gap_none(batches, i + 1);
    }
}

proof fn lemma_batch_gap_all(batches: Seq<ItemBatch>, i: int)
    requires
        0 <= i <= batches.len(),
        forall|j: int|
            i <= j < batches.len() ==> (#[trigger] batches[j]).batch_seq.0 == j
                && batches[j].first_local_item_seq.0 == items_before(batches, j),
    ensures
        batch_gap_from(batches, i) is None,
    decreases batches.len() - i,
{
    if i < batches.len() {
        lemma_batch_gap_all(batches, i + 1);
    }
}

proof fn lemma_replay_push(events: Seq<SessionEventEnvelope>, e: SessionEventEnvelope, k: int)
    requires
        1 <= k <= events.len(),
    ensures
        replay_upto(events.push(e), k) == replay_upto(events, k),
    decreases k,
{
    if k > 1 {
        lemma_replay_push(events, e, k - 1);
    }
}

/// Extending a session's facts by one event (with its sequence number at the
/// end of the log) changes the rebuilt status exactly as the incremental
/// update `status_after_event` does.
pub proof fn lemma_event_extends_rebuild(
    spec: SessionSpec,
    batches: Seq<ItemBatch>,
    events: Seq<SessionEventEnvelope>,
    st: SessionStatus,
    env: SessionEventEnvelope,
)
    requires
        rebuild_spec(spec, batches, events) == Ok::<SessionStatus, ProjectionError>(st),
        env.event_seq.0 == st.event_count,
        events.len() < u64::MAX,
    ensures
        rebuild_spec(spec, batches, events.push(env)) == Ok::<SessionStatus, ProjectionError>(
            status_after_event(st, env),
        ),
{
    let ev2 = events.push(env);
    lemma_event_gap_none(events, 0);
    assert forall|j: int| 0 <= j < ev2.len() implies (#[trigger] ev2[j]).event_seq.0 == j by {
        if j < events.len() {
            assert(ev2[j] == events[j]);
        }
    }
    lemma_event_gap_all(ev2, 0);
    assert(ev2[0] == events[0]);
    lemma_replay_push(events, env, events.len() as int);
    assert(replay_upto(ev2, ev2.len() as int) == apply_event(replay_upto(events, events.len() as int), env));
}

/// Extending a session's facts by one batch and its event (each with its
/// sequence number, and the batch at the next item position) changes the
/// rebuilt status exactly as the incremental commit update does.
pub proof fn lemma_commit_extends_rebuild(
    spec: SessionSpec,
    batches: Seq<ItemBatch>,
    events: Seq<SessionEventEnvelope>,
    st: SessionStatus,
    batch: ItemBatch,
    env: SessionEventEnvelope,
)
    requires
        rebuild_spec(spec, batches, events) == Ok::<SessionStatus, ProjectionError>(st),
        batch.batch_seq.0 == st.batch_count,
        batch.first_local_item_seq.0 == st.local_item_count,
        env.event_seq.0 == st.event_count,
        events.len() < u64::MAX,
        batches.len() < u64::MAX,
        total_items(batches) + batch.items@.len() <= u64::MAX,
    ensures
        rebuild_spec(spec, batches.push(batch), events.push(env)) == Ok::<
            SessionStatus,
            ProjectionError,
        >(status_after_event(status_after_batch(st, batch.items@.len()), env)),
{
    let b2 = batches.push(batch);
    lemma_event_extends_rebuild(spec, batches, events, st, env);
    lemma_batch_gap_none(batches, 0);
    assert forall|j: int| 0 <= j < b2.len() implies (#[trigger] b2[j]).batch_seq.0 == j
        && b2[j].first_local_item_seq.0 == items_before(b2, j) by {
        lemma_items_before_push(batches, batch, j);
        if j < batches.len() {
            assert(b2[j] == batches[j]);
        }
    }
    lemma_batch_gap_all(b2, 0);
    lemma_items_before_push(batches, batch, batches.len() as int);
    assert(total_items(b2) == total_items(batches) + batch.items@.len());
}


/// Message for committing no items; `what` names the kind of commit.
pub open spec fn empty_commit_message(what: Seq<char>) -> Seq<char> {
    "Cannot commit empty "@ + what + " items"@
}

/// Refuses an empty commit before the store is touched: a commit must append
/// at least one item. `what` names the commit ("input", "model output",
/// "tool output") in the message.
pub fn require_items(items: &Vec<Item>, what: &str) -> (r: Result<(), StoreError>)
    ensures
        r is Ok <==> items@.len() > 0,
        r matches Err(e) ==> e matches StoreError::ConstraintViolation(m) && m@
            == empty_commit_message(what@),
{
    if items.len() == 0 {
        let mut m = String::from_str("Cannot commit empty ");
        crate::text::push_str(&mut m, what);
        crate::text::push_str(&mut m, " items");
        return Err(StoreError::ConstraintViolation(m));
    }
    Ok(())
}

/// The message for a commit that the session's counters have no room for.
pub open spec fn counters_exhausted_text() -> Seq<char> {
    "session counters are exhausted"@
}

/// Refuses a commit of `new_items` items that would overflow the status
/// counters, which the commit plans require to have room.
pub fn check_room(status: &SessionStatus, new_items: usize) -> (r: Result<(), StoreError>)
    ensures
        r is Ok <==> status.batch_count < u64::MAX && status.event_count < u64::MAX && status.local_item_count
            + new_items <= u64::MAX,
        r matches Err(e) ==> e matches StoreError::ConstraintViolation(m) && m@ == counters_exhausted_text(),
{
    let items_fit = status.local_item_count.checked_add(new_items as u64).is_some();
    if status.batch_count == u64::MAX || status.event_count == u64::MAX || !items_fit {
        return Err(StoreError::ConstraintViolation("session counters are exhausted".to_string()));
    }
    Ok(())
}

/// Refuses an event that the event counter has no room for.
pub fn check_event_room(status: &SessionStatus) -> (r: Result<(), StoreError>)
    ensures
        r is Ok <==> status.event_count < u64::MAX,
        r matches Err(e) ==> e matches StoreError::ConstraintViolation(m) && m@ == counters_exhausted_text(),
{
    if status.event_count == u64::MAX {
        return Err(StoreError::ConstraintViolation("session counters are exhausted".to_string()));
    }
    Ok(())
}

/// The message for stored batches whose items a counter cannot hold.
pub open spec fn item_count_overflow_text() -> Seq<char> {
    "session item count overflows"@
}

/// Refuses stored batches whose items together overflow a `u64` counter.
pub fn check_total_items(batches: &Vec<ItemBatch>) -> (r: Result<(), StoreError>)
    ensures
        r is Ok <==> total_items(batches@) <= u64::MAX,
        r matches Err(e) ==> e matches StoreError::ConstraintViolation(m) && m@ == item_count_overflow_text(),
{
    let mut total: u64 = 0;
    let mut i: usize = 0;
    while i < batches.len()
        invariant
            i <= batches@.len(),
            total == items_before(batches@, i as int),
        decreases batches@.len() - i,
    {
        match total.checked_add(batches[i].items.len() as u64) {
            Some(t) => total = t,
            None => {
                proof {
                    lemma_items_before_grows(batches@, i as int + 1, batches@.len() as int);
                }
                return Err(StoreError::ConstraintViolation("session item count overflows".to_string()));
            },
        }
        i = i + 1;
    }
    Ok(())
}

/// The items before `n` are no more than those before a later `m`.
proof fn lemma_items_before_grows(batches: Seq<ItemBatch>, n: int, m: int)
    requires
        n <= m,
    ensures
        items_before(batches, n) <= items_before(batches, m),
    decreases m - n,
{
    if n < m {
        lemma_items_before_grows(batches, n, m - 1);
    }
}

fn clone_opt_string(a: &Option<String>) -> (r: Option<String>)
    ensures
        r == *a,
{
    match a {
        Some(x) => Some(x.clone()),
        None => None,
    }
}

fn clone_opt_command(a: &Option<CommandId>) -> (r: Option<CommandId>)
    ensures
        r == *a,
{
    match a {
        Some(x) => Some(x.clone()),
        None => None,
    }
}

/// Batch, event and new status for an input commit that starts an activation.
///
/// Refused when the session is not open, or when another activation is still
/// active; otherwise the batch takes the next batch sequence number and item
/// position, the `ActivationRequested` event the next event sequence number,
/// and the status is updated incrementally.
pub fn plan_commit_input(
    status: SessionStatus,
    session_id: &SessionId,
    activation_id: &ActivationId,
    config_ref: &ConfigRef,
    items: Vec<Item>,
    command_id: Option<CommandId>,
    idempotency_key: Option<String>,
) -> (r: Result<(ItemBatch, SessionEventEnvelope, SessionStatus), StoreError>)
    requires
        items@.len() > 0,
        status.batch_count < u64::MAX,
        status.event_count < u64::MAX,
        status.local_item_count + items@.len() <= u64::MAX,
    ensures
        r is Err <==> status.phase != SessionPhase::Open || status.active_activation_id is Some,
        status.phase != SessionPhase::Open ==> r == Err::<
            (ItemBatch, SessionEventEnvelope, SessionStatus),
            StoreError,
        >(StoreError::SessionNotOpen { session_id: *session_id, phase: status.phase }),
        status.phase == SessionPhase::Open && status.active_activation_id is Some ==> r == Err::<
            (ItemBatch, SessionEventEnvelope, SessionStatus),
            StoreError,
        >(
            StoreError::ActiveActivationConflict {
                session_id: *session_id,
                active_id: status.active_activation_id->0,
            },
        ),
        r matches Ok((batch, env, st2)) ==> {
            &&& batch.format_version == 1
            &&& batch.session_id == *session_id
            &&& batch.batch_seq.0 == status.batch_count
            &&& batch.first_local_item_seq.0 == status.local_item_count
            &&& batch.kind == ItemBatchKind::Input
            &&& batch.activation_id == *activation_id
            &&& batch.turn_id is None
            &&& batch.response_id is None
            &&& batch.activation_request == Some(
                ActivationRequestMeta { command_id, idempotency_key, config_ref: *config_ref },
            )
            &&& batch.items == items
            &&& env.format_version == 1
            &&& env.event_seq.0 == status.event_count
            &&& env.session_id == *session_id
            &&& env.activation_id == Some(*activation_id)
            &&& env.turn_id is None
            &&& env.event == (SessionEvent::ActivationRequested {
                config_ref: *config_ref,
                command_id,
                idempotency_key,
                input_batch_seq: batch.batch_seq,
            })
            &&& st2 == status_after_event(status_after_batch(status, items@.len()), env)
        },
{
    if status.phase != SessionPhase::Open {
        return Err(StoreError::SessionNotOpen { session_id: session_id.clone(), phase: status.phase });
    }
    if let Some(act) = &status.active_activation_id {
        return Err(
            StoreError::ActiveActivationConflict {
                session_id: session_id.clone(),
                active_id: act.clone(),
            },
        );
    }
    let n = items.len() as u64;
    let batch_seq = BatchSeq::new(status.batch_count);
    let first_local_seq = LocalItemSeq::new(status.local_item_count);
    let event_seq = EventSeq::new(status.event_count);
    let meta = ActivationRequestMeta {
        command_id: clone_opt_command(&command_id),
        idempotency_key: clone_opt_string(&idempotency_key),
        config_ref: config_ref.clone(),
    };
    let batch = match ItemBatch::new(
        session_id.clone(),
        batch_seq,
        first_local_seq,
        ItemBatchKind::Input,
        activation_id.clone(),
        None,
        None,
        Some(meta),
        items,
    ) {
        Ok(b) => b,
        Err(m) => {
            return Err(StoreError::ConstraintViolation(m));
        },
    };
    let event = SessionEvent::ActivationRequested {
        config_ref: config_ref.clone(),
        command_id,
        idempotency_key,
        input_batch_seq: batch_seq,
    };
    let env = SessionEventEnvelope::new(
        event_seq,
        session_id.clone(),
        Some(activation_id.clone()),
        None,
        event,
    );
    let mut st = status;
    st.active_activation_id = Some(activation_id.clone());
    st.local_item_count = st.local_item_count + n;
    st.effective_context_item_count = st.local_item_count;
    st.batch_count = st.batch_count + 1;
    st.event_count = st.event_count + 1;
    st.updated_at = env.created_at;
    Ok((batch, env, st))
}

/// Batch, event and new status for the output items of one model turn: the
/// batch takes the next sequence numbers, the `TurnCompleted` event records
/// the response id, the batch and the usage.
pub fn plan_commit_model_output(
    status: SessionStatus,
    session_id: &SessionId,
    activation_id: &ActivationId,
    turn_id: &TurnId,
    response_id: Option<String>,
    items: Vec<Item>,
    usage: Option<Usage>,
) -> (r: (ItemBatch, SessionEventEnvelope, SessionStatus))
    requires
        items@.len() > 0,
        status.batch_count < u64::MAX,
        status.event_count < u64::MAX,
        status.local_item_count + items@.len() <= u64::MAX,
    ensures
        ({
            let (batch, env, st2) = r;
            &&& batch.format_version == 1
            &&& batch.session_id == *session_id
            &&& batch.batch_seq.0 == status.batch_count
            &&& batch.first_local_item_seq.0 == status.local_item_count
            &&& batch.kind == ItemBatchKind::ModelOutput
            &&& batch.activation_id == *activation_id
            &&& batch.turn_id == Some(*turn_id)
            &&& batch.response_id == response_id
            &&& batch.activation_request is None
            &&& batch.items == items
            &&& env.format_version == 1
            &&& env.event_seq.0 == status.event_count
            &&& env.session_id == *session_id
            &&& env.activation_id == Some(*activation_id)
            &&& env.turn_id == Some(*turn_id)
            &&& env.event == (SessionEvent::TurnCompleted {
                response_id,
                output_batch_seq: Some(batch.batch_seq),
                usage,
            })
            &&& st2 == status_after_event(status_after_batch(status, items@.len()), env)
        }),
{
    let n = items.len() as u64;
    let batch_seq = BatchSeq::new(status.batch_count);
    let first_local_seq = LocalItemSeq::new(status.local_item_count);
    let event_seq = EventSeq::new(status.event_count);
    let batch = match ItemBatch::new(
        session_id.clone(),
        batch_seq,
        first_local_seq,
        ItemBatchKind::ModelOutput,
        activation_id.clone(),
        Some(turn_id.clone()),
        clone_opt_string(&response_id),
        None,
        items,
    ) {
        Ok(b) => b,
        Err(_) => vstd::pervasive::unreached(),
    };
    let event = SessionEvent::TurnCompleted {
        response_id,
        output_batch_seq: Some(batch_seq),
        usage,
    };
    let env = SessionEventEnvelope::new(
        event_seq,
        session_id.clone(),
        Some(activation_id.clone()),
        Some(turn_id.clone()),
        event,
    );
    let mut st = status;
    st.local_item_count = st.local_item_count + n;
    st.effective_context_item_count = st.local_item_count;
    st.batch_count = st.batch_count + 1;
    st.event_count = st.event_count + 1;
    st.updated_at = env.created_at;
    (batch, env, st)
}


/// Batch, event and new status for the output of one tool call: the batch
/// takes the next sequence numbers, the `ToolCallFinished` event records the
/// call, its outcome, its duration and the batch.
pub fn plan_commit_tool_output(
    status: SessionStatus,
    session_id: &SessionId,
    activation_id: &ActivationId,
    turn_id: &TurnId,
    call_id: &str,
    tool_name: &str,
    success: bool,
    duration_ms: Option<u64>,
    items: Vec<Item>,
) -> (r: (ItemBatch, SessionEventEnvelope, SessionStatus))
    requires
        items@.len() > 0,
        status.batch_count < u64::MAX,
        status.event_count < u64::MAX,
        status.local_item_count + items@.len() <= u64::MAX,
    ensures
        ({
            let (batch, env, st2) = r;
            &&& batch.format_version == 1
            &&& batch.session_id == *session_id
            &&& batch.batch_seq.0 == status.batch_count
            &&& batch.first_local_item_seq.0 == status.local_item_count
            &&& batch.kind == ItemBatchKind::ToolOutput
            &&& batch.activation_id == *activation_id
            &&& batch.turn_id == Some(*turn_id)
            &&& batch.response_id is None
            &&& batch.activation_request is None
            &&& batch.items == items
            &&& env.format_version == 1
            &&& env.event_seq.0 == status.event_count
            &&& env.session_id == *session_id
            &&& env.activation_id == Some(*activation_id)
            &&& env.turn_id == Some(*turn_id)
            &&& env.event matches SessionEvent::ToolCallFinished {
                call_id: c,
                name: nm,
                success: ok,
                duration_ms: d,
                output_batch_seq: o,
            } && c@ == call_id@ && nm@ == tool_name@ && ok == success && d == duration_ms && o
                == batch.batch_seq
            &&& st2 == status_after_event(status_after_batch(status, items@.len()), env)
        }),
{
    let n = items.len() as u64;
    let batch_seq = BatchSeq::new(status.batch_count);
    let first_local_seq = LocalItemSeq::new(status.local_item_count);
    let event_seq = EventSeq::new(status.event_count);
    let batch = match ItemBatch::new(
        session_id.clone(),
        batch_seq,
        first_local_seq,
        ItemBatchKind::ToolOutput,
        activation_id.clone(),
        Some(turn_id.clone()),
        None,
        None,
        items,
    ) {
        Ok(b) => b,
        Err(_) => vstd::pervasive::unreached(),
    };
    let event = SessionEvent::ToolCallFinished {
        call_id: String::from_str(call_id),
        name: String::from_str(tool_name),
        success,
        duration_ms,
        output_batch_seq: batch_seq,
    };
    let env = SessionEventEnvelope::new(
        event_seq,
        session_id.clone(),
        Some(activation_id.clone()),
        Some(turn_id.clone()),
        event,
    );
    let mut st = status;
    st.local_item_count = st.local_item_count + n;
    st.effective_context_item_count = st.local_item_count;
    st.batch_count = st.batch_count + 1;
    st.event_count = st.event_count + 1;
    st.updated_at = env.created_at;
    (batch, env, st)
}

fn clone_turn(a: &Option<TurnId>) -> (r: Option<TurnId>)
    ensures
        r == *a,
{
    match a {
        Some(x) => Some(x.clone()),
        None => None,
    }
}

fn clone_act(a: &Option<ActivationId>) -> (r: Option<ActivationId>)
    ensures
        r == *a,
{
    match a {
        Some(x) => Some(x.clone()),
        None => None,
    }
}

/// Event and new status for appending one event: the event takes the next
/// event sequence number and the status follows it incrementally (activation
/// start and end, recorded errors, closing and archiving).
pub fn plan_append_event(
    status: SessionStatus,
    session_id: &SessionId,
    event: SessionEvent,
    activation_id: Option<ActivationId>,
    turn_id: Option<TurnId>,
) -> (r: (SessionEventEnvelope, SessionStatus))
    requires
        status.event_count < u64::MAX,
    ensures
        r.0.format_version == 1,
        r.0.event_seq.0 == status.event_count,
        r.0.session_id == *session_id,
        r.0.activation_id == activation_id,
        r.0.turn_id == turn_id,
        r.0.event == event,
        r.1 == status_after_event(status, r.0),
{
    let event_seq = EventSeq::new(status.event_count);
    let env = SessionEventEnvelope::new(
        event_seq,
        session_id.clone(),
        clone_act(&activation_id),
        turn_id,
        event,
    );
    let mut st = status;
    match &env.event {
        SessionEvent::ActivationStarted | SessionEvent::ActivationRequested { .. } => {
            st.active_activation_id = activation_id;
        },
        SessionEvent::ActivationCompleted { .. } => {
            st.active_activation_id = None;
        },
        SessionEvent::ActivationFailed { error } => {
            st.active_activation_id = None;
            st.last_error = Some(error.clone());
        },
        SessionEvent::ActivationCancelled => {
            st.active_activation_id = None;
        },
        SessionEvent::ActivationInterrupted { reason } => {
            st.active_activation_id = None;
            st.last_error = Some(reason.clone());
        },
        SessionEvent::SessionClosed => {
            st.phase = SessionPhase::Closed;
        },
        SessionEvent::SessionArchived => {
            st.phase = SessionPhase::Archived;
        },
        _ => {},
    }
    st.event_count = st.event_count + 1;
    st.updated_at = env.created_at;
    (env, st)
}

/// The creation event and initial status of a new session; refused when its
/// workspace or its default configuration is not stored, or when a session
/// with its id is stored already.
pub fn plan_create_session(
    spec: &SessionSpec,
    workspace_exists: bool,
    config_exists: bool,
    session_exists: bool,
    command_id: Option<CommandId>,
    idempotency_key: Option<String>,
) -> (r: Result<(SessionEventEnvelope, SessionStatus), StoreError>)
    ensures
        !workspace_exists ==> r == Err::<(SessionEventEnvelope, SessionStatus), StoreError>(
            StoreError::WorkspaceNotFound(spec.workspace_ref),
        ),
        workspace_exists && !config_exists ==> r == Err::<
            (SessionEventEnvelope, SessionStatus),
            StoreError,
        >(StoreError::ConfigNotFound(spec.default_config_ref)),
        workspace_exists && config_exists && session_exists ==> r == Err::<
            (SessionEventEnvelope, SessionStatus),
            StoreError,
        >(StoreError::SessionAlreadyExists(spec.id)),
        workspace_exists && config_exists && !session_exists ==> (r matches Ok((env, st)) && {
            &&& env.format_version == 1
            &&& env.event_seq.0 == 0
            &&& env.session_id == spec.id
            &&& env.activation_id is None
            &&& env.turn_id is None
            &&& env.event == (SessionEvent::SessionCreated { command_id, idempotency_key })
            &&& st.projection_version == 1
            &&& st.phase == SessionPhase::Open
            &&& st.active_activation_id is None
            &&& st.queued_activation_count == 0
            &&& st.local_item_count == 0
            &&& st.effective_context_item_count == 0
            &&& st.batch_count == 0
            &&& st.event_count == 1
            &&& st.title is None
            &&& st.last_error is None
        }),
{
    if !workspace_exists {
        return Err(StoreError::WorkspaceNotFound(spec.workspace_ref.clone()));
    }
    if !config_exists {
        return Err(StoreError::ConfigNotFound(spec.default_config_ref.clone()));
    }
    if session_exists {
        return Err(StoreError::SessionAlreadyExists(spec.id.clone()));
    }
    let env = SessionEventEnvelope::new(
        EventSeq::zero(),
        spec.id.clone(),
        None,
        None,
        SessionEvent::SessionCreated { command_id, idempotency_key },
    );
    Ok((env, SessionStatus::initial()))
}

/// A freshly created session's facts rebuild to its initial status (up to the
/// time stamp, which the rebuild takes from the creation event).
pub proof fn lemma_created_session_rebuilds(
    spec: SessionSpec,
    env: SessionEventEnvelope,
    st: SessionStatus,
)
    requires
        env.event_seq.0 == 0,
        env.event is SessionCreated,
        st.projection_version == 1,
        st.phase == SessionPhase::Open,
        st.active_activation_id is None,
        st.queued_activation_count == 0,
        st.local_item_count == 0,
        st.effective_context_item_count == 0,
        st.batch_count == 0,
        st.event_count == 1,
        st.title is None,
        st.last_error is None,
    ensures
        rebuild_spec(spec, Seq::empty(), seq![env]) == Ok::<SessionStatus, ProjectionError>(
            SessionStatus { updated_at: env.created_at, ..st },
        ),
{
    let evs = seq![env];
    assert(event_gap_from(evs, 1) is None);
    assert(event_gap_from(evs, 0) is None);
    assert(batch_gap_from(Seq::<ItemBatch>::empty(), 0) is None);
    assert(total_items(Seq::<ItemBatch>::empty()) == 0);
}

/// The stored projection, when it was made through the current counts of
/// events and batches and its payload could be read; `None` when the status
/// must be rebuilt from the facts.
pub fn select_cached_status(
    cached: Option<(u64, u64, Option<SessionStatus>)>,
    event_count: u64,
    batch_count: u64,
) -> (r: Option<SessionStatus>)
    ensures
        r == (match cached {
            Some((pe, pb, Some(st))) => if pe == event_count && pb == batch_count {
                Some(st)
            } else {
                None::<SessionStatus>
            },
            _ => None,
        }),
{
    match cached {
        Some((pe, pb, Some(st))) => {
            if pe == event_count && pb == batch_count {
                Some(st)
            } else {
                None
            }
        },
        _ => None,
    }
}

/// The status of a session whose stored projection could not be used:
/// rebuilt from its facts, with the count of rebuilds (`rebuilds`) advanced
/// by one, wrapping as an atomic counter does.
pub fn rebuild_counted(
    spec: &SessionSpec,
    batches: &Vec<ItemBatch>,
    events: &Vec<SessionEventEnvelope>,
    rebuilds: u64,
) -> (r: Result<(SessionStatus, u64), StoreError>)
    ensures
        total_items(batches@) > u64::MAX ==> (r matches Err(StoreError::ConstraintViolation(m)) && m@
            == item_count_overflow_text()),
        total_items(batches@) <= u64::MAX ==> match rebuild_spec(*spec, batches@, events@) {
            Ok(st) => r matches Ok((s2, n)) && s2 == st && n == (if rebuilds == u64::MAX {
                0
            } else {
                rebuilds + 1
            }),
            Err(e) => r matches Err(StoreError::Projection(e2)) && e2 == e,
        },
{
    check_total_items(batches)?;
    match crate::projection::rebuild_session_status_from_facts(spec, batches.as_slice(), events.as_slice()) {
        Ok(st) => Ok((st, rebuilds.wrapping_add(1))),
        Err(e) => Err(StoreError::Projection(e)),
    }
}

/// The activation (and turn) left open by the first `n` events: set by a
/// request or start (the turn by a turn start), cleared by any terminal event.
pub open spec fn open_activation_upto(events: Seq<SessionEventEnvelope>, n: int) -> (
    Option<ActivationId>,
    Option<TurnId>,
)
    decreases n,
{
    if n <= 0 {
        (None, None)
    } else {
        let (a, t) = open_activation_upto(events, n - 1);
        let env = events[n - 1];
        match env.event {
            SessionEvent::ActivationRequested { .. } | SessionEvent::ActivationStarted => (
                env.activation_id,
                t,
            ),
            SessionEvent::TurnStarted => (a, env.turn_id),
            SessionEvent::ActivationCompleted { .. } | SessionEvent::ActivationFailed { .. }
            | SessionEvent::ActivationCancelled | SessionEvent::ActivationInterrupted { .. } => (
                None,
                None,
            ),
            _ => (a, t),
        }
    }
}

/// The activation that the log leaves unterminated, with the last turn it
/// started, if any: what recovery after a crash must interrupt.
pub fn find_unterminated_activation(events: &[SessionEventEnvelope]) -> (r: Option<
    (ActivationId, Option<TurnId>),
>)
    ensures
        ({
            let (a, t) = open_activation_upto(events@, events@.len() as int);
            r == (match a {
                Some(x) => Some((x, t)),
                None => None,
            })
        }),
{
    let mut act: Option<ActivationId> = None;
    let mut turn: Option<TurnId> = None;
    let mut i: usize = 0;
    while i < events.len()
        invariant
            i <= events@.len(),
            open_activation_upto(events@, i as int) == (act, turn),
        decreases events@.len() - i,
    {
        let env = &events[i];
        match &env.event {
            SessionEvent::ActivationRequested { .. } | SessionEvent::ActivationStarted => {
                act = clone_act(&env.activation_id);
            },
            SessionEvent::TurnStarted => {
                turn = clone_turn(&env.turn_id);
            },
            SessionEvent::ActivationCompleted { .. } | SessionEvent::ActivationFailed { .. }
            | SessionEvent::ActivationCancelled | SessionEvent::ActivationInterrupted { .. } => {
                act = None;
                turn = None;
            },
            _ => {},
        }
        i = i + 1;
    }
    match act {
        Some(a) => Some((a, turn)),
        None => None,
    }
}

proof fn lemma_open_activation_matches_replay(events: Seq<SessionEventEnvelope>, k: int)
    requires
        1 <= k <= events.len(),
        events[0].event is SessionCreated,
    ensures
        open_activation_upto(events, k).0 == replay_upto(events, k).active_activation_id,
    decreases k,
{
    if k > 1 {
        lemma_open_activation_matches_replay(events, k - 1);
    } else {
        assert(open_activation_upto(events, 0) == (None::<ActivationId>, None::<TurnId>));
    }
}

/// The activation that crash recovery finds unterminated is exactly the
/// active activation of the rebuilt status.
pub proof fn lemma_unterminated_is_active(
    spec: SessionSpec,
    batches: Seq<ItemBatch>,
    events: Seq<SessionEventEnvelope>,
    st: SessionStatus,
)
    requires
        rebuild_spec(spec, batches, events) == Ok::<SessionStatus, ProjectionError>(st),
    ensures
        open_activation_upto(events, events.len() as int).0 == st.active_activation_id,
{
    lemma_open_activation_matches_replay(events, events.len() as int);
}

/// Interrupting the unterminated activation leaves the rebuilt status with no
/// active activation and the reason as its last error.
pub proof fn lemma_interrupt_clears_active(
    spec: SessionSpec,
    batches: Seq<ItemBatch>,
    events: Seq<SessionEventEnvelope>,
    st: SessionStatus,
    env: SessionEventEnvelope,
)
    requires
        rebuild_spec(spec, batches, events) == Ok::<SessionStatus, ProjectionError>(st),
        env.event_seq.0 == st.event_count,
        events.len() < u64::MAX,
        env.event is ActivationInterrupted,
    ensures
        (rebuild_spec(spec, batches, events.push(env)) matches Ok(st2) && st2.active_activation_id
            is None && st2.last_error == Some(env.event->reason)),
{
    lemma_event_extends_rebuild(spec, batches, events, st, env);
}


/// What one event does to a session's status as the store tracks it: a
/// failed or interrupted activation records its error and clears the active
/// activation; a completed or cancelled one clears it and keeps the last
/// error; a requested or started one becomes active; closing and archiving
/// set the phase; every event counts once and stamps the time; nothing else
/// changes.
pub proof fn lemma_event_effect(st: SessionStatus, env: SessionEventEnvelope)
    requires
        st.event_count < u64::MAX,
    ensures
        ({
            let s2 = status_after_event(st, env);
            &&& s2.event_count == st.event_count + 1
            &&& s2.updated_at == env.created_at
            &&& s2.batch_count == st.batch_count
            &&& s2.local_item_count == st.local_item_count
            &&& s2.effective_context_item_count == st.effective_context_item_count
            &&& s2.queued_activation_count == st.queued_activation_count
            &&& s2.title == st.title
            &&& s2.projection_version == st.projection_version
            &&& (env.event matches SessionEvent::ActivationFailed { error } ==> s2.active_activation_id is None
                && s2.last_error == Some(error))
            &&& (env.event matches SessionEvent::ActivationInterrupted { reason } ==> s2.active_activation_id
                is None && s2.last_error == Some(reason))
            &&& (env.event is ActivationCompleted || env.event is ActivationCancelled ==> s2.active_activation_id
                is None && s2.last_error == st.last_error)
            &&& (env.event is ActivationRequested || env.event is ActivationStarted ==> s2.active_activation_id
                == env.activation_id && s2.last_error == st.last_error)
            &&& (env.event is SessionClosed ==> s2.phase == SessionPhase::Closed)
            &&& (env.event is SessionArchived ==> s2.phase == SessionPhase::Archived)
            &&& (!(env.event is SessionClosed) && !(env.event is SessionArchived) ==> s2.phase == st.phase)
            &&& (!(env.event is ActivationFailed) && !(env.event is ActivationInterrupted) ==> s2.last_error
                == st.last_error)
            &&& (!(env.event is ActivationFailed) && !(env.event is ActivationInterrupted) && !(env.event is ActivationCompleted)
                && !(env.event is ActivationCancelled) && !(env.event is ActivationRequested) && !(env.event is ActivationStarted)
                ==> s2.active_activation_id == st.active_activation_id)
        }),
{
}

/// A failed activation's error is what the rebuilt status records as its
/// last error, and no activation stays active.
pub proof fn lemma_failure_records_error(
    spec: SessionSpec,
    batches: Seq<ItemBatch>,
    events: Seq<SessionEventEnvelope>,
    st: SessionStatus,
    env: SessionEventEnvelope,
)
    requires
        rebuild_spec(spec, batches, events) == Ok::<SessionStatus, ProjectionError>(st),
        env.event_seq.0 == st.event_count,
        events.len() < u64::MAX,
        env.event is ActivationFailed,
    ensures
        (rebuild_spec(spec, batches, events.push(env)) matches Ok(st2) && st2.active_activation_id
            is None && st2.last_error == Some(env.event->error)),
{
    lemma_event_extends_rebuild(spec, batches, events, st, env);
}

/// Major version of the store schema this library reads and writes.
pub const SCHEMA_MAJOR: u32 = 1;
/// Minor version of the store schema this library writes.
pub const SCHEMA_MINOR: u32 = 0;
/// Format tag written into a new store.
pub const STORE_FORMAT: &'static str = "ragent-sqlite-store";
/// Item schema tag written into a new store.
pub const OPEN_RESPONSES_SCHEMA: &'static str = "openresponses-rust-2026.7.26";

/// Decision on a store's recorded schema version, given the stored
/// `schema_major` and `schema_minor` texts: `Ok(true)` when none is recorded yet
/// (the version must be written), `Ok(false)` when the recorded major version is
/// this library's; refused when the major text is not a number or names
/// another major version. An unreadable minor counts as 0.
pub fn check_schema_version(major: Option<&str>, minor: Option<&str>) -> (r: Result<bool, StoreError>)
    ensures
        match major {
            None => r == Ok::<bool, StoreError>(true),
            Some(m) => match crate::text::parse_u32_spec(m@) {
                None => r matches Err(StoreError::ConstraintViolation(msg)) && msg@
                    == "Invalid schema_major"@,
                Some(v) => {
                    let found_minor = match minor {
                        Some(n) => match crate::text::parse_u32_spec(n@) {
                            Some(x) => x,
                            None => 0u32,
                        },
                        None => 0u32,
                    };
                    if v == SCHEMA_MAJOR {
                        r == Ok::<bool, StoreError>(false)
                    } else {
                        r == Err::<bool, StoreError>(
                            StoreError::UnsupportedSchemaVersion {
                                found_major: v,
                                found_minor,
                                expected_major: SCHEMA_MAJOR,
                                expected_minor: SCHEMA_MINOR,
                            },
                        )
                    }
                },
            },
        },
{
    match major {
        None => Ok(true),
        Some(m) => {
            let v = match crate::text::parse_u32(m) {
                Some(v) => v,
                None => {
                    proof {
                        reveal_strlit("Invalid schema_major");
                    }
                    return Err(StoreError::ConstraintViolation(String::from_str("Invalid schema_major")));
                },
            };
            let found_minor = match minor {
                Some(n) => match crate::text::parse_u32(n) {
                    Some(x) => x,
                    None => 0u32,
                },
                None => 0u32,
            };
            if v != SCHEMA_MAJOR {
                return Err(
                    StoreError::UnsupportedSchemaVersion {
                        found_major: v,
                        found_minor,
                        expected_major: SCHEMA_MAJOR,
                        expected_minor: SCHEMA_MINOR,
                    },
                );
            }
            Ok(false)
        },
    }
}

/// The refusal for a foreign key violation found at start-up.
pub fn foreign_key_violation(table: &str, rowid: i64) -> (r: StoreError)
    ensures
        r matches StoreError::IntegrityCheckFailed(m) && m@ == "Foreign key check failed in table "@
            + table@ + " rowid "@ + crate::text::signed_decimal(rowid as int),
{
    let mut m = String::from_str("Foreign key check failed in table ");
    crate::text::push_str(&mut m, table);
    crate::text::push_str(&mut m, " rowid ");
    crate::text::push_i64_decimal(&mut m, rowid);
    StoreError::IntegrityCheckFailed(m)
}

/// Accepts the store only when SQLite's quick check answered `ok`.
pub fn quick_check_verdict(answer: &str) -> (r: Result<(), StoreError>)
    ensures
        r is Ok <==> answer@ == "ok"@,
        r matches Err(e) ==> (e matches StoreError::IntegrityCheckFailed(m) && m@
            == "PRAGMA quick_check returned: "@ + answer@),
{
    let cs = crate::text::str_chars(answer);
    let ok = cs.len() == 2 && cs[0] == 'o' && cs[1] == 'k';
    proof {
        reveal_strlit("ok");
        if ok {
            assert(answer@ =~= "ok"@);
        }
    }
    if ok {
        Ok(())
    } else {
        let mut m = String::from_str("PRAGMA quick_check returned: ");
        crate::text::push_str(&mut m, answer);
        Err(StoreError::IntegrityCheckFailed(m))
    }
}

} // verus!
