use vstd::prelude::*;
use crate::batch::ItemBatch;
use crate::event::{SessionEvent, SessionEventEnvelope};
use crate::ids::ActivationId;
use crate::session::{SessionPhase, SessionSpec, SessionStatus};
use crate::time::UtcTime;

verus! {

/// Why a session's facts cannot be projected into a status.
#[derive(Debug)]
pub enum ProjectionError {
    EmptyEvents(String),
    EventDiscontinuity { expected: u64, found: u64 },
    BatchDiscontinuity { expected: u64, found: u64 },
    ItemDiscontinuity { expected: u64, found: u64 },
    FirstEventNotCreated,
}

/// The part of a status that replaying events determines.
#[derive(Debug)]
pub struct ReplayState {
    pub phase: SessionPhase,
    pub active_activation_id: Option<ActivationId>,
    pub last_error: Option<String>,
    pub updated_at: UtcTime,
}

/// The effect of one event (after the first) on the replayed state.
pub open spec fn apply_event(st: ReplayState, env: SessionEventEnvelope) -> ReplayState {
    let st = ReplayState { updated_at: env.created_at, ..st };
    match env.event {
        SessionEvent::SessionClosed => ReplayState { phase: SessionPhase::Closed, ..st },
        SessionEvent::SessionArchived => ReplayState { phase: SessionPhase::Archived, ..st },
        SessionEvent::ActivationRequested { .. } | SessionEvent::ActivationStarted => ReplayState {
            active_activation_id: env.activation_id,
            ..st
        },
        SessionEvent::ActivationCompleted { .. } | SessionEvent::ActivationCancelled => ReplayState {
            active_activation_id: None,
            ..st
        },
        SessionEvent::ActivationFailed { error } => ReplayState {
            active_activation_id: None,
            last_error: Some(error),
            ..st
        },
        SessionEvent::ActivationInterrupted { reason } => ReplayState {
            active_activation_id: None,
            last_error: Some(reason),
            ..st
        },
        _ => st,
    }
}

/// The state after replaying the first `n >= 1` events: the first event only
/// sets the time; each later one goes through `apply_event`.
pub open spec fn replay_upto(events: Seq<SessionEventEnvelope>, n: int) -> ReplayState
    decreases n,
{
    if n <= 1 {
        ReplayState {
            phase: SessionPhase::Open,
            active_activation_id: None,
            last_error: None,
            updated_at: events[0].created_at,
        }
    } else {
        apply_event(replay_upto(events, n - 1), events[n - 1])
    }
}

/// Total number of items in the first `n` batches.
pub open spec fn items_before(batches: Seq<ItemBatch>, n: int) -> nat
    decreases n,
{
    if n <= 0 {
        0
    } else {
        items_before(batches, n - 1) + batches[n - 1].items@.len()
    }
}

/// Total number of items of all batches.
pub open spec fn total_items(batches: Seq<ItemBatch>) -> nat {
    items_before(batches, batches.len() as int)
}

/// The first event, from index `i` on, whose sequence number is not its index.
pub open spec fn event_gap_from(events: Seq<SessionEventEnvelope>, i: int) -> Option<(u64, u64)>
    decreases events.len() - i,
{
    if i < 0 || i >= events.len() {
        None
    } else if events[i].event_seq.0 != i {
        Some((i as u64, events[i].event_seq.0))
    } else {
        event_gap_from(events, i + 1)
    }
}

/// The first batch, from index `i` on, whose sequence number or first item
/// position breaks continuity.
pub open spec fn batch_gap_from(batches: Seq<ItemBatch>, i: int) -> Option<ProjectionError>
    decreases batches.len() - i,
{
    if i < 0 || i >= batches.len() {
        None
    } else if batches[i].batch_seq.0 != i {
        Some(ProjectionError::BatchDiscontinuity { expected: i as u64, found: batches[i].batch_seq.0 })
    } else if batches[i].first_local_item_seq.0 != items_before(batches, i) {
        Some(
            ProjectionError::ItemDiscontinuity {
                expected: items_before(batches, i) as u64,
                found: batches[i].first_local_item_seq.0,
            },
        )
    } else {
        batch_gap_from(batches, i + 1)
    }
}

/// The status that a session's facts determine, or why they determine none.
pub open spec fn rebuild_spec(
    spec: SessionSpec,
    batches: Seq<ItemBatch>,
    events: Seq<SessionEventEnvelope>,
) -> Result<SessionStatus, ProjectionError> {
    if events.len() == 0 {
        Err(ProjectionError::EmptyEvents(spec.id.0))
    } else if let Some((expected, found)) = event_gap_from(events, 0) {
        Err(ProjectionError::EventDiscontinuity { expected, found })
    } else if let Some(e) = batch_gap_from(batches, 0) {
        Err(e)
    } else if !(events[0].event is SessionCreated) {
        Err(ProjectionError::FirstEventNotCreated)
    } else {
        let st = replay_upto(events, events.len() as int);
        Ok(
            SessionStatus {
                projection_version: 1,
                phase: st.phase,
                active_activation_id: st.active_activation_id,
                queued_activation_count: 0,
                local_item_count: total_items(batches) as u64,
                effective_context_item_count: total_items(batches) as u64,
                batch_count: batches.len() as u64,
                event_count: events.len() as u64,
                updated_at: st.updated_at,
                title: None,
                last_error: st.last_error,
            },
        )
    }
}

proof fn lemma_event_gap_skip(events: Seq<SessionEventEnvelope>, i: int, k: int)
    requires
        0 <= i <= k <= events.len(),
        forall|j: int| i <= j < k ==> (#[trigger] events[j]).event_seq.0 == j,
    ensures
        event_gap_from(events, i) == event_gap_from(events, k),
    decreases k - i,
{
    if i < k {
        lemma_event_gap_skip(events, i + 1, k);
    }
}

proof fn lemma_batch_gap_skip(batches: Seq<ItemBatch>, i: int, k: int)
    requires
        0 <= i <= k <= batches.len(),
        forall|j: int|
            i <= j < k ==> (#[trigger] batches[j]).batch_seq.0 == j
                && batches[j].first_local_item_seq.0 == items_before(batches, j),
    ensures
        batch_gap_from(batches, i) == batch_gap_from(batches, k),
    decreases k - i,
{
    if i < k {
        lemma_batch_gap_skip(batches, i + 1, k);
    }
}

proof fn lemma_items_before_monotone(batches: Seq<ItemBatch>, i: int, k: int)
    requires
        0 <= i <= k <= batches.len(),
    ensures
        items_before(batches, i) <= items_before(batches, k),
    decreases k - i,
{
    if i < k {
        lemma_items_before_monotone(batches, i, k - 1);
    }
}

fn clone_activation(a: &Option<ActivationId>) -> (r: Option<ActivationId>)
    ensures
        r == *a,
{
    match a {
        Some(x) => Some(x.clone()),
        None => None,
    }
}

/// Rebuilds a session's status from its facts: checks that event sequence
/// numbers, batch sequence numbers and item positions are continuous from
/// zero, that the first event creates the session, and replays the events.
pub fn rebuild_session_status_from_facts(
    spec: &SessionSpec,
    batches: &[ItemBatch],
    events: &[SessionEventEnvelope],
) -> (r: Result<SessionStatus, ProjectionError>)
    requires
        total_items(batches@) <= u64::MAX,
    ensures
        r == rebuild_spec(*spec, batches@, events@),
{
    if events.len() == 0 {
        return Err(ProjectionError::EmptyEvents(spec.id.0.clone()));
    }
    let n_events = events.len();
    let mut i: usize = 0;
    while i < n_events
        invariant
            n_events == events@.len(),
            i <= n_events,
            forall|j: int| 0 <= j < i ==> (#[trigger] events@[j]).event_seq.0 == j,
        decreases n_events - i,
    {
        if events[i].event_seq.0 != i as u64 {
            proof {
                lemma_event_gap_skip(events@, 0, i as int);
            }
            return Err(
                ProjectionError::EventDiscontinuity { expected: i as u64, found: events[i].event_seq.0 },
            );
        }
        i = i + 1;
    }
    proof {
        lemma_event_gap_skip(events@, 0, n_events as int);
    }
    let n_batches = batches.len();
    let mut expected_item: u64 = 0;
    let mut b: usize = 0;
    while b < n_batches
        invariant
            n_batches == batches@.len(),
            n_events == events@.len(),
            n_events > 0,
            event_gap_from(events@, 0) is None,
            b <= n_batches,
            total_items(batches@) <= u64::MAX,
            expected_item == items_before(batches@, b as int),
            forall|j: int|
                0 <= j < b ==> (#[trigger] batches@[j]).batch_seq.0 == j
                    && batches@[j].first_local_item_seq.0 == items_before(batches@, j),
        decreases n_batches - b,
    {
        if batches[b].batch_seq.0 != b as u64 {
            proof {
                lemma_batch_gap_skip(batches@, 0, b as int);
            }
            return Err(
                ProjectionError::BatchDiscontinuity { expected: b as u64, found: batches[b].batch_seq.0 },
            );
        }
        if batches[b].first_local_item_seq.0 != expected_item {
            proof {
                lemma_batch_gap_skip(batches@, 0, b as int);
            }
            return Err(
                ProjectionError::ItemDiscontinuity {
                    expected: expected_item,
                    found: batches[b].first_local_item_seq.0,
                },
            );
        }
        proof {
            lemma_items_before_monotone(batches@, b + 1, n_batches as int);
        }
        expected_item = batches[b].first_local_item_seq.0 + batches[b].items.len() as u64;
        b = b + 1;
    }
    proof {
        lemma_batch_gap_skip(batches@, 0, n_batches as int);
    }
    if !matches!(events[0].event, SessionEvent::SessionCreated { .. }) {
        return Err(ProjectionError::FirstEventNotCreated);
    }
    let mut phase = SessionPhase::Open;
    let mut active: Option<ActivationId> = None;
    let mut last_error: Option<String> = None;
    let mut updated_at = events[0].created_at;
    let mut k: usize = 1;
    while k < n_events
        invariant
            n_events == events@.len(),
            n_batches == batches@.len(),
            1 <= k <= n_events,
            expected_item == total_items(batches@),
            replay_upto(events@, k as int) == (ReplayState {
                phase,
                active_activation_id: active,
                last_error,
                updated_at,
            }),
        decreases n_events - k,
    {
        let env = &events[k];
        updated_at = env.created_at;
        match &env.event {
            SessionEvent::SessionClosed => {
                phase = SessionPhase::Closed;
            },
            SessionEvent::SessionArchived => {
                phase = SessionPhase::Archived;
            },
            SessionEvent::ActivationRequested { .. } | SessionEvent::ActivationStarted => {
                active = clone_activation(&env.activation_id);
            },
            SessionEvent::ActivationCompleted { .. } | SessionEvent::ActivationCancelled => {
                active = None;
            },
            SessionEvent::ActivationFailed { error } => {
                active = None;
                last_error = Some(error.clone());
            },
            SessionEvent::ActivationInterrupted { reason } => {
                active = None;
                last_error = Some(reason.clone());
            },
            _ => {},
        }
        k = k + 1;
    }
    Ok(
        SessionStatus {
            projection_version: 1,
            phase,
            active_activation_id: active,
            queued_activation_count: 0,
            local_item_count: expected_item,
            effective_context_item_count: expected_item,
            batch_count: n_batches as u64,
            event_count: n_events as u64,
            updated_at,
            title: None,
            last_error,
        },
    )
}

} // verus!
