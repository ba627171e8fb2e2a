use vstd::prelude::*;
use crate::ids::{ActivationId, BatchSeq, CommandId, ConfigRef, LocalItemSeq, SessionId, TurnId};
use crate::item::Item;
use crate::time::{now_utc, UtcTime};

verus! {

/// What produced the items of a batch.
#[derive(Debug, Clone, Copy, PartialEq, Eq, Structural, Hash)]
pub enum ItemBatchKind {
    Input,
    ModelOutput,
    ToolOutput,
}

/// The snake-case name under which a batch kind is stored.
pub open spec fn batch_kind_name(k: ItemBatchKind) -> Seq<char> {
    match k {
        ItemBatchKind::Input => "input"@,
        ItemBatchKind::ModelOutput => "model_output"@,
        ItemBatchKind::ToolOutput => "tool_output"@,
    }
}

/// Each batch kind is stored under a name of its own, so the stored name
/// gives the kind back.
pub proof fn lemma_batch_kind_names_distinct(a: ItemBatchKind, b: ItemBatchKind)
    ensures
        batch_kind_name(a) == batch_kind_name(b) ==> a == b,
{
    reveal_strlit("input");
    reveal_strlit("model_output");
    reveal_strlit("tool_output");
    if batch_kind_name(a) == batch_kind_name(b) && a != b {
        assert(batch_kind_name(a).len() != batch_kind_name(b).len());
    }
}

impl ItemBatchKind {
    pub fn as_str(&self) -> (r: &'static str)
        ensures
            r@ == batch_kind_name(*self),
    {
        match self {
            ItemBatchKind::Input => "input",
            ItemBatchKind::ModelOutput => "model_output",
            ItemBatchKind::ToolOutput => "tool_output",
        }
    }
}

/// The request that started an activation, kept with its input batch.
#[derive(Debug)]
pub struct ActivationRequestMeta {
    pub command_id: Option<CommandId>,
    pub idempotency_key: Option<String>,
    pub config_ref: ConfigRef,
}

/// A non-empty run of items appended to a session's item log at once.
#[derive(Debug)]
pub struct ItemBatch {
    pub format_version: u32,
    pub session_id: SessionId,
    pub batch_seq: BatchSeq,
    pub first_local_item_seq: LocalItemSeq,
    pub kind: ItemBatchKind,
    pub activation_id: ActivationId,
    pub turn_id: Option<TurnId>,
    pub response_id: Option<String>,
    pub created_at: UtcTime,
    pub activation_request: Option<ActivationRequestMeta>,
    pub items: Vec<Item>,
}

/// Message of the error for an empty batch.
pub open spec fn empty_batch_message() -> Seq<char> {
    "ItemBatch items cannot be empty"@
}

impl ItemBatch {
    /// A batch of `items` stamped with the current time; refused when `items` is empty.
    pub fn new(
        session_id: SessionId,
        batch_seq: BatchSeq,
        first_local_item_seq: LocalItemSeq,
        kind: ItemBatchKind,
        activation_id: ActivationId,
        turn_id: Option<TurnId>,
        response_id: Option<String>,
        activation_request: Option<ActivationRequestMeta>,
        items: Vec<Item>,
    ) -> (r: Result<Self, String>)
        ensures
            items@.len() == 0 <==> r is Err,
            r matches Err(e) ==> e@ == empty_batch_message(),
            r matches Ok(b) ==> {
                &&& b.format_version == 1
                &&& b.session_id == session_id
                &&& b.batch_seq == batch_seq
                &&& b.first_local_item_seq == first_local_item_seq
                &&& b.kind == kind
                &&& b.activation_id == activation_id
                &&& b.turn_id == turn_id
                &&& b.response_id == response_id
                &&& b.activation_request == activation_request
                &&& b.items == items
            },
    {
        if items.len() == 0 {
            let e = String::from_str("ItemBatch items cannot be empty");
            proof {
                reveal_strlit("ItemBatch items cannot be empty");
            }
            return Err(e);
        }
        Ok(ItemBatch {
            format_version: 1,
            session_id,
            batch_seq,
            first_local_item_seq,
            kind,
            activation_id,
            turn_id,
            response_id,
            created_at: now_utc(),
            activation_request,
            items,
        })
    }

    /// Position of the batch's last item in the session's item log.
    pub fn last_local_item_seq(&self) -> (r: LocalItemSeq)
        requires
            self.items@.len() >= 1,
            self.first_local_item_seq.0 + self.items@.len() - 1 <= u64::MAX,
        ensures
            r.0 == self.first_local_item_seq.0 + self.items@.len() - 1,
    {
        LocalItemSeq::new(self.first_local_item_seq.0 + (self.items.len() as u64 - 1))
    }

    pub fn item_count(&self) -> (r: u64)
        ensures
            r == self.items@.len(),
    {
        self.items.len() as u64
    }
}

} // verus!
