use vstd::prelude::*;
use std::collections::BTreeMap;
use crate::ids::{
    session_id_problem, validate_session_id, ActivationId, CommandId, ConfigRef, ContextPos,
    SessionId, TurnId, WorkspaceId,
};
use crate::text::push_str;
use crate::time::{now_utc, UtcTime};

verus! {

/// The agent's standing instructions, before session specific notes.
pub const DEFAULT_SYSTEM_PROMPT: &'static str =
    "你是一个高效、精准、善于深度思考的 AI 智能体助手。你可以通过工具感知环境并完成复杂任务。";

/// The immutable description of a session, fixed when it is created.
#[derive(Debug)]
pub struct SessionSpec {
    pub format_version: u32,
    pub id: SessionId,
    pub created_at: UtcTime,
    pub basic_system_prompt: String,
    pub default_config_ref: ConfigRef,
    pub workspace_ref: WorkspaceId,
    pub sources: Vec<SessionSource>,
    pub labels: BTreeMap<String, String>,
    pub producer: Option<ProducerRef>,
}

impl SessionSpec {
    /// A spec created now, with no sources, labels or producer.
    pub fn new(
        id: SessionId,
        basic_system_prompt: String,
        default_config_ref: ConfigRef,
        workspace_ref: WorkspaceId,
    ) -> (r: Self)
        ensures
            r.format_version == 1,
            r.id == id,
            r.basic_system_prompt == basic_system_prompt,
            r.default_config_ref == default_config_ref,
            r.workspace_ref == workspace_ref,
            r.sources@.len() == 0,
            r.labels@ == Map::<String, String>::empty(),
            r.producer is None,
    {
        SessionSpec {
            format_version: 1,
            id,
            created_at: now_utc(),
            basic_system_prompt,
            default_config_ref,
            workspace_ref,
            sources: Vec::new(),
            labels: BTreeMap::new(),
            producer: None,
        }
    }
}

/// A range of another session's context that this session was built from.
#[derive(Debug)]
pub struct SessionSource {
    pub kind: SessionSourceKind,
    pub session_id: SessionId,
    pub from_context_pos: ContextPos,
    pub through_context_pos: ContextPos,
}

/// How a session relates to a source session.
#[derive(Debug, Clone, Copy, PartialEq, Eq, Structural)]
pub enum SessionSourceKind {
    ForkedFrom,
    DerivedFrom,
    SummaryOf,
    ContinuedFrom,
}

/// The activation (and tool call) of another session that created this one.
#[derive(Debug)]
pub struct ProducerRef {
    pub session_id: SessionId,
    pub activation_id: ActivationId,
    pub turn_id: Option<TurnId>,
    pub call_id: Option<String>,
    pub command_id: CommandId,
}

/// Lifecycle phase of a session.
#[derive(Debug, Clone, Copy, PartialEq, Eq, Structural)]
pub enum SessionPhase {
    Open,
    Closed,
    Archived,
    Corrupted,
}

/// The projection of a session's facts that queries and commits read.
#[derive(Debug)]
pub struct SessionStatus {
    pub projection_version: u32,
    pub phase: SessionPhase,
    pub active_activation_id: Option<ActivationId>,
    pub queued_activation_count: usize,
    pub local_item_count: u64,
    pub effective_context_item_count: u64,
    pub batch_count: u64,
    pub event_count: u64,
    pub updated_at: UtcTime,
    pub title: Option<String>,
    pub last_error: Option<String>,
}

impl SessionStatus {
    /// The status of a session that holds only its creation event.
    pub fn initial() -> (r: Self)
        ensures
            r.projection_version == 1,
            r.phase == SessionPhase::Open,
            r.active_activation_id is None,
            r.queued_activation_count == 0,
            r.local_item_count == 0,
            r.effective_context_item_count == 0,
            r.batch_count == 0,
            r.event_count == 1,
            r.title is None,
            r.last_error is None,
    {
        SessionStatus {
            projection_version: 1,
            phase: SessionPhase::Open,
            active_activation_id: None,
            queued_activation_count: 0,
            local_item_count: 0,
            effective_context_item_count: 0,
            batch_count: 0,
            event_count: 1,
            updated_at: now_utc(),
            title: None,
            last_error: None,
        }
    }
}

/// `/tmp/ragent/<session id>`.
pub open spec fn session_tmp_dir_text(session_id: Seq<char>) -> Seq<char> {
    "/tmp/ragent/"@ + session_id
}

/// One component of a path: not empty, free of `/`, and neither `.` nor `..`.
pub open spec fn single_component(c: Seq<char>) -> bool {
    &&& c.len() > 0
    &&& forall|i: int| 0 <= i < c.len() ==> #[trigger] c[i] != '/'
    &&& c != seq!['.']
    &&& c != seq!['.', '.']
}

/// A valid session id other than `.` names one directory directly under
/// `/tmp/ragent`. (The check accepts `.`, whose scratch path is
/// `/tmp/ragent/.`, the directory itself.)
pub proof fn lemma_valid_id_names_one_directory(id: &str)
    requires
        session_id_problem(id) is None,
        id@ != seq!['.'],
    ensures
        session_tmp_dir_text(id@) == "/tmp/ragent/"@ + id@,
        single_component(id@),
{
    let s = id@;
    assert forall|i: int| 0 <= i < s.len() implies #[trigger] s[i] != '/' by {
        if s[i] == '/' {
            assert(crate::text::seq_has(s, '/'));
        }
    }
    if s == seq!['.', '.'] {
        assert(crate::text::occurs_at(s, seq!['.', '.'], 0)) by {
            assert(s.subrange(0, 2) =~= seq!['.', '.']);
        }
    }
}

/// The session's scratch directory, `/tmp/ragent/<session id>`.
pub fn session_tmp_dir(session_id: &str) -> (r: String)
    ensures
        r@ == session_tmp_dir_text(session_id@),
{
    let mut s = String::from_str("/tmp/ragent/");
    push_str(&mut s, session_id);
    s
}

/// The basic system prompt of a session whose scratch directory is `tmp_dir`.
pub open spec fn basic_prompt_text(tmp_dir: Seq<char>) -> Seq<char> {
    DEFAULT_SYSTEM_PROMPT@ + "\n\n## 会话临时目录 (session_tmp)\n"@
        + "系统已为当前会话分配了专用临时目录：`"@ + tmp_dir
        + "`。\n- 你可以在此目录读写中间数据、临时脚本或生成文件。\n- 该目录隔离于项目代码区，避免污染项目工作树。\n"@
}

/// The basic system prompt of a new session: the default prompt followed by a
/// note on the session's scratch directory. Refused (with the validation
/// message) when the id is not a valid session id; the directory itself is
/// created by the caller.
pub fn build_basic_system_prompt(session_id: &str) -> (r: Result<String, String>)
    ensures
        r is Ok <==> session_id_problem(session_id) is None,
        r matches Err(e) ==> session_id_problem(session_id) == Some(e@),
        r matches Ok(p) ==> p@ == basic_prompt_text(session_tmp_dir_text(session_id@)),
{
    match validate_session_id(session_id) {
        Err(e) => Err(e),
        Ok(()) => {
            let dir = session_tmp_dir(session_id);
            let mut p = String::from_str(DEFAULT_SYSTEM_PROMPT);
            push_str(&mut p, "\n\n## 会话临时目录 (session_tmp)\n");
            push_str(&mut p, "系统已为当前会话分配了专用临时目录：`");
            push_str(&mut p, dir.as_str());
            push_str(
                &mut p,
                "`。\n- 你可以在此目录读写中间数据、临时脚本或生成文件。\n- 该目录隔离于项目代码区，避免污染项目工作树。\n",
            );
            Ok(p)
        },
    }
}

} // verus!
