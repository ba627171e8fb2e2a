use vstd::prelude::*;
use crate::cli::{blank, is_blank};
use crate::config::{applied, AgentConfig, ModelSettings};
use crate::error::AgentError;
use crate::event::{SessionEvent, SessionEventEnvelope, Usage};
use crate::ext_config::{join_path, joined_path};
use crate::ids::{generate_prefixed, generated_id_shape, WorkspaceId};
use crate::session::{basic_prompt_text, build_basic_system_prompt, session_tmp_dir_text};
use crate::ids::session_id_problem;
use crate::text::{decimal, push_i64_decimal, push_str, push_u64_decimal, signed_decimal, str_chars};
use crate::time::{now_utc, UtcTime};

verus! {

/// A workspace that sessions run in: a canonical directory.
#[derive(Debug)]
pub struct WorkspaceSpec {
    pub format_version: u32,
    pub id: WorkspaceId,
    /// The canonical path of the workspace's root directory.
    pub root: String,
    pub created_at: UtcTime,
}

impl WorkspaceSpec {
    /// A new workspace for the canonical directory `root`, with a fresh
    /// `ws_<uuid>` id.
    pub fn new(root: String) -> (r: Self)
        ensures
            r.format_version == 1,
            generated_id_shape("ws"@, r.id.0@),
            r.root == root,
    {
        let id = WorkspaceId::new(generate_prefixed("ws"));
        WorkspaceSpec { format_version: 1, id, root, created_at: now_utc() }
    }

    /// A workspace with a known id for the canonical directory `root`.
    pub fn with_id(id: WorkspaceId, root: String) -> (r: Self)
        ensures
            r.format_version == 1,
            r.id == id,
            r.root == root,
    {
        WorkspaceSpec { format_version: 1, id, root, created_at: now_utc() }
    }
}

/// The last component of a path, as `Path::file_name` gives it: trailing
/// separators and `.` components are passed over; `..`, an empty path or the
/// root has none.
pub open spec fn file_name(p: Seq<char>) -> Option<Seq<char>>
    decreases p.len(),
{
    if p.len() == 0 {
        None
    } else if p.last() == '/' {
        file_name(p.drop_last())
    } else {
        let k = last_slash(p);
        let comp = p.subrange(k + 1, p.len() as int);
        if comp == seq!['.'] {
            if k < 0 {
                None
            } else {
                proof {
                    lemma_last_slash_bound(p);
                }
                file_name(p.subrange(0, k))
            }
        } else if comp == seq!['.', '.'] {
            None
        } else {
            Some(comp)
        }
    }
}

/// The position of the last `/` in `p`, or -1.
pub open spec fn last_slash(p: Seq<char>) -> int
    decreases p.len(),
{
    if p.len() == 0 {
        -1
    } else if p.last() == '/' {
        p.len() - 1
    } else {
        last_slash(p.drop_last())
    }
}

pub proof fn lemma_last_slash_bound(p: Seq<char>)
    ensures
        -1 <= last_slash(p) < p.len(),
    decreases p.len(),
{
    if p.len() > 0 && p.last() != '/' {
        lemma_last_slash_bound(p.drop_last());
    }
}

pub proof fn lemma_last_dot_bound(s: Seq<char>)
    ensures
        -1 <= last_dot(s) < s.len(),
    decreases s.len(),
{
    if s.len() > 0 && s.last() != '.' {
        lemma_last_dot_bound(s.drop_last());
    }
}

/// The extension of a file name, as `Path::extension` gives it: the text
/// after its last `.`, unless that dot starts the name.
pub open spec fn name_extension(name: Seq<char>) -> Option<Seq<char>> {
    let d = last_dot(name);
    if d <= 0 {
        None
    } else {
        Some(name.subrange(d + 1, name.len() as int))
    }
}

/// The position of the last `.` in `s`, or -1.
pub open spec fn last_dot(s: Seq<char>) -> int
    decreases s.len(),
{
    if s.len() == 0 {
        -1
    } else if s.last() == '.' {
        s.len() - 1
    } else {
        last_dot(s.drop_last())
    }
}

/// The path a store opens: a custom path ending in `.sqlite3` or `.db` as it
/// is, another custom directory with `control.sqlite3` in it, else the
/// default under `.ragent/store`.
pub open spec fn store_path(custom: Option<Seq<char>>) -> Seq<char> {
    match custom {
        None => ".ragent/store/control.sqlite3"@,
        Some(d) => {
            let ext = match file_name(d) {
                Some(n) => name_extension(n),
                None => None,
            };
            if ext == Some("sqlite3"@) || ext == Some("db"@) {
                d
            } else {
                joined_path(d, "control.sqlite3"@)
            }
        },
    }
}

fn last_slash_of(p: &Vec<char>, n: usize) -> (r: Option<usize>)
    requires
        n <= p@.len(),
    ensures
        match r {
            Some(k) => k as int == last_slash(p@.subrange(0, n as int)) && k < n,
            None => last_slash(p@.subrange(0, n as int)) == -1,
        },
    decreases n,
{
    if n == 0 {
        None
    } else if p[n - 1] == '/' {
        Some(n - 1)
    } else {
        assert(p@.subrange(0, n as int).drop_last() =~= p@.subrange(0, n - 1));
        last_slash_of(p, n - 1)
    }
}

fn last_dot_of(s: &Vec<char>, n: usize) -> (r: Option<usize>)
    requires
        n <= s@.len(),
    ensures
        match r {
            Some(k) => k as int == last_dot(s@.subrange(0, n as int)) && k < n,
            None => last_dot(s@.subrange(0, n as int)) == -1,
        },
    decreases n,
{
    if n == 0 {
        None
    } else if s[n - 1] == '.' {
        Some(n - 1)
    } else {
        assert(s@.subrange(0, n as int).drop_last() =~= s@.subrange(0, n - 1));
        last_dot_of(s, n - 1)
    }
}

fn slice_chars(p: &Vec<char>, a: usize, b: usize) -> (r: Vec<char>)
    requires
        a <= b <= p@.len(),
    ensures
        r@ == p@.subrange(a as int, b as int),
{
    let mut out: Vec<char> = Vec::new();
    let mut i: usize = a;
    while i < b
        invariant
            a <= i <= b <= p@.len(),
            out@ == p@.subrange(a as int, i as int),
        decreases b - i,
    {
        out.push(p[i]);
        i = i + 1;
        assert(out@ =~= p@.subrange(a as int, i as int));
    }
    out
}

fn file_name_of(p: &Vec<char>, n: usize) -> (r: Option<Vec<char>>)
    requires
        n <= p@.len(),
    ensures
        match file_name(p@.subrange(0, n as int)) {
            Some(c) => r matches Some(v) && v@ == c,
            None => r is None,
        },
    decreases n,
{
    let ghost q = p@.subrange(0, n as int);
    if n == 0 {
        return None;
    }
    if p[n - 1] == '/' {
        assert(q.drop_last() =~= p@.subrange(0, n - 1));
        return file_name_of(p, n - 1);
    }
    let ks = last_slash_of(p, n);
    let ghost k: int = last_slash(q);
    let start: usize = match ks {
        Some(x) => x + 1,
        None => 0,
    };
    let comp = slice_chars(p, start, n);
    proof {
        assert(q.subrange(k + 1, q.len() as int) =~= comp@);
    }
    let is_dot = comp.len() == 1 && comp[0] == '.';
    let is_dotdot = comp.len() == 2 && comp[0] == '.' && comp[1] == '.';
    proof {
        if is_dot {
            assert(comp@ =~= seq!['.']);
        } else {
            assert(comp@ != seq!['.']) by {
                if comp@.len() == 1 {
                    assert(comp@[0] != '.');
                }
            }
        }
        if is_dotdot {
            assert(comp@ =~= seq!['.', '.']);
        } else {
            assert(comp@ != seq!['.', '.']) by {
                if comp@.len() == 2 {
                    assert(comp@[0] != '.' || comp@[1] != '.');
                }
            }
        }
    }
    if is_dot {
        match ks {
            None => {
                return None;
            },
            Some(x) => {
                assert(q.subrange(0, k) =~= p@.subrange(0, x as int));
                return file_name_of(p, x);
            },
        }
    }
    if is_dotdot {
        return None;
    }
    Some(comp)
}

/// The path of the store to open (see `store_path`).
pub fn resolve_store_path(custom_dir: Option<String>) -> (r: String)
    ensures
        r@ == store_path(match custom_dir {
            Some(d) => Some(d@),
            None => None,
        }),
{
    match custom_dir {
        None => ".ragent/store/control.sqlite3".to_string(),
        Some(d) => {
            let p = str_chars(d.as_str());
            proof {
                assert(p@.subrange(0, p@.len() as int) =~= p@);
            }
            let ext: Option<Vec<char>> = match file_name_of(&p, p.len()) {
                Some(n) => {
                    proof {
                        assert(n@.subrange(0, n@.len() as int) =~= n@);
                    }
                    match last_dot_of(&n, n.len()) {
                        None => None,
                        Some(0) => None,
                        Some(dot) => Some(slice_chars(&n, dot + 1, n.len())),
                    }
                },
                None => None,
            };
            let keep = match &ext {
                Some(e) => crate::cli::chars_eq(e.as_slice(), "sqlite3") || crate::cli::chars_eq(e.as_slice(), "db"),
                None => false,
            };
            if keep {
                d
            } else {
                join_path(d.as_str(), "control.sqlite3")
            }
        },
    }
}

pub open spec fn bool_text(b: bool) -> Seq<char> {
    if b { "true"@ } else { "false"@ }
}

/// The progress line(s) a run prints for an event, and whether they go to
/// the error stream; nothing for events that show no progress.
pub open spec fn progress_text(e: SessionEvent) -> Seq<char> {
    match e {
        SessionEvent::SessionCreated { .. } => "[Event] 会话已创建\n"@,
        SessionEvent::ActivationRequested { input_batch_seq, .. } => "[Event] 提交激活请求 (Input Batch #"@
            + decimal(input_batch_seq.0 as nat) + ")\n"@,
        SessionEvent::ActivationStarted => "[Event] 激活开始执行\n"@,
        SessionEvent::TurnStarted => "\n[Event] 开始思考与模型推理...\n"@,
        SessionEvent::TurnCompleted { usage, .. } => match usage {
            Some(u) => "[Event] 模型推理完成 (耗费 Token: total="@ + signed_decimal(u.total_tokens as int) + ", in="@
                + signed_decimal(u.input_tokens as int) + ", out="@ + signed_decimal(u.output_tokens as int) + ")\n"@,
            None => "[Event] 模型推理完成\n"@,
        },
        SessionEvent::ToolCallStarted { call_id, name } => "[Event] 调用工具: "@ + name@ + " (call_id: "@ + call_id@
            + ")\n"@,
        SessionEvent::ToolCallFinished { name, success, duration_ms, .. } => "[Event] 工具执行完成: "@ + name@
            + " (success: "@ + bool_text(success) + ", "@ + (match duration_ms {
            Some(d) => decimal(d as nat) + "ms"@,
            None => Seq::empty(),
        }) + ")\n"@,
        SessionEvent::ActivationCompleted { usage } => "\n[Event] 激活已完成！\n"@ + (match usage {
            Some(u) => "Token 统计: total="@ + signed_decimal(u.total_tokens as int) + ", input="@ + signed_decimal(
                u.input_tokens as int,
            ) + ", output="@ + signed_decimal(u.output_tokens as int) + "\n"@,
            None => Seq::empty(),
        }),
        SessionEvent::ActivationFailed { error } => "\n[Event] 激活失败: "@ + error@ + "\n"@,
        SessionEvent::ActivationCancelled => "\n[Event] 激活已取消\n"@,
        SessionEvent::ActivationInterrupted { reason } => "\n[Event] 激活被中断: "@ + reason@ + "\n"@,
        _ => Seq::empty(),
    }
}

/// The progress text of an event (see `progress_text`), and whether it goes
/// to the error stream (only a failure does).
pub fn event_progress(env: &SessionEventEnvelope) -> (r: (String, bool))
    ensures
        r.0@ == progress_text(env.event),
        r.1 == (env.event is ActivationFailed),
{
    let mut s = String::new();
    let mut err = false;
    match &env.event {
        SessionEvent::SessionCreated { .. } => push_str(&mut s, "[Event] 会话已创建\n"),
        SessionEvent::ActivationRequested { input_batch_seq, .. } => {
            push_str(&mut s, "[Event] 提交激活请求 (Input Batch #");
            push_u64_decimal(&mut s, input_batch_seq.0);
            push_str(&mut s, ")\n");
        },
        SessionEvent::ActivationStarted => push_str(&mut s, "[Event] 激活开始执行\n"),
        SessionEvent::TurnStarted => push_str(&mut s, "\n[Event] 开始思考与模型推理...\n"),
        SessionEvent::TurnCompleted { usage, .. } => match usage {
            Some(u) => {
                push_str(&mut s, "[Event] 模型推理完成 (耗费 Token: total=");
                push_i64_decimal(&mut s, u.total_tokens as i64);
                push_str(&mut s, ", in=");
                push_i64_decimal(&mut s, u.input_tokens as i64);
                push_str(&mut s, ", out=");
                push_i64_decimal(&mut s, u.output_tokens as i64);
                push_str(&mut s, ")\n");
            },
            None => push_str(&mut s, "[Event] 模型推理完成\n"),
        },
        SessionEvent::ToolCallStarted { call_id, name } => {
            push_str(&mut s, "[Event] 调用工具: ");
            push_str(&mut s, name.as_str());
            push_str(&mut s, " (call_id: ");
            push_str(&mut s, call_id.as_str());
            push_str(&mut s, ")\n");
        },
        SessionEvent::ToolCallFinished { name, success, duration_ms, .. } => {
            push_str(&mut s, "[Event] 工具执行完成: ");
            push_str(&mut s, name.as_str());
            push_str(&mut s, " (success: ");
            push_str(&mut s, if *success { "true" } else { "false" });
            push_str(&mut s, ", ");
            match duration_ms {
                Some(d) => {
                    push_u64_decimal(&mut s, *d);
                    push_str(&mut s, "ms");
                },
                None => {},
            }
            push_str(&mut s, ")\n");
        },
        SessionEvent::ActivationCompleted { usage } => {
            push_str(&mut s, "\n[Event] 激活已完成！\n");
            match usage {
                Some(u) => {
                    push_str(&mut s, "Token 统计: total=");
                    push_i64_decimal(&mut s, u.total_tokens as i64);
                    push_str(&mut s, ", input=");
                    push_i64_decimal(&mut s, u.input_tokens as i64);
                    push_str(&mut s, ", output=");
                    push_i64_decimal(&mut s, u.output_tokens as i64);
                    push_str(&mut s, "\n");
                },
                None => {},
            }
        },
        SessionEvent::ActivationFailed { error } => {
            push_str(&mut s, "\n[Event] 激活失败: ");
            push_str(&mut s, error.as_str());
            push_str(&mut s, "\n");
            err = true;
        },
        SessionEvent::ActivationCancelled => push_str(&mut s, "\n[Event] 激活已取消\n"),
        SessionEvent::ActivationInterrupted { reason } => {
            push_str(&mut s, "\n[Event] 激活被中断: ");
            push_str(&mut s, reason.as_str());
            push_str(&mut s, "\n");
        },
        _ => {},
    }
    proof {
        assert(s@ =~= progress_text(env.event));
    }
    (s, err)
}

/// What a run prints of its result: the final answer under a heading, or
/// nothing when there is no text.
pub fn run_result_text(final_text: &str) -> (r: String)
    ensures
        final_text@.len() > 0 ==> r@ == "\n=== 回答 ===\n"@ + final_text@ + "\n"@,
        final_text@.len() == 0 ==> r@.len() == 0,
{
    let mut s = String::new();
    if final_text.unicode_len() > 0 {
        push_str(&mut s, "\n=== 回答 ===\n");
        push_str(&mut s, final_text);
        push_str(&mut s, "\n");
    }
    s
}

/// The prompt a new session starts with: a non-blank custom prompt as it
/// is, else the basic prompt for the session.
pub fn choose_basic_prompt(custom: Option<&str>, session_id: &str) -> (r: Result<String, AgentError>)
    ensures
        custom matches Some(p) && !blank(p@) ==> (r matches Ok(s) && s@ == custom->Some_0@),
        !(custom matches Some(p) && !blank(p@)) ==> match session_id_problem(session_id) {
            None => r matches Ok(s) && s@ == basic_prompt_text(session_tmp_dir_text(session_id@)),
            Some(m) => r matches Err(AgentError::ToolError(e)) && e@ == m,
        },
{
    match custom {
        Some(p) => {
            if !is_blank(p) {
                return Ok(p.to_string());
            }
        },
        None => {},
    }
    match build_basic_system_prompt(session_id) {
        Ok(s) => Ok(s),
        Err(e) => Err(AgentError::ToolError(e)),
    }
}

/// The configuration a new session freezes: the process configuration,
/// then the `[model]` block of the resolved configuration files, then the
/// command line's model settings, each applied over the last.
pub fn layered_config(base: AgentConfig, resolved: Option<&ModelSettings>, cli: Option<&ModelSettings>) -> (r: AgentConfig)
    ensures
        r == (match cli {
            Some(c) => applied(
                match resolved {
                    Some(m) => applied(base, *m),
                    None => base,
                },
                *c,
            ),
            None => match resolved {
                Some(m) => applied(base, *m),
                None => base,
            },
        }),
{
    let mut cfg = base;
    if let Some(m) = resolved {
        cfg.apply_model_settings(m);
    }
    if let Some(c) = cli {
        cfg.apply_model_settings(c);
    }
    cfg
}

} // verus!
