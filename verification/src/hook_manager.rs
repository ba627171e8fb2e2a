use vstd::prelude::*;
use crate::cli::{blank, is_blank};
use crate::error::AgentError;
use crate::hooks::{AgentDraft, ExtensionMetadata, FlowControl, HookAction, HookFailurePolicy, HookKind, HookResult, HookSubscription, ModelDraft, ToolDefinition, ToolEntry, HOOK_TOOLS_CALL};
use crate::item::clone_opt_string;
use crate::json::{clone_json, field, json_get, json_view, JsonValue, JsonView};
use crate::text::{decimal, push_str, push_u64_decimal};

verus! {

/// A subscription of a loaded extension to a hook: the extension's position
/// among the loaded ones, the subscription's position among its own, and
/// what the dispatch reads of it.
#[derive(Debug, Clone, Copy, PartialEq, Eq, Structural)]
pub struct SubscriberRef {
    pub plugin: usize,
    pub sub: usize,
    pub priority: i32,
    pub failure: HookFailurePolicy,
}

/// The subscription at (`p`, `s`) is to `hook` as `kind`.
pub open spec fn sub_matches(
    plugins: Seq<ExtensionMetadata>,
    p: int,
    s: int,
    hook: Seq<char>,
    kind: HookKind,
) -> bool {
    &&& 0 <= p < plugins.len()
    &&& 0 <= s < plugins[p].subscriptions@.len()
    &&& plugins[p].subscriptions@[s].hook@ == hook
    &&& plugins[p].subscriptions@[s].kind == kind
}

/// Dispatch order: by priority, then by load order of the extension, then
/// by the order of its subscriptions.
pub open spec fn runs_before(a: SubscriberRef, b: SubscriberRef) -> bool {
    ||| a.priority < b.priority
    ||| (a.priority == b.priority && a.plugin < b.plugin)
    ||| (a.priority == b.priority && a.plugin == b.plugin && a.sub < b.sub)
}

/// `r` describes the subscription at its position truly.
pub open spec fn describes(plugins: Seq<ExtensionMetadata>, r: SubscriberRef) -> bool {
    &&& 0 <= r.plugin < plugins.len()
    &&& 0 <= r.sub < plugins[r.plugin as int].subscriptions@.len()
    &&& r.priority == plugins[r.plugin as int].subscriptions@[r.sub as int].priority
    &&& r.failure == plugins[r.plugin as int].subscriptions@[r.sub as int].failure
}

pub open spec fn listed(out: Seq<SubscriberRef>, p: int, s: int) -> bool {
    exists|i: int| 0 <= i < out.len() && out[i].plugin == p && out[i].sub == s
}

/// `out` lists the subscribers of `hook` as `kind`: each matching
/// subscription once, in dispatch order (a stable sort by priority).
pub open spec fn is_subscriber_list(
    plugins: Seq<ExtensionMetadata>,
    hook: Seq<char>,
    kind: HookKind,
    out: Seq<SubscriberRef>,
) -> bool {
    &&& forall|i: int|
        0 <= i < out.len() ==> describes(plugins, #[trigger] out[i]) && sub_matches(
            plugins,
            out[i].plugin as int,
            out[i].sub as int,
            hook,
            kind,
        )
    &&& forall|p: int, s: int| sub_matches(plugins, p, s, hook, kind) ==> #[trigger] listed(out, p, s)
    &&& forall|i: int, j: int| 0 <= i < j < out.len() ==> runs_before(#[trigger] out[i], #[trigger] out[j])
}

/// The subscribers of `hook` as `kind`, in the order in which they run.
pub fn subscribers(plugins: &Vec<ExtensionMetadata>, hook: &str, kind: HookKind) -> (r: Vec<SubscriberRef>)
    ensures
        is_subscriber_list(plugins@, hook@, kind, r@),
{
    let hook_s = hook.to_string();
    let mut out: Vec<SubscriberRef> = Vec::new();
    let mut p: usize = 0;
    while p < plugins.len()
        invariant
            p <= plugins@.len(),
            hook_s@ == hook@,
            forall|i: int|
                0 <= i < out@.len() ==> describes(plugins@, #[trigger] out@[i]) && sub_matches(
                    plugins@,
                    out@[i].plugin as int,
                    out@[i].sub as int,
                    hook@,
                    kind,
                ) && out@[i].plugin < p,
            forall|q: int, s: int|
                q < p && sub_matches(plugins@, q, s, hook@, kind) ==> #[trigger] listed(out@, q, s),
            forall|i: int, j: int| 0 <= i < j < out@.len() ==> runs_before(#[trigger] out@[i], #[trigger] out@[j]),
        decreases plugins@.len() - p,
    {
        let subs = &plugins[p].subscriptions;
        let mut s: usize = 0;
        while s < subs.len()
            invariant
                p < plugins@.len(),
                subs@ == plugins@[p as int].subscriptions@,
                s <= subs@.len(),
                hook_s@ == hook@,
                forall|i: int|
                    0 <= i < out@.len() ==> describes(plugins@, #[trigger] out@[i]) && sub_matches(
                        plugins@,
                        out@[i].plugin as int,
                        out@[i].sub as int,
                        hook@,
                        kind,
                    ) && (out@[i].plugin < p || (out@[i].plugin == p && out@[i].sub < s)),
                forall|q: int, t: int|
                    (q < p || (q == p && t < s)) && sub_matches(plugins@, q, t, hook@, kind)
                        ==> #[trigger] listed(out@, q, t),
                forall|i: int, j: int|
                    0 <= i < j < out@.len() ==> runs_before(#[trigger] out@[i], #[trigger] out@[j]),
            decreases subs@.len() - s,
        {
            let sub: &HookSubscription = &subs[s];
            if sub.hook == hook_s && sub.kind == kind {
                let r = SubscriberRef { plugin: p, sub: s, priority: sub.priority, failure: sub.failure };
                let mut k: usize = out.len();
                while k > 0 && out[k - 1].priority > r.priority
                    invariant
                        k <= out@.len(),
                        forall|j: int| k <= j < out@.len() ==> (#[trigger] out@[j]).priority > r.priority,
                    decreases k,
                {
                    k = k - 1;
                }
                let ghost old_out = out@;
                proof {
                    assert forall|j: int| 0 <= j < k implies (#[trigger] old_out[j]).priority <= r.priority by {
                        if j < k - 1 {
                            assert(runs_before(old_out[j], old_out[k - 1]));
                        }
                    }
                }
                out.insert(k, r);
                proof {
                    assert(out@ == old_out.insert(k as int, r));
                    assert forall|i: int| 0 <= i < out@.len() implies describes(plugins@, #[trigger] out@[i])
                        && sub_matches(plugins@, out@[i].plugin as int, out@[i].sub as int, hook@, kind)
                        && (out@[i].plugin < p || (out@[i].plugin == p && out@[i].sub < s + 1)) by {
                        if i < k {
                            assert(out@[i] == old_out[i]);
                        } else if i > k {
                            assert(out@[i] == old_out[i - 1]);
                        }
                    }
                    assert forall|q: int, t: int|
                        (q < p || (q == p && t < s + 1)) && sub_matches(plugins@, q, t, hook@, kind)
                        implies #[trigger] listed(out@, q, t) by {
                        if q == p && t == s {
                            assert(out@[k as int] == r);
                        } else {
                            assert(listed(old_out, q, t));
                            let i = choose|i: int| 0 <= i < old_out.len() && old_out[i].plugin == q && old_out[i].sub == t;
                            if i < k {
                                assert(out@[i] == old_out[i]);
                            } else {
                                assert(out@[i + 1] == old_out[i]);
                            }
                        }
                    }
                    assert forall|i: int, j: int| 0 <= i < j < out@.len() implies runs_before(
                        #[trigger] out@[i],
                        #[trigger] out@[j],
                    ) by {
                        if j < k {
                            assert(out@[i] == old_out[i] && out@[j] == old_out[j]);
                        } else if j == k {
                            assert(out@[i] == old_out[i]);
                        } else if i == k {
                            assert(out@[j] == old_out[j - 1]);
                        } else if i < k {
                            assert(out@[i] == old_out[i] && out@[j] == old_out[j - 1]);
                        } else {
                            assert(out@[i] == old_out[i - 1] && out@[j] == old_out[j - 1]);
                        }
                    }
                }
            } else {
                proof {
                    assert forall|q: int, t: int|
                        (q < p || (q == p && t < s + 1)) && sub_matches(plugins@, q, t, hook@, kind)
                        implies #[trigger] listed(out@, q, t) by {
                        if q == p && t == s {
                            assert(false);
                        }
                    }
                }
            }
            s = s + 1;
        }
        p = p + 1;
    }
    out
}

/// What a transform chain accepts as a payload.
#[derive(Debug, Clone, Copy, PartialEq, Eq, Structural)]
pub enum PayloadRule {
    /// Any payload.
    Any,
    /// An object whose `text` field is a non-empty string.
    NonEmptyText,
}

/// Why `v` breaks `rule`, if it does.
pub open spec fn payload_problem(rule: PayloadRule, v: JsonView) -> Option<Seq<char>> {
    match rule {
        PayloadRule::Any => None,
        PayloadRule::NonEmptyText => {
            if field(v, "text"@) matches Some(JsonView::String(t)) && t.len() > 0 {
                None
            } else {
                Some("text must be a non-empty string"@)
            }
        },
    }
}

/// Checks a payload against a rule.
pub fn check_payload(rule: PayloadRule, v: &JsonValue) -> (r: Result<(), String>)
    ensures
        payload_problem(rule, json_view(*v)) matches Some(m) ==> (r matches Err(e) && e@ == m),
        payload_problem(rule, json_view(*v)) is None ==> r is Ok,
{
    match rule {
        PayloadRule::Any => Ok(()),
        PayloadRule::NonEmptyText => {
            let ok = match json_get(v, "text") {
                Some(JsonValue::String(t)) => t.as_str().unicode_len() > 0,
                _ => false,
            };
            proof { reveal_strlit("text"); }
            if ok {
                Ok(())
            } else {
                Err("text must be a non-empty string".to_string())
            }
        },
    }
}

/// The message of an extension's failure at a hook.
pub open spec fn ext_error_text(ext: Seq<char>, hook: Seq<char>, err: Seq<char>) -> Seq<char> {
    "extension '"@ + ext + "' failed at '"@ + hook + "': "@ + err
}

/// The error of an extension's failure at a hook.
pub fn extension_error(ext: &str, hook: &str, err: &str) -> (r: AgentError)
    ensures
        r matches AgentError::ToolError(m) && m@ == ext_error_text(ext@, hook@, err@),
{
    let mut m = String::new();
    push_str(&mut m, "extension '");
    push_str(&mut m, ext);
    push_str(&mut m, "' failed at '");
    push_str(&mut m, hook);
    push_str(&mut m, "': ");
    push_str(&mut m, err);
    proof {
        assert(m@ =~= ext_error_text(ext@, hook@, err@));
    }
    AgentError::ToolError(m)
}

/// The error when the core itself hands a chain a payload that breaks its rule.
pub open spec fn core_payload_text(hook: Seq<char>, reason: Seq<char>) -> Seq<char> {
    "core produced invalid payload for '"@ + hook + "': "@ + reason
}

/// Checks the payload that starts a transform chain.
pub fn check_core_payload(hook: &str, rule: PayloadRule, payload: &JsonValue) -> (r: Result<(), AgentError>)
    ensures
        payload_problem(rule, json_view(*payload)) matches Some(m) ==> (r matches Err(AgentError::ToolError(e))
            && e@ == core_payload_text(hook@, m)),
        payload_problem(rule, json_view(*payload)) is None ==> r is Ok,
{
    match check_payload(rule, payload) {
        Ok(()) => Ok(()),
        Err(reason) => {
            let mut m = String::new();
            push_str(&mut m, "core produced invalid payload for '");
            push_str(&mut m, hook);
            push_str(&mut m, "': ");
            push_str(&mut m, reason.as_str());
            proof {
                assert(m@ =~= core_payload_text(hook@, reason@));
            }
            Err(AgentError::ToolError(m))
        },
    }
}

/// How one subscriber's answer moves a transform chain.
pub enum ChainMove {
    /// The payload stays and the chain goes on.
    Keep,
    /// The answer's payload replaces the payload and the chain goes on.
    Replace,
    /// The chain ends here with the payload as it is.
    End(FlowControl),
    /// The hook fails with this message.
    Fail(Seq<char>),
    /// The extension rejected the operation for this reason.
    Rejected(Seq<char>),
}

/// The move of a transform chain on one subscriber's answer; `response` is
/// the parsed answer or the text of the failure to get one.
pub open spec fn transform_move(
    hook: Seq<char>,
    ext: Seq<char>,
    failure: HookFailurePolicy,
    rule: PayloadRule,
    response: Result<HookResult, String>,
) -> ChainMove {
    match response {
        Err(e) => if failure == HookFailurePolicy::Ignore {
            ChainMove::Keep
        } else {
            ChainMove::Fail(ext_error_text(ext, hook, e@))
        },
        Ok(res) => match res.action {
            HookAction::Continue => match res.payload {
                None => ChainMove::Fail(ext_error_text(ext, hook, "continue requires payload"@)),
                Some(c) => match payload_problem(rule, json_view(c)) {
                    Some(reason) => if failure == HookFailurePolicy::Ignore {
                        ChainMove::Keep
                    } else {
                        ChainMove::Fail(ext_error_text(ext, hook, reason))
                    },
                    None => ChainMove::Replace,
                },
            },
            HookAction::Unchanged => ChainMove::Keep,
            HookAction::Reject => ChainMove::Rejected(
                match res.reason {
                    Some(r) => r@,
                    None => ext,
                },
            ),
            HookAction::Skip => ChainMove::End(FlowControl::Skip),
            HookAction::Stop => ChainMove::End(FlowControl::Stop),
        },
    }
}

/// One step of a transform chain: the payload after the subscriber of
/// extension `ext_id` answered, and the flow control when the chain ends.
pub fn transform_step(
    hook: &str,
    ext_id: &str,
    failure: HookFailurePolicy,
    rule: PayloadRule,
    payload: JsonValue,
    response: Result<HookResult, String>,
) -> (r: Result<(JsonValue, Option<FlowControl>), AgentError>)
    ensures
        match transform_move(hook@, ext_id@, failure, rule, response) {
            ChainMove::Keep => r == Ok::<(JsonValue, Option<FlowControl>), AgentError>((payload, None)),
            ChainMove::Replace => r == Ok::<(JsonValue, Option<FlowControl>), AgentError>(
                (response->Ok_0.payload->Some_0, None),
            ),
            ChainMove::End(c) => r == Ok::<(JsonValue, Option<FlowControl>), AgentError>((payload, Some(c))),
            ChainMove::Fail(m) => r matches Err(AgentError::ToolError(e)) && e@ == m,
            ChainMove::Rejected(reason) => r matches Err(AgentError::HookRejected { hook: h, reason: x })
                && h@ == hook@ && x@ == reason,
        },
{
    let res = match response {
        Err(e) => {
            if failure == HookFailurePolicy::Ignore {
                return Ok((payload, None));
            }
            return Err(extension_error(ext_id, hook, e.as_str()));
        },
        Ok(res) => res,
    };
    match res.action {
        HookAction::Continue => match res.payload {
            None => Err(extension_error(ext_id, hook, "continue requires payload")),
            Some(c) => match check_payload(rule, &c) {
                Err(reason) => {
                    if failure == HookFailurePolicy::Ignore {
                        Ok((payload, None))
                    } else {
                        Err(extension_error(ext_id, hook, reason.as_str()))
                    }
                },
                Ok(()) => Ok((c, None)),
            },
        },
        HookAction::Unchanged => Ok((payload, None)),
        HookAction::Reject => {
            let reason = match res.reason {
                Some(r) => r,
                None => ext_id.to_string(),
            };
            Err(AgentError::HookRejected { hook: hook.to_string(), reason })
        },
        HookAction::Skip => Ok((payload, Some(FlowControl::Skip))),
        HookAction::Stop => Ok((payload, Some(FlowControl::Stop))),
    }
}

/// The move of a transform chain on one subscriber's answer when the caller
/// checks candidate payloads itself: `problem` is what that check found
/// wrong with the answer's payload, if anything.
pub open spec fn checked_move(
    hook: Seq<char>,
    ext: Seq<char>,
    failure: HookFailurePolicy,
    response: Result<HookResult, String>,
    problem: Option<Seq<char>>,
) -> ChainMove {
    match response {
        Err(e) => if failure == HookFailurePolicy::Ignore {
            ChainMove::Keep
        } else {
            ChainMove::Fail(ext_error_text(ext, hook, e@))
        },
        Ok(res) => match res.action {
            HookAction::Continue => match res.payload {
                None => ChainMove::Fail(ext_error_text(ext, hook, "continue requires payload"@)),
                Some(c) => match problem {
                    Some(reason) => if failure == HookFailurePolicy::Ignore {
                        ChainMove::Keep
                    } else {
                        ChainMove::Fail(ext_error_text(ext, hook, reason))
                    },
                    None => ChainMove::Replace,
                },
            },
            HookAction::Unchanged => ChainMove::Keep,
            HookAction::Reject => ChainMove::Rejected(
                match res.reason {
                    Some(r) => r@,
                    None => ext,
                },
            ),
            HookAction::Skip => ChainMove::End(FlowControl::Skip),
            HookAction::Stop => ChainMove::End(FlowControl::Stop),
        },
    }
}

/// One step of a transform chain whose candidate payloads the caller checks:
/// `problem` is the outcome of that check on the answer's payload.
pub fn transform_step_checked(
    hook: &str,
    ext_id: &str,
    failure: HookFailurePolicy,
    payload: JsonValue,
    response: Result<HookResult, String>,
    problem: Option<String>,
) -> (r: Result<(JsonValue, Option<FlowControl>), AgentError>)
    ensures
        match checked_move(
            hook@,
            ext_id@,
            failure,
            response,
            match problem {
                Some(p) => Some(p@),
                None => None,
            },
        ) {
            ChainMove::Keep => r == Ok::<(JsonValue, Option<FlowControl>), AgentError>((payload, None)),
            ChainMove::Replace => r == Ok::<(JsonValue, Option<FlowControl>), AgentError>(
                (response->Ok_0.payload->Some_0, None),
            ),
            ChainMove::End(c) => r == Ok::<(JsonValue, Option<FlowControl>), AgentError>((payload, Some(c))),
            ChainMove::Fail(m) => r matches Err(AgentError::ToolError(e)) && e@ == m,
            ChainMove::Rejected(reason) => r matches Err(AgentError::HookRejected { hook: h, reason: x })
                && h@ == hook@ && x@ == reason,
        },
{
    let res = match response {
        Err(e) => {
            if failure == HookFailurePolicy::Ignore {
                return Ok((payload, None));
            }
            return Err(extension_error(ext_id, hook, e.as_str()));
        },
        Ok(res) => res,
    };
    match res.action {
        HookAction::Continue => match res.payload {
            None => Err(extension_error(ext_id, hook, "continue requires payload")),
            Some(c) => match problem {
                Some(reason) => {
                    if failure == HookFailurePolicy::Ignore {
                        Ok((payload, None))
                    } else {
                        Err(extension_error(ext_id, hook, reason.as_str()))
                    }
                },
                None => Ok((c, None)),
            },
        },
        HookAction::Unchanged => Ok((payload, None)),
        HookAction::Reject => {
            let reason = match res.reason {
                Some(r) => r,
                None => ext_id.to_string(),
            };
            Err(AgentError::HookRejected { hook: hook.to_string(), reason })
        },
        HookAction::Skip => Ok((payload, Some(FlowControl::Skip))),
        HookAction::Stop => Ok((payload, Some(FlowControl::Stop))),
    }
}

/// The refusal of a payload that the core itself hands a chain, given what
/// the caller's check found wrong with it.
pub fn core_payload_checked(hook: &str, problem: Option<String>) -> (r: Result<(), AgentError>)
    ensures
        problem is None ==> r is Ok,
        problem matches Some(m) ==> (r matches Err(AgentError::ToolError(e)) && e@ == core_payload_text(hook@, m@)),
{
    match problem {
        None => Ok(()),
        Some(reason) => {
            let mut m = String::new();
            push_str(&mut m, "core produced invalid payload for '");
            push_str(&mut m, hook);
            push_str(&mut m, "': ");
            push_str(&mut m, reason.as_str());
            proof {
                assert(m@ =~= core_payload_text(hook@, reason@));
            }
            Err(AgentError::ToolError(m))
        },
    }
}

/// How the answer of an action's owner is read.
pub enum ActionMove {
    /// The action returned this payload.
    Value,
    Fail(Seq<char>),
    Rejected(Seq<char>),
}

pub open spec fn action_move(
    hook: Seq<char>,
    owner: Seq<char>,
    ext: Seq<char>,
    response: Result<HookResult, String>,
) -> ActionMove {
    match response {
        Err(e) => ActionMove::Fail(ext_error_text(ext, hook, e@)),
        Ok(res) => match res.action {
            HookAction::Continue => if res.payload is Some {
                ActionMove::Value
            } else {
                ActionMove::Fail(ext_error_text(ext, hook, "continue requires payload"@))
            },
            HookAction::Unchanged => ActionMove::Fail(
                ext_error_text(ext, hook, "action cannot return unchanged"@),
            ),
            HookAction::Reject => ActionMove::Rejected(
                match res.reason {
                    Some(r) => r@,
                    None => owner,
                },
            ),
            HookAction::Skip => ActionMove::Fail(ext_error_text(ext, hook, "action cannot return skip"@)),
            HookAction::Stop => ActionMove::Fail(ext_error_text(ext, hook, "action cannot return stop"@)),
        },
    }
}

/// Reads the answer of the owner `ext_id` of an action.
pub fn action_outcome(hook: &str, owner: &str, ext_id: &str, response: Result<HookResult, String>) -> (r: Result<
    JsonValue,
    AgentError,
>)
    ensures
        match action_move(hook@, owner@, ext_id@, response) {
            ActionMove::Value => r == Ok::<JsonValue, AgentError>(response->Ok_0.payload->Some_0),
            ActionMove::Fail(m) => r matches Err(AgentError::ToolError(e)) && e@ == m,
            ActionMove::Rejected(reason) => r matches Err(AgentError::HookRejected { hook: h, reason: x })
                && h@ == hook@ && x@ == reason,
        },
{
    let res = match response {
        Err(e) => {
            return Err(extension_error(ext_id, hook, e.as_str()));
        },
        Ok(res) => res,
    };
    match res.action {
        HookAction::Continue => match res.payload {
            Some(v) => Ok(v),
            None => Err(extension_error(ext_id, hook, "continue requires payload")),
        },
        HookAction::Unchanged => Err(extension_error(ext_id, hook, "action cannot return unchanged")),
        HookAction::Reject => {
            let reason = match res.reason {
                Some(r) => r,
                None => owner.to_string(),
            };
            Err(AgentError::HookRejected { hook: hook.to_string(), reason })
        },
        HookAction::Skip => Err(extension_error(ext_id, hook, "action cannot return skip")),
        HookAction::Stop => Err(extension_error(ext_id, hook, "action cannot return stop")),
    }
}

/// Reads the answer of an observer: only a failure matters, and only under
/// the abort policy.
pub fn observe_outcome(hook: &str, ext_id: &str, failure: HookFailurePolicy, response: Result<(), String>) -> (r: Result<
    (),
    AgentError,
>)
    ensures
        response is Ok ==> r is Ok,
        response is Err && failure == HookFailurePolicy::Ignore ==> r is Ok,
        response is Err && failure == HookFailurePolicy::Abort ==> (r matches Err(
            AgentError::ToolError(m),
        ) && m@ == ext_error_text(ext_id@, hook@, response->Err_0@)),
{
    match response {
        Ok(()) => Ok(()),
        Err(e) => {
            if failure == HookFailurePolicy::Ignore {
                Ok(())
            } else {
                Err(extension_error(ext_id, hook, e.as_str()))
            }
        },
    }
}

/// The error when no subscriber of an action belongs to its owner.
pub open spec fn not_owner_text(owner: Seq<char>, hook: Seq<char>) -> Seq<char> {
    "extension '"@ + owner + "' does not own action '"@ + hook + "'"@
}

/// The first of `subs` whose extension is `owner`.
pub fn find_action_owner(
    plugins: &Vec<ExtensionMetadata>,
    subs: &Vec<SubscriberRef>,
    owner: &str,
    hook: &str,
) -> (r: Result<SubscriberRef, AgentError>)
    requires
        forall|i: int| 0 <= i < subs@.len() ==> (#[trigger] subs@[i]).plugin < plugins@.len(),
    ensures
        r matches Ok(s) ==> exists|i: int|
            0 <= i < subs@.len() && subs@[i] == s && plugins@[s.plugin as int].id@ == owner@ && forall|j: int|
                0 <= j < i ==> plugins@[(#[trigger] subs@[j]).plugin as int].id@ != owner@,
        r is Err ==> (r matches Err(AgentError::ToolError(m)) && m@ == not_owner_text(owner@, hook@))
            && forall|j: int| 0 <= j < subs@.len() ==> plugins@[(#[trigger] subs@[j]).plugin as int].id@ != owner@,
{
    let owner_s = owner.to_string();
    let mut i: usize = 0;
    while i < subs.len()
        invariant
            i <= subs@.len(),
            owner_s@ == owner@,
            forall|i: int| 0 <= i < subs@.len() ==> (#[trigger] subs@[i]).plugin < plugins@.len(),
            forall|j: int| 0 <= j < i ==> plugins@[(#[trigger] subs@[j]).plugin as int].id@ != owner@,
        decreases subs@.len() - i,
    {
        let s = subs[i];
        if plugins[s.plugin].id == owner_s {
            return Ok(s);
        }
        i = i + 1;
    }
    let mut m = String::new();
    push_str(&mut m, "extension '");
    push_str(&mut m, owner);
    push_str(&mut m, "' does not own action '");
    push_str(&mut m, hook);
    push_str(&mut m, "'");
    proof {
        assert(m@ =~= not_owner_text(owner@, hook@));
    }
    Err(AgentError::ToolError(m))
}

/// The subscription (`p`, `s`) repeats an earlier one: the same extension
/// id, hook and kind at an earlier position.
pub open spec fn repeats_earlier(plugins: Seq<ExtensionMetadata>, p: int, s: int) -> bool {
    exists|q: int, t: int|
        #![trigger plugins[q].subscriptions@[t]]
        (0 <= q < p || (q == p && 0 <= t < s)) && 0 <= t < plugins[q].subscriptions@.len()
            && plugins[q].id@ == plugins[p].id@ && plugins[q].subscriptions@[t].hook@
            == plugins[p].subscriptions@[s].hook@ && plugins[q].subscriptions@[t].kind
            == plugins[p].subscriptions@[s].kind
}

/// The extension at `p` has an id and declares each hook once.
pub open spec fn plugin_valid(plugins: Seq<ExtensionMetadata>, p: int) -> bool {
    &&& !blank(plugins[p].id@)
    &&& forall|s: int| 0 <= s < plugins[p].subscriptions@.len() ==> !#[trigger] repeats_earlier(plugins, p, s)
}

pub open spec fn dup_hook_text(id: Seq<char>, hook: Seq<char>) -> Seq<char> {
    "extension '"@ + id + "' declares hook '"@ + hook + "' more than once"@
}

/// The message for the first invalid extension `p`.
pub open spec fn subscription_error(plugins: Seq<ExtensionMetadata>, p: int, m: Seq<char>) -> bool {
    ||| blank(plugins[p].id@) && m == "extension id must not be empty"@
    ||| !blank(plugins[p].id@) && exists|s: int|
        0 <= s < plugins[p].subscriptions@.len() && #[trigger] repeats_earlier(plugins, p, s) && (forall|t: int|
            0 <= t < s ==> !#[trigger] repeats_earlier(plugins, p, t)) && m == dup_hook_text(
            plugins[p].id@,
            plugins[p].subscriptions@[s].hook@,
        )
}

/// `m` is the message for the first invalid extension.
pub open spec fn first_invalid_message(plugins: Seq<ExtensionMetadata>, m: Seq<char>) -> bool {
    exists|p: int|
        0 <= p < plugins.len() && (forall|q: int| 0 <= q < p ==> #[trigger] plugin_valid(plugins, q))
            && #[trigger] subscription_error(plugins, p, m)
}

fn repeats(plugins: &Vec<ExtensionMetadata>, p: usize, s: usize) -> (r: bool)
    requires
        p < plugins@.len(),
        s < plugins@[p as int].subscriptions@.len(),
    ensures
        r == repeats_earlier(plugins@, p as int, s as int),
{
    let me = &plugins[p].subscriptions[s];
    let id = &plugins[p].id;
    let n = plugins.len();
    let mut q: usize = 0;
    while q <= p
        invariant
            n == plugins@.len(),
            p < plugins@.len(),
            s < plugins@[p as int].subscriptions@.len(),
            *me == plugins@[p as int].subscriptions@[s as int],
            *id == plugins@[p as int].id,
            q <= p + 1,
            forall|q2: int, t: int|
                #![trigger plugins@[q2].subscriptions@[t]]
                0 <= q2 < q && 0 <= t < plugins@[q2].subscriptions@.len() && (q2 < p || t < s) ==> !(
                plugins@[q2].id@ == plugins@[p as int].id@ && plugins@[q2].subscriptions@[t].hook@
                    == me.hook@ && plugins@[q2].subscriptions@[t].kind == me.kind),
        decreases p + 1 - q,
    {
        let subs = &plugins[q].subscriptions;
        let end: usize = if q == p { s } else { subs.len() };
        let mut t: usize = 0;
        while t < end
            invariant
                q <= p,
                p < plugins@.len(),
                *subs == plugins@[q as int].subscriptions,
                end <= subs@.len(),
                q == p ==> end == s,
                q < p ==> end == subs@.len(),
                *me == plugins@[p as int].subscriptions@[s as int],
                *id == plugins@[p as int].id,
                t <= end,
                forall|t2: int|
                    0 <= t2 < t ==> !(plugins@[q as int].id@ == plugins@[p as int].id@
                        && (#[trigger] plugins@[q as int].subscriptions@[t2]).hook@ == me.hook@
                        && plugins@[q as int].subscriptions@[t2].kind == me.kind),
            decreases end - t,
        {
            if plugins[q].id == *id && subs[t].hook == me.hook && subs[t].kind == me.kind {
                assert(plugins@[q as int].subscriptions@[t as int] == subs@[t as int]);
                return true;
            }
            t = t + 1;
        }
        q = q + 1;
    }
    false
}

/// Checks that every extension has an id and declares each hook once.
pub fn validate_subscriptions(plugins: &Vec<ExtensionMetadata>) -> (r: Result<(), AgentError>)
    ensures
        r is Ok <==> forall|p: int| 0 <= p < plugins@.len() ==> #[trigger] plugin_valid(plugins@, p),
        r is Err ==> (r matches Err(AgentError::ToolError(m)) && first_invalid_message(plugins@, m@)),
{
    let mut p: usize = 0;
    while p < plugins.len()
        invariant
            p <= plugins@.len(),
            forall|q: int| 0 <= q < p ==> #[trigger] plugin_valid(plugins@, q),
        decreases plugins@.len() - p,
    {
        if is_blank(plugins[p].id.as_str()) {
            let m = "extension id must not be empty".to_string();
            assert(subscription_error(plugins@, p as int, m@));
            assert(!plugin_valid(plugins@, p as int));
            assert(first_invalid_message(plugins@, m@));
            return Err(AgentError::ToolError(m));
        }
        let subs = &plugins[p].subscriptions;
        let mut s: usize = 0;
        while s < subs.len()
            invariant
                p < plugins@.len(),
                *subs == plugins@[p as int].subscriptions,
                s <= subs@.len(),
                !blank(plugins@[p as int].id@),
                forall|q: int| 0 <= q < p ==> #[trigger] plugin_valid(plugins@, q),
                forall|t: int| 0 <= t < s ==> !#[trigger] repeats_earlier(plugins@, p as int, t),
            decreases subs@.len() - s,
        {
            if repeats(plugins, p, s) {
                let mut m = String::new();
                push_str(&mut m, "extension '");
                push_str(&mut m, plugins[p].id.as_str());
                push_str(&mut m, "' declares hook '");
                push_str(&mut m, subs[s].hook.as_str());
                push_str(&mut m, "' more than once");
                proof {
                    assert(m@ =~= dup_hook_text(plugins@[p as int].id@, plugins@[p as int].subscriptions@[s as int].hook@));
                    assert(subscription_error(plugins@, p as int, m@));
                    assert(!plugin_valid(plugins@, p as int));
                    assert(first_invalid_message(plugins@, m@));
                }
                return Err(AgentError::ToolError(m));
            }
            s = s + 1;
        }
        assert(plugin_valid(plugins@, p as int));
        p = p + 1;
    }
    Ok(())
}

/// The encoding `bits` (IEEE 754 binary64) is of a finite temperature in
/// [0, 2]: +0.0 up to 2.0, or -0.0.
pub open spec fn temperature_bits_valid(bits: u64) -> bool {
    bits <= 0x4000_0000_0000_0000u64 || bits == 0x8000_0000_0000_0000u64
}

/// Why the scalar parts of a draft are invalid, if they are.
pub open spec fn draft_head_problem(d: AgentDraft) -> Option<Seq<char>> {
    if blank(d.system_prompt@) {
        Some("system_prompt must not be empty"@)
    } else if blank(d.model.name@) {
        Some("model name must not be empty"@)
    } else if d.model.temperature_bits matches Some(b) && !temperature_bits_valid(b) {
        Some("temperature must be between 0 and 2"@)
    } else if d.model.max_output_tokens matches Some(v) && v <= 0 {
        Some("max_output_tokens must be positive"@)
    } else {
        None
    }
}

/// The owner recorded for tool id `id` in the draft before the hook: that of
/// the last tool with this id.
pub open spec fn existing_owner(before: Seq<ToolEntry>, id: Seq<char>) -> Option<Option<Seq<char>>>
    decreases before.len(),
{
    if before.len() == 0 {
        None
    } else if before.last().id matches Some(x) && x@ == id {
        Some(sv_opt(before.last().owner))
    } else {
        existing_owner(before.drop_last(), id)
    }
}

pub open spec fn sv_opt(o: Option<String>) -> Option<Seq<char>> {
    match o {
        Some(s) => Some(s@),
        None => None,
    }
}

/// The extension `ext` may add tools: it owns the `tools.call` action.
pub open spec fn may_add_tools(plugins: Seq<ExtensionMetadata>, ext: Seq<char>) -> bool {
    exists|p: int, s: int|
        0 <= p < plugins.len() && plugins[p].id@ == ext && 0 <= s < plugins[p].subscriptions@.len()
            && #[trigger] plugins[p].subscriptions@[s].hook@ == "tools.call"@
            && plugins[p].subscriptions@[s].kind == HookKind::Action
}

/// The id given to the `c`-th tool that an extension adds.
pub open spec fn tool_id_text(c: u64) -> Seq<char> {
    "tool-"@ + decimal(c as nat)
}

pub open spec fn next_counter(c: u64) -> u64 {
    if c == u64::MAX { 0 } else { (c + 1) as u64 }
}

/// The state of the tool check after some tools: whether all passed, the
/// error, the (id, owner) given to each tool, and the id counter.
pub struct ToolFold {
    pub ok: bool,
    pub error: Seq<char>,
    pub assigned: Seq<(Seq<char>, Option<Seq<char>>)>,
    pub counter: u64,
}

pub open spec fn fold_fail(prev: ToolFold, counter: u64, e: Seq<char>) -> ToolFold {
    ToolFold { ok: false, error: e, assigned: prev.assigned, counter }
}

pub open spec fn ids_of(a: Seq<(Seq<char>, Option<Seq<char>>)>) -> Seq<Seq<char>> {
    a.map_values(|x: (Seq<char>, Option<Seq<char>>)| x.0)
}

pub open spec fn names_of(tools: Seq<ToolEntry>) -> Seq<Seq<char>> {
    tools.map_values(|t: ToolEntry| t.definition.name@)
}

/// Assigns (`id`, `owner`) to the next tool unless it repeats an id or a name.
pub open spec fn fold_assign(
    prev: ToolFold,
    counter: u64,
    id: Seq<char>,
    owner: Option<Seq<char>>,
    name: Seq<char>,
    prior_names: Seq<Seq<char>>,
) -> ToolFold {
    if ids_of(prev.assigned).contains(id) {
        fold_fail(prev, counter, "duplicate tool id"@)
    } else if prior_names.contains(name) {
        fold_fail(prev, counter, "duplicate tool name"@)
    } else {
        ToolFold { ok: true, error: Seq::empty(), assigned: prev.assigned.push((id, owner)), counter }
    }
}

/// The check of one more tool `t` of the rewritten draft.
pub open spec fn tool_step(
    before: Seq<ToolEntry>,
    t: ToolEntry,
    can_add: bool,
    ext: Seq<char>,
    prev: ToolFold,
    prior_names: Seq<Seq<char>>,
) -> ToolFold {
    if blank(t.definition.name@) {
        fold_fail(prev, prev.counter, "tool name must not be empty"@)
    } else if field(json_view(t.definition.parameters), "type"@) != Some(JsonView::String("object"@)) {
        fold_fail(prev, prev.counter, "tool parameters must be a JSON schema object"@)
    } else {
        match t.id {
            Some(x) => match existing_owner(before, x@) {
                None => fold_fail(prev, prev.counter, "extension supplied unknown tool id '"@ + x@ + "'"@),
                Some(o) => fold_assign(prev, prev.counter, x@, o, t.definition.name@, prior_names),
            },
            None => if !can_add {
                fold_fail(
                    prev,
                    prev.counter,
                    "extension '"@ + ext + "' added a tool without owning tools.call"@,
                )
            } else {
                fold_assign(
                    prev,
                    next_counter(prev.counter),
                    tool_id_text(prev.counter),
                    Some(ext),
                    t.definition.name@,
                    prior_names,
                )
            },
        }
    }
}

/// The check of the first `n` tools of the rewritten draft.
pub open spec fn tool_fold(
    before: Seq<ToolEntry>,
    after: Seq<ToolEntry>,
    can_add: bool,
    ext: Seq<char>,
    counter0: u64,
    n: nat,
) -> ToolFold
    decreases n,
{
    if n == 0 || n > after.len() {
        ToolFold { ok: true, error: Seq::empty(), assigned: Seq::empty(), counter: counter0 }
    } else {
        let prev = tool_fold(before, after, can_add, ext, counter0, (n - 1) as nat);
        if !prev.ok {
            prev
        } else {
            tool_step(
                before,
                after[n - 1],
                can_add,
                ext,
                prev,
                names_of(after.subrange(0, n - 1)),
            )
        }
    }
}

proof fn lemma_fold_stops(
    before: Seq<ToolEntry>,
    after: Seq<ToolEntry>,
    can_add: bool,
    ext: Seq<char>,
    c0: u64,
    k: nat,
    n: nat,
)
    requires
        k <= n <= after.len(),
        !tool_fold(before, after, can_add, ext, c0, k).ok,
    ensures
        tool_fold(before, after, can_add, ext, c0, n) == tool_fold(before, after, can_add, ext, c0, k),
    decreases n,
{
    if n > k {
        lemma_fold_stops(before, after, can_add, ext, c0, k, (n - 1) as nat);
    }
}

fn seq_contains_string(v: &Vec<String>, x: &String) -> (r: bool)
    ensures
        r == v@.map_values(|s: String| s@).contains(x@),
{
    let ghost vs = v@.map_values(|s: String| s@);
    let mut i: usize = 0;
    while i < v.len()
        invariant
            i <= v@.len(),
            vs == v@.map_values(|s: String| s@),
            forall|j: int| 0 <= j < i ==> vs[j] != x@,
        decreases v@.len() - i,
    {
        if v[i] == *x {
            assert(vs[i as int] == x@);
            return true;
        }
        i = i + 1;
    }
    false
}

fn owner_of_id(before: &Vec<ToolEntry>, id: &String) -> (r: Option<Option<String>>)
    ensures
        match r {
            Some(o) => existing_owner(before@, id@) == Some(sv_opt(o)),
            None => existing_owner(before@, id@) is None,
        },
{
    let mut i: usize = before.len();
    assert(before@.subrange(0, before@.len() as int) =~= before@);
    while i > 0
        invariant
            i <= before@.len(),
            existing_owner(before@, id@) == existing_owner(before@.subrange(0, i as int), id@),
        decreases i,
    {
        let ghost pre = before@.subrange(0, i as int);
        assert(pre.drop_last() =~= before@.subrange(0, i - 1));
        assert(pre.last() == before@[i - 1]);
        match &before[i - 1].id {
            Some(x) => {
                if *x == *id {
                    return Some(clone_opt_string(&before[i - 1].owner));
                }
            },
            None => {},
        }
        i = i - 1;
    }
    None
}

fn owns_tools_call(plugins: &Vec<ExtensionMetadata>, ext: &str) -> (r: bool)
    ensures
        r == may_add_tools(plugins@, ext@),
{
    let ext_s = ext.to_string();
    let call = HOOK_TOOLS_CALL.to_string();
    proof { reveal_strlit("tools.call"); }
    let mut p: usize = 0;
    while p < plugins.len()
        invariant
            p <= plugins@.len(),
            ext_s@ == ext@,
            call@ == "tools.call"@,
            forall|q: int, s: int|
                0 <= q < p && plugins@[q].id@ == ext@ && 0 <= s < plugins@[q].subscriptions@.len()
                    ==> !(#[trigger] plugins@[q].subscriptions@[s].hook@ == "tools.call"@
                    && plugins@[q].subscriptions@[s].kind == HookKind::Action),
        decreases plugins@.len() - p,
    {
        if plugins[p].id == ext_s {
            let subs = &plugins[p].subscriptions;
            let mut s: usize = 0;
            while s < subs.len()
                invariant
                    p < plugins@.len(),
                    *subs == plugins@[p as int].subscriptions,
                    plugins@[p as int].id@ == ext@,
                    s <= subs@.len(),
                    call@ == "tools.call"@,
                    forall|t: int|
                        0 <= t < s ==> !((#[trigger] subs@[t]).hook@ == "tools.call"@ && subs@[t].kind
                            == HookKind::Action),
                decreases subs@.len() - s,
            {
                if subs[s].hook == call && subs[s].kind == HookKind::Action {
                    assert(plugins@[p as int].subscriptions@[s as int] == subs@[s as int]);
                    assert(plugins@[p as int].subscriptions@[s as int].hook@ == "tools.call"@);
                    return true;
                }
                s = s + 1;
            }
        }
        p = p + 1;
    }
    false
}

fn is_object_schema(parameters: &JsonValue) -> (r: bool)
    ensures
        r == (field(json_view(*parameters), "type"@) == Some(JsonView::String("object"@))),
{
    let object = "object".to_string();
    let r = match json_get(parameters, "type") {
        Some(JsonValue::String(t)) => *t == object,
        _ => false,
    };
    proof {
        reveal_strlit("type");
        reveal_strlit("object");
    }
    r
}

fn clone_definition(d: &ToolDefinition) -> (r: ToolDefinition)
    ensures
        r.name == d.name,
        r.description == d.description,
        json_view(r.parameters) == json_view(d.parameters),
{
    ToolDefinition {
        name: d.name.clone(),
        description: d.description.clone(),
        parameters: clone_json(&d.parameters),
    }
}

/// Why the draft `after` that `ext` returned is refused, with the tool id
/// counter after the check; `None` when it is accepted.
pub open spec fn draft_rejection(
    before: AgentDraft,
    after: AgentDraft,
    ext: Seq<char>,
    plugins: Seq<ExtensionMetadata>,
    counter0: u64,
) -> Option<(Seq<char>, u64)> {
    match draft_head_problem(after) {
        Some(m) => Some((m, counter0)),
        None => {
            let f = tool_fold(before.tools@, after.tools@, may_add_tools(plugins, ext), ext, counter0, after.tools@.len());
            if f.ok {
                None
            } else {
                Some((f.error, f.counter))
            }
        },
    }
}

/// `d` is the accepted form of `after`, and `counter` the tool id counter
/// after the check: `after` with each tool's assigned id and owner and with
/// the context of `before`.
pub open spec fn checked_draft(
    before: AgentDraft,
    after: AgentDraft,
    ext: Seq<char>,
    plugins: Seq<ExtensionMetadata>,
    counter0: u64,
    d: AgentDraft,
    counter: u64,
) -> bool {
    let f = tool_fold(before.tools@, after.tools@, may_add_tools(plugins, ext), ext, counter0, after.tools@.len());
    &&& counter == f.counter
    &&& d.system_prompt == after.system_prompt
    &&& d.model == after.model
    &&& (match (d.context, before.context) {
        (Some(a), Some(b)) => json_view(a) == json_view(b),
        (None, None) => true,
        _ => false,
    })
    &&& d.tools@.len() == after.tools@.len()
    &&& forall|i: int|
        0 <= i < d.tools@.len() ==> {
            &&& (#[trigger] d.tools@[i]).enabled == after.tools@[i].enabled
            &&& d.tools@[i].definition.name == after.tools@[i].definition.name
            &&& d.tools@[i].definition.description == after.tools@[i].definition.description
            &&& json_view(d.tools@[i].definition.parameters) == json_view(after.tools@[i].definition.parameters)
            &&& d.tools@[i].id matches Some(x) && x@ == f.assigned[i].0
            &&& sv_opt(d.tools@[i].owner) == f.assigned[i].1
        }
}

/// Checks a draft that the extension `current_ext` returned from
/// `agent.prepare` against the draft before it, and gives each tool its id
/// and owner: a known id keeps the owner it had; a new tool, which only the
/// owner of `tools.call` may add, gets the next `tool-N` id and `current_ext`
/// as owner. The context cannot be changed: it is taken from `before`.
/// Returns the checked draft or the reason it is invalid, and the tool id
/// counter after the check.
pub fn validate_agent_draft(
    before: &AgentDraft,
    after: AgentDraft,
    current_ext: &str,
    plugins: &Vec<ExtensionMetadata>,
    next_tool_id: u64,
) -> (r: (Result<AgentDraft, String>, u64))
    ensures
        match draft_rejection(*before, after, current_ext@, plugins@, next_tool_id) {
            Some((m, c)) => (r.0 matches Err(e) && e@ == m) && r.1 == c,
            None => r.0 matches Ok(d) && checked_draft(*before, after, current_ext@, plugins@, next_tool_id, d, r.1),
        },
{
    if is_blank(after.system_prompt.as_str()) {
        return (Err("system_prompt must not be empty".to_string()), next_tool_id);
    }
    if is_blank(after.model.name.as_str()) {
        return (Err("model name must not be empty".to_string()), next_tool_id);
    }
    if let Some(b) = after.model.temperature_bits {
        if !(b <= 0x4000_0000_0000_0000u64 || b == 0x8000_0000_0000_0000u64) {
            return (Err("temperature must be between 0 and 2".to_string()), next_tool_id);
        }
    }
    if let Some(v) = after.model.max_output_tokens {
        if v <= 0 {
            return (Err("max_output_tokens must be positive".to_string()), next_tool_id);
        }
    }
    assert(draft_head_problem(after) is None);
    let can_add = owns_tools_call(plugins, current_ext);
    let ghost fold_of = |n: nat| tool_fold(before.tools@, after.tools@, can_add, current_ext@, next_tool_id, n);
    let mut counter = next_tool_id;
    let mut ids: Vec<String> = Vec::new();
    let mut owners: Vec<Option<String>> = Vec::new();
    let mut names: Vec<String> = Vec::new();
    let tools = &after.tools;
    let mut i: usize = 0;
    while i < tools.len()
        invariant
            i <= tools@.len(),
            *tools == after.tools,
            draft_head_problem(after) is None,
            can_add == may_add_tools(plugins@, current_ext@),
            fold_of == (|n: nat| tool_fold(before.tools@, after.tools@, can_add, current_ext@, next_tool_id, n)),
            fold_of(i as nat).ok,
            fold_of(i as nat).counter == counter,
            ids@.len() == i,
            owners@.len() == i,
            ids@.map_values(|s: String| s@) == ids_of(fold_of(i as nat).assigned),
            fold_of(i as nat).assigned.len() == i,
            forall|j: int| 0 <= j < i ==> #[trigger] fold_of(i as nat).assigned[j] == (ids@[j]@, sv_opt(owners@[j])),
            names@.map_values(|s: String| s@) == names_of(tools@.subrange(0, i as int)),
        decreases tools@.len() - i,
    {
        let t = &tools[i];
        let ghost prev = fold_of(i as nat);
        let ghost prior = names_of(tools@.subrange(0, i as int));
        assert(fold_of((i + 1) as nat) == tool_step(before.tools@, tools@[i as int], can_add, current_ext@, prev, prior));
        if is_blank(t.definition.name.as_str()) {
            proof { lemma_fold_stops(before.tools@, after.tools@, can_add, current_ext@, next_tool_id, (i + 1) as nat, tools@.len()); }
            return (Err("tool name must not be empty".to_string()), counter);
        }
        if !is_object_schema(&t.definition.parameters) {
            proof { lemma_fold_stops(before.tools@, after.tools@, can_add, current_ext@, next_tool_id, (i + 1) as nat, tools@.len()); }
            return (Err("tool parameters must be a JSON schema object".to_string()), counter);
        }
        let (id, owner): (String, Option<String>) = match &t.id {
            Some(x) => match owner_of_id(&before.tools, x) {
                None => {
                    let mut m = String::new();
                    push_str(&mut m, "extension supplied unknown tool id '");
                    push_str(&mut m, x.as_str());
                    push_str(&mut m, "'");
                    proof {
                        assert(m@ =~= "extension supplied unknown tool id '"@ + x@ + "'"@);
                    }
                    proof { lemma_fold_stops(before.tools@, after.tools@, can_add, current_ext@, next_tool_id, (i + 1) as nat, tools@.len()); }
                    return (Err(m), counter);
                },
                Some(o) => (x.clone(), o),
            },
            None => {
                if !can_add {
                    let mut m = String::new();
                    push_str(&mut m, "extension '");
                    push_str(&mut m, current_ext);
                    push_str(&mut m, "' added a tool without owning tools.call");
                    proof {
                        assert(m@ =~= "extension '"@ + current_ext@ + "' added a tool without owning tools.call"@);
                    }
                    proof { lemma_fold_stops(before.tools@, after.tools@, can_add, current_ext@, next_tool_id, (i + 1) as nat, tools@.len()); }
                    return (Err(m), counter);
                }
                let mut id = String::new();
                push_str(&mut id, "tool-");
                push_u64_decimal(&mut id, counter);
                counter = if counter == u64::MAX { 0 } else { counter + 1 };
                (id, Some(current_ext.to_string()))
            },
        };
        if seq_contains_string(&ids, &id) {
            proof { lemma_fold_stops(before.tools@, after.tools@, can_add, current_ext@, next_tool_id, (i + 1) as nat, tools@.len()); }
            return (Err("duplicate tool id".to_string()), counter);
        }
        if seq_contains_string(&names, &t.definition.name) {
            proof { lemma_fold_stops(before.tools@, after.tools@, can_add, current_ext@, next_tool_id, (i + 1) as nat, tools@.len()); }
            return (Err("duplicate tool name".to_string()), counter);
        }
        let ghost old_ids = ids@;
        let ghost old_owners = owners@;
        let ghost old_names = names@;
        ids.push(id);
        owners.push(owner);
        names.push(t.definition.name.clone());
        proof {
            let cur = fold_of((i + 1) as nat);
            assert(ids@.map_values(|s: String| s@) =~= old_ids.map_values(|s: String| s@).push(ids@[i as int]@));
            assert(ids@.map_values(|s: String| s@) =~= ids_of(cur.assigned));
            assert forall|j: int| 0 <= j < i + 1 implies #[trigger] cur.assigned[j] == (ids@[j]@, sv_opt(owners@[j])) by {
                if j < i {
                    assert(cur.assigned[j] == prev.assigned[j]);
                }
            }
            assert(tools@.subrange(0, i + 1) =~= tools@.subrange(0, i as int).push(tools@[i as int]));
            assert(names@.map_values(|s: String| s@) =~= old_names.map_values(|s: String| s@).push(
                tools@[i as int].definition.name@,
            ));
            assert(names_of(tools@.subrange(0, i + 1)) =~= names_of(tools@.subrange(0, i as int)).push(
                tools@[i as int].definition.name@,
            ));
            assert(names@.map_values(|s: String| s@) =~= names_of(tools@.subrange(0, i + 1)));
        }
        i = i + 1;
    }
    assert(tools@.subrange(0, tools@.len() as int) =~= tools@);
    let mut new_tools: Vec<ToolEntry> = Vec::new();
    let mut k: usize = 0;
    while k < tools.len()
        invariant
            k <= tools@.len(),
            *tools == after.tools,
            ids@.len() == tools@.len(),
            owners@.len() == tools@.len(),
            new_tools@.len() == k,
            forall|j: int|
                0 <= j < k ==> {
                    &&& (#[trigger] new_tools@[j]).enabled == tools@[j].enabled
                    &&& new_tools@[j].definition.name == tools@[j].definition.name
                    &&& new_tools@[j].definition.description == tools@[j].definition.description
                    &&& json_view(new_tools@[j].definition.parameters) == json_view(tools@[j].definition.parameters)
                    &&& new_tools@[j].id == Some(ids@[j])
                    &&& new_tools@[j].owner == owners@[j]
                },
        decreases tools@.len() - k,
    {
        let t = &tools[k];
        new_tools.push(
            ToolEntry {
                id: Some(ids[k].clone()),
                owner: clone_opt_string(&owners[k]),
                enabled: t.enabled,
                definition: clone_definition(&t.definition),
            },
        );
        k = k + 1;
    }
    let context = match &before.context {
        Some(c) => Some(clone_json(c)),
        None => None,
    };
    let AgentDraft { system_prompt, model, tools: _, context: _ } = after;
    (Ok(AgentDraft { system_prompt, model, tools: new_tools, context }), counter)
}

/// An extension's answer to `agent.prepare`, with its payload read as a draft
/// (or the reason it could not be read as one).
#[derive(Debug)]
pub struct DraftAnswer {
    pub action: HookAction,
    pub draft: Option<Result<AgentDraft, String>>,
    pub reason: Option<String>,
}

/// One step of the `agent.prepare` chain: the draft after the subscriber of
/// extension `ext_id` answered, the flow control when the chain ends early,
/// and the tool id counter.
pub fn draft_step(
    hook: &str,
    ext_id: &str,
    failure: HookFailurePolicy,
    plugins: &Vec<ExtensionMetadata>,
    before: AgentDraft,
    response: Result<DraftAnswer, String>,
    next_tool_id: u64,
) -> (r: (Result<(AgentDraft, Option<FlowControl>), AgentError>, u64))
    ensures
        match response {
            Err(e) => r.1 == next_tool_id && if failure == HookFailurePolicy::Ignore {
                r.0 == Ok::<(AgentDraft, Option<FlowControl>), AgentError>((before, None))
            } else {
                r.0 matches Err(AgentError::ToolError(m)) && m@ == ext_error_text(ext_id@, hook@, e@)
            },
            Ok(res) => match res.action {
                HookAction::Continue => match res.draft {
                    None => r.1 == next_tool_id && (r.0 matches Err(AgentError::ToolError(m)) && m@
                        == ext_error_text(ext_id@, hook@, "continue requires payload"@)),
                    Some(Err(t)) => r.1 == next_tool_id && if failure == HookFailurePolicy::Ignore {
                        r.0 == Ok::<(AgentDraft, Option<FlowControl>), AgentError>((before, None))
                    } else {
                        r.0 matches Err(AgentError::ToolError(m)) && m@ == ext_error_text(ext_id@, hook@, t@)
                    },
                    Some(Ok(c)) => match draft_rejection(before, c, ext_id@, plugins@, next_tool_id) {
                        Some((m, cc)) => r.1 == cc && if failure == HookFailurePolicy::Ignore {
                            r.0 == Ok::<(AgentDraft, Option<FlowControl>), AgentError>((before, None))
                        } else {
                            r.0 matches Err(AgentError::ToolError(e)) && e@ == ext_error_text(ext_id@, hook@, m)
                        },
                        None => r.0 matches Ok((d, None)) && checked_draft(
                            before,
                            c,
                            ext_id@,
                            plugins@,
                            next_tool_id,
                            d,
                            r.1,
                        ),
                    },
                },
                HookAction::Unchanged => r.1 == next_tool_id && r.0 == Ok::<
                    (AgentDraft, Option<FlowControl>),
                    AgentError,
                >((before, None)),
                HookAction::Reject => r.1 == next_tool_id && (r.0 matches Err(
                    AgentError::HookRejected { hook: h, reason: x },
                ) && h@ == hook@ && x@ == (match res.reason {
                    Some(x) => x@,
                    None => ext_id@,
                })),
                HookAction::Skip => r.1 == next_tool_id && r.0 == Ok::<
                    (AgentDraft, Option<FlowControl>),
                    AgentError,
                >((before, Some(FlowControl::Skip))),
                HookAction::Stop => r.1 == next_tool_id && r.0 == Ok::<
                    (AgentDraft, Option<FlowControl>),
                    AgentError,
                >((before, Some(FlowControl::Stop))),
            },
        },
{
    let res = match response {
        Err(e) => {
            if failure == HookFailurePolicy::Ignore {
                return (Ok((before, None)), next_tool_id);
            }
            return (Err(extension_error(ext_id, hook, e.as_str())), next_tool_id);
        },
        Ok(res) => res,
    };
    match res.action {
        HookAction::Continue => match res.draft {
            None => (Err(extension_error(ext_id, hook, "continue requires payload")), next_tool_id),
            Some(Err(t)) => {
                if failure == HookFailurePolicy::Ignore {
                    (Ok((before, None)), next_tool_id)
                } else {
                    (Err(extension_error(ext_id, hook, t.as_str())), next_tool_id)
                }
            },
            Some(Ok(c)) => {
                let (checked, counter) = validate_agent_draft(&before, c, ext_id, plugins, next_tool_id);
                match checked {
                    Ok(d) => (Ok((d, None)), counter),
                    Err(m) => {
                        if failure == HookFailurePolicy::Ignore {
                            (Ok((before, None)), counter)
                        } else {
                            (Err(extension_error(ext_id, hook, m.as_str())), counter)
                        }
                    },
                }
            },
        },
        HookAction::Unchanged => (Ok((before, None)), next_tool_id),
        HookAction::Reject => {
            let reason = match res.reason {
                Some(r) => r,
                None => ext_id.to_string(),
            };
            (Err(AgentError::HookRejected { hook: hook.to_string(), reason }), next_tool_id)
        },
        HookAction::Skip => (Ok((before, Some(FlowControl::Skip))), next_tool_id),
        HookAction::Stop => (Ok((before, Some(FlowControl::Stop))), next_tool_id),
    }
}

proof fn lemma_step_ok(
    before: Seq<ToolEntry>,
    t: ToolEntry,
    can_add: bool,
    ext: Seq<char>,
    prev: ToolFold,
    prior: Seq<Seq<char>>,
)
    requires
        tool_step(before, t, can_add, ext, prev, prior).ok,
    ensures
        ({
            let f = tool_step(before, t, can_add, ext, prev, prior);
            &&& f.assigned.len() == prev.assigned.len() + 1
            &&& forall|i: int| 0 <= i < prev.assigned.len() ==> f.assigned[i] == prev.assigned[i]
            &&& !ids_of(prev.assigned).contains(f.assigned.last().0)
            &&& !prior.contains(t.definition.name@)
        }),
{
}

/// A passed check gave `n` tools distinct ids, and their names are distinct.
pub open spec fn fold_unique(f: ToolFold, after: Seq<ToolEntry>, n: nat) -> bool {
    f.ok ==> (f.assigned.len() == n && ids_distinct(f.assigned) && names_distinct(after, n))
}

/// No two assignments share an id.
pub open spec fn ids_distinct(a: Seq<(Seq<char>, Option<Seq<char>>)>) -> bool {
    forall|i: int, j: int| 0 <= i < j < a.len() ==> #[trigger] a[i].0 != #[trigger] a[j].0
}

/// No two of the first `n` tools share a name.
pub open spec fn names_distinct(tools: Seq<ToolEntry>, n: nat) -> bool {
    forall|i: int, j: int|
        0 <= i < j < n ==> (#[trigger] tools[i]).definition.name@ != (#[trigger] tools[j]).definition.name@
}

proof fn lemma_fold_unique(
    before: Seq<ToolEntry>,
    after: Seq<ToolEntry>,
    can_add: bool,
    ext: Seq<char>,
    c0: u64,
    n: nat,
)
    requires
        n <= after.len(),
    ensures
        fold_unique(tool_fold(before, after, can_add, ext, c0, n), after, n),
    decreases n,
{
    if n > 0 {
        lemma_fold_unique(before, after, can_add, ext, c0, (n - 1) as nat);
        let prev = tool_fold(before, after, can_add, ext, c0, (n - 1) as nat);
        let f = tool_fold(before, after, can_add, ext, c0, n);
        if f.ok {
            assert(prev.ok);
            let prior = names_of(after.subrange(0, n - 1));
            assert(f == tool_step(before, after[n - 1], can_add, ext, prev, prior));
            lemma_step_ok(before, after[n - 1], can_add, ext, prev, prior);
            assert(prev.assigned.len() == n - 1);
            assert(f.assigned.len() == n);
            assert(ids_distinct(f.assigned)) by {
                assert forall|i: int, j: int| 0 <= i < j < f.assigned.len() implies #[trigger] f.assigned[i].0
                    != #[trigger] f.assigned[j].0 by {
                    if j == n - 1 {
                        assert(f.assigned[i] == prev.assigned[i]);
                        assert(ids_of(prev.assigned)[i] == prev.assigned[i].0);
                        assert(f.assigned[j] == f.assigned.last());
                    } else {
                        assert(f.assigned[i] == prev.assigned[i]);
                        assert(f.assigned[j] == prev.assigned[j]);
                    }
                }
            }
            assert(names_distinct(after, n)) by {
                assert forall|i: int, j: int| 0 <= i < j < n implies (#[trigger] after[i]).definition.name@
                    != (#[trigger] after[j]).definition.name@ by {
                    if j == n - 1 {
                        assert(prior[i] == after[i].definition.name@);
                    }
                }
            }
            assert(fold_unique(f, after, n));
        }
    }
}

/// An accepted draft names each tool once and gives each tool its own id.
pub proof fn lemma_accepted_draft_tools_distinct(
    before: AgentDraft,
    after: AgentDraft,
    ext: Seq<char>,
    plugins: Seq<ExtensionMetadata>,
    counter0: u64,
    d: AgentDraft,
    counter: u64,
)
    requires
        draft_rejection(before, after, ext, plugins, counter0) is None,
        checked_draft(before, after, ext, plugins, counter0, d, counter),
    ensures
        forall|i: int, j: int|
            0 <= i < j < d.tools@.len() ==> d.tools@[i].id->Some_0@ != d.tools@[j].id->Some_0@
                && d.tools@[i].definition.name@ != d.tools@[j].definition.name@,
{
    lemma_fold_unique(
        before.tools@,
        after.tools@,
        may_add_tools(plugins, ext),
        ext,
        counter0,
        after.tools@.len(),
    );
    let f = tool_fold(before.tools@, after.tools@, may_add_tools(plugins, ext), ext, counter0, after.tools@.len());
    assert forall|i: int, j: int|
        0 <= i < j < d.tools@.len() implies d.tools@[i].id->Some_0@ != d.tools@[j].id->Some_0@
            && d.tools@[i].definition.name@ != d.tools@[j].definition.name@ by {
        assert(d.tools@[i].id matches Some(x) && x@ == f.assigned[i].0);
        assert(d.tools@[j].id matches Some(x) && x@ == f.assigned[j].0);
    }
}


/// Whether an extension manager has shut its extensions down.
#[derive(Debug, Clone, Copy, PartialEq, Eq, Structural)]
pub enum ShutdownState {
    Running,
    ShutDown,
}

/// What a request to shut down does.
#[derive(Debug, Clone, Copy, PartialEq, Eq, Structural)]
pub enum ShutdownAction {
    /// Shut every extension down, each even when another fails.
    ShutDownAll,
    /// Nothing: the extensions are shut down already.
    Nothing,
}

pub open spec fn shutdown_after(state: ShutdownState) -> (ShutdownState, ShutdownAction) {
    match state {
        ShutdownState::Running => (ShutdownState::ShutDown, ShutdownAction::ShutDownAll),
        ShutdownState::ShutDown => (ShutdownState::ShutDown, ShutdownAction::Nothing),
    }
}

/// The state after a request to shut down, and what the request does.
pub fn shutdown_step(state: ShutdownState) -> (r: (ShutdownState, ShutdownAction))
    ensures
        r == shutdown_after(state),
{
    match state {
        ShutdownState::Running => (ShutdownState::ShutDown, ShutdownAction::ShutDownAll),
        ShutdownState::ShutDown => (ShutdownState::ShutDown, ShutdownAction::Nothing),
    }
}

/// Extensions are shut down at most once: after any request to shut down,
/// a further request does nothing.
pub proof fn lemma_shutdown_once(state: ShutdownState)
    ensures
        shutdown_after(shutdown_after(state).0).1 == ShutdownAction::Nothing,
        shutdown_after(shutdown_after(state).0).0 == ShutdownState::ShutDown,
{
}

/// The outcome of shutting every extension down: the first failure, in the
/// extensions' order, or success.
pub fn shutdown_outcome(results: Vec<Result<(), AgentError>>) -> (r: Result<(), AgentError>)
    ensures
        r is Ok <==> forall|i: int| 0 <= i < results@.len() ==> (#[trigger] results@[i]) is Ok,
        r is Err ==> exists|i: int|
            0 <= i < results@.len() && r == results@[i] && forall|j: int| 0 <= j < i ==> (#[trigger] results@[j]) is Ok,
{
    let ghost all = results@;
    let mut rest = results;
    let mut i: usize = 0;
    let n = rest.len();
    while rest.len() > 0
        invariant
            all == results@,
            n == all.len(),
            i + rest@.len() == all.len(),
            rest@ == all.subrange(i as int, all.len() as int),
            forall|j: int| 0 <= j < i ==> (#[trigger] all[j]) is Ok,
        decreases rest@.len(),
    {
        let r = rest.remove(0);
        assert(r == all[i as int]);
        if r.is_err() {
            assert(all[i as int] is Err);
            return r;
        }
        i = i + 1;
        assert(rest@ =~= all.subrange(i as int, all.len() as int));
    }
    Ok(())
}


/// How an answer to a transform hook moves the chain, for callers that check
/// payloads themselves or not: an answer ends the chain exactly when its
/// action is skip or stop, and then with the flow control of the same name;
/// unchanged keeps the payload; continue replaces it with the answer's
/// payload when that passes the caller's check, and fails without one;
/// reject refuses with the answer's reason (the extension's id when it
/// gives none); a failure to answer never ends it.
pub proof fn lemma_transform_answer_moves(
    hook: Seq<char>,
    ext: Seq<char>,
    failure: HookFailurePolicy,
    rule: PayloadRule,
    response: Result<HookResult, String>,
    problem: Option<Seq<char>>,
)
    ensures
        forall|c: FlowControl|
            (transform_move(hook, ext, failure, rule, response) == ChainMove::End(c) <==> (response matches Ok(res) && (
            (res.action == HookAction::Skip && c == FlowControl::Skip) || (res.action == HookAction::Stop && c
                == FlowControl::Stop)))),
        forall|c: FlowControl|
            (checked_move(hook, ext, failure, response, problem) == ChainMove::End(c) <==> (response matches Ok(res)
                && ((res.action == HookAction::Skip && c == FlowControl::Skip) || (res.action == HookAction::Stop
                && c == FlowControl::Stop)))),
        response is Ok && response->Ok_0.action == HookAction::Continue && response->Ok_0.payload is Some
            && problem is None ==> checked_move(hook, ext, failure, response, problem) == ChainMove::Replace,
        response is Ok && response->Ok_0.action == HookAction::Continue && response->Ok_0.payload is None
            ==> checked_move(hook, ext, failure, response, problem) is Fail && transform_move(
            hook,
            ext,
            failure,
            rule,
            response,
        ) is Fail,
        response matches Ok(res) && res.action == HookAction::Unchanged ==> transform_move(
            hook,
            ext,
            failure,
            rule,
            response,
        ) == ChainMove::Keep && checked_move(hook, ext, failure, response, problem) == ChainMove::Keep,
        response is Ok && response->Ok_0.action == HookAction::Reject ==> ({
            let reason = match response->Ok_0.reason {
                Some(r) => r@,
                None => ext,
            };
            transform_move(hook, ext, failure, rule, response) == ChainMove::Rejected(reason) && checked_move(
                hook,
                ext,
                failure,
                response,
                problem,
            ) == ChainMove::Rejected(reason)
        }),
{
}

} // verus!
