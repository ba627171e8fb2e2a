use vstd::prelude::*;
use crate::config::ModelReasoningSettings;
use crate::context::ContextSummaryMode;
use crate::json::{
    clone_json, field, json_get, json_view, json_views, lemma_json_views_index, lemma_member_views_index,
    lemma_member_views_prefix, member_views, merge_json, merge_view, number_view, JsonNumber, JsonValue, JsonView,
    NumberView,
};
use crate::request::{ReasoningEffort, ReasoningSummary};
use crate::error::AgentError;
use crate::ext_config::{
    project_names, apply_project_overrides, check_global_names, check_project_items, first_repeat, global_dup_text, global_names,
    item_names, item_view, item_views, named_before, overridden, project_dup_text, project_entry_valid,
    project_unknown_text, project_view, project_view_names, project_views, ExtensionConfigItem, ItemView,
    ProjectExtensionItem, ProjectView,
};
use crate::json_text::{parse_toml_document, toml_document};
use crate::config_revision::mode_name;
use crate::text::push_str;

verus! {

/// The `[model]` block of a configuration file, with the temperature as the
/// number that the file writes.
#[derive(Debug)]
pub struct ModelBlock {
    pub name: Option<String>,
    pub temperature: Option<JsonNumber>,
    pub max_output_tokens: Option<i32>,
    pub reasoning: Option<ModelReasoningSettings>,
}

/// A `[model]` block over mathematical values.
pub struct ModelBlockView {
    pub name: Option<Seq<char>>,
    pub temperature: Option<NumberView>,
    pub max_output_tokens: Option<i32>,
    pub reasoning: Option<ModelReasoningSettings>,
}

pub open spec fn model_block_view(b: ModelBlock) -> ModelBlockView {
    ModelBlockView {
        name: match b.name {
            Some(n) => Some(n@),
            None => None,
        },
        temperature: match b.temperature {
            Some(t) => Some(number_view(t)),
            None => None,
        },
        max_output_tokens: b.max_output_tokens,
        reasoning: b.reasoning,
    }
}

/// A field as serde reads it into an `Option`: absent or null is nothing.
pub open spec fn present(f: Option<JsonView>) -> Option<JsonView> {
    match f {
        Some(v) => if v is Null {
            None
        } else {
            Some(v)
        },
        None => None,
    }
}

/// The reasoning effort that a configuration file names `s`.
pub open spec fn effort_named(s: Seq<char>) -> Option<ReasoningEffort> {
    if s == "none"@ {
        Some(ReasoningEffort::Disabled)
    } else if s == "low"@ {
        Some(ReasoningEffort::Low)
    } else if s == "medium"@ {
        Some(ReasoningEffort::Medium)
    } else if s == "high"@ {
        Some(ReasoningEffort::High)
    } else if s == "xhigh"@ {
        Some(ReasoningEffort::Xhigh)
    } else {
        None
    }
}

/// The reasoning summary that a configuration file names `s`.
pub open spec fn summary_named(s: Seq<char>) -> Option<ReasoningSummary> {
    if s == "concise"@ {
        Some(ReasoningSummary::Concise)
    } else if s == "detailed"@ {
        Some(ReasoningSummary::Detailed)
    } else if s == "auto"@ {
        Some(ReasoningSummary::Auto)
    } else {
        None
    }
}

/// The context summary mode that a configuration file names `s`.
pub open spec fn summary_mode_named(s: Seq<char>) -> Option<ContextSummaryMode> {
    if s == "on"@ {
        Some(ContextSummaryMode::On)
    } else if s == "off"@ {
        Some(ContextSummaryMode::Off)
    } else {
        None
    }
}

/// The name under which the model API writes a reasoning effort.
pub open spec fn effort_name(e: ReasoningEffort) -> Seq<char> {
    match e {
        ReasoningEffort::Disabled => "none"@,
        ReasoningEffort::Low => "low"@,
        ReasoningEffort::Medium => "medium"@,
        ReasoningEffort::High => "high"@,
        ReasoningEffort::Xhigh => "xhigh"@,
    }
}

/// The name under which the model API writes a reasoning summary.
pub open spec fn summary_name(s: ReasoningSummary) -> Seq<char> {
    match s {
        ReasoningSummary::Concise => "concise"@,
        ReasoningSummary::Detailed => "detailed"@,
        ReasoningSummary::Auto => "auto"@,
    }
}

/// A configuration file names each reasoning effort, reasoning summary and
/// context summary mode by the name it is written under, and no other text
/// names one: reading `effort = "<name>"` gives the effort of that name, and
/// distinct names give distinct values.
pub proof fn lemma_config_names(t: Seq<char>, e: ReasoningEffort, s: ReasoningSummary, m: ContextSummaryMode)
    ensures
        effort_named(effort_name(e)) == Some(e),
        effort_named(t) == Some(e) ==> t == effort_name(e),
        read_effort(Some(JsonView::String(t))) == Some(Some(e)) <==> t == effort_name(e),
        summary_named(summary_name(s)) == Some(s),
        summary_named(t) == Some(s) ==> t == summary_name(s),
        read_summary(Some(JsonView::String(t))) == Some(Some(s)) <==> t == summary_name(s),
        summary_mode_named(mode_name(m)) == Some(m),
        summary_mode_named(t) == Some(m) ==> t == mode_name(m),
        read_summary_mode(Some(JsonView::String(t))) == Some(Some(m)) <==> t == mode_name(m),
{
    reveal_strlit("none");
    reveal_strlit("low");
    reveal_strlit("medium");
    reveal_strlit("high");
    reveal_strlit("xhigh");
    reveal_strlit("concise");
    reveal_strlit("detailed");
    reveal_strlit("auto");
    reveal_strlit("on");
    reveal_strlit("off");
    assert("none"@[0] != "high"@[0]);
    assert("none"@[0] != "auto"@[0]);
    assert("high"@[0] != "auto"@[0]);
    assert("none"@ != "high"@);
    assert("low"@.len() == 3 && "off"@.len() == 3);
    assert("xhigh"@.len() == 5 && "none"@.len() == 4 && "medium"@.len() == 6 && "high"@.len() == 4);
    assert("auto"@.len() == 4 && "concise"@.len() == 7 && "detailed"@.len() == 8);
    assert("xhigh"@ != "none"@ && "xhigh"@ != "low"@ && "xhigh"@ != "medium"@ && "xhigh"@ != "high"@);
    assert("auto"@ != "concise"@ && "auto"@ != "detailed"@);
    match e {
        ReasoningEffort::Disabled => assert(effort_named("none"@) == Some(ReasoningEffort::Disabled)),
        ReasoningEffort::Low => assert(effort_named("low"@) == Some(ReasoningEffort::Low)),
        ReasoningEffort::Medium => assert(effort_named("medium"@) == Some(ReasoningEffort::Medium)),
        ReasoningEffort::High => assert(effort_named("high"@) == Some(ReasoningEffort::High)),
        ReasoningEffort::Xhigh => assert(effort_named("xhigh"@) == Some(ReasoningEffort::Xhigh)),
    }
    match s {
        ReasoningSummary::Concise => assert(summary_named("concise"@) == Some(ReasoningSummary::Concise)),
        ReasoningSummary::Detailed => assert(summary_named("detailed"@) == Some(ReasoningSummary::Detailed)),
        ReasoningSummary::Auto => assert(summary_named("auto"@) == Some(ReasoningSummary::Auto)),
    }
    match m {
        ContextSummaryMode::On => assert(summary_mode_named("on"@) == Some(ContextSummaryMode::On)),
        ContextSummaryMode::Off => assert(summary_mode_named("off"@) == Some(ContextSummaryMode::Off)),
    }
}

// Each reader below gives `None` where the document cannot be read, and
// `Some` of what was read otherwise.

pub open spec fn read_effort(f: Option<JsonView>) -> Option<Option<ReasoningEffort>> {
    match present(f) {
        None => Some(None),
        Some(JsonView::String(s)) => match effort_named(s) {
            Some(e) => Some(Some(e)),
            None => None,
        },
        Some(_) => None,
    }
}

pub open spec fn read_summary(f: Option<JsonView>) -> Option<Option<ReasoningSummary>> {
    match present(f) {
        None => Some(None),
        Some(JsonView::String(s)) => match summary_named(s) {
            Some(e) => Some(Some(e)),
            None => None,
        },
        Some(_) => None,
    }
}

pub open spec fn read_summary_mode(f: Option<JsonView>) -> Option<Option<ContextSummaryMode>> {
    match present(f) {
        None => Some(None),
        Some(JsonView::String(s)) => match summary_mode_named(s) {
            Some(e) => Some(Some(e)),
            None => None,
        },
        Some(_) => None,
    }
}

/// The `[model.reasoning]` block; unknown keys are ignored.
pub open spec fn read_reasoning(f: Option<JsonView>) -> Option<Option<ModelReasoningSettings>> {
    match present(f) {
        None => Some(None),
        Some(v) => if v is Object && read_effort(field(v, "effort"@)) is Some && read_summary(field(v, "summary"@)) is Some
            && read_summary_mode(field(v, "context_summary"@)) is Some {
            Some(
                Some(
                    ModelReasoningSettings {
                        effort: read_effort(field(v, "effort"@))->Some_0,
                        summary: read_summary(field(v, "summary"@))->Some_0,
                        context_summary: read_summary_mode(field(v, "context_summary"@))->Some_0,
                    },
                ),
            )
        } else {
            None
        },
    }
}

pub open spec fn read_text(f: Option<JsonView>) -> Option<Option<Seq<char>>> {
    match present(f) {
        None => Some(None),
        Some(JsonView::String(s)) => Some(Some(s)),
        Some(_) => None,
    }
}

/// A temperature: any number.
pub open spec fn read_number(f: Option<JsonView>) -> Option<Option<NumberView>> {
    match present(f) {
        None => Some(None),
        Some(JsonView::Number(n)) => Some(Some(n)),
        Some(_) => None,
    }
}

/// A token limit: an integer in the range of `i32`.
pub open spec fn read_i32(f: Option<JsonView>) -> Option<Option<i32>> {
    match present(f) {
        None => Some(None),
        Some(JsonView::Number(NumberView::PosInt(u))) => if u <= i32::MAX {
            Some(Some(u as i32))
        } else {
            None
        },
        Some(JsonView::Number(NumberView::NegInt(i))) => if i32::MIN <= i <= i32::MAX {
            Some(Some(i as i32))
        } else {
            None
        },
        Some(_) => None,
    }
}

/// The `[model]` block; unknown keys are ignored.
pub open spec fn read_model(f: Option<JsonView>) -> Option<Option<ModelBlockView>> {
    match present(f) {
        None => Some(None),
        Some(v) => if v is Object && read_text(field(v, "name"@)) is Some && read_number(field(v, "temperature"@)) is Some
            && read_i32(field(v, "max_output_tokens"@)) is Some && read_reasoning(field(v, "reasoning"@)) is Some {
            Some(
                Some(
                    ModelBlockView {
                        name: read_text(field(v, "name"@))->Some_0,
                        temperature: read_number(field(v, "temperature"@))->Some_0,
                        max_output_tokens: read_i32(field(v, "max_output_tokens"@))->Some_0,
                        reasoning: read_reasoning(field(v, "reasoning"@))->Some_0,
                    },
                ),
            )
        } else {
            None
        },
    }
}

/// A `[model]` block reads each setting from the key of its name: `name`
/// gives the name, `temperature` the temperature, `max_output_tokens` the
/// token limit and `reasoning` the reasoning block; a key that is absent
/// leaves its setting unset.
pub proof fn lemma_model_keys(v: JsonView)
    ensures
        read_model(Some(v)) matches Some(Some(b)) ==> {
            &&& (field(v, "name"@) matches Some(JsonView::String(n)) ==> b.name == Some(n))
            &&& (field(v, "name"@) is None ==> b.name is None)
            &&& (field(v, "temperature"@) matches Some(JsonView::Number(n)) ==> b.temperature == Some(n))
            &&& (field(v, "temperature"@) is None ==> b.temperature is None)
            &&& (field(v, "max_output_tokens"@) matches Some(JsonView::Number(NumberView::PosInt(u))) ==> b.max_output_tokens
                == Some(u as i32) && u <= i32::MAX)
            &&& (field(v, "max_output_tokens"@) is None ==> b.max_output_tokens is None)
            &&& (field(v, "reasoning"@) is None ==> b.reasoning is None)
            &&& (field(v, "reasoning"@) is Some && field(v, "reasoning"@)->Some_0 is Object ==> ({
                let r = field(v, "reasoning"@)->Some_0;
                &&& b.reasoning is Some
                &&& Some(b.reasoning->Some_0.effort) == read_effort(field(r, "effort"@))
                &&& Some(b.reasoning->Some_0.summary) == read_summary(field(r, "summary"@))
                &&& Some(b.reasoning->Some_0.context_summary) == read_summary_mode(field(r, "context_summary"@))
            }))
        },
{
}

/// An entry of the global `extensions` list takes its name from `name`, its
/// path from `path`, its flag from `enabled` (true when absent) and its
/// settings from `config` (null when absent).
pub proof fn lemma_global_item_keys(e: JsonView)
    ensures
        read_global_item(e) matches Some(iv) ==> {
            &&& field(e, "name"@) == Some(JsonView::String(iv.name))
            &&& field(e, "path"@) == Some(JsonView::String(iv.path))
            &&& (field(e, "enabled"@) is None ==> iv.enabled)
            &&& (field(e, "enabled"@) matches Some(JsonView::Bool(b)) ==> iv.enabled == b)
            &&& (field(e, "config"@) matches Some(c) ==> iv.config == c)
            &&& (field(e, "config"@) is None ==> iv.config == JsonView::Null)
        },
{
}

fn text_is(s: &String, lit: &str) -> (r: bool)
    ensures
        r == (s@ == lit@),
{
    let l = lit.to_string();
    *s == l
}

/// The field `key` of `v` where it is present and not null.
fn get_present<'a>(v: &'a JsonValue, key: &str) -> (r: Option<&'a JsonValue>)
    ensures
        r matches Some(x) ==> present(field(json_view(*v), key@)) == Some(json_view(*x)),
        r is None ==> present(field(json_view(*v), key@)) is None,
{
    match json_get(v, key) {
        Some(x) => match x {
            JsonValue::Null => None,
            _ => Some(x),
        },
        None => None,
    }
}

fn effort_field(v: &JsonValue) -> (r: Option<Option<ReasoningEffort>>)
    ensures
        r == read_effort(field(json_view(*v), "effort"@)),
{
    match get_present(v, "effort") {
        None => Some(None),
        Some(JsonValue::String(s)) => {
            if text_is(s, "none") {
                Some(Some(ReasoningEffort::Disabled))
            } else if text_is(s, "low") {
                Some(Some(ReasoningEffort::Low))
            } else if text_is(s, "medium") {
                Some(Some(ReasoningEffort::Medium))
            } else if text_is(s, "high") {
                Some(Some(ReasoningEffort::High))
            } else if text_is(s, "xhigh") {
                Some(Some(ReasoningEffort::Xhigh))
            } else {
                None
            }
        },
        Some(_) => None,
    }
}

fn summary_field(v: &JsonValue) -> (r: Option<Option<ReasoningSummary>>)
    ensures
        r == read_summary(field(json_view(*v), "summary"@)),
{
    match get_present(v, "summary") {
        None => Some(None),
        Some(JsonValue::String(s)) => {
            if text_is(s, "concise") {
                Some(Some(ReasoningSummary::Concise))
            } else if text_is(s, "detailed") {
                Some(Some(ReasoningSummary::Detailed))
            } else if text_is(s, "auto") {
                Some(Some(ReasoningSummary::Auto))
            } else {
                None
            }
        },
        Some(_) => None,
    }
}

fn summary_mode_field(v: &JsonValue) -> (r: Option<Option<ContextSummaryMode>>)
    ensures
        r == read_summary_mode(field(json_view(*v), "context_summary"@)),
{
    match get_present(v, "context_summary") {
        None => Some(None),
        Some(JsonValue::String(s)) => {
            if text_is(s, "on") {
                Some(Some(ContextSummaryMode::On))
            } else if text_is(s, "off") {
                Some(Some(ContextSummaryMode::Off))
            } else {
                None
            }
        },
        Some(_) => None,
    }
}

fn reasoning_field(v: &JsonValue) -> (r: Option<Option<ModelReasoningSettings>>)
    ensures
        r == read_reasoning(field(json_view(*v), "reasoning"@)),
{
    match get_present(v, "reasoning") {
        None => Some(None),
        Some(x) => {
            match x {
                JsonValue::Object(_) => {},
                _ => return None,
            }
            let effort = effort_field(x);
            let summary = summary_field(x);
            let mode = summary_mode_field(x);
            match (effort, summary, mode) {
                (Some(e), Some(s), Some(m)) => Some(
                    Some(ModelReasoningSettings { effort: e, summary: s, context_summary: m }),
                ),
                _ => None,
            }
        },
    }
}

fn text_field(v: &JsonValue, key: &str) -> (r: Option<Option<String>>)
    ensures
        match r {
            Some(Some(s)) => read_text(field(json_view(*v), key@)) == Some(Some(s@)),
            Some(None) => read_text(field(json_view(*v), key@)) == Some(None::<Seq<char>>),
            None => read_text(field(json_view(*v), key@)) is None,
        },
{
    match get_present(v, key) {
        None => Some(None),
        Some(JsonValue::String(s)) => Some(Some(s.clone())),
        Some(_) => None,
    }
}

fn number_field(v: &JsonValue, key: &str) -> (r: Option<Option<JsonNumber>>)
    ensures
        match r {
            Some(Some(n)) => read_number(field(json_view(*v), key@)) == Some(Some(number_view(n))),
            Some(None) => read_number(field(json_view(*v), key@)) == Some(None::<NumberView>),
            None => read_number(field(json_view(*v), key@)) is None,
        },
{
    match get_present(v, key) {
        None => Some(None),
        Some(JsonValue::Number(n)) => Some(Some(n.clone())),
        Some(_) => None,
    }
}

fn i32_field(v: &JsonValue, key: &str) -> (r: Option<Option<i32>>)
    ensures
        r == read_i32(field(json_view(*v), key@)),
{
    match get_present(v, key) {
        None => Some(None),
        Some(JsonValue::Number(JsonNumber::PosInt(u))) => {
            if *u <= 2147483647u64 {
                Some(Some(*u as i32))
            } else {
                None
            }
        },
        Some(JsonValue::Number(JsonNumber::NegInt(i))) => {
            if -2147483648i64 <= *i && *i <= 2147483647i64 {
                Some(Some(*i as i32))
            } else {
                None
            }
        },
        Some(_) => None,
    }
}

/// Reads the `model` field of a configuration document.
pub fn model_field(doc: &JsonValue) -> (r: Option<Option<ModelBlock>>)
    ensures
        match r {
            Some(Some(b)) => read_model(field(json_view(*doc), "model"@)) == Some(Some(model_block_view(b))),
            Some(None) => read_model(field(json_view(*doc), "model"@)) == Some(None::<ModelBlockView>),
            None => read_model(field(json_view(*doc), "model"@)) is None,
        },
{
    match get_present(doc, "model") {
        None => Some(None),
        Some(v) => {
            match v {
                JsonValue::Object(_) => {},
                _ => return None,
            }
            let name = text_field(v, "name");
            let temperature = number_field(v, "temperature");
            let tokens = i32_field(v, "max_output_tokens");
            let reasoning = reasoning_field(v);
            match (name, temperature, tokens, reasoning) {
                (Some(n), Some(t), Some(m), Some(rs)) => Some(
                    Some(ModelBlock { name: n, temperature: t, max_output_tokens: m, reasoning: rs }),
                ),
                _ => None,
            }
        },
    }
}


/// A required text field.
pub open spec fn required_text(f: Option<JsonView>) -> Option<Seq<char>> {
    match f {
        Some(JsonView::String(s)) => Some(s),
        _ => None,
    }
}

/// A global entry's `enabled`: true when absent.
pub open spec fn read_enabled(f: Option<JsonView>) -> Option<bool> {
    match f {
        None => Some(true),
        Some(JsonView::Bool(b)) => Some(b),
        Some(_) => None,
    }
}

/// An entry of the global `extensions` list; unknown keys are ignored and a
/// missing `config` is null.
pub open spec fn read_global_item(e: JsonView) -> Option<ItemView> {
    if e is Object && required_text(field(e, "name"@)) is Some && required_text(field(e, "path"@)) is Some
        && read_enabled(field(e, "enabled"@)) is Some {
        Some(
            ItemView {
                name: required_text(field(e, "name"@))->Some_0,
                path: required_text(field(e, "path"@))->Some_0,
                enabled: read_enabled(field(e, "enabled"@))->Some_0,
                config: match field(e, "config"@) {
                    Some(c) => c,
                    None => JsonView::Null,
                },
            },
        )
    } else {
        None
    }
}

/// The global `extensions` list: empty when absent.
pub open spec fn read_global_items(doc: JsonView) -> Option<Seq<ItemView>> {
    match field(doc, "extensions"@) {
        None => Some(Seq::empty()),
        Some(JsonView::Array(a)) => if forall|i: int| 0 <= i < a.len() ==> (#[trigger] read_global_item(a[i])) is Some {
            Some(a.map_values(|e: JsonView| read_global_item(e)->Some_0))
        } else {
            None
        },
        Some(_) => None,
    }
}

/// The global configuration: its extension entries and its `[model]` block.
#[verifier::opaque]
pub open spec fn read_global(doc: JsonView) -> Option<(Seq<ItemView>, Option<ModelBlockView>)> {
    if doc is Object && read_global_items(doc) is Some && read_model(field(doc, "model"@)) is Some {
        Some((read_global_items(doc)->Some_0, read_model(field(doc, "model"@))->Some_0))
    } else {
        None
    }
}

/// Why the global configuration cannot be read.
#[verifier::opaque]
pub open spec fn global_problem(doc: JsonView) -> Seq<char> {
    if !(doc is Object) {
        "expected a table"@
    } else if read_global_items(doc) is None {
        "invalid `extensions`"@
    } else {
        "invalid `model`"@
    }
}

/// A project override's `enabled`: nothing when absent.
pub open spec fn read_flag(f: Option<JsonView>) -> Option<Option<bool>> {
    match present(f) {
        None => Some(None),
        Some(JsonView::Bool(b)) => Some(Some(b)),
        Some(_) => None,
    }
}

/// The keys that a project override may have.
pub open spec fn project_key(k: Seq<char>) -> bool {
    k == "name"@ || k == "enabled"@ || k == "config"@
}

/// An entry of a project's `extensions` list: no keys but `name`,
/// `enabled` and `config`.
pub open spec fn read_project_item(e: JsonView) -> Option<ProjectView> {
    match e {
        JsonView::Object(m) => if (forall|i: int| 0 <= i < m.len() ==> project_key(#[trigger] m[i].0)) && required_text(
            field(e, "name"@),
        ) is Some && read_flag(field(e, "enabled"@)) is Some {
            Some(
                ProjectView {
                    name: required_text(field(e, "name"@))->Some_0,
                    enabled: read_flag(field(e, "enabled"@))->Some_0,
                    config: present(field(e, "config"@)),
                },
            )
        } else {
            None
        },
        _ => None,
    }
}

/// A project's `extensions` list: empty when absent.
pub open spec fn read_project_items(doc: JsonView) -> Option<Seq<ProjectView>> {
    if doc is Object {
        match present(field(doc, "extensions"@)) {
            None => Some(Seq::empty()),
            Some(JsonView::Array(a)) => if forall|i: int| 0 <= i < a.len() ==> (#[trigger] read_project_item(a[i])) is Some {
                Some(a.map_values(|e: JsonView| read_project_item(e)->Some_0))
            } else {
                None
            },
            Some(_) => None,
        }
    } else {
        None
    }
}

fn global_item(e: &JsonValue) -> (r: Option<ExtensionConfigItem>)
    ensures
        match r {
            Some(it) => read_global_item(json_view(*e)) == Some(item_view(it)),
            None => read_global_item(json_view(*e)) is None,
        },
{
    match e {
        JsonValue::Object(_) => {},
        _ => return None,
    }
    let name = match json_get(e, "name") {
        Some(JsonValue::String(s)) => s.clone(),
        _ => return None,
    };
    let path = match json_get(e, "path") {
        Some(JsonValue::String(s)) => s.clone(),
        _ => return None,
    };
    let enabled = match json_get(e, "enabled") {
        None => true,
        Some(JsonValue::Bool(b)) => *b,
        Some(_) => return None,
    };
    let config = match json_get(e, "config") {
        Some(c) => clone_json(c),
        None => JsonValue::Null,
    };
    Some(ExtensionConfigItem { name, path, enabled, config })
}

/// Reads the global `extensions` list of a configuration document.
pub fn global_items(doc: &JsonValue) -> (r: Option<Vec<ExtensionConfigItem>>)
    ensures
        match r {
            Some(v) => read_global_items(json_view(*doc)) == Some(item_views(v@)),
            None => read_global_items(json_view(*doc)) is None,
        },
{
    match json_get(doc, "extensions") {
        None => Some(Vec::new()),
        Some(JsonValue::Array(a)) => {
            let ghost views = json_views(a@, a@.len());
            proof {
                lemma_json_views_index(a@, a@.len());
            }
            assert(field(json_view(*doc), "extensions"@) == Some(JsonView::Array(views)));
            let mut out: Vec<ExtensionConfigItem> = Vec::new();
            let mut i: usize = 0;
            while i < a.len()
                invariant
                    i <= a@.len(),
                    views == json_views(a@, a@.len()),
                    views.len() == a@.len(),
                    field(json_view(*doc), "extensions"@) == Some(JsonView::Array(views)),
                    forall|j: int| 0 <= j < a@.len() ==> #[trigger] views[j] == json_view(a@[j]),
                    out@.len() == i,
                    forall|j: int| 0 <= j < i ==> read_global_item(#[trigger] views[j]) == Some(item_view(out@[j])),
                decreases a@.len() - i,
            {
                match global_item(&a[i]) {
                    Some(it) => out.push(it),
                    None => {
                        assert(read_global_item(views[i as int]) is None);
                        return None;
                    },
                }
                i = i + 1;
            }
            assert(item_views(out@) =~= views.map_values(|e: JsonView| read_global_item(e)->Some_0));
            Some(out)
        },
        Some(_) => None,
    }
}

fn project_keys_known(m: &Vec<(String, JsonValue)>) -> (r: bool)
    ensures
        r == forall|i: int|
            0 <= i < member_views(m@, m@.len()).len() ==> project_key(#[trigger] member_views(m@, m@.len())[i].0),
{
    proof {
        lemma_member_views_index(m@, m@.len());
    }
    let mut i: usize = 0;
    while i < m.len()
        invariant
            i <= m@.len(),
            member_views(m@, m@.len()).len() == m@.len(),
            forall|j: int| 0 <= j < m@.len() ==> #[trigger] member_views(m@, m@.len())[j].0 == m@[j].0@,
            forall|j: int| 0 <= j < i ==> project_key(#[trigger] member_views(m@, m@.len())[j].0),
        decreases m@.len() - i,
    {
        let k = &m[i].0;
        if !(text_is(k, "name") || text_is(k, "enabled") || text_is(k, "config")) {
            assert(!project_key(member_views(m@, m@.len())[i as int].0));
            return false;
        }
        i = i + 1;
    }
    true
}

fn project_item(e: &JsonValue) -> (r: Option<ProjectExtensionItem>)
    ensures
        match r {
            Some(it) => read_project_item(json_view(*e)) == Some(project_view(it)),
            None => read_project_item(json_view(*e)) is None,
        },
{
    match e {
        JsonValue::Object(m) => {
            assert(json_view(*e) == JsonView::Object(member_views(m@, m@.len())));
            if !project_keys_known(m) {
                return None;
            }
        },
        _ => return None,
    }
    let name = match json_get(e, "name") {
        Some(JsonValue::String(s)) => s.clone(),
        _ => return None,
    };
    let enabled = match get_present(e, "enabled") {
        None => None,
        Some(JsonValue::Bool(b)) => Some(*b),
        Some(_) => return None,
    };
    let config = match get_present(e, "config") {
        Some(c) => Some(clone_json(c)),
        None => None,
    };
    Some(ProjectExtensionItem { name, enabled, config })
}

/// Reads a project's `extensions` list of a configuration document.
pub fn project_items(doc: &JsonValue) -> (r: Option<Vec<ProjectExtensionItem>>)
    ensures
        match r {
            Some(v) => read_project_items(json_view(*doc)) == Some(project_views(v@)),
            None => read_project_items(json_view(*doc)) is None,
        },
{
    match doc {
        JsonValue::Object(_) => {},
        _ => return None,
    }
    match get_present(doc, "extensions") {
        None => Some(Vec::new()),
        Some(JsonValue::Array(a)) => {
            let ghost views = json_views(a@, a@.len());
            proof {
                lemma_json_views_index(a@, a@.len());
            }
            assert(present(field(json_view(*doc), "extensions"@)) == Some(JsonView::Array(views)));
            let mut out: Vec<ProjectExtensionItem> = Vec::new();
            let mut i: usize = 0;
            while i < a.len()
                invariant
                    i <= a@.len(),
                    views == json_views(a@, a@.len()),
                    views.len() == a@.len(),
                    json_view(*doc) is Object,
                    present(field(json_view(*doc), "extensions"@)) == Some(JsonView::Array(views)),
                    forall|j: int| 0 <= j < a@.len() ==> #[trigger] views[j] == json_view(a@[j]),
                    out@.len() == i,
                    forall|j: int| 0 <= j < i ==> read_project_item(#[trigger] views[j]) == Some(project_view(out@[j])),
                decreases a@.len() - i,
            {
                match project_item(&a[i]) {
                    Some(it) => out.push(it),
                    None => {
                        assert(read_project_item(views[i as int]) is None);
                        return None;
                    },
                }
                i = i + 1;
            }
            assert(project_views(out@) =~= views.map_values(|e: JsonView| read_project_item(e)->Some_0));
            Some(out)
        },
        Some(_) => None,
    }
}


/// The members of `m` but those named `k`.
pub open spec fn members_without(m: Seq<(Seq<char>, JsonView)>, k: Seq<char>) -> Seq<(Seq<char>, JsonView)>
    decreases m.len(),
{
    if m.len() == 0 {
        m
    } else {
        let rest = members_without(m.drop_last(), k);
        if m.last().0 == k {
            rest
        } else {
            rest.push(m.last())
        }
    }
}

/// A document without its member `k`; other documents stay as they are.
pub open spec fn without_key(v: JsonView, k: Seq<char>) -> JsonView {
    match v {
        JsonView::Object(m) => JsonView::Object(members_without(m, k)),
        _ => v,
    }
}

/// Removes the member `key` of an object.
pub fn remove_key(v: &JsonValue, key: &str) -> (r: JsonValue)
    ensures
        json_view(r) == without_key(json_view(*v), key@),
{
    match v {
        JsonValue::Object(m) => {
            let k = key.to_string();
            let ghost views = member_views(m@, m@.len());
            proof {
                lemma_member_views_index(m@, m@.len());
            }
            let mut out: Vec<(String, JsonValue)> = Vec::new();
            let mut i: usize = 0;
            while i < m.len()
                invariant
                    i <= m@.len(),
                    k@ == key@,
                    views == member_views(m@, m@.len()),
                    views.len() == m@.len(),
                    forall|j: int| 0 <= j < m@.len() ==> #[trigger] views[j] == (m@[j].0@, json_view(m@[j].1)),
                    member_views(out@, out@.len()) == members_without(views.subrange(0, i as int), key@),
                decreases m@.len() - i,
            {
                let ghost pre = views.subrange(0, i as int);
                assert(views.subrange(0, i + 1).drop_last() =~= pre);
                if !(m[i].0 == k) {
                    let e = (m[i].0.clone(), clone_json(&m[i].1));
                    let ghost old_out = out@;
                    out.push(e);
                    proof {
                        lemma_member_views_prefix(old_out, out@, old_out.len());
                    }
                }
                i = i + 1;
            }
            assert(views.subrange(0, m@.len() as int) =~= views);
            JsonValue::Object(out)
        },
        _ => clone_json(v),
    }
}

pub open spec fn opt_model_view(b: Option<ModelBlock>) -> Option<ModelBlockView> {
    match b {
        Some(x) => Some(model_block_view(x)),
        None => None,
    }
}

fn global_config(doc: &JsonValue) -> (r: Result<(Vec<ExtensionConfigItem>, Option<ModelBlock>), String>)
    ensures
        match r {
            Ok((items, model)) => read_global(json_view(*doc)) == Some((item_views(items@), opt_model_view(model))),
            Err(m) => read_global(json_view(*doc)) is None && m@ == global_problem(json_view(*doc)),
        },
{
    reveal(read_global);
    reveal(global_problem);
    match doc {
        JsonValue::Object(_) => {},
        _ => return Err("expected a table".to_string()),
    }
    let items = match global_items(doc) {
        Some(v) => v,
        None => return Err("invalid `extensions`".to_string()),
    };
    match model_field(doc) {
        Some(model) => Ok((items, model)),
        None => Err("invalid `model`".to_string()),
    }
}

/// The `[model]` block of the merged configuration.
pub open spec fn read_merged_model(doc: JsonView) -> Option<Option<ModelBlockView>> {
    if doc is Object {
        read_model(field(doc, "model"@))
    } else {
        None
    }
}

/// Why the merged configuration cannot be read.
pub open spec fn merged_problem(doc: JsonView) -> Seq<char> {
    if !(doc is Object) {
        "expected a table"@
    } else {
        "invalid `model`"@
    }
}

/// Why a project's configuration cannot be read.
pub open spec fn project_problem(doc: JsonView) -> Seq<char> {
    if !(doc is Object) {
        "expected a table"@
    } else {
        "invalid `extensions`"@
    }
}

/// The first project entry that repeats a name or names no global entry.
pub open spec fn first_bad_project(project: Seq<ProjectView>, items: Seq<ItemView>) -> Option<int> {
    if exists|k: int| 0 <= k < project.len() && !#[trigger] project_entry_valid(project, items, k) {
        Some(
            choose|k: int|
                0 <= k < project.len() && !#[trigger] project_entry_valid(project, items, k) && forall|j: int|
                    0 <= j < k ==> project_entry_valid(project, items, j),
        )
    } else {
        None
    }
}

/// The error for the project entry at `k`.
pub open spec fn bad_project_text(project: Seq<ProjectView>, k: int, label: Seq<char>) -> Seq<char> {
    if named_before(project_view_names(project), k, project[k].name) {
        project_dup_text(project[k].name, label)
    } else {
        project_unknown_text(project[k].name, label)
    }
}

pub open spec fn global_parse_prefix(label: Seq<char>) -> Seq<char> {
    "failed to parse "@ + label + ": "@
}

pub open spec fn project_invalid_prefix(label: Seq<char>) -> Seq<char> {
    "invalid extension configuration in project config "@ + label + ": "@
}

/// How configuration files resolve.
pub enum Resolution {
    /// The extension entries and the `[model]` block.
    Resolved(Seq<ItemView>, Option<ModelBlockView>),
    /// The message of the error.
    Failed(Seq<char>),
    /// A file is not TOML: the message starts with this, and goes on with
    /// the parser's own text.
    Unreadable(Seq<char>),
}

/// The global document: what the file reads as, or an empty table when
/// there is no file.
pub open spec fn global_document(text: Option<Seq<char>>) -> Option<JsonView> {
    match text {
        Some(t) => toml_document(t),
        None => Some(JsonView::Object(Seq::empty())),
    }
}

/// The model block that the merge of the two documents (their
/// `extensions` aside) sets, or the error.
pub open spec fn merged_resolution(g: JsonView, p: JsonView) -> Result<Option<ModelBlockView>, Seq<char>> {
    let merged = merge_view(without_key(g, "extensions"@), without_key(p, "extensions"@));
    match read_merged_model(merged) {
        None => Err("failed to deserialize merged config: "@ + merged_problem(merged)),
        Some(m) => Ok(m),
    }
}

/// How a project's document `p` resolves over the global document `g` and
/// its extension entries `items`.
pub open spec fn project_doc_resolution(g: JsonView, items: Seq<ItemView>, p: JsonView, project_label: Seq<char>) -> Resolution {
    match read_project_items(p) {
        None => Resolution::Failed(project_invalid_prefix(project_label) + project_problem(p)),
        Some(project) => match first_bad_project(project, items) {
            Some(k) => Resolution::Failed(bad_project_text(project, k, project_label)),
            None => match merged_resolution(g, p) {
                Err(m) => Resolution::Failed(m),
                Ok(m) => Resolution::Resolved(overridden(items, project, project.len()), m),
            },
        },
    }
}

/// How a project's file resolves over the global document `g` and its
/// extension entries `items`.
pub open spec fn project_resolution(g: JsonView, items: Seq<ItemView>, project_text: Seq<char>, project_label: Seq<char>) -> Resolution {
    match toml_document(project_text) {
        None => Resolution::Unreadable(project_invalid_prefix(project_label)),
        Some(p) => project_doc_resolution(g, items, p, project_label),
    }
}

/// The global document's extension entries and model block, or the error.
pub open spec fn global_resolution(g: JsonView, global_label: Seq<char>) -> Result<(Seq<ItemView>, Option<ModelBlockView>), Seq<char>> {
    match read_global(g) {
        None => Err("failed to deserialize global config "@ + global_label + ": "@ + global_problem(g)),
        Some((items, model)) => match first_repeat(item_names(items)) {
            Some(k) => Err(global_dup_text(items[k].name)),
            None => Ok((items, model)),
        },
    }
}

/// The configuration that the global file and a project's file resolve to.
/// The global file lists the extensions and sets the model; a project's file
/// overrides listed extensions and merges over the global file's other
/// settings (its `extensions` aside), and the model comes from the merge.
pub open spec fn resolution(
    global_text: Option<Seq<char>>,
    project_text: Option<Seq<char>>,
    global_label: Seq<char>,
    project_label: Seq<char>,
) -> Resolution {
    match global_document(global_text) {
        None => Resolution::Unreadable(global_parse_prefix(global_label)),
        Some(g) => match global_resolution(g, global_label) {
            Err(m) => Resolution::Failed(m),
            Ok((items, model)) => match project_text {
                None => Resolution::Resolved(items, model),
                Some(pt) => project_resolution(g, items, pt, project_label),
            },
        },
    }
}

/// How the global document `g` and what a project's file was read as (its
/// document, or the parser's message) resolve.
pub open spec fn parsed_resolution(
    g: JsonView,
    project: Option<Result<JsonView, Seq<char>>>,
    global_label: Seq<char>,
    project_label: Seq<char>,
) -> Resolution {
    match global_resolution(g, global_label) {
        Err(m) => Resolution::Failed(m),
        Ok((items, model)) => match project {
            None => Resolution::Resolved(items, model),
            Some(Err(e)) => Resolution::Failed(project_invalid_prefix(project_label) + e),
            Some(Ok(p)) => project_doc_resolution(g, items, p, project_label),
        },
    }
}

pub open spec fn parsed_view(project: Option<Result<JsonValue, String>>) -> Option<Result<JsonView, Seq<char>>> {
    match project {
        None => None,
        Some(Ok(v)) => Some(Ok(json_view(v))),
        Some(Err(e)) => Some(Err(e@)),
    }
}

/// The outcome of `resolve_config` matches `res`.
pub open spec fn resolved_as(r: Result<ResolvedConfig, AgentError>, res: Resolution) -> bool {
    match res {
        Resolution::Resolved(items, model) => r matches Ok(c) && item_views(c.extensions@) == items && opt_model_view(
            c.model,
        ) == model,
        Resolution::Failed(m) => r matches Err(AgentError::ToolError(t)) && t@ == m,
        Resolution::Unreadable(prefix) => r matches Err(AgentError::ToolError(t)) && prefix.len() <= t@.len()
            && t@.subrange(0, prefix.len() as int) == prefix,
    }
}

/// A resolved configuration: the model block and the extension entries.
#[derive(Debug)]
pub struct ResolvedConfig {
    pub model: Option<ModelBlock>,
    pub extensions: Vec<ExtensionConfigItem>,
}

pub open spec fn opt_text(t: Option<&str>) -> Option<Seq<char>> {
    match t {
        Some(s) => Some(s@),
        None => None,
    }
}

/// The minimal bad entry is the one `first_bad_project` picks.
proof fn lemma_first_bad_project(project: Seq<ProjectView>, items: Seq<ItemView>, k: int)
    requires
        0 <= k < project.len(),
        !project_entry_valid(project, items, k),
        forall|j: int| 0 <= j < k ==> project_entry_valid(project, items, j),
    ensures
        first_bad_project(project, items) == Some(k),
{
    let c = choose|c: int|
        0 <= c < project.len() && !#[trigger] project_entry_valid(project, items, c) && forall|j: int|
            0 <= j < c ==> project_entry_valid(project, items, j);
    assert(0 <= c < project.len() && !project_entry_valid(project, items, c) && forall|j: int|
        0 <= j < c ==> project_entry_valid(project, items, j));
    if c < k {
        assert(project_entry_valid(project, items, c));
    } else if c > k {
        assert(project_entry_valid(project, items, k));
    }
}

fn prefixed_error(prefix: &str, rest: &str) -> (r: AgentError)
    ensures
        r matches AgentError::ToolError(m) && m@ == prefix@ + rest@ && prefix@.len() <= m@.len() && m@.subrange(
            0,
            prefix@.len() as int,
        ) == prefix@,
{
    let mut m = String::new();
    push_str(&mut m, prefix);
    push_str(&mut m, rest);
    assert(m@.subrange(0, prefix@.len() as int) =~= prefix@);
    AgentError::ToolError(m)
}

fn merged_model(g: &JsonValue, pdoc: &JsonValue) -> (r: Result<Option<ModelBlock>, AgentError>)
    ensures
        match merged_resolution(json_view(*g), json_view(*pdoc)) {
            Ok(m) => r matches Ok(b) && opt_model_view(b) == m,
            Err(m) => r matches Err(AgentError::ToolError(t)) && t@ == m,
        },
{
    let merged = merge_json(&remove_key(g, "extensions"), &remove_key(pdoc, "extensions"));
    let found = match &merged {
        JsonValue::Object(_) => model_field(&merged),
        _ => None,
    };
    match found {
        Some(m) => Ok(m),
        None => {
            let reason = match &merged {
                JsonValue::Object(_) => "invalid `model`",
                _ => "expected a table",
            };
            Err(prefixed_error("failed to deserialize merged config: ", reason))
        },
    }
}

fn project_prefix(label: &str) -> (r: String)
    ensures
        r@ == project_invalid_prefix(label@),
{
    let mut p = String::new();
    push_str(&mut p, "invalid extension configuration in project config ");
    push_str(&mut p, label);
    push_str(&mut p, ": ");
    p
}

/// Resolves a project's document over the global document and its entries.
fn resolve_project(g: &JsonValue, items: Vec<ExtensionConfigItem>, pdoc: &JsonValue, project_label: &str) -> (r: Result<
    ResolvedConfig,
    AgentError,
>)
    ensures
        resolved_as(r, project_doc_resolution(json_view(*g), item_views(items@), json_view(*pdoc), project_label@)),
{
    let project = match project_items(pdoc) {
        Some(v) => v,
        None => {
            let p = project_prefix(project_label);
            let reason = match pdoc {
                JsonValue::Object(_) => "invalid `extensions`",
                _ => "expected a table",
            };
            return Err(prefixed_error(p.as_str(), reason));
        },
    };
    match check_project_items(&project, &items, project_label) {
        Ok(()) => {},
        Err(e) => {
            proof {
                let k = choose|k: int|
                    0 <= k < project@.len() && !#[trigger] project_entry_valid(
                        project_views(project@),
                        item_views(items@),
                        k,
                    ) && (forall|j: int|
                        0 <= j < k ==> project_entry_valid(project_views(project@), item_views(items@), j)) && (e matches AgentError::ToolError(
                        m,
                    ) && if named_before(project_names(project@), k, project@[k].name@) {
                        m@ == project_dup_text(project@[k].name@, project_label@)
                    } else {
                        m@ == project_unknown_text(project@[k].name@, project_label@)
                    });
                lemma_first_bad_project(project_views(project@), item_views(items@), k);
                assert(project_view_names(project_views(project@)) =~= project_names(project@));
            }
            return Err(e);
        },
    }
    let model = merged_model(g, pdoc)?;
    let extensions = apply_project_overrides(items, &project);
    Ok(ResolvedConfig { model, extensions })
}

/// The names of the entries are the names of their views, and a first
/// repeat names an entry.
proof fn lemma_names_of_views(items: Seq<ExtensionConfigItem>)
    ensures
        global_names(items) == item_names(item_views(items)),
        forall|k: int| 0 <= k < items.len() ==> #[trigger] item_views(items)[k].name == items[k].name@,
{
    let names = global_names(items);
    let views = item_views(items);
    assert forall|i: int| 0 <= i < items.len() implies #[trigger] names[i] == item_names(views)[i] by {
        assert(views[i] == item_view(items[i]));
    }
    assert(names =~= item_names(views));
}

fn global_part(g: &JsonValue, global_label: &str) -> (r: Result<(Vec<ExtensionConfigItem>, Option<ModelBlock>), AgentError>)
    ensures
        match global_resolution(json_view(*g), global_label@) {
            Ok((items, model)) => r matches Ok((v, b)) && item_views(v@) == items && opt_model_view(b) == model,
            Err(m) => r matches Err(AgentError::ToolError(t)) && t@ == m,
        },
{
    let (items, model) = match global_config(g) {
        Ok(x) => x,
        Err(reason) => {
            let mut p = String::new();
            push_str(&mut p, "failed to deserialize global config ");
            push_str(&mut p, global_label);
            push_str(&mut p, ": ");
            return Err(prefixed_error(p.as_str(), reason.as_str()));
        },
    };
    proof {
        lemma_names_of_views(items@);
    }
    match check_global_names(&items) {
        Ok(()) => Ok((items, model)),
        Err(e) => Err(e),
    }
}

/// Resolves the configuration from the global document and from what a
/// project's file was read as (`None` where there is no such file); the
/// labels are how the files are shown in messages.
pub fn resolve_parsed(
    g: &JsonValue,
    project: Option<Result<JsonValue, String>>,
    global_label: &str,
    project_label: &str,
) -> (r: Result<ResolvedConfig, AgentError>)
    ensures
        resolved_as(r, parsed_resolution(json_view(*g), parsed_view(project), global_label@, project_label@)),
{
    let (items, model) = global_part(g, global_label)?;
    match project {
        None => Ok(ResolvedConfig { model, extensions: items }),
        Some(Err(e)) => {
            let p = project_prefix(project_label);
            Err(prefixed_error(p.as_str(), e.as_str()))
        },
        Some(Ok(pdoc)) => resolve_project(g, items, &pdoc, project_label),
    }
}

/// Resolves the configuration from the texts of the global file and of a
/// project's file (`None` where there is no such file); the labels are how
/// the files are shown in messages.
pub fn resolve_config(
    global_text: Option<&str>,
    project_text: Option<&str>,
    global_label: &str,
    project_label: &str,
) -> (r: Result<ResolvedConfig, AgentError>)
    ensures
        resolved_as(r, resolution(opt_text(global_text), opt_text(project_text), global_label@, project_label@)),
{
    let g = match global_text {
        Some(t) => match parse_toml_document(t) {
            Ok(v) => v,
            Err(e) => {
                let mut p = String::new();
                push_str(&mut p, "failed to parse ");
                push_str(&mut p, global_label);
                push_str(&mut p, ": ");
                assert(p@ == global_parse_prefix(global_label@));
                return Err(prefixed_error(p.as_str(), e.as_str()));
            },
        },
        None => {
            let d = JsonValue::Object(Vec::new());
            assert(member_views(Seq::<(String, JsonValue)>::empty(), 0) =~= Seq::empty());
            d
        },
    };
    assert(global_document(opt_text(global_text)) == Some(json_view(g)));
    let project = match project_text {
        None => None,
        Some(t) => Some(parse_toml_document(t)),
    };
    let ghost parsed = parsed_view(project);
    let r = resolve_parsed(&g, project, global_label, project_label);
    proof {
        if let Some(Err(e)) = parsed {
            let pre = project_invalid_prefix(project_label@);
            assert((pre + e).subrange(0, pre.len() as int) =~= pre);
        }
    }
    r
}

} // verus!
