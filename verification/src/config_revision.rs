use vstd::prelude::*;
use crate::canonical::{canonical, content_ref, ref_of_text};
use crate::cli::{blank, is_blank};
use crate::context::ContextSummaryMode;
use crate::ext_config::{item_view, item_views, ExtensionConfigItem, ItemView};
use crate::ids::ConfigRef;
use crate::json::{clone_json, field, json_eq, json_get, json_view, json_views, lemma_json_views_index, lemma_member_views_index, member_views, JsonNumber, JsonValue, JsonView, NumberView};
use crate::store::StoreError;
use crate::text::push_str;
use crate::time::{now_utc, UtcTime};

verus! {

/// A frozen configuration that sessions run with, named by the digest of
/// its content.
#[derive(Debug)]
pub struct ConfigRevision {
    pub format_version: u32,
    pub config_ref: ConfigRef,
    pub created_at: UtcTime,
    /// The model request template, as JSON.
    pub response_template: JsonValue,
    pub extensions: Vec<ExtensionConfigItem>,
    pub context_summary: ContextSummaryMode,
}

pub open spec fn mode_name(m: ContextSummaryMode) -> Seq<char> {
    match m {
        ContextSummaryMode::On => "on"@,
        ContextSummaryMode::Off => "off"@,
    }
}

/// An extension entry as JSON.
pub open spec fn item_json(i: ItemView) -> JsonView {
    JsonView::Object(
        seq![
            ("config"@, i.config),
            ("enabled"@, JsonView::Bool(i.enabled)),
            ("name"@, JsonView::String(i.name)),
            ("path"@, JsonView::String(i.path)),
        ],
    )
}

/// The content that a configuration's reference digests.
pub open spec fn payload_view(
    format_version: u32,
    template: JsonView,
    extensions: Seq<ItemView>,
    mode: ContextSummaryMode,
) -> JsonView {
    JsonView::Object(
        seq![
            ("context_summary"@, JsonView::String(mode_name(mode))),
            ("extensions"@, JsonView::Array(extensions.map_values(|i: ItemView| item_json(i)))),
            ("format_version"@, JsonView::Number(NumberView::PosInt(format_version as u64))),
            ("response_template"@, template),
        ],
    )
}

/// The reference of a configuration's content.
pub open spec fn config_ref_text(
    format_version: u32,
    template: JsonView,
    extensions: Seq<ItemView>,
    mode: ContextSummaryMode,
) -> Seq<char> {
    ref_of_text(canonical(payload_view(format_version, template, extensions, mode)))
}

fn item_to_json(i: &ExtensionConfigItem) -> (r: JsonValue)
    ensures
        json_view(r) == item_json(item_view(*i)),
{
    let mut m: Vec<(String, JsonValue)> = Vec::new();
    m.push(("config".to_string(), clone_json(&i.config)));
    m.push(("enabled".to_string(), JsonValue::Bool(i.enabled)));
    m.push(("name".to_string(), JsonValue::String(i.name.clone())));
    m.push(("path".to_string(), JsonValue::String(i.path.clone())));
    proof {
        lemma_member_views_index(m@, m@.len());
        assert(member_views(m@, m@.len()) =~= seq![
            ("config"@, json_view(i.config)),
            ("enabled"@, JsonView::Bool(i.enabled)),
            ("name"@, JsonView::String(i.name@)),
            ("path"@, JsonView::String(i.path@)),
        ]);
    }
    JsonValue::Object(m)
}

/// The content of a configuration as JSON (see `payload_view`).
pub fn config_payload(
    format_version: u32,
    template: &JsonValue,
    extensions: &Vec<ExtensionConfigItem>,
    mode: ContextSummaryMode,
) -> (r: JsonValue)
    ensures
        json_view(r) == payload_view(format_version, json_view(*template), item_views(extensions@), mode),
{
    let mut items: Vec<JsonValue> = Vec::new();
    let mut i: usize = 0;
    while i < extensions.len()
        invariant
            i <= extensions@.len(),
            items@.len() == i,
            forall|j: int| 0 <= j < i ==> json_view(#[trigger] items@[j]) == item_json(item_view(extensions@[j])),
        decreases extensions@.len() - i,
    {
        items.push(item_to_json(&extensions[i]));
        i = i + 1;
    }
    let name = match mode {
        ContextSummaryMode::On => "on".to_string(),
        ContextSummaryMode::Off => "off".to_string(),
    };
    let ghost items_seq = items@;
    proof {
        lemma_json_views_index(items_seq, items_seq.len());
        assert(json_views(items_seq, items_seq.len()) =~= item_views(extensions@).map_values(|i: ItemView| item_json(i)));
    }
    let mut m: Vec<(String, JsonValue)> = Vec::new();
    m.push(("context_summary".to_string(), JsonValue::String(name)));
    m.push(("extensions".to_string(), JsonValue::Array(items)));
    m.push(("format_version".to_string(), JsonValue::Number(JsonNumber::PosInt(format_version as u64))));
    m.push(("response_template".to_string(), clone_json(template)));
    proof {
        lemma_member_views_index(m@, m@.len());
        assert(member_views(m@, m@.len()) =~= seq![
            ("context_summary"@, JsonView::String(mode_name(mode))),
            ("extensions"@, JsonView::Array(item_views(extensions@).map_values(|i: ItemView| item_json(i)))),
            ("format_version"@, JsonView::Number(NumberView::PosInt(format_version as u64))),
            ("response_template"@, json_view(*template)),
        ]);
    }
    JsonValue::Object(m)
}

/// The reference of a configuration's content: `sha256:` and the digest of
/// its canonical JSON text.
pub fn compute_ref(
    format_version: u32,
    template: &JsonValue,
    extensions: &Vec<ExtensionConfigItem>,
    mode: ContextSummaryMode,
) -> (r: ConfigRef)
    ensures
        r.0@ == config_ref_text(format_version, json_view(*template), item_views(extensions@), mode),
        r.0@.len() == 71,
        r.0@.subrange(0, 7) == "sha256:"@,
        forall|i: int| 7 <= i < 71 ==> crate::ids::is_lower_hex_digit(#[trigger] r.0@[i]),
{
    let payload = config_payload(format_version, template, extensions, mode);
    ConfigRef::new(content_ref(&payload))
}

impl ConfigRevision {
    /// A revision of format 1, created now, named by its content.
    pub fn new(
        response_template: JsonValue,
        extensions: Vec<ExtensionConfigItem>,
        context_summary: ContextSummaryMode,
    ) -> (r: Self)
        ensures
            r.format_version == 1,
            r.response_template == response_template,
            r.extensions == extensions,
            r.context_summary == context_summary,
            r.config_ref.0@ == config_ref_text(1, json_view(response_template), item_views(extensions@), context_summary),
            r.config_ref.0@.len() == 71,
    {
        let config_ref = compute_ref(1, &response_template, &extensions, context_summary);
        ConfigRevision {
            format_version: 1,
            config_ref,
            created_at: now_utc(),
            response_template,
            extensions,
            context_summary,
        }
    }

    /// The reference that the revision's content gives.
    pub fn compute_self_ref(&self) -> (r: ConfigRef)
        ensures
            r.0@ == config_ref_text(
                self.format_version,
                json_view(self.response_template),
                item_views(self.extensions@),
                self.context_summary,
            ),
            r.0@.len() == 71,
    {
        compute_ref(self.format_version, &self.response_template, &self.extensions, self.context_summary)
    }
}

/// The model that the template names, when it is a non-blank string.
pub open spec fn template_model_ok(template: JsonView) -> bool {
    field(template, "model"@) matches Some(JsonView::String(m)) && !blank(m)
}

/// Two revisions hold the same content.
pub open spec fn same_payload(a: ConfigRevision, b: ConfigRevision) -> bool {
    &&& json_view(a.response_template) == json_view(b.response_template)
    &&& item_views(a.extensions@) == item_views(b.extensions@)
    &&& a.context_summary == b.context_summary
}

/// What storing a revision comes to.
#[derive(Debug, Clone, Copy, PartialEq, Eq, Structural)]
pub enum ConfigDecision {
    /// The revision is new: insert it.
    Insert,
    /// The same content is stored under its reference already.
    AlreadyStored,
}

pub open spec fn mismatch_text(declared: Seq<char>, computed: Seq<char>) -> Seq<char> {
    "ConfigRef mismatch: declared '"@ + declared + "' does not match computed '"@ + computed + "'"@
}

pub open spec fn collision_text(r: Seq<char>) -> Seq<char> {
    "ConfigRef collision: '"@ + r + "' already exists with conflicting payload"@
}

fn items_equal(a: &Vec<ExtensionConfigItem>, b: &Vec<ExtensionConfigItem>) -> (r: bool)
    ensures
        r == (item_views(a@) == item_views(b@)),
{
    if a.len() != b.len() {
        assert(item_views(a@).len() != item_views(b@).len());
        return false;
    }
    let mut i: usize = 0;
    while i < a.len()
        invariant
            i <= a@.len(),
            a@.len() == b@.len(),
            forall|j: int| 0 <= j < i ==> item_view(#[trigger] a@[j]) == item_view(b@[j]),
        decreases a@.len() - i,
    {
        let x = &a[i];
        let y = &b[i];
        if x.name != y.name || x.path != y.path || x.enabled != y.enabled || !json_eq(&x.config, &y.config) {
            assert(item_views(a@)[i as int] != item_views(b@)[i as int]);
            return false;
        }
        i = i + 1;
    }
    assert(item_views(a@) =~= item_views(b@));
    true
}

/// Decides how to store `cfg` given the revision stored under its reference,
/// if any: the template must name a model, the declared reference must be
/// the computed one, and a stored revision must hold the same content.
pub fn plan_ensure_config(cfg: &ConfigRevision, existing: Option<&ConfigRevision>) -> (r: Result<ConfigDecision, StoreError>)
    ensures
        !template_model_ok(json_view(cfg.response_template)) ==> (r matches Err(StoreError::ConstraintViolation(m))
            && m@ == "ConfigRevision requires a non-empty model name"@),
        template_model_ok(json_view(cfg.response_template)) && cfg.config_ref.0@ != config_ref_text(
            cfg.format_version,
            json_view(cfg.response_template),
            item_views(cfg.extensions@),
            cfg.context_summary,
        ) ==> (r matches Err(StoreError::ConstraintViolation(m)) && m@ == mismatch_text(
            cfg.config_ref.0@,
            config_ref_text(
                cfg.format_version,
                json_view(cfg.response_template),
                item_views(cfg.extensions@),
                cfg.context_summary,
            ),
        )),
        template_model_ok(json_view(cfg.response_template)) && cfg.config_ref.0@ == config_ref_text(
            cfg.format_version,
            json_view(cfg.response_template),
            item_views(cfg.extensions@),
            cfg.context_summary,
        ) ==> match existing {
            None => r == Ok::<ConfigDecision, StoreError>(ConfigDecision::Insert),
            Some(e) => if same_payload(*e, *cfg) {
                r == Ok::<ConfigDecision, StoreError>(ConfigDecision::AlreadyStored)
            } else {
                r matches Err(StoreError::ConstraintViolation(m)) && m@ == collision_text(cfg.config_ref.0@)
            },
        },
{
    let model_ok = match json_get(&cfg.response_template, "model") {
        Some(JsonValue::String(m)) => !is_blank(m.as_str()),
        _ => false,
    };
    proof { reveal_strlit("model"); }
    if !model_ok {
        return Err(StoreError::ConstraintViolation("ConfigRevision requires a non-empty model name".to_string()));
    }
    let computed = cfg.compute_self_ref();
    if cfg.config_ref.0 != computed.0 {
        let mut m = String::new();
        push_str(&mut m, "ConfigRef mismatch: declared '");
        push_str(&mut m, cfg.config_ref.0.as_str());
        push_str(&mut m, "' does not match computed '");
        push_str(&mut m, computed.0.as_str());
        push_str(&mut m, "'");
        assert(m@ =~= mismatch_text(cfg.config_ref.0@, computed.0@));
        return Err(StoreError::ConstraintViolation(m));
    }
    match existing {
        None => Ok(ConfigDecision::Insert),
        Some(e) => {
            if json_eq(&e.response_template, &cfg.response_template) && items_equal(&e.extensions, &cfg.extensions)
                && e.context_summary == cfg.context_summary {
                Ok(ConfigDecision::AlreadyStored)
            } else {
                let mut m = String::new();
                push_str(&mut m, "ConfigRef collision: '");
                push_str(&mut m, cfg.config_ref.0.as_str());
                push_str(&mut m, "' already exists with conflicting payload");
                assert(m@ =~= collision_text(cfg.config_ref.0@));
                Err(StoreError::ConstraintViolation(m))
            }
        },
    }
}

/// Storing a revision twice: the stored copy holds the same content, so the
/// second store finds it already stored.
pub proof fn lemma_restore_same_payload(cfg: ConfigRevision)
    ensures
        same_payload(cfg, cfg),
{
}

} // verus!
