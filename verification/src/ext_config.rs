use vstd::prelude::*;
use crate::error::AgentError;
use crate::json::{clone_json, json_view, merge_json, merge_view, JsonValue, JsonView};
use crate::text::{push_char, push_str, str_chars};

verus! {

/// An extension as the global configuration lists it.
#[derive(Debug)]
pub struct ExtensionConfigItem {
    pub name: String,
    pub path: String,
    pub enabled: bool,
    pub config: JsonValue,
}

/// What an extension entry is enabled as when it does not say.
pub fn default_enabled() -> (r: bool)
    ensures
        r,
{
    true
}

/// A project's override of a global extension entry.
#[derive(Debug)]
pub struct ProjectExtensionItem {
    pub name: String,
    pub enabled: Option<bool>,
    pub config: Option<JsonValue>,
}

/// A project override over mathematical values.
pub struct ProjectView {
    pub name: Seq<char>,
    pub enabled: Option<bool>,
    pub config: Option<JsonView>,
}

pub open spec fn project_view(p: ProjectExtensionItem) -> ProjectView {
    ProjectView {
        name: p.name@,
        enabled: p.enabled,
        config: match p.config {
            Some(c) => Some(json_view(c)),
            None => None,
        },
    }
}

pub open spec fn project_views(s: Seq<ProjectExtensionItem>) -> Seq<ProjectView> {
    s.map_values(|p: ProjectExtensionItem| project_view(p))
}

/// An extension entry over mathematical values.
pub struct ItemView {
    pub name: Seq<char>,
    pub path: Seq<char>,
    pub enabled: bool,
    pub config: JsonView,
}

pub open spec fn item_view(i: ExtensionConfigItem) -> ItemView {
    ItemView { name: i.name@, path: i.path@, enabled: i.enabled, config: json_view(i.config) }
}

pub open spec fn item_views(s: Seq<ExtensionConfigItem>) -> Seq<ItemView> {
    s.map_values(|i: ExtensionConfigItem| item_view(i))
}

/// `name` occurs among the first `n` names of `names`.
pub open spec fn named_before(names: Seq<Seq<char>>, n: int, name: Seq<char>) -> bool {
    exists|j: int| 0 <= j < n && names[j] == name
}

pub open spec fn global_names(s: Seq<ExtensionConfigItem>) -> Seq<Seq<char>> {
    s.map_values(|i: ExtensionConfigItem| i.name@)
}

pub open spec fn project_names(s: Seq<ProjectExtensionItem>) -> Seq<Seq<char>> {
    s.map_values(|i: ProjectExtensionItem| i.name@)
}

pub open spec fn item_names(s: Seq<ItemView>) -> Seq<Seq<char>> {
    s.map_values(|i: ItemView| i.name)
}

pub open spec fn project_view_names(s: Seq<ProjectView>) -> Seq<Seq<char>> {
    s.map_values(|p: ProjectView| p.name)
}

/// The index of the first repeated name, if any.
pub open spec fn first_repeat(names: Seq<Seq<char>>) -> Option<int> {
    if exists|k: int| 0 <= k < names.len() && #[trigger] named_before(names, k, names[k]) {
        Some(choose|k: int| 0 <= k < names.len() && #[trigger] named_before(names, k, names[k]) && forall|j: int|
            0 <= j < k ==> !#[trigger] named_before(names, j, names[j]))
    } else {
        None
    }
}

proof fn lemma_named_before_prefix(names: Seq<Seq<char>>, i: int, x: Seq<char>)
    requires
        0 <= i <= names.len(),
    ensures
        named_before(names.subrange(0, i), i, x) == named_before(names, i, x),
{
    if named_before(names, i, x) {
        let j = choose|j: int| 0 <= j < i && names[j] == x;
        assert(names.subrange(0, i)[j] == x);
    }
    if named_before(names.subrange(0, i), i, x) {
        let j = choose|j: int| 0 <= j < i && names.subrange(0, i)[j] == x;
        assert(names[j] == x);
    }
}

fn name_index(names: &Vec<String>, n: usize, name: &String) -> (r: bool)
    requires
        n <= names@.len(),
    ensures
        r == named_before(names@.map_values(|s: String| s@), n as int, name@),
{
    let ghost v = names@.map_values(|s: String| s@);
    let mut j: usize = 0;
    while j < n
        invariant
            j <= n <= names@.len(),
            v == names@.map_values(|s: String| s@),
            forall|k: int| 0 <= k < j ==> v[k] != name@,
        decreases n - j,
    {
        if names[j] == *name {
            assert(v[j as int] == name@);
            return true;
        }
        j = j + 1;
    }
    false
}

/// The error for a name repeated in the global configuration.
pub open spec fn global_dup_text(name: Seq<char>) -> Seq<char> {
    "duplicate extension name '"@ + name + "' in global config"@
}

/// Checks that the global configuration names each extension once.
pub fn check_global_names(items: &Vec<ExtensionConfigItem>) -> (r: Result<(), AgentError>)
    ensures
        r is Ok <==> first_repeat(global_names(items@)) is None,
        r is Err ==> (r matches Err(AgentError::ToolError(m)) && first_repeat(global_names(items@)) matches Some(k)
            && 0 <= k < items@.len() && m@ == global_dup_text(items@[k].name@)),
{
    let ghost names = global_names(items@);
    let mut seen: Vec<String> = Vec::new();
    let mut i: usize = 0;
    while i < items.len()
        invariant
            i <= items@.len(),
            names == global_names(items@),
            seen@.len() == i,
            forall|j: int| 0 <= j < i ==> #[trigger] seen@[j]@ == names[j],
            forall|k: int| 0 <= k < i ==> !#[trigger] named_before(names, k, names[k]),
        decreases items@.len() - i,
    {
        assert(seen@.map_values(|s: String| s@) =~= names.subrange(0, i as int));
        let dup = name_index(&seen, i, &items[i].name);
        proof { lemma_named_before_prefix(names, i as int, names[i as int]); }
        assert(dup == named_before(names, i as int, names[i as int]));
        if dup {
            let mut m = String::new();
            push_str(&mut m, "duplicate extension name '");
            push_str(&mut m, items[i].name.as_str());
            push_str(&mut m, "' in global config");
            proof {
                assert(named_before(names, i as int, names[i as int]));
                let k = choose|k: int| 0 <= k < names.len() && #[trigger] named_before(names, k, names[k]) && forall|j: int|
                    0 <= j < k ==> !#[trigger] named_before(names, j, names[j]);
                assert(k == i) by {
                    if k < i {
                    } else if k > i {
                        assert(!named_before(names, i as int, names[i as int]));
                    }
                }
                assert(m@ =~= global_dup_text(items@[i as int].name@));
            }
            return Err(AgentError::ToolError(m));
        }
        seen.push(items[i].name.clone());
        i = i + 1;
    }
    Ok(())
}

/// The error for a name repeated in a project's configuration.
pub open spec fn project_dup_text(name: Seq<char>, path: Seq<char>) -> Seq<char> {
    "duplicate extension name '"@ + name + "' in project config "@ + path
}

/// The error for a project entry that names no global extension.
pub open spec fn project_unknown_text(name: Seq<char>, path: Seq<char>) -> Seq<char> {
    "extension '"@ + name + "' in project config "@ + path + " does not exist in global config"@
}

/// The project entry at `k` is valid: its name is new among the project's
/// entries and names a global extension.
pub open spec fn project_entry_valid(project: Seq<ProjectView>, global: Seq<ItemView>, k: int) -> bool {
    &&& !named_before(project_view_names(project), k, project[k].name)
    &&& named_before(item_names(global), global.len() as int, project[k].name)
}

/// Checks a project's overrides against the global configuration; `path` is
/// how the project configuration file is shown in messages.
pub fn check_project_items(
    project: &Vec<ProjectExtensionItem>,
    global: &Vec<ExtensionConfigItem>,
    path: &str,
) -> (r: Result<(), AgentError>)
    ensures
        r is Ok <==> forall|k: int|
            0 <= k < project@.len() ==> #[trigger] project_entry_valid(project_views(project@), item_views(global@), k),
        r is Err ==> exists|k: int|
            0 <= k < project@.len() && !#[trigger] project_entry_valid(project_views(project@), item_views(global@), k)
                && (forall|j: int| 0 <= j < k ==> project_entry_valid(project_views(project@), item_views(global@), j))
                && (r matches Err(
                AgentError::ToolError(m),
            ) && if named_before(project_names(project@), k, project@[k].name@) {
                m@ == project_dup_text(project@[k].name@, path@)
            } else {
                m@ == project_unknown_text(project@[k].name@, path@)
            }),
{
    let ghost pnames = project_names(project@);
    let ghost gnames = global_names(global@);
    assert(project_view_names(project_views(project@)) =~= pnames);
    assert(item_names(item_views(global@)) =~= gnames);
    let mut gseen: Vec<String> = Vec::new();
    let mut g: usize = 0;
    while g < global.len()
        invariant
            g <= global@.len(),
            gnames == global_names(global@),
            gseen@.len() == g,
            forall|j: int| 0 <= j < g ==> #[trigger] gseen@[j]@ == gnames[j],
        decreases global@.len() - g,
    {
        gseen.push(global[g].name.clone());
        g = g + 1;
    }
    assert(gseen@.map_values(|s: String| s@) =~= gnames);
    let mut seen: Vec<String> = Vec::new();
    let mut i: usize = 0;
    while i < project.len()
        invariant
            i <= project@.len(),
            pnames == project_names(project@),
            gnames == global_names(global@),
            gseen@.map_values(|s: String| s@) == gnames,
            gseen@.len() == global@.len(),
            seen@.len() == i,
            forall|j: int| 0 <= j < i ==> #[trigger] seen@[j]@ == pnames[j],
            project_view_names(project_views(project@)) == pnames,
            item_names(item_views(global@)) == gnames,
            forall|k: int| 0 <= k < i ==> #[trigger] project_entry_valid(project_views(project@), item_views(global@), k),
        decreases project@.len() - i,
    {
        assert(seen@.map_values(|s: String| s@) =~= pnames.subrange(0, i as int));
        let dup = name_index(&seen, i, &project[i].name);
        proof { lemma_named_before_prefix(pnames, i as int, pnames[i as int]); }
        assert(dup == named_before(pnames, i as int, pnames[i as int]));
        if dup {
            let mut m = String::new();
            push_str(&mut m, "duplicate extension name '");
            push_str(&mut m, project[i].name.as_str());
            push_str(&mut m, "' in project config ");
            push_str(&mut m, path);
            proof {
                assert(m@ =~= project_dup_text(project@[i as int].name@, path@));
                assert(!project_entry_valid(project_views(project@), item_views(global@), i as int));
            }
            return Err(AgentError::ToolError(m));
        }
        let known = name_index(&gseen, gseen.len(), &project[i].name);
        if !known {
            let mut m = String::new();
            push_str(&mut m, "extension '");
            push_str(&mut m, project[i].name.as_str());
            push_str(&mut m, "' in project config ");
            push_str(&mut m, path);
            push_str(&mut m, " does not exist in global config");
            proof {
                assert(m@ =~= project_unknown_text(project@[i as int].name@, path@));
                assert(!project_entry_valid(project_views(project@), item_views(global@), i as int));
            }
            return Err(AgentError::ToolError(m));
        }
        seen.push(project[i].name.clone());
        i = i + 1;
    }
    Ok(())
}

/// The index of the first entry named `name`, if any.
pub open spec fn first_named(items: Seq<ItemView>, name: Seq<char>) -> Option<int>
    decreases items.len(),
{
    if items.len() == 0 {
        None
    } else {
        match first_named(items.drop_last(), name) {
            Some(k) => Some(k),
            None => if items.last().name == name {
                Some(items.len() - 1)
            } else {
                None
            },
        }
    }
}

/// One project override applied to the first global entry of its name:
/// `enabled` replaces the flag, `config` is deep-merged into the config.
pub open spec fn override_one(items: Seq<ItemView>, name: Seq<char>, enabled: Option<bool>, config: Option<JsonView>) -> Seq<ItemView> {
    match first_named(items, name) {
        None => items,
        Some(k) => items.update(
            k,
            ItemView {
                name: items[k].name,
                path: items[k].path,
                enabled: match enabled {
                    Some(e) => e,
                    None => items[k].enabled,
                },
                config: match config {
                    Some(c) => merge_view(items[k].config, c),
                    None => items[k].config,
                },
            },
        ),
    }
}

/// The first `n` project overrides applied in order.
pub open spec fn overridden(items: Seq<ItemView>, project: Seq<ProjectView>, n: nat) -> Seq<ItemView>
    decreases n,
{
    if n == 0 || n > project.len() {
        items
    } else {
        let o = project[n - 1];
        override_one(overridden(items, project, (n - 1) as nat), o.name, o.enabled, o.config)
    }
}

fn find_named(items: &Vec<ExtensionConfigItem>, name: &String) -> (r: Option<usize>)
    ensures
        match r {
            Some(k) => first_named(item_views(items@), name@) == Some(k as int) && k < items@.len(),
            None => first_named(item_views(items@), name@) is None,
        },
{
    let ghost v = item_views(items@);
    let mut i: usize = 0;
    while i < items.len()
        invariant
            i <= items@.len(),
            v == item_views(items@),
            first_named(v.subrange(0, i as int), name@) is None,
        decreases items@.len() - i,
    {
        let ghost pre = v.subrange(0, i as int);
        let ghost post = v.subrange(0, i + 1);
        assert(post.drop_last() =~= pre);
        if items[i].name == *name {
            proof {
                lemma_first_named_extend(v, i as int + 1, name@);
            }
            return Some(i);
        }
        i = i + 1;
    }
    assert(v.subrange(0, v.len() as int) =~= v);
    None
}

/// A first match within a prefix stays the first match of the whole.
proof fn lemma_first_named_extend(v: Seq<ItemView>, n: int, name: Seq<char>)
    requires
        0 < n <= v.len(),
        first_named(v.subrange(0, n), name) is Some,
    ensures
        first_named(v, name) == first_named(v.subrange(0, n), name),
    decreases v.len() - n,
{
    if n < v.len() {
        let pre = v.subrange(0, n);
        let post = v.subrange(0, n + 1);
        assert(post.drop_last() =~= pre);
        lemma_first_named_extend(v, n + 1, name);
    } else {
        assert(v.subrange(0, n) =~= v);
    }
}

/// Applies a project's overrides to the global extension entries, in order.
pub fn apply_project_overrides(
    global: Vec<ExtensionConfigItem>,
    project: &Vec<ProjectExtensionItem>,
) -> (r: Vec<ExtensionConfigItem>)
    ensures
        item_views(r@) == overridden(item_views(global@), project_views(project@), project@.len()),
{
    let mut items = global;
    let mut i: usize = 0;
    while i < project.len()
        invariant
            i <= project@.len(),
            item_views(items@) == overridden(item_views(global@), project_views(project@), i as nat),
        decreases project@.len() - i,
    {
        let o = &project[i];
        match find_named(&items, &o.name) {
            None => {},
            Some(k) => {
                let ghost before = items@;
                let enabled = match o.enabled {
                    Some(e) => e,
                    None => items[k].enabled,
                };
                let config = match &o.config {
                    Some(c) => merge_json(&items[k].config, c),
                    None => clone_json(&items[k].config),
                };
                let entry = ExtensionConfigItem {
                    name: items[k].name.clone(),
                    path: items[k].path.clone(),
                    enabled,
                    config,
                };
                items.set(k, entry);
                proof {
                    assert(item_views(items@) =~= override_one(
                        item_views(before),
                        o.name@,
                        o.enabled,
                        match o.config {
                            Some(c) => Some(json_view(c)),
                            None => None,
                        },
                    ));
                }
            },
        }
        i = i + 1;
    }
    items
}

/// The entries that are enabled, in order.
pub open spec fn enabled_views(s: Seq<ItemView>) -> Seq<ItemView>
    decreases s.len(),
{
    if s.len() == 0 {
        Seq::empty()
    } else if s.last().enabled {
        enabled_views(s.drop_last()).push(s.last())
    } else {
        enabled_views(s.drop_last())
    }
}

/// Keeps the enabled entries.
pub fn enabled_items(items: Vec<ExtensionConfigItem>) -> (r: Vec<ExtensionConfigItem>)
    ensures
        item_views(r@) == enabled_views(item_views(items@)),
{
    let ghost v = item_views(items@);
    let mut out: Vec<ExtensionConfigItem> = Vec::new();
    let mut i: usize = 0;
    while i < items.len()
        invariant
            i <= items@.len(),
            v == item_views(items@),
            item_views(out@) == enabled_views(v.subrange(0, i as int)),
        decreases items@.len() - i,
    {
        let ghost pre = v.subrange(0, i as int);
        let ghost post = v.subrange(0, i + 1);
        assert(post.drop_last() =~= pre);
        if items[i].enabled {
            let e = ExtensionConfigItem {
                name: items[i].name.clone(),
                path: items[i].path.clone(),
                enabled: true,
                config: clone_json(&items[i].config),
            };
            let ghost old_out = out@;
            out.push(e);
            assert(item_views(out@) =~= item_views(old_out).push(v[i as int]));
        }
        i = i + 1;
    }
    assert(v.subrange(0, v.len() as int) =~= v);
    out
}

/// `rel` resolved against `dir` as a Unix path join: an absolute `rel`
/// stands alone; otherwise it follows `dir` after one separator.
pub open spec fn joined_path(dir: Seq<char>, rel: Seq<char>) -> Seq<char> {
    if rel.len() > 0 && rel[0] == '/' {
        rel
    } else if dir.len() == 0 {
        rel
    } else if dir.last() == '/' {
        dir + rel
    } else {
        dir + seq!['/'] + rel
    }
}

/// Joins a path onto a directory (`Path::join` on Unix).
pub fn join_path(dir: &str, rel: &str) -> (r: String)
    ensures
        r@ == joined_path(dir@, rel@),
{
    let r = str_chars(rel);
    let d = str_chars(dir);
    if r.len() > 0 && r[0] == '/' {
        return rel.to_string();
    }
    let mut out = String::new();
    push_str(&mut out, dir);
    if d.len() > 0 && d[d.len() - 1] != '/' {
        push_char(&mut out, '/');
    }
    push_str(&mut out, rel);
    proof {
        if d@.len() > 0 && d@.last() != '/' {
            assert(out@ =~= dir@ + seq!['/'] + rel@);
        } else {
            assert(out@ =~= dir@ + rel@);
        }
    }
    out
}

/// The error for loading a second extension with an id already loaded.
pub open spec fn dup_extension_text(id: Seq<char>) -> Seq<char> {
    "duplicate extension id '"@ + id + "'"@
}

/// Checks that an extension `id` is not loaded yet.
pub fn check_new_extension(loaded: &Vec<String>, id: &String) -> (r: Result<(), AgentError>)
    ensures
        r is Ok <==> !loaded@.map_values(|s: String| s@).contains(id@),
        r is Err ==> (r matches Err(AgentError::ToolError(m)) && m@ == dup_extension_text(id@)),
{
    let ghost v = loaded@.map_values(|s: String| s@);
    let mut i: usize = 0;
    while i < loaded.len()
        invariant
            i <= loaded@.len(),
            v == loaded@.map_values(|s: String| s@),
            forall|j: int| 0 <= j < i ==> v[j] != id@,
        decreases loaded@.len() - i,
    {
        if loaded[i] == *id {
            let mut m = String::new();
            push_str(&mut m, "duplicate extension id '");
            push_str(&mut m, id.as_str());
            push_str(&mut m, "'");
            proof {
                assert(v[i as int] == id@);
                assert(m@ =~= dup_extension_text(id@));
            }
            return Err(AgentError::ToolError(m));
        }
        i = i + 1;
    }
    Ok(())
}

} // verus!
