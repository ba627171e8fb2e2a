use vstd::prelude::*;
use crate::item::{clone_item, clone_items, item_view, items_view, parts_view, ContentPart, Item, ItemView, MessageRole, PartView};
use crate::text::push_str as push_text;
use crate::text::push_str;

verus! {

/// Controls whether reasoning summaries are kept in the context sent to the model.
#[derive(Debug, Clone, Copy, PartialEq, Eq, Structural)]
pub enum ContextSummaryMode {
    /// Summaries stay in the context.
    On,
    /// Summary text is dropped from the context (the default); the reasoning
    /// item and its encrypted carrier stay.
    Off,
}

impl ContextSummaryMode {
    /// The default mode, `Off`.
    pub fn default_mode() -> (r: Self)
        ensures
            r == ContextSummaryMode::Off,
    {
        ContextSummaryMode::Off
    }

    /// The lower-case name of the mode, as it is written in configuration.
    pub fn as_str(&self) -> (r: &'static str)
        ensures
            r@ == (match *self {
                ContextSummaryMode::On => "on"@,
                ContextSummaryMode::Off => "off"@,
            }),
    {
        match self {
            ContextSummaryMode::On => "on",
            ContextSummaryMode::Off => "off",
        }
    }
}

/// Text that a message part contributes to the displayed text of an item.
pub open spec fn message_part_text(p: ContentPart) -> Seq<char> {
    match p {
        ContentPart::OutputText { text, .. } => text@,
        ContentPart::PlainText { text } => text@,
        ContentPart::InputText { text } => text@,
        ContentPart::Refusal { refusal } => refusal@,
        _ => Seq::empty(),
    }
}

/// Text that a part contributes to a reasoning text.
pub open spec fn reasoning_part_text(p: ContentPart) -> Seq<char> {
    match p {
        ContentPart::SummaryText { text } => text@,
        ContentPart::OutputText { text, .. } => text@,
        ContentPart::PlainText { text } => text@,
        _ => Seq::empty(),
    }
}

/// Concatenated message text of parts.
pub open spec fn message_text(parts: Seq<ContentPart>) -> Seq<char>
    decreases parts.len(),
{
    if parts.len() == 0 {
        Seq::empty()
    } else {
        message_text(parts.drop_last()) + message_part_text(parts.last())
    }
}

/// Concatenated reasoning text of parts.
pub open spec fn reasoning_text(parts: Seq<ContentPart>) -> Seq<char>
    decreases parts.len(),
{
    if parts.len() == 0 {
        Seq::empty()
    } else {
        reasoning_text(parts.drop_last()) + reasoning_part_text(parts.last())
    }
}

/// The readable text of an item: a message's text parts and refusals; a
/// reasoning item's summary, or its content when the summary holds no text.
pub open spec fn item_text(i: Item) -> Seq<char> {
    match i {
        Item::Message { content, .. } => message_text(content@),
        Item::Reasoning { summary, content, .. } => {
            let s = reasoning_text(summary@);
            if s.len() == 0 && content is Some {
                reasoning_text(content->0@)
            } else {
                s
            }
        },
        _ => Seq::empty(),
    }
}

/// Appends the message text of `parts`.
pub fn push_message_text(out: &mut String, parts: &Vec<ContentPart>)
    ensures
        final(out)@ == old(out)@ + message_text(parts@),
{
    let mut i: usize = 0;
    while i < parts.len()
        invariant
            i <= parts@.len(),
            out@ == old(out)@ + message_text(parts@.subrange(0, i as int)),
        decreases parts@.len() - i,
    {
        let ghost pre = parts@.subrange(0, i as int);
        let ghost post = parts@.subrange(0, i + 1);
        assert(post.drop_last() =~= pre);
        match &parts[i] {
            ContentPart::OutputText { text, .. } => push_str(out, text.as_str()),
            ContentPart::PlainText { text } => push_str(out, text.as_str()),
            ContentPart::InputText { text } => push_str(out, text.as_str()),
            ContentPart::Refusal { refusal } => push_str(out, refusal.as_str()),
            _ => {},
        }
        i = i + 1;
        assert(out@ =~= old(out)@ + message_text(post));
    }
    assert(parts@.subrange(0, parts@.len() as int) =~= parts@);
}

/// Appends the reasoning text of `parts`.
pub fn push_reasoning_text(out: &mut String, parts: &Vec<ContentPart>)
    ensures
        final(out)@ == old(out)@ + reasoning_text(parts@),
{
    let mut i: usize = 0;
    while i < parts.len()
        invariant
            i <= parts@.len(),
            out@ == old(out)@ + reasoning_text(parts@.subrange(0, i as int)),
        decreases parts@.len() - i,
    {
        let ghost pre = parts@.subrange(0, i as int);
        let ghost post = parts@.subrange(0, i + 1);
        assert(post.drop_last() =~= pre);
        match &parts[i] {
            ContentPart::SummaryText { text } => push_str(out, text.as_str()),
            ContentPart::OutputText { text, .. } => push_str(out, text.as_str()),
            ContentPart::PlainText { text } => push_str(out, text.as_str()),
            _ => {},
        }
        i = i + 1;
        assert(out@ =~= old(out)@ + reasoning_text(post));
    }
    assert(parts@.subrange(0, parts@.len() as int) =~= parts@);
}

/// The readable text of an item (see `item_text`).
pub fn extract_item_text(item: &Item) -> (r: String)
    ensures
        r@ == item_text(*item),
{
    let mut out = String::new();
    match item {
        Item::Message { content, .. } => {
            push_message_text(&mut out, content);
        },
        Item::Reasoning { summary, content, .. } => {
            push_reasoning_text(&mut out, summary);
            if out.as_str().unicode_len() == 0 {
                if let Some(c) = content {
                    push_reasoning_text(&mut out, c);
                }
            }
        },
        _ => {},
    }
    proof {
        assert(Seq::<char>::empty() + item_text(*item) =~= item_text(*item));
    }
    out
}

/// A reasoning item without its summary and content text (its id, status and
/// encrypted carrier stay); any other item as it is.
pub open spec fn stripped(i: ItemView) -> ItemView {
    match i {
        ItemView::Reasoning { id, status, encrypted_content, .. } => ItemView::Reasoning {
            id,
            status,
            content: None,
            summary: Seq::empty(),
            encrypted_content,
        },
        other => other,
    }
}

/// Removes the summary and content text of a reasoning item.
pub fn strip_reasoning_summary(item: Item) -> (r: Item)
    ensures
        item_view(r) == stripped(item_view(item)),
{
    match item {
        Item::Reasoning { id, status, encrypted_content, .. } => {
            let r = Item::Reasoning {
                id,
                status,
                content: None,
                summary: Vec::new(),
                encrypted_content,
            };
            assert(parts_view(Seq::<ContentPart>::empty()) =~= Seq::<PartView>::empty());
            r
        },
        other => other,
    }
}

/// The items of a model request's input: all items as they are when
/// summaries are on, stripped (see `stripped`) when they are off.
pub open spec fn projected_view(items: Seq<Item>, mode: ContextSummaryMode) -> Seq<ItemView> {
    match mode {
        ContextSummaryMode::On => items_view(items),
        ContextSummaryMode::Off => items_view(items).map_values(|v: ItemView| stripped(v)),
    }
}

/// The items of a context, as they are projected for a model request.
#[derive(Debug)]
pub struct ContextProjection {
    items: Vec<Item>,
}

impl ContextProjection {
    pub closed spec fn spec_items(&self) -> Seq<Item> {
        self.items@
    }

    pub fn new(items: Vec<Item>) -> (r: Self)
        ensures
            r.spec_items() == items@,
    {
        ContextProjection { items }
    }

    pub fn items(&self) -> (r: &[Item])
        ensures
            r@ == self.spec_items(),
    {
        self.items.as_slice()
    }

    pub fn into_items(self) -> (r: Vec<Item>)
        ensures
            r@ == self.spec_items(),
    {
        self.items
    }

    /// The items for a model request: all of them as they are when summaries
    /// are on; with reasoning summaries stripped when they are off.
    pub fn to_input_items(&self, summary_mode: ContextSummaryMode) -> (r: Vec<Item>)
        ensures
            items_view(r@) == projected_view(self.spec_items(), summary_mode),
    {
        match summary_mode {
            ContextSummaryMode::On => clone_items(&self.items),
            ContextSummaryMode::Off => {
                let mut out: Vec<Item> = Vec::new();
                let mut i: usize = 0;
                while i < self.items.len()
                    invariant
                        i <= self.items@.len(),
                        out@.len() == i,
                        forall|j: int|
                            0 <= j < i ==> item_view(#[trigger] out@[j]) == stripped(
                                item_view(self.items@[j]),
                            ),
                    decreases self.items@.len() - i,
                {
                    let c = clone_item(&self.items[i]);
                    out.push(strip_reasoning_summary(c));
                    i = i + 1;
                }
                assert(items_view(out@) =~= items_view(self.items@).map_values(
                    |v: ItemView| stripped(v),
                ));
                out
            },
        }
    }
}

/// What a model request's input holds: with summaries on, every item as it
/// is; with summaries off, the same items in the same order, each that is
/// not a reasoning item unchanged, and each reasoning item with its id,
/// status and encrypted carrier but no summary and no content.
pub proof fn lemma_projection_keeps_items(items: Seq<Item>, i: int)
    requires
        0 <= i < items.len(),
    ensures
        projected_view(items, ContextSummaryMode::On) == items_view(items),
        projected_view(items, ContextSummaryMode::Off).len() == items.len(),
        !(item_view(items[i]) is Reasoning) ==> projected_view(items, ContextSummaryMode::Off)[i] == item_view(
            items[i],
        ),
        (item_view(items[i]) matches ItemView::Reasoning { id, status, encrypted_content, .. }
            ==> projected_view(items, ContextSummaryMode::Off)[i] == (ItemView::Reasoning {
            id,
            status,
            content: None,
            summary: Seq::empty(),
            encrypted_content,
        })),
{
    assert(items_view(items)[i] == item_view(items[i]));
}

/// Stripping is idempotent: stripping twice is stripping once.
pub proof fn lemma_strip_idempotent(i: ItemView)
    ensures
        stripped(stripped(i)) == stripped(i),
{
}

/// The call ids of the function calls among `items`.
pub open spec fn call_ids(items: Seq<Item>) -> Seq<Seq<char>>
    decreases items.len(),
{
    if items.len() == 0 {
        Seq::empty()
    } else {
        match items.last() {
            Item::FunctionCall { call_id, .. } => call_ids(items.drop_last()).push(call_id@),
            _ => call_ids(items.drop_last()),
        }
    }
}

/// Why the item at `i` cannot be committed after the items before it: a
/// system message, a repeated call id, or an output for a call not made
/// before it.
pub open spec fn commit_problem_at(items: Seq<Item>, i: int) -> Option<Seq<char>> {
    let before = call_ids(items.subrange(0, i));
    match items[i] {
        Item::Message { role: MessageRole::System, .. } => Some("system messages must stay outside context items"@),
        Item::FunctionCall { call_id, .. } => if before.contains(call_id@) {
            Some("duplicate function call_id"@)
        } else {
            None
        },
        Item::FunctionCallOutput { call_id, .. } => if !before.contains(call_id@) {
            Some("function output references unknown call_id '"@ + call_id@ + "'"@)
        } else {
            None
        },
        _ => None,
    }
}

/// The first problem among the items, if any.
pub open spec fn commit_problem(items: Seq<Item>, n: nat) -> Option<Seq<char>>
    decreases n,
{
    if n == 0 || n > items.len() {
        None
    } else {
        match commit_problem(items, (n - 1) as nat) {
            Some(m) => Some(m),
            None => commit_problem_at(items, n - 1),
        }
    }
}

proof fn lemma_commit_stops(items: Seq<Item>, k: nat, n: nat)
    requires
        k <= n <= items.len(),
        commit_problem(items, k) is Some,
    ensures
        commit_problem(items, n) == commit_problem(items, k),
    decreases n,
{
    if n > k {
        lemma_commit_stops(items, k, (n - 1) as nat);
    }
}

fn ids_contain(ids: &Vec<String>, id: &String) -> (r: bool)
    ensures
        r == ids@.map_values(|s: String| s@).contains(id@),
{
    let ghost v = ids@.map_values(|s: String| s@);
    let mut i: usize = 0;
    while i < ids.len()
        invariant
            i <= ids@.len(),
            v == ids@.map_values(|s: String| s@),
            forall|j: int| 0 <= j < i ==> v[j] != id@,
        decreases ids@.len() - i,
    {
        if ids[i] == *id {
            assert(v[i as int] == id@);
            return true;
        }
        i = i + 1;
    }
    false
}

/// Checks items about to be committed to a context: no system message, each
/// call id once, each output after its call.
pub fn check_context_commit(items: &Vec<Item>) -> (r: Result<(), String>)
    ensures
        match commit_problem(items@, items@.len()) {
            Some(m) => r matches Err(e) && e@ == m,
            None => r is Ok,
        },
{
    let mut ids: Vec<String> = Vec::new();
    let mut i: usize = 0;
    while i < items.len()
        invariant
            i <= items@.len(),
            commit_problem(items@, i as nat) is None,
            ids@.map_values(|s: String| s@) == call_ids(items@.subrange(0, i as int)),
        decreases items@.len() - i,
    {
        let ghost pre = items@.subrange(0, i as int);
        let ghost post = items@.subrange(0, i + 1);
        assert(post.drop_last() =~= pre);
        match &items[i] {
            Item::Message { role: MessageRole::System, .. } => {
                proof {
                    assert(commit_problem(items@, (i + 1) as nat) == commit_problem_at(items@, i as int));
                    lemma_commit_stops(items@, (i + 1) as nat, items@.len());
                }
                return Err("system messages must stay outside context items".to_string());
            },
            Item::FunctionCall { call_id, .. } => {
                if ids_contain(&ids, call_id) {
                    proof {
                        assert(commit_problem(items@, (i + 1) as nat) == commit_problem_at(items@, i as int));
                        lemma_commit_stops(items@, (i + 1) as nat, items@.len());
                    }
                    return Err("duplicate function call_id".to_string());
                }
                let ghost old_ids = ids@;
                ids.push(call_id.clone());
                assert(ids@.map_values(|s: String| s@) =~= old_ids.map_values(|s: String| s@).push(call_id@));
            },
            Item::FunctionCallOutput { call_id, .. } => {
                if !ids_contain(&ids, call_id) {
                    let mut m = String::new();
                    push_text(&mut m, "function output references unknown call_id '");
                    push_text(&mut m, call_id.as_str());
                    push_text(&mut m, "'");
                    assert(m@ =~= "function output references unknown call_id '"@ + call_id@ + "'"@);
                    proof {
                        assert(commit_problem(items@, (i + 1) as nat) == commit_problem_at(items@, i as int));
                        lemma_commit_stops(items@, (i + 1) as nat, items@.len());
                    }
                    return Err(m);
                }
            },
            _ => {},
        }
        i = i + 1;
    }
    Ok(())
}

} // verus!
