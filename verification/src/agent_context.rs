use vstd::prelude::*;
use crate::context::{extract_item_text, item_text};
use crate::item::{clone_items, items_view, user_message, ContentPart, Item, MessageRole};

verus! {

/// A message written by the system role.
pub open spec fn is_system_message(i: Item) -> bool {
    i matches Item::Message { role: MessageRole::System, .. }
}

/// `s` with its system messages left out, the rest in order.
pub open spec fn without_system(s: Seq<Item>) -> Seq<Item>
    decreases s.len(),
{
    if s.len() == 0 {
        Seq::empty()
    } else {
        let rest = without_system(s.drop_last());
        if is_system_message(s.last()) {
            rest
        } else {
            rest.push(s.last())
        }
    }
}

/// The text of the first system message of `s` at or after `i`, if any.
pub open spec fn first_system_from(s: Seq<Item>, i: int) -> Option<Seq<char>>
    decreases s.len() - i,
{
    if i < 0 || i >= s.len() {
        None
    } else if is_system_message(s[i]) {
        Some(item_text(s[i]))
    } else {
        first_system_from(s, i + 1)
    }
}

/// No item of `s` is a system message.
pub open spec fn holds_no_system(s: Seq<Item>) -> bool {
    forall|i: int| 0 <= i < s.len() ==> !is_system_message(#[trigger] s[i])
}

/// Leaving out the system messages leaves none behind.
pub proof fn lemma_without_system_has_none(s: Seq<Item>)
    ensures
        holds_no_system(without_system(s)),
        without_system(s).len() <= s.len(),
    decreases s.len(),
{
    if s.len() > 0 {
        lemma_without_system_has_none(s.drop_last());
    }
}

/// A history free of system messages is kept whole.
pub proof fn lemma_without_system_keeps_clean(s: Seq<Item>)
    requires
        holds_no_system(s),
    ensures
        without_system(s) == s,
    decreases s.len(),
{
    if s.len() > 0 {
        assert(holds_no_system(s.drop_last()));
        lemma_without_system_keeps_clean(s.drop_last());
        assert(s.drop_last().push(s.last()) =~= s);
    }
}

/// Leaving out system messages twice is leaving them out once.
pub proof fn lemma_without_system_idempotent(s: Seq<Item>)
    ensures
        without_system(without_system(s)) == without_system(s),
{
    lemma_without_system_has_none(s);
    lemma_without_system_keeps_clean(without_system(s));
}

/// The context after commits that each put a turn's pending items after the
/// current ones, as a run does when no extension rewrites a commit; system
/// messages are left out as the context's `replace_items` and `add_items`
/// leave them out.
pub open spec fn committed(c: Seq<Item>, pendings: Seq<Seq<Item>>) -> Seq<Item>
    decreases pendings.len(),
{
    if pendings.len() == 0 {
        c
    } else {
        committed(without_system(c + pendings[0]), pendings.drop_first())
    }
}

/// Context is never pruned on its own: over any number of such commits the
/// context before them stays a prefix of the context after them, and no
/// system message enters it.
pub proof fn lemma_context_only_grows(c: Seq<Item>, pendings: Seq<Seq<Item>>)
    requires
        holds_no_system(c),
    ensures
        c.is_prefix_of(committed(c, pendings)),
        holds_no_system(committed(c, pendings)),
    decreases pendings.len(),
{
    if pendings.len() > 0 {
        let next = without_system(c + pendings[0]);
        lemma_without_system_concat(c, pendings[0]);
        lemma_without_system_keeps_clean(c);
        lemma_without_system_has_none(c + pendings[0]);
        lemma_context_only_grows(next, pendings.drop_first());
        assert(c.is_prefix_of(next)) by {
            assert(next.subrange(0, c.len() as int) =~= c);
        }
        let last = committed(next, pendings.drop_first());
        assert(last.subrange(0, next.len() as int) == next);
        assert(last.subrange(0, c.len() as int) =~= next.subrange(0, c.len() as int));
    }
}

/// Leaving out system messages from a concatenation leaves them out of each part.
pub proof fn lemma_without_system_concat(a: Seq<Item>, b: Seq<Item>)
    ensures
        without_system(a + b) == without_system(a) + without_system(b),
    decreases b.len(),
{
    if b.len() == 0 {
        assert(a + b =~= a);
        assert(without_system(a) + without_system(b) =~= without_system(a));
    } else {
        assert((a + b).drop_last() =~= a + b.drop_last());
        assert((a + b).last() == b.last());
        lemma_without_system_concat(a, b.drop_last());
        if !is_system_message(b.last()) {
            assert(without_system(a) + without_system(b.drop_last()).push(b.last()) =~= (without_system(a)
                + without_system(b.drop_last())).push(b.last()));
        }
    }
}

fn is_system(item: &Item) -> (r: bool)
    ensures
        r == is_system_message(*item),
{
    match item {
        Item::Message { role: MessageRole::System, .. } => true,
        _ => false,
    }
}

/// `items` without its system messages.
fn drop_system_messages(items: Vec<Item>) -> (r: Vec<Item>)
    ensures
        r@ == without_system(items@),
{
    let ghost orig = items@;
    let mut rest = items;
    let mut out: Vec<Item> = Vec::new();
    let ghost mut k: int = 0;
    assert(orig.subrange(0, 0) =~= Seq::<Item>::empty());
    assert(orig.subrange(0, orig.len() as int) =~= orig);
    while rest.len() > 0
        invariant
            0 <= k <= orig.len(),
            rest@ == orig.subrange(k, orig.len() as int),
            out@ == without_system(orig.subrange(0, k)),
        decreases rest@.len(),
    {
        let item = rest.remove(0);
        proof {
            assert(item == orig[k]);
            assert(orig.subrange(0, k + 1).drop_last() =~= orig.subrange(0, k));
            assert(orig.subrange(0, k + 1).last() == orig[k]);
            assert(rest@ =~= orig.subrange(k + 1, orig.len() as int));
            k = k + 1;
        }
        if !is_system(&item) {
            out.push(item);
        }
    }
    assert(orig.subrange(0, k) =~= orig);
    out
}

/// The text of the first system message of `items`, if any.
fn first_system_prompt(items: &Vec<Item>) -> (r: Option<String>)
    ensures
        match r {
            Some(t) => first_system_from(items@, 0) == Some(t@),
            None => first_system_from(items@, 0) is None,
        },
{
    let mut i: usize = 0;
    while i < items.len()
        invariant
            i <= items@.len(),
            first_system_from(items@, 0) == first_system_from(items@, i as int),
        decreases items@.len() - i,
    {
        if is_system(&items[i]) {
            return Some(extract_item_text(&items[i]));
        }
        i = i + 1;
    }
    None
}

/// The conversation an agent carries: its items in order, never a system
/// message among them, and the system prompt kept apart.
pub struct AgentContext {
    system_prompt: Option<String>,
    items: Vec<Item>,
}

impl AgentContext {
    pub closed spec fn spec_items(&self) -> Seq<Item> {
        self.items@
    }

    pub closed spec fn spec_prompt(&self) -> Option<Seq<char>> {
        match self.system_prompt {
            Some(p) => Some(p@),
            None => None,
        }
    }

    /// The items hold no system message.
    pub closed spec fn wf(&self) -> bool {
        holds_no_system(self.items@)
    }

    /// An empty conversation under `system_prompt`.
    pub fn new(system_prompt: Option<String>) -> (r: Self)
        ensures
            r.wf(),
            r.spec_items() == Seq::<Item>::empty(),
            r.spec_prompt() == (match system_prompt {
                Some(p) => Some(p@),
                None => None,
            }),
    {
        AgentContext { system_prompt, items: Vec::new() }
    }

    /// A conversation resumed from `items`: their system messages are left
    /// out, and when no prompt is given the first of them becomes the prompt.
    pub fn from_existing(items: Vec<Item>, system_prompt: Option<String>) -> (r: Self)
        ensures
            r.wf(),
            r.spec_items() == without_system(items@),
            r.spec_prompt() == (match system_prompt {
                Some(p) => Some(p@),
                None => first_system_from(items@, 0),
            }),
    {
        let prompt = match system_prompt {
            Some(p) => Some(p),
            None => first_system_prompt(&items),
        };
        let kept = drop_system_messages(items);
        proof {
            lemma_without_system_has_none(items@);
        }
        AgentContext { system_prompt: prompt, items: kept }
    }

    pub fn system_prompt(&self) -> (r: Option<&str>)
        ensures
            match r {
                Some(p) => self.spec_prompt() == Some(p@),
                None => self.spec_prompt() is None,
            },
    {
        match &self.system_prompt {
            Some(p) => Some(p.as_str()),
            None => None,
        }
    }

    /// Appends a user message holding `message`.
    pub fn add_user_message(&mut self, message: String)
        requires
            old(self).wf(),
        ensures
            final(self).wf(),
            final(self).spec_prompt() == old(self).spec_prompt(),
            final(self).spec_items().drop_last() == old(self).spec_items(),
            final(self).spec_items().len() == old(self).spec_items().len() + 1,
            ({
                let m = final(self).spec_items().last();
                &&& m matches Item::Message { id: None, status: None, role: MessageRole::User, content, phase: None }
                &&& content@.len() == 1
                &&& content@[0] matches ContentPart::InputText { text: t }
                &&& t == message
            }),
    {
        let m = user_message(message);
        self.items.push(m);
        proof {
            assert(self.items@.drop_last() =~= old(self).items@);
        }
    }

    /// Appends `item` unless it is a system message.
    pub fn add_item(&mut self, item: Item)
        requires
            old(self).wf(),
        ensures
            final(self).wf(),
            final(self).spec_prompt() == old(self).spec_prompt(),
            final(self).spec_items() == (if is_system_message(item) {
                old(self).spec_items()
            } else {
                old(self).spec_items().push(item)
            }),
    {
        if !is_system(&item) {
            self.items.push(item);
        }
    }

    /// Appends `items` without their system messages.
    pub fn add_items(&mut self, items: Vec<Item>)
        requires
            old(self).wf(),
        ensures
            final(self).wf(),
            final(self).spec_prompt() == old(self).spec_prompt(),
            final(self).spec_items() == old(self).spec_items() + without_system(items@),
    {
        let mut kept = drop_system_messages(items);
        proof {
            lemma_without_system_has_none(items@);
        }
        self.items.append(&mut kept);
    }

    /// Replaces the items by `items` without their system messages.
    pub fn replace_items(&mut self, items: Vec<Item>)
        ensures
            final(self).wf(),
            final(self).spec_prompt() == old(self).spec_prompt(),
            final(self).spec_items() == without_system(items@),
    {
        proof {
            lemma_without_system_has_none(items@);
        }
        self.items = drop_system_messages(items);
    }

    pub fn items(&self) -> (r: &[Item])
        requires
            self.wf(),
        ensures
            r@ == self.spec_items(),
            holds_no_system(r@),
    {
        self.items.as_slice()
    }

    /// A copy of the items.
    pub fn to_items(&self) -> (r: Vec<Item>)
        ensures
            items_view(r@) == items_view(self.spec_items()),
    {
        clone_items(&self.items)
    }

    pub fn is_empty(&self) -> (r: bool)
        ensures
            r == (self.spec_items().len() == 0),
    {
        self.items.len() == 0
    }

    /// Whether anything was said yet.
    pub fn has_user_input(&self) -> (r: bool)
        ensures
            r == (self.spec_items().len() > 0),
    {
        self.items.len() > 0
    }

    /// Forgets the items and keeps the prompt.
    pub fn clear_history(&mut self)
        ensures
            final(self).wf(),
            final(self).spec_items() == Seq::<Item>::empty(),
            final(self).spec_prompt() == old(self).spec_prompt(),
    {
        self.items = Vec::new();
    }
}

} // verus!
