use vstd::prelude::*;
use vstd::relations::{sorted_by, total_ordering};
use vstd::seq_lib::lemma_sorted_unique;
use crate::hook_manager::{describes, is_subscriber_list, listed, runs_before, sub_matches, SubscriberRef};
use crate::hooks::{ExtensionMetadata, HookKind};

verus! {

/// Where a subscriber stands in dispatch order: its priority, its
/// extension's load position, its position among the extension's
/// subscriptions.
pub open spec fn dispatch_key(r: SubscriberRef) -> (int, int, int) {
    (r.priority as int, r.plugin as int, r.sub as int)
}

/// The lexicographic order of dispatch keys.
pub open spec fn dispatch_leq() -> spec_fn((int, int, int), (int, int, int)) -> bool {
    |x: (int, int, int), y: (int, int, int)| x.0 < y.0 || (x.0 == y.0 && (x.1 < y.1 || (x.1 == y.1 && x.2 <= y.2)))
}

proof fn lemma_dispatch_leq_total()
    ensures
        total_ordering(dispatch_leq()),
{
    let r = dispatch_leq();
    assert forall|x: (int, int, int)| #[trigger] r(x, x) by {}
    assert forall|x: (int, int, int), y: (int, int, int)| #[trigger] r(x, y) && #[trigger] r(y, x) implies x == y by {}
    assert forall|x: (int, int, int), y: (int, int, int), z: (int, int, int)| #[trigger] r(x, y) && #[trigger] r(
        y,
        z,
    ) implies r(x, z) by {}
    assert forall|x: (int, int, int), y: (int, int, int)| #[trigger] r(x, y) || #[trigger] r(y, x) by {}
}

pub open spec fn dispatch_keys(out: Seq<SubscriberRef>) -> Seq<(int, int, int)> {
    out.map_values(|r: SubscriberRef| dispatch_key(r))
}

/// The keys of a subscriber list are sorted and distinct.
proof fn lemma_keys_sorted_distinct(
    plugins: Seq<ExtensionMetadata>,
    hook: Seq<char>,
    kind: HookKind,
    out: Seq<SubscriberRef>,
)
    requires
        is_subscriber_list(plugins, hook, kind, out),
    ensures
        sorted_by(dispatch_keys(out), dispatch_leq()),
        dispatch_keys(out).no_duplicates(),
{
    let k = dispatch_keys(out);
    assert forall|i: int, j: int| 0 <= i < j < k.len() implies #[trigger] (dispatch_leq())(k[i], k[j]) by {
        assert(runs_before(out[i], out[j]));
    }
    assert forall|i: int, j: int| 0 <= i < k.len() && 0 <= j < k.len() && i != j implies k[i] != k[j] by {
        if i < j {
            assert(runs_before(out[i], out[j]));
        } else {
            assert(runs_before(out[j], out[i]));
        }
    }
}

/// A key is in a subscriber list exactly when it is the key of a matching
/// subscription.
proof fn lemma_keys_contain(
    plugins: Seq<ExtensionMetadata>,
    hook: Seq<char>,
    kind: HookKind,
    a: Seq<SubscriberRef>,
    b: Seq<SubscriberRef>,
    x: (int, int, int),
)
    requires
        is_subscriber_list(plugins, hook, kind, a),
        is_subscriber_list(plugins, hook, kind, b),
        dispatch_keys(a).contains(x),
    ensures
        dispatch_keys(b).contains(x),
{
    let i = choose|i: int| 0 <= i < dispatch_keys(a).len() && dispatch_keys(a)[i] == x;
    let r = a[i];
    assert(describes(plugins, r));
    assert(sub_matches(plugins, r.plugin as int, r.sub as int, hook, kind));
    assert(listed(b, r.plugin as int, r.sub as int));
    let j = choose|j: int| 0 <= j < b.len() && b[j].plugin == r.plugin as int && b[j].sub == r.sub as int;
    assert(describes(plugins, b[j]));
    assert(dispatch_keys(b)[j] == x);
}

/// The dispatch order of a hook is determined by the extensions'
/// declarations alone: any two lists of the subscribers of a hook as one
/// kind are the same list, so the subscribers run in one order only.
pub proof fn lemma_subscriber_list_unique(
    plugins: Seq<ExtensionMetadata>,
    hook: Seq<char>,
    kind: HookKind,
    a: Seq<SubscriberRef>,
    b: Seq<SubscriberRef>,
)
    requires
        is_subscriber_list(plugins, hook, kind, a),
        is_subscriber_list(plugins, hook, kind, b),
    ensures
        a == b,
{
    broadcast use vstd::seq_lib::group_to_multiset_ensures;
    broadcast use vstd::multiset::group_multiset_axioms;

    let ka = dispatch_keys(a);
    let kb = dispatch_keys(b);
    lemma_dispatch_leq_total();
    lemma_keys_sorted_distinct(plugins, hook, kind, a);
    lemma_keys_sorted_distinct(plugins, hook, kind, b);
    ka.lemma_multiset_has_no_duplicates();
    kb.lemma_multiset_has_no_duplicates();
    assert forall|x: (int, int, int)| ka.to_multiset().count(x) == kb.to_multiset().count(x) by {
        if ka.contains(x) {
            lemma_keys_contain(plugins, hook, kind, a, b, x);
        }
        if kb.contains(x) {
            lemma_keys_contain(plugins, hook, kind, b, a, x);
        }
    }
    assert(ka.to_multiset() =~= kb.to_multiset());
    lemma_sorted_unique(ka, kb, dispatch_leq());
    assert(a.len() == b.len());
    assert forall|i: int| 0 <= i < a.len() implies a[i] == b[i] by {
        assert(ka[i] == kb[i]);
        assert(describes(plugins, a[i]));
        assert(describes(plugins, b[i]));
    }
    assert(a =~= b);
}

} // verus!
