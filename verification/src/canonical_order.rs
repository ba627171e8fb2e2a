use vstd::prelude::*;
use vstd::relations::{sorted_by, total_ordering};
use vstd::seq_lib::lemma_sorted_unique;
use vstd::set_lib::lemma_subset_equality;
use crate::canonical::{canonical, canonical_items, canonical_members, insert_index, key_le, member_keys, sort_order};
use crate::json::JsonView;

verus! {

/// The key order as a relation.
pub open spec fn key_order() -> spec_fn(Seq<char>, Seq<char>) -> bool {
    |a: Seq<char>, b: Seq<char>| key_le(a, b)
}

/// The keys at the indices `o`.
pub open spec fn keyed(keys: Seq<Seq<char>>, o: Seq<int>) -> Seq<Seq<char>> {
    o.map_values(|i: int| keys[i])
}

proof fn lemma_key_le_refl(a: Seq<char>)
    ensures
        key_le(a, a),
    decreases a.len(),
{
    if a.len() > 0 {
        lemma_key_le_refl(a.drop_first());
    }
}

proof fn lemma_key_le_antisym(a: Seq<char>, b: Seq<char>)
    requires
        key_le(a, b),
        key_le(b, a),
    ensures
        a == b,
    decreases a.len(),
{
    if a.len() == 0 || b.len() == 0 {
        assert(a =~= b);
    } else if a[0] == b[0] {
        let a1 = a.drop_first();
        let b1 = b.drop_first();
        assert(key_le(a1, b1));
        assert(key_le(b1, a1));
        lemma_key_le_antisym(a1, b1);
        assert(a1.len() == b1.len());
        assert(a.len() == b.len());
        assert forall|i: int| 0 <= i < a.len() implies a[i] == b[i] by {
            if i > 0 {
                assert(a[i] == a1[i - 1]);
                assert(b[i] == b1[i - 1]);
            }
        }
        assert(a =~= b);
    }
}

proof fn lemma_key_le_trans(a: Seq<char>, b: Seq<char>, c: Seq<char>)
    requires
        key_le(a, b),
        key_le(b, c),
    ensures
        key_le(a, c),
    decreases a.len(),
{
    if a.len() > 0 && b.len() > 0 && c.len() > 0 && a[0] == b[0] && b[0] == c[0] {
        lemma_key_le_trans(a.drop_first(), b.drop_first(), c.drop_first());
    }
}

/// Distinct characters have distinct code points.
proof fn lemma_char_code_injective(x: char, y: char)
    ensures
        x != y ==> (x as u32) != (y as u32),
{
}

proof fn lemma_key_le_total(a: Seq<char>, b: Seq<char>)
    ensures
        key_le(a, b) || key_le(b, a),
    decreases a.len(),
{
    if a.len() > 0 && b.len() > 0 {
        if a[0] == b[0] {
            lemma_key_le_total(a.drop_first(), b.drop_first());
        } else {
            lemma_char_code_injective(a[0], b[0]);
        }
    }
}

/// Keys are totally ordered: the order is reflexive, antisymmetric,
/// transitive and relates any two keys.
pub proof fn lemma_key_order_total()
    ensures
        total_ordering(key_order()),
{
    let r = key_order();
    assert forall|x: Seq<char>| #[trigger] r(x, x) by {
        lemma_key_le_refl(x);
    }
    assert forall|x: Seq<char>, y: Seq<char>| #[trigger] r(x, y) && #[trigger] r(y, x) implies x == y by {
        lemma_key_le_antisym(x, y);
    }
    assert forall|x: Seq<char>, y: Seq<char>, z: Seq<char>| #[trigger] r(x, y) && #[trigger] r(y, z) implies r(
        x,
        z,
    ) by {
        lemma_key_le_trans(x, y, z);
    }
    assert forall|x: Seq<char>, y: Seq<char>| #[trigger] r(x, y) || #[trigger] r(y, x) by {
        lemma_key_le_total(x, y);
    }
}

proof fn lemma_keyed_push(keys: Seq<Seq<char>>, o: Seq<int>, j: int)
    ensures
        keyed(keys, o.push(j)) == keyed(keys, o).push(keys[j]),
{
    assert(keyed(keys, o.push(j)) =~= keyed(keys, o).push(keys[j]));
}

proof fn lemma_keyed_drop_last(keys: Seq<Seq<char>>, o: Seq<int>)
    requires
        o.len() > 0,
    ensures
        keyed(keys, o.drop_last()) == keyed(keys, o).drop_last(),
        keyed(keys, o) == keyed(keys, o.drop_last()).push(keys[o.last()]),
{
    assert(keyed(keys, o.drop_last()) =~= keyed(keys, o).drop_last());
    assert(keyed(keys, o) =~= keyed(keys, o.drop_last()).push(keys[o.last()]));
}

/// Inserting index `j` keeps the index list sorted by key, adds `keys[j]`
/// to its keys and keeps its indices below `bound`.
proof fn lemma_insert_index_props(keys: Seq<Seq<char>>, o: Seq<int>, j: int, bound: int)
    requires
        total_ordering(key_order()),
        sorted_by(keyed(keys, o), key_order()),
        0 <= j < bound,
        forall|t: int| 0 <= t < o.len() ==> 0 <= #[trigger] o[t] < bound,
    ensures
        sorted_by(keyed(keys, insert_index(keys, o, j)), key_order()),
        keyed(keys, insert_index(keys, o, j)).to_multiset() == keyed(keys, o).to_multiset().insert(keys[j]),
        forall|t: int|
            0 <= t < insert_index(keys, o, j).len() ==> 0 <= #[trigger] insert_index(keys, o, j)[t] < bound,
    decreases o.len(),
{
    broadcast use vstd::seq_lib::group_to_multiset_ensures;
    broadcast use vstd::multiset::group_multiset_axioms;

    let r = key_order();
    let ins = insert_index(keys, o, j);
    if o.len() == 0 {
        assert(ins == seq![j]);
        assert(keyed(keys, ins) =~= Seq::<Seq<char>>::empty().push(keys[j]));
        assert(keyed(keys, o) =~= Seq::<Seq<char>>::empty());
    } else if key_le(keys[o.last()], keys[j]) {
        assert(ins == o.push(j));
        lemma_keyed_push(keys, o, j);
        let ko = keyed(keys, o);
        let kn = keyed(keys, ins);
        assert forall|a: int, b: int| 0 <= a < b < kn.len() implies #[trigger] r(kn[a], kn[b]) by {
            if b < ko.len() {
                assert(kn[a] == ko[a] && kn[b] == ko[b]);
            } else {
                assert(kn[b] == keys[j]);
                assert(kn[a] == ko[a]);
                assert(ko.last() == keys[o.last()]);
                if a < ko.len() - 1 {
                    assert(r(ko[a], ko[ko.len() - 1]));
                }
                assert(r(ko[a], keys[o.last()]));
                assert(r(keys[o.last()], keys[j]));
            }
        }
    } else {
        let dl = o.drop_last();
        let l = o.last();
        assert(ins == insert_index(keys, dl, j).push(l));
        lemma_keyed_drop_last(keys, o);
        let ko = keyed(keys, o);
        let kd = keyed(keys, dl);
        assert(sorted_by(kd, r)) by {
            assert forall|a: int, b: int| 0 <= a < b < kd.len() implies #[trigger] r(kd[a], kd[b]) by {
                assert(kd[a] == ko[a] && kd[b] == ko[b]);
            }
        }
        assert forall|t: int| 0 <= t < dl.len() implies 0 <= #[trigger] dl[t] < bound by {
            assert(dl[t] == o[t]);
        }
        lemma_insert_index_props(keys, dl, j, bound);
        let ki = keyed(keys, insert_index(keys, dl, j));
        lemma_keyed_push(keys, insert_index(keys, dl, j), l);
        let kn = keyed(keys, ins);
        assert(kn == ki.push(keys[l]));
        // Every key of the shorter insertion is at most the last key.
        assert(r(keys[j], keys[l])) by {
            lemma_key_le_total(keys[l], keys[j]);
        }
        assert forall|x: Seq<char>| ki.contains(x) implies r(x, keys[l]) by {
            assert(ki.to_multiset().count(x) > 0);
            if x != keys[j] {
                assert(kd.to_multiset().count(x) > 0);
                assert(kd.contains(x));
                let p = choose|p: int| 0 <= p < kd.len() && kd[p] == x;
                assert(kd[p] == ko[p]);
                assert(ko[ko.len() - 1] == keys[l]);
                assert(r(ko[p], ko[ko.len() - 1]));
            }
        }
        assert forall|a: int, b: int| 0 <= a < b < kn.len() implies #[trigger] r(kn[a], kn[b]) by {
            if b < ki.len() {
                assert(kn[a] == ki[a] && kn[b] == ki[b]);
            } else {
                assert(kn[a] == ki[a]);
                assert(ki.contains(ki[a]));
            }
        }
        assert(kn.to_multiset() == ki.to_multiset().insert(keys[l]));
        assert(ko.to_multiset() == kd.to_multiset().insert(keys[l]));
        assert(kn.to_multiset() =~= ko.to_multiset().insert(keys[j]));
        assert forall|t: int| 0 <= t < ins.len() implies 0 <= #[trigger] ins[t] < bound by {
            if t < ins.len() - 1 {
                assert(ins[t] == insert_index(keys, dl, j)[t]);
            }
        }
    }
}

/// The stable insertion order of the first `n` keys sorts them by key, holds
/// exactly their keys, and only indices below `n`.
proof fn lemma_sort_order_props(keys: Seq<Seq<char>>, n: nat)
    requires
        total_ordering(key_order()),
        n <= keys.len(),
    ensures
        sorted_by(keyed(keys, sort_order(keys, n)), key_order()),
        keyed(keys, sort_order(keys, n)).to_multiset() == keys.subrange(0, n as int).to_multiset(),
        forall|t: int| 0 <= t < sort_order(keys, n).len() ==> 0 <= #[trigger] sort_order(keys, n)[t] < n,
    decreases n,
{
    broadcast use vstd::seq_lib::group_to_multiset_ensures;

    if n == 0 {
        assert(keyed(keys, Seq::<int>::empty()) =~= Seq::<Seq<char>>::empty());
        assert(keys.subrange(0, 0) =~= Seq::<Seq<char>>::empty());
    } else {
        let prev = sort_order(keys, (n - 1) as nat);
        lemma_sort_order_props(keys, (n - 1) as nat);
        lemma_insert_index_props(keys, prev, n - 1, n as int);
        assert(keys.subrange(0, n as int) =~= keys.subrange(0, n - 1).push(keys[n - 1]));
    }
}

/// Lists with the same members hold the same keys.
proof fn lemma_same_members_same_keys(m1: Seq<(Seq<char>, JsonView)>, m2: Seq<(Seq<char>, JsonView)>)
    requires
        m1.to_multiset() == m2.to_multiset(),
    ensures
        member_keys(m1).to_multiset() == member_keys(m2).to_multiset(),
    decreases m1.len(),
{
    broadcast use vstd::seq_lib::group_to_multiset_ensures;
    broadcast use vstd::multiset::group_multiset_axioms;

    if m1.len() == 0 {
        assert(m2.to_multiset().len() == 0);
        assert(m2.len() == 0);
        assert(member_keys(m1) =~= Seq::<Seq<char>>::empty());
        assert(member_keys(m2) =~= Seq::<Seq<char>>::empty());
    } else {
        let x = m1.last();
        let d1 = m1.drop_last();
        assert(m1 =~= d1.push(x));
        assert(m1.to_multiset().count(x) > 0);
        assert(m2.contains(x));
        let k = choose|k: int| 0 <= k < m2.len() && m2[k] == x;
        let d2 = m2.remove(k);
        assert(d2.to_multiset() == m2.to_multiset().remove(x));
        assert(d1.to_multiset() =~= d2.to_multiset());
        lemma_same_members_same_keys(d1, d2);
        assert(member_keys(m1) =~= member_keys(d1).push(x.0));
        assert(member_keys(m2) =~= member_keys(d2).insert(k, x.0));
        assert(member_keys(m1).to_multiset() =~= member_keys(m2).to_multiset());
    }
}

/// The `"key":value` texts agree when the members chosen at each position agree.
proof fn lemma_member_texts_agree(
    m1: Seq<(Seq<char>, JsonView)>,
    o1: Seq<int>,
    m2: Seq<(Seq<char>, JsonView)>,
    o2: Seq<int>,
    n: nat,
)
    requires
        n <= o1.len(),
        n <= o2.len(),
        forall|i: int| 0 <= i < n ==> 0 <= #[trigger] o1[i] < m1.len(),
        forall|i: int| 0 <= i < n ==> 0 <= #[trigger] o2[i] < m2.len(),
        forall|i: int| 0 <= i < n ==> m1[#[trigger] o1[i]] == m2[o2[i]],
    ensures
        canonical_members(m1, o1, n) == canonical_members(m2, o2, n),
    decreases n,
{
    if n > 0 {
        lemma_member_texts_agree(m1, o1, m2, o2, (n - 1) as nat);
        assert(m1[o1[n - 1]] == m2[o2[n - 1]]);
    }
}

/// The canonical text of an object does not depend on the order in which
/// its members are held: two lists of the same members, with no key twice,
/// give the same text.
pub proof fn lemma_canonical_ignores_member_order(
    m1: Seq<(Seq<char>, JsonView)>,
    m2: Seq<(Seq<char>, JsonView)>,
)
    requires
        m1.to_multiset() == m2.to_multiset(),
        member_keys(m1).no_duplicates(),
    ensures
        canonical(JsonView::Object(m1)) == canonical(JsonView::Object(m2)),
{
    broadcast use vstd::seq_lib::group_to_multiset_ensures;

    let n = m1.len();
    assert(m2.len() == m2.to_multiset().len());
    assert(m1.len() == m1.to_multiset().len());
    let k1 = member_keys(m1);
    let k2 = member_keys(m2);
    let o1 = sort_order(k1, n);
    let o2 = sort_order(k2, n);
    lemma_key_order_total();
    crate::canonical::lemma_sort_order_len(k1, n);
    crate::canonical::lemma_sort_order_len(k2, n);
    lemma_sort_order_props(k1, n);
    lemma_sort_order_props(k2, n);
    lemma_same_members_same_keys(m1, m2);
    assert(k1.subrange(0, n as int) =~= k1);
    assert(k2.subrange(0, n as int) =~= k2);
    lemma_sorted_unique(keyed(k1, o1), keyed(k2, o2), key_order());
    assert forall|i: int| 0 <= i < n implies m1[#[trigger] o1[i]] == m2[o2[i]] by {
        let y = m2[o2[i]];
        assert(m2.to_multiset().count(y) > 0);
        assert(m1.contains(y));
        let p = choose|p: int| 0 <= p < m1.len() && m1[p] == y;
        assert(keyed(k1, o1)[i] == keyed(k2, o2)[i]);
        assert(k1[p] == k2[o2[i]]);
        assert(k1[p] == k1[o1[i]]);
        assert(p == o1[i]);
    }
    lemma_member_texts_agree(m1, o1, m2, o2, n);
}

/// Two documents that serde_json holds as equal values: the same scalar,
/// arrays that agree item by item, or objects with the same keys, none held
/// twice, whose values at each key agree in this sense; at any depth and in
/// any member order.
pub open spec fn same_document(v1: JsonView, v2: JsonView) -> bool
    decreases v1, 0nat,
{
    match v1 {
        JsonView::Array(a1) => match v2 {
            JsonView::Array(a2) => a1.len() == a2.len() && same_items(a1, a2, a1.len()),
            _ => false,
        },
        JsonView::Object(m1) => match v2 {
            JsonView::Object(m2) => {
                &&& m1.len() == m2.len()
                &&& member_keys(m1).no_duplicates()
                &&& member_keys(m2).no_duplicates()
                &&& same_members(m1, m2, m1.len())
            },
            _ => false,
        },
        _ => v1 == v2,
    }
}

/// The first `n` items of `a1` agree with those of `a2` at the same positions.
pub open spec fn same_items(a1: Seq<JsonView>, a2: Seq<JsonView>, n: nat) -> bool
    decreases a1, n,
{
    if n == 0 || n > a1.len() {
        true
    } else {
        same_items(a1, a2, (n - 1) as nat) && same_document(a1[n - 1], a2[n - 1])
    }
}

/// Each of the first `n` members of `m1` has a member in `m2` with its key
/// and an agreeing value.
pub open spec fn same_members(m1: Seq<(Seq<char>, JsonView)>, m2: Seq<(Seq<char>, JsonView)>, n: nat) -> bool
    decreases m1, n,
{
    if n == 0 || n > m1.len() {
        true
    } else {
        &&& same_members(m1, m2, (n - 1) as nat)
        &&& member_keys(m2).contains(m1[n - 1].0)
        &&& same_document(m1[n - 1].1, m2[member_keys(m2).index_of(m1[n - 1].0)].1)
    }
}

proof fn lemma_same_members_at(m1: Seq<(Seq<char>, JsonView)>, m2: Seq<(Seq<char>, JsonView)>, n: nat, p: int)
    requires
        same_members(m1, m2, n),
        n <= m1.len(),
        0 <= p < n,
    ensures
        member_keys(m2).contains(m1[p].0),
        same_document(m1[p].1, m2[member_keys(m2).index_of(m1[p].0)].1),
    decreases n,
{
    if p < n - 1 {
        lemma_same_members_at(m1, m2, (n - 1) as nat, p);
    }
}

proof fn lemma_items_same_text(a1: Seq<JsonView>, a2: Seq<JsonView>, n: nat)
    requires
        same_items(a1, a2, n),
        a1.len() == a2.len(),
    ensures
        canonical_items(a1, n) == canonical_items(a2, n),
    decreases a1, n,
{
    if n == 0 || n > a1.len() {
    } else {
        lemma_items_same_text(a1, a2, (n - 1) as nat);
        lemma_canonical_same_document(a1[n - 1], a2[n - 1]);
    }
}

proof fn lemma_members_same_text(
    m1: Seq<(Seq<char>, JsonView)>,
    o1: Seq<int>,
    m2: Seq<(Seq<char>, JsonView)>,
    o2: Seq<int>,
    n: nat,
)
    requires
        n <= o1.len(),
        n <= o2.len(),
        forall|i: int| 0 <= i < n ==> 0 <= #[trigger] o1[i] < m1.len(),
        forall|i: int| 0 <= i < n ==> 0 <= #[trigger] o2[i] < m2.len(),
        forall|i: int| 0 <= i < n ==> m1[#[trigger] o1[i]].0 == m2[o2[i]].0,
        forall|i: int| 0 <= i < n ==> same_document(m1[#[trigger] o1[i]].1, m2[o2[i]].1),
    ensures
        canonical_members(m1, o1, n) == canonical_members(m2, o2, n),
    decreases m1, n,
{
    if n > 0 {
        lemma_members_same_text(m1, o1, m2, o2, (n - 1) as nat);
        let j = o1[n - 1];
        assert(0 <= j < m1.len());
        lemma_canonical_same_document(m1[j].1, m2[o2[n - 1]].1);
    }
}

/// Two key lists without repeats, of one length, where every key of the
/// first is in the second, hold the same keys.
proof fn lemma_unique_keys_same_multiset(k1: Seq<Seq<char>>, k2: Seq<Seq<char>>)
    requires
        k1.no_duplicates(),
        k2.no_duplicates(),
        k1.len() == k2.len(),
        forall|p: int| 0 <= p < k1.len() ==> k2.contains(#[trigger] k1[p]),
    ensures
        k1.to_multiset() == k2.to_multiset(),
{
    broadcast use vstd::seq_lib::group_to_multiset_ensures;
    broadcast use vstd::set::group_set_axioms;

    k1.unique_seq_to_set();
    k2.unique_seq_to_set();
    assert(k1.to_set().subset_of(k2.to_set()));
    lemma_subset_equality(k1.to_set(), k2.to_set());
    k1.lemma_multiset_has_no_duplicates();
    k2.lemma_multiset_has_no_duplicates();
    assert forall|x: Seq<char>| k1.to_multiset().count(x) == k2.to_multiset().count(x) by {
        assert(k1.to_set().contains(x) == k2.to_set().contains(x));
        if k1.contains(x) {
            assert(k2.contains(x));
        } else {
            assert(!k2.contains(x));
        }
    }
    assert(k1.to_multiset() =~= k2.to_multiset());
}

/// The canonical text of a document depends only on the value serde_json
/// holds: documents that agree at every depth, whatever the order in which
/// their objects hold their members, have the same text.
pub proof fn lemma_canonical_same_document(v1: JsonView, v2: JsonView)
    requires
        same_document(v1, v2),
    ensures
        canonical(v1) == canonical(v2),
    decreases v1, 0nat,
{
    broadcast use vstd::seq_lib::group_to_multiset_ensures;

    match v1 {
        JsonView::Array(a1) => match v2 {
            JsonView::Array(a2) => {
                lemma_items_same_text(a1, a2, a1.len());
            },
            _ => {},
        },
        JsonView::Object(m1) => match v2 {
            JsonView::Object(m2) => {
                let n = m1.len();
                let k1 = member_keys(m1);
                let k2 = member_keys(m2);
                assert forall|p: int| 0 <= p < k1.len() implies k2.contains(#[trigger] k1[p]) by {
                    lemma_same_members_at(m1, m2, n, p);
                }
                lemma_unique_keys_same_multiset(k1, k2);
                let o1 = sort_order(k1, n);
                let o2 = sort_order(k2, n);
                lemma_key_order_total();
                crate::canonical::lemma_sort_order_len(k1, n);
                crate::canonical::lemma_sort_order_len(k2, n);
                lemma_sort_order_props(k1, n);
                lemma_sort_order_props(k2, n);
                assert(k1.subrange(0, n as int) =~= k1);
                assert(k2.subrange(0, n as int) =~= k2);
                lemma_sorted_unique(keyed(k1, o1), keyed(k2, o2), key_order());
                assert forall|i: int| 0 <= i < n implies m1[#[trigger] o1[i]].0 == m2[o2[i]].0 && same_document(
                    m1[o1[i]].1,
                    m2[o2[i]].1,
                ) by {
                    assert(keyed(k1, o1)[i] == keyed(k2, o2)[i]);
                    let p = o1[i];
                    let q = o2[i];
                    assert(k1[p] == k2[q]);
                    lemma_same_members_at(m1, m2, n, p);
                    let j = k2.index_of(k1[p]);
                    assert(k2[j] == k1[p]);
                    assert(j == q);
                }
                lemma_members_same_text(m1, o1, m2, o2, n);
            },
            _ => {},
        },
        _ => {},
    }
}

} // verus!
