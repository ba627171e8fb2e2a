use vstd::prelude::*;

verus! {

/// A JSON number as serde_json holds it: a non-negative integer, a negative
/// integer, or a finite float, held by the shortest decimal text that
/// serde_json writes for it (which reads back to the same float).
#[derive(Debug)]
pub enum JsonNumber {
    PosInt(u64),
    NegInt(i64),
    Float(String),
}

impl Clone for JsonNumber {
    fn clone(&self) -> (r: Self)
        ensures
            r == *self,
    {
        match self {
            JsonNumber::PosInt(n) => JsonNumber::PosInt(*n),
            JsonNumber::NegInt(n) => JsonNumber::NegInt(*n),
            JsonNumber::Float(t) => JsonNumber::Float(t.clone()),
        }
    }
}

/// A JSON document. Object members keep the order in which they are held;
/// serde_json's default map keeps them sorted by key.
#[derive(Debug)]
pub enum JsonValue {
    Null,
    Bool(bool),
    Number(JsonNumber),
    String(String),
    Array(Vec<JsonValue>),
    Object(Vec<(String, JsonValue)>),
}

/// A JSON number over mathematical values.
pub enum NumberView {
    PosInt(u64),
    NegInt(i64),
    Float(Seq<char>),
}

/// A JSON document over mathematical values.
pub enum JsonView {
    Null,
    Bool(bool),
    Number(NumberView),
    String(Seq<char>),
    Array(Seq<JsonView>),
    Object(Seq<(Seq<char>, JsonView)>),
}

pub open spec fn number_view(n: JsonNumber) -> NumberView {
    match n {
        JsonNumber::PosInt(x) => NumberView::PosInt(x),
        JsonNumber::NegInt(x) => NumberView::NegInt(x),
        JsonNumber::Float(t) => NumberView::Float(t@),
    }
}

/// The mathematical value of a JSON document.
pub open spec fn json_view(v: JsonValue) -> JsonView
    decreases v, 0nat,
{
    match v {
        JsonValue::Null => JsonView::Null,
        JsonValue::Bool(b) => JsonView::Bool(b),
        JsonValue::Number(n) => JsonView::Number(number_view(n)),
        JsonValue::String(t) => JsonView::String(t@),
        JsonValue::Array(a) => JsonView::Array(json_views(a@, a@.len())),
        JsonValue::Object(m) => JsonView::Object(member_views(m@, m@.len())),
    }
}

/// The views of the first `n` documents.
pub open spec fn json_views(s: Seq<JsonValue>, n: nat) -> Seq<JsonView>
    decreases s, n,
{
    if n == 0 || n > s.len() {
        Seq::empty()
    } else {
        json_views(s, (n - 1) as nat).push(json_view(s[n - 1]))
    }
}

/// The views of the first `n` object members.
pub open spec fn member_views(s: Seq<(String, JsonValue)>, n: nat) -> Seq<(Seq<char>, JsonView)>
    decreases s, n,
{
    if n == 0 || n > s.len() {
        Seq::empty()
    } else {
        member_views(s, (n - 1) as nat).push((s[n - 1].0@, json_view(s[n - 1].1)))
    }
}

/// A copy of a JSON document.
#[verifier::loop_isolation(false)]
pub fn clone_json(v: &JsonValue) -> (r: JsonValue)
    ensures
        json_view(r) == json_view(*v),
    decreases v,
{
    match v {
        JsonValue::Null => JsonValue::Null,
        JsonValue::Bool(b) => JsonValue::Bool(*b),
        JsonValue::Number(n) => JsonValue::Number(n.clone()),
        JsonValue::String(t) => JsonValue::String(t.clone()),
        JsonValue::Array(a) => {
            let mut out: Vec<JsonValue> = Vec::new();
            let mut i: usize = 0;
            while i < a.len()
                invariant
                    i <= a@.len(),
                    out@.len() == i,
                    json_views(out@, i as nat) == json_views(a@, i as nat),
                decreases a@.len() - i,
            {
                proof {
                    broadcast use vstd::std_specs::vec::axiom_vec_index_decreases;
                    assert(decreases_to!(*a => a[i as int]));
                    assert(decreases_to!(*v => a[i as int]));
                }
                let c = clone_json(&a[i]);
                let ghost old_out = out@;
                out.push(c);
                proof {
                    lemma_json_views_prefix(old_out, out@, i as nat);
                    lemma_json_views_prefix(a@.subrange(0, i as int), a@, i as nat);
                }
                i = i + 1;
            }
            JsonValue::Array(out)
        },
        JsonValue::Object(m) => {
            let mut out: Vec<(String, JsonValue)> = Vec::new();
            let mut i: usize = 0;
            while i < m.len()
                invariant
                    i <= m@.len(),
                    out@.len() == i,
                    member_views(out@, i as nat) == member_views(m@, i as nat),
                decreases m@.len() - i,
            {
                proof {
                    broadcast use vstd::std_specs::vec::axiom_vec_index_decreases;
                    assert(decreases_to!(*m => m[i as int]));
                    assert(decreases_to!(*v => m[i as int].1));
                }
                let e = (m[i].0.clone(), clone_json(&m[i].1));
                let ghost old_out = out@;
                out.push(e);
                proof {
                    lemma_member_views_prefix(old_out, out@, i as nat);
                }
                i = i + 1;
            }
            JsonValue::Object(out)
        },
    }
}

/// Each of the first `n` member views is the view of that member.
pub proof fn lemma_member_views_index(s: Seq<(String, JsonValue)>, n: nat)
    requires
        n <= s.len(),
    ensures
        member_views(s, n).len() == n,
        forall|i: int| 0 <= i < n ==> #[trigger] member_views(s, n)[i] == (s[i].0@, json_view(s[i].1)),
    decreases n,
{
    if n > 0 {
        lemma_member_views_index(s, (n - 1) as nat);
    }
}

/// Each of the first `n` document views is the view of that document.
pub proof fn lemma_json_views_index(s: Seq<JsonValue>, n: nat)
    requires
        n <= s.len(),
    ensures
        json_views(s, n).len() == n,
        forall|i: int| 0 <= i < n ==> #[trigger] json_views(s, n)[i] == json_view(s[i]),
    decreases n,
{
    if n > 0 {
        lemma_json_views_index(s, (n - 1) as nat);
    }
}

/// The value of the first member named `k`, as `serde_json` looks it up.
pub open spec fn member_lookup(m: Seq<(Seq<char>, JsonView)>, k: Seq<char>) -> Option<JsonView>
    decreases m.len(),
{
    if m.len() == 0 {
        None
    } else if m[0].0 == k {
        Some(m[0].1)
    } else {
        member_lookup(m.drop_first(), k)
    }
}

/// The field `k` of an object; nothing for other documents.
pub open spec fn field(v: JsonView, k: Seq<char>) -> Option<JsonView> {
    match v {
        JsonView::Object(m) => member_lookup(m, k),
        _ => None,
    }
}

/// The field `key` of an object (`serde_json::Value::get`).
pub fn json_get<'a>(v: &'a JsonValue, key: &str) -> (r: Option<&'a JsonValue>)
    ensures
        r matches Some(x) ==> field(json_view(*v), key@) == Some(json_view(*x)),
        r is None ==> field(json_view(*v), key@) is None,
{
    match v {
        JsonValue::Object(m) => {
            let k = key.to_string();
            let ghost views = member_views(m@, m@.len());
            proof {
                lemma_member_views_index(m@, m@.len());
                assert(views.skip(0) =~= views);
                assert(json_view(*v) == JsonView::Object(views));
            }
            let mut i: usize = 0;
            while i < m.len()
                invariant
                    i <= m@.len(),
                    k@ == key@,
                    views == member_views(m@, m@.len()),
                    views.len() == m@.len(),
                    json_view(*v) == JsonView::Object(views),
                    forall|j: int| 0 <= j < m@.len() ==> #[trigger] views[j] == (m@[j].0@, json_view(m@[j].1)),
                    member_lookup(views, key@) == member_lookup(views.skip(i as int), key@),
                decreases m@.len() - i,
            {
                assert(views.skip(i as int)[0] == views[i as int]);
                if m[i].0 == k {
                    assert(member_lookup(views.skip(i as int), key@) == Some(json_view(m@[i as int].1)));
                    return Some(&m[i].1);
                }
                assert(views.skip(i as int).drop_first() =~= views.skip(i + 1));
                i = i + 1;
            }
            None
        },
        _ => None,
    }
}

/// `k` names a member of `m`.
pub open spec fn has_key(m: Seq<(Seq<char>, JsonView)>, k: Seq<char>) -> bool {
    member_lookup(m, k) is Some
}

/// A deep merge of `over` into `base`: two objects merge member by member
/// (a member of both merges its two values, a member of one side is kept);
/// in every other case `over` replaces `base`.
pub open spec fn merge_view(base: JsonView, over: JsonView) -> JsonView
    decreases base, 0nat,
{
    match (base, over) {
        (JsonView::Object(bm), JsonView::Object(om)) => JsonView::Object(
            merged_members(bm, om, bm.len()) + added_members(om, bm, om.len()),
        ),
        _ => over,
    }
}

/// The first `n` members of `bm`, each merged with the member of `om` of
/// the same name when there is one.
pub open spec fn merged_members(
    bm: Seq<(Seq<char>, JsonView)>,
    om: Seq<(Seq<char>, JsonView)>,
    n: nat,
) -> Seq<(Seq<char>, JsonView)>
    decreases bm, n,
{
    if n == 0 || n > bm.len() {
        Seq::empty()
    } else {
        let prev = merged_members(bm, om, (n - 1) as nat);
        let k = bm[n - 1].0;
        match member_lookup(om, k) {
            Some(ov) => prev.push((k, merge_view(bm[n - 1].1, ov))),
            None => prev.push(bm[n - 1]),
        }
    }
}

/// The first `n` members of `om` whose names `bm` lacks.
pub open spec fn added_members(
    om: Seq<(Seq<char>, JsonView)>,
    bm: Seq<(Seq<char>, JsonView)>,
    n: nat,
) -> Seq<(Seq<char>, JsonView)>
    decreases n,
{
    if n == 0 || n > om.len() {
        Seq::empty()
    } else {
        let prev = added_members(om, bm, (n - 1) as nat);
        if has_key(bm, om[n - 1].0) {
            prev
        } else {
            prev.push(om[n - 1])
        }
    }
}

/// Whether an object has a member named `k` (by index into `m`).
fn members_have_key(m: &Vec<(String, JsonValue)>, k: &String) -> (r: Option<usize>)
    ensures
        r matches Some(i) ==> i < m@.len() && m@[i as int].0@ == k@ && member_lookup(
            member_views(m@, m@.len()),
            k@,
        ) == Some(json_view(m@[i as int].1)),
        r is None ==> member_lookup(member_views(m@, m@.len()), k@) is None,
{
    let ghost views = member_views(m@, m@.len());
    proof {
        lemma_member_views_index(m@, m@.len());
        assert(views.skip(0) =~= views);
    }
    let mut i: usize = 0;
    while i < m.len()
        invariant
            i <= m@.len(),
            views == member_views(m@, m@.len()),
            views.len() == m@.len(),
            forall|j: int| 0 <= j < m@.len() ==> #[trigger] views[j] == (m@[j].0@, json_view(m@[j].1)),
            member_lookup(views, k@) == member_lookup(views.skip(i as int), k@),
        decreases m@.len() - i,
    {
        assert(views.skip(i as int)[0] == views[i as int]);
        if m[i].0 == *k {
            return Some(i);
        }
        assert(views.skip(i as int).drop_first() =~= views.skip(i + 1));
        i = i + 1;
    }
    None
}

/// Deep merge of `over` into `base` (see `merge_view`).
#[verifier::loop_isolation(false)]
pub fn merge_json(base: &JsonValue, over: &JsonValue) -> (r: JsonValue)
    ensures
        json_view(r) == merge_view(json_view(*base), json_view(*over)),
    decreases base,
{
    match (base, over) {
        (JsonValue::Object(bm), JsonValue::Object(om)) => {
            let ghost bv = member_views(bm@, bm@.len());
            let ghost ov = member_views(om@, om@.len());
            proof {
                lemma_member_views_index(bm@, bm@.len());
                lemma_member_views_index(om@, om@.len());
            }
            let mut out: Vec<(String, JsonValue)> = Vec::new();
            let mut i: usize = 0;
            while i < bm.len()
                invariant
                    i <= bm@.len(),
                    out@.len() == i,
                    member_views(out@, i as nat) == merged_members(bv, ov, i as nat),
                decreases bm@.len() - i,
            {
                proof {
                    broadcast use vstd::std_specs::vec::axiom_vec_index_decreases;
                    assert(decreases_to!(*bm => bm[i as int]));
                    assert(decreases_to!(*base => bm[i as int].1));
                }
                let k = bm[i].0.clone();
                let v = match members_have_key(om, &k) {
                    Some(j) => merge_json(&bm[i].1, &om[j].1),
                    None => clone_json(&bm[i].1),
                };
                let ghost old_out = out@;
                out.push((k, v));
                proof {
                    lemma_member_views_prefix(old_out, out@, i as nat);
                    assert(bv[i as int] == (bm@[i as int].0@, json_view(bm@[i as int].1)));
                }
                i = i + 1;
            }
            let ghost n0 = out@.len();
            let mut j: usize = 0;
            while j < om.len()
                invariant
                    j <= om@.len(),
                    n0 == bm@.len(),
                    out@.len() >= n0,
                    member_views(out@, n0 as nat) == merged_members(bv, ov, bm@.len()),
                    member_views(out@, out@.len()) == merged_members(bv, ov, bm@.len()) + added_members(
                        ov,
                        bv,
                        j as nat,
                    ),
                decreases om@.len() - j,
            {
                let k = &om[j].0;
                let ghost old_out = out@;
                match members_have_key(bm, k) {
                    Some(_) => {},
                    None => {
                        out.push((k.clone(), clone_json(&om[j].1)));
                        proof {
                            lemma_member_views_prefix(old_out, out@, old_out.len() as nat);
                            lemma_member_views_prefix(old_out, out@, n0 as nat);
                        }
                    },
                }
                proof {
                    assert(ov[j as int] == (om@[j as int].0@, json_view(om@[j as int].1)));
                }
                j = j + 1;
            }
            JsonValue::Object(out)
        },
        _ => clone_json(over),
    }
}

/// Whether two documents have the same value.
#[verifier::loop_isolation(false)]
pub fn json_eq(a: &JsonValue, b: &JsonValue) -> (r: bool)
    ensures
        r == (json_view(*a) == json_view(*b)),
    decreases a,
{
    match (a, b) {
        (JsonValue::Null, JsonValue::Null) => true,
        (JsonValue::Bool(x), JsonValue::Bool(y)) => *x == *y,
        (JsonValue::Number(x), JsonValue::Number(y)) => match (x, y) {
            (JsonNumber::PosInt(p), JsonNumber::PosInt(q)) => *p == *q,
            (JsonNumber::NegInt(p), JsonNumber::NegInt(q)) => *p == *q,
            (JsonNumber::Float(p), JsonNumber::Float(q)) => *p == *q,
            _ => false,
        },
        (JsonValue::String(x), JsonValue::String(y)) => *x == *y,
        (JsonValue::Array(x), JsonValue::Array(y)) => {
            proof {
                lemma_json_views_index(x@, x@.len());
                lemma_json_views_index(y@, y@.len());
            }
            if x.len() != y.len() {
                return false;
            }
            let mut i: usize = 0;
            while i < x.len()
                invariant
                    i <= x@.len(),
                    x@.len() == y@.len(),
                    forall|j: int| 0 <= j < i ==> json_view(#[trigger] x@[j]) == json_view(y@[j]),
                decreases x@.len() - i,
            {
                proof {
                    broadcast use vstd::std_specs::vec::axiom_vec_index_decreases;
                    assert(decreases_to!(*x => x[i as int]));
                    assert(decreases_to!(*a => x[i as int]));
                }
                if !json_eq(&x[i], &y[i]) {
                    assert(json_views(x@, x@.len())[i as int] != json_views(y@, y@.len())[i as int]);
                    return false;
                }
                i = i + 1;
            }
            assert(json_views(x@, x@.len()) =~= json_views(y@, y@.len()));
            true
        },
        (JsonValue::Object(x), JsonValue::Object(y)) => {
            proof {
                lemma_member_views_index(x@, x@.len());
                lemma_member_views_index(y@, y@.len());
            }
            if x.len() != y.len() {
                return false;
            }
            let mut i: usize = 0;
            while i < x.len()
                invariant
                    i <= x@.len(),
                    x@.len() == y@.len(),
                    forall|j: int|
                        0 <= j < i ==> (#[trigger] x@[j]).0@ == y@[j].0@ && json_view(x@[j].1) == json_view(y@[j].1),
                decreases x@.len() - i,
            {
                proof {
                    broadcast use vstd::std_specs::vec::axiom_vec_index_decreases;
                    assert(decreases_to!(*x => x[i as int]));
                    assert(decreases_to!(*a => x[i as int].1));
                }
                if x[i].0 != y[i].0 || !json_eq(&x[i].1, &y[i].1) {
                    assert(member_views(x@, x@.len())[i as int] != member_views(y@, y@.len())[i as int]);
                    return false;
                }
                i = i + 1;
            }
            assert(member_views(x@, x@.len()) =~= member_views(y@, y@.len()));
            true
        },
        _ => false,
    }
}

proof fn lemma_lookup_push(s: Seq<(Seq<char>, JsonView)>, x: (Seq<char>, JsonView), k: Seq<char>)
    ensures
        member_lookup(s.push(x), k) == (if member_lookup(s, k) is Some {
            member_lookup(s, k)
        } else if x.0 == k {
            Some(x.1)
        } else {
            None
        }),
    decreases s.len(),
{
    if s.len() > 0 {
        assert(s.push(x).drop_first() =~= s.drop_first().push(x));
        assert(s.push(x)[0] == s[0]);
        lemma_lookup_push(s.drop_first(), x, k);
        if s[0].0 != k {
            assert(member_lookup(s, k) == member_lookup(s.drop_first(), k));
            assert(member_lookup(s.push(x), k) == member_lookup(s.drop_first().push(x), k));
        }
    } else {
        assert(s.push(x).drop_first() =~= Seq::<(Seq<char>, JsonView)>::empty());
        assert(s.push(x)[0] == x);
        assert(member_lookup(Seq::<(Seq<char>, JsonView)>::empty(), k) is None);
        assert(member_lookup(s, k) is None);
    }
}

proof fn lemma_lookup_concat(a: Seq<(Seq<char>, JsonView)>, b: Seq<(Seq<char>, JsonView)>, k: Seq<char>)
    ensures
        member_lookup(a + b, k) == (if member_lookup(a, k) is Some {
            member_lookup(a, k)
        } else {
            member_lookup(b, k)
        }),
    decreases a.len(),
{
    if a.len() > 0 {
        assert((a + b).drop_first() =~= a.drop_first() + b);
        assert((a + b)[0] == a[0]);
        lemma_lookup_concat(a.drop_first(), b, k);
    } else {
        assert(a + b =~= b);
    }
}

proof fn lemma_lookup_merged(bm: Seq<(Seq<char>, JsonView)>, om: Seq<(Seq<char>, JsonView)>, n: nat, k: Seq<char>)
    requires
        n <= bm.len(),
    ensures
        member_lookup(merged_members(bm, om, n), k) == (match member_lookup(bm.take(n as int), k) {
            Some(bv) => Some(
                match member_lookup(om, k) {
                    Some(ov) => merge_view(bv, ov),
                    None => bv,
                },
            ),
            None => None,
        }),
    decreases n,
{
    if n == 0 {
        assert(bm.take(0) =~= Seq::<(Seq<char>, JsonView)>::empty());
    } else {
        lemma_lookup_merged(bm, om, (n - 1) as nat, k);
        let x = bm[n - 1];
        assert(bm.take(n as int) =~= bm.take(n - 1).push(x));
        lemma_lookup_push(bm.take(n - 1), x, k);
        let prev = merged_members(bm, om, (n - 1) as nat);
        match member_lookup(om, x.0) {
            Some(ov) => lemma_lookup_push(prev, (x.0, merge_view(x.1, ov)), k),
            None => lemma_lookup_push(prev, x, k),
        }
    }
}

proof fn lemma_lookup_added(om: Seq<(Seq<char>, JsonView)>, bm: Seq<(Seq<char>, JsonView)>, n: nat, k: Seq<char>)
    requires
        n <= om.len(),
    ensures
        member_lookup(added_members(om, bm, n), k) == (if has_key(bm, k) {
            None
        } else {
            member_lookup(om.take(n as int), k)
        }),
    decreases n,
{
    if n == 0 {
        assert(om.take(0) =~= Seq::<(Seq<char>, JsonView)>::empty());
    } else {
        lemma_lookup_added(om, bm, (n - 1) as nat, k);
        let x = om[n - 1];
        assert(om.take(n as int) =~= om.take(n - 1).push(x));
        lemma_lookup_push(om.take(n - 1), x, k);
        if !has_key(bm, x.0) {
            lemma_lookup_push(added_members(om, bm, (n - 1) as nat), x, k);
        }
    }
}

/// Merging overrides per key: a key of the override gets the override's
/// value, merged into the base's value when the base has one; a key only
/// the base has keeps its value.
pub proof fn lemma_merge_field(bm: Seq<(Seq<char>, JsonView)>, om: Seq<(Seq<char>, JsonView)>, k: Seq<char>)
    ensures
        field(merge_view(JsonView::Object(bm), JsonView::Object(om)), k) == (match member_lookup(om, k) {
            Some(ov) => Some(
                match member_lookup(bm, k) {
                    Some(bv) => merge_view(bv, ov),
                    None => ov,
                },
            ),
            None => member_lookup(bm, k),
        }),
{
    let merged = merged_members(bm, om, bm.len());
    let added = added_members(om, bm, om.len());
    lemma_lookup_concat(merged, added, k);
    lemma_lookup_merged(bm, om, bm.len(), k);
    lemma_lookup_added(om, bm, om.len(), k);
    assert(bm.take(bm.len() as int) =~= bm);
    assert(om.take(om.len() as int) =~= om);
}

/// A merge with a value that is not an object replaces the base.
pub proof fn lemma_merge_scalar_replaces(base: JsonView, over: JsonView)
    requires
        !(over is Object) || !(base is Object),
    ensures
        merge_view(base, over) == over,
{
}

pub proof fn lemma_json_views_prefix(s: Seq<JsonValue>, t: Seq<JsonValue>, n: nat)
    requires
        n <= s.len(),
        n <= t.len(),
        forall|i: int| 0 <= i < n ==> s[i] == t[i],
    ensures
        json_views(s, n) == json_views(t, n),
    decreases n,
{
    if n > 0 {
        lemma_json_views_prefix(s, t, (n - 1) as nat);
    }
}

pub proof fn lemma_member_views_prefix(s: Seq<(String, JsonValue)>, t: Seq<(String, JsonValue)>, n: nat)
    requires
        n <= s.len(),
        n <= t.len(),
        forall|i: int| 0 <= i < n ==> s[i] == t[i],
    ensures
        member_views(s, n) == member_views(t, n),
    decreases n,
{
    if n > 0 {
        lemma_member_views_prefix(s, t, (n - 1) as nat);
    }
}

} // verus!
