use vstd::prelude::*;
use crate::json::{json_view, json_views, lemma_json_views_index, lemma_member_views_index, member_views, JsonNumber, JsonValue, JsonView, NumberView};
use crate::text::{decimal, push_char, push_i64_decimal, push_str, push_u64_decimal, signed_decimal, str_chars};
use sha2::Digest;

verus! {

/// Key order of JSON objects: lexicographic by code point, as `String`
/// orders UTF-8 text.
pub open spec fn key_le(a: Seq<char>, b: Seq<char>) -> bool
    decreases a.len(),
{
    if a.len() == 0 {
        true
    } else if b.len() == 0 {
        false
    } else if a[0] != b[0] {
        (a[0] as u32) < (b[0] as u32)
    } else {
        key_le(a.drop_first(), b.drop_first())
    }
}

fn str_le(a: &Vec<char>, b: &Vec<char>) -> (r: bool)
    ensures
        r == key_le(a@, b@),
{
    let mut i: usize = 0;
    assert(a@.skip(0) =~= a@);
    assert(b@.skip(0) =~= b@);
    while i < a.len() && i < b.len() && a[i] == b[i]
        invariant
            i <= a@.len(),
            i <= b@.len(),
            key_le(a@, b@) == key_le(a@.skip(i as int), b@.skip(i as int)),
        decreases a@.len() - i,
    {
        assert(a@.skip(i as int).drop_first() =~= a@.skip(i + 1));
        assert(b@.skip(i as int).drop_first() =~= b@.skip(i + 1));
        i = i + 1;
    }
    if i == a.len() {
        return true;
    }
    if i == b.len() {
        return false;
    }
    assert(a@.skip(i as int)[0] == a@[i as int]);
    assert(b@.skip(i as int)[0] == b@[i as int]);
    (a[i] as u32) < (b[i] as u32)
}

/// `j` inserted into the sorted index list `o` after every index whose key
/// is at most its own (a stable insertion).
pub open spec fn insert_index(keys: Seq<Seq<char>>, o: Seq<int>, j: int) -> Seq<int>
    decreases o.len(),
{
    if o.len() == 0 {
        seq![j]
    } else if key_le(keys[o.last()], keys[j]) {
        o.push(j)
    } else {
        insert_index(keys, o.drop_last(), j).push(o.last())
    }
}

/// The indices `0..n` stably sorted by their keys.
pub open spec fn sort_order(keys: Seq<Seq<char>>, n: nat) -> Seq<int>
    decreases n,
{
    if n == 0 {
        Seq::empty()
    } else {
        insert_index(keys, sort_order(keys, (n - 1) as nat), n - 1)
    }
}

proof fn lemma_insert_len(keys: Seq<Seq<char>>, o: Seq<int>, j: int)
    ensures
        insert_index(keys, o, j).len() == o.len() + 1,
    decreases o.len(),
{
    if o.len() > 0 && !key_le(keys[o.last()], keys[j]) {
        lemma_insert_len(keys, o.drop_last(), j);
    }
}

pub proof fn lemma_sort_order_len(keys: Seq<Seq<char>>, n: nat)
    ensures
        sort_order(keys, n).len() == n,
    decreases n,
{
    if n > 0 {
        lemma_sort_order_len(keys, (n - 1) as nat);
        lemma_insert_len(keys, sort_order(keys, (n - 1) as nat), n - 1);
    }
}

proof fn lemma_insert_at(keys: Seq<Seq<char>>, o: Seq<int>, j: int, k: int)
    requires
        0 <= k <= o.len(),
        forall|t: int| k <= t < o.len() ==> !key_le(keys[#[trigger] o[t]], keys[j]),
        k > 0 ==> key_le(keys[o[k - 1]], keys[j]),
    ensures
        insert_index(keys, o, j) == o.insert(k, j),
    decreases o.len(),
{
    if o.len() == 0 {
        assert(o.insert(k, j) =~= seq![j]);
    } else if k == o.len() {
        assert(o.insert(k, j) =~= o.push(j));
    } else {
        assert(!key_le(keys[o.last()], keys[j]));
        lemma_insert_at(keys, o.drop_last(), j, k);
        assert(o.drop_last().insert(k, j).push(o.last()) =~= o.insert(k, j));
    }
}

/// The keys of an object's members.
pub open spec fn member_keys(m: Seq<(Seq<char>, JsonView)>) -> Seq<Seq<char>> {
    m.map_values(|e: (Seq<char>, JsonView)| e.0)
}

/// A JSON string literal: quotes around the text with `"`, `\` and control
/// characters escaped (`\b \t \n \f \r`, else `\u00XX` in lower-case hex).
pub open spec fn escape_char(c: char) -> Seq<char> {
    if c == '"' {
        seq!['\\', '"']
    } else if c == '\\' {
        seq!['\\', '\\']
    } else if c == '\u{8}' {
        seq!['\\', 'b']
    } else if c == '\t' {
        seq!['\\', 't']
    } else if c == '\n' {
        seq!['\\', 'n']
    } else if c == '\u{c}' {
        seq!['\\', 'f']
    } else if c == '\r' {
        seq!['\\', 'r']
    } else if (c as u32) < 0x20 {
        seq!['\\', 'u', '0', '0', hex_digit_char((c as u32 / 16) as nat), hex_digit_char((c as u32 % 16) as nat)]
    } else {
        seq![c]
    }
}

pub open spec fn hex_digit_char(d: nat) -> char {
    if d < 10 { ((48 + d) as int) as char } else { ((87 + d) as int) as char }
}

pub open spec fn escaped(s: Seq<char>) -> Seq<char>
    decreases s.len(),
{
    if s.len() == 0 {
        Seq::empty()
    } else {
        escaped(s.drop_last()) + escape_char(s.last())
    }
}

pub open spec fn json_quoted(s: Seq<char>) -> Seq<char> {
    seq!['"'] + escaped(s) + seq!['"']
}

/// `serde_json::to_string` of a string: the JSON string literal.
#[verifier::external_body]
fn json_quote(s: &str) -> (r: String)
    ensures
        r@ == json_quoted(s@),
{
    match serde_json::to_string(s) {
        Ok(t) => t,
        Err(_) => String::new(),
    }
}

/// The text of a JSON number.
pub open spec fn number_text(n: NumberView) -> Seq<char> {
    match n {
        NumberView::PosInt(x) => decimal(x as nat),
        NumberView::NegInt(x) => signed_decimal(x as int),
        NumberView::Float(t) => t,
    }
}

/// Joins texts with commas.
pub open spec fn comma_join(parts: Seq<Seq<char>>) -> Seq<char>
    decreases parts.len(),
{
    if parts.len() == 0 {
        Seq::empty()
    } else if parts.len() == 1 {
        parts[0]
    } else {
        comma_join(parts.drop_last()) + seq![','] + parts.last()
    }
}

/// The canonical text of a JSON document: no white space, object members
/// sorted by key (equal keys keep their order).
pub open spec fn canonical(v: JsonView) -> Seq<char>
    decreases v, 0nat,
{
    match v {
        JsonView::Null => "null"@,
        JsonView::Bool(b) => if b { "true"@ } else { "false"@ },
        JsonView::Number(n) => number_text(n),
        JsonView::String(s) => json_quoted(s),
        JsonView::Array(a) => seq!['['] + comma_join(canonical_items(a, a.len())) + seq![']'],
        JsonView::Object(m) => seq!['{'] + comma_join(
            canonical_members(m, sort_order(member_keys(m), m.len()), m.len()),
        ) + seq!['}'],
    }
}

/// The canonical texts of the first `n` items.
pub open spec fn canonical_items(a: Seq<JsonView>, n: nat) -> Seq<Seq<char>>
    decreases a, n,
{
    if n == 0 || n > a.len() {
        Seq::empty()
    } else {
        canonical_items(a, (n - 1) as nat).push(canonical(a[n - 1]))
    }
}

/// The canonical `"key":value` texts of the members at the first `n`
/// positions of `order`.
pub open spec fn canonical_members(m: Seq<(Seq<char>, JsonView)>, order: Seq<int>, n: nat) -> Seq<Seq<char>>
    decreases m, n,
{
    if n == 0 || n > order.len() {
        Seq::empty()
    } else {
        let j = order[n - 1];
        let prev = canonical_members(m, order, (n - 1) as nat);
        if 0 <= j < m.len() {
            prev.push(json_quoted(m[j].0) + seq![':'] + canonical(m[j].1))
        } else {
            prev
        }
    }
}

fn push_comma_joined(out: &mut String, parts: &Vec<String>)
    ensures
        final(out)@ == old(out)@ + comma_join(parts@.map_values(|s: String| s@)),
{
    let ghost v = parts@.map_values(|s: String| s@);
    let mut i: usize = 0;
    while i < parts.len()
        invariant
            i <= parts@.len(),
            v == parts@.map_values(|s: String| s@),
            out@ == old(out)@ + comma_join(v.subrange(0, i as int)),
        decreases parts@.len() - i,
    {
        let ghost pre = v.subrange(0, i as int);
        let ghost post = v.subrange(0, i + 1);
        assert(post.drop_last() =~= pre);
        if i > 0 {
            push_char(out, ',');
        }
        push_str(out, parts[i].as_str());
        proof {
            if i == 0 {
                assert(out@ =~= old(out)@ + comma_join(post));
            } else {
                assert(out@ =~= old(out)@ + comma_join(post));
            }
        }
        i = i + 1;
    }
    assert(v.subrange(0, v.len() as int) =~= v);
}

/// The stable key order of an object's members.
fn member_order(m: &Vec<(String, JsonValue)>) -> (r: Vec<usize>)
    ensures
        r@.map_values(|i: usize| i as int) == sort_order(member_keys(member_views(m@, m@.len())), m@.len()),
        forall|i: int| 0 <= i < r@.len() ==> (#[trigger] r@[i]) < m@.len(),
{
    let ghost keys = member_keys(member_views(m@, m@.len()));
    proof {
        lemma_member_views_index(m@, m@.len());
    }
    let mut chars: Vec<Vec<char>> = Vec::new();
    let mut c: usize = 0;
    while c < m.len()
        invariant
            c <= m@.len(),
            chars@.len() == c,
            keys == member_keys(member_views(m@, m@.len())),
            member_views(m@, m@.len()).len() == m@.len(),
            forall|j: int| 0 <= j < m@.len() ==> #[trigger] member_views(m@, m@.len())[j] == (m@[j].0@, json_view(m@[j].1)),
            forall|j: int| 0 <= j < c ==> (#[trigger] chars@[j])@ == keys[j],
        decreases m@.len() - c,
    {
        chars.push(str_chars(m[c].0.as_str()));
        c = c + 1;
    }
    let mut out: Vec<usize> = Vec::new();
    let mut p: usize = 0;
    while p < m.len()
        invariant
            p <= m@.len(),
            chars@.len() == m@.len(),
            keys.len() == m@.len(),
            forall|j: int| 0 <= j < m@.len() ==> (#[trigger] chars@[j])@ == keys[j],
            out@.map_values(|i: usize| i as int) == sort_order(keys, p as nat),
            forall|i: int| 0 <= i < out@.len() ==> (#[trigger] out@[i]) < p,
        decreases m@.len() - p,
    {
        let ghost o = out@.map_values(|i: usize| i as int);
        let mut k: usize = out.len();
        while k > 0 && !str_le(&chars[out[k - 1]], &chars[p])
            invariant
                k <= out@.len(),
                p < m@.len(),
                chars@.len() == m@.len(),
                keys.len() == m@.len(),
                forall|j: int| 0 <= j < m@.len() ==> (#[trigger] chars@[j])@ == keys[j],
                o == out@.map_values(|i: usize| i as int),
                forall|i: int| 0 <= i < out@.len() ==> (#[trigger] out@[i]) < p,
                forall|t: int| k <= t < o.len() ==> !key_le(keys[#[trigger] o[t]], keys[p as int]),
            decreases k,
        {
            k = k - 1;
        }
        proof {
            if k > 0 {
                assert(o[k - 1] == out@[k - 1] as int);
            }
            lemma_insert_at(keys, o, p as int, k as int);
        }
        let ghost old_out = out@;
        out.insert(k, p);
        proof {
            assert(out@.map_values(|i: usize| i as int) =~= o.insert(k as int, p as int));
            assert forall|i: int| 0 <= i < out@.len() implies (#[trigger] out@[i]) < p + 1 by {
                if i < k {
                    assert(out@[i] == old_out[i]);
                } else if i > k {
                    assert(out@[i] == old_out[i - 1]);
                }
            }
        }
        p = p + 1;
    }
    out
}

/// The canonical text of a JSON document (see `canonical`).
#[verifier::loop_isolation(false)]
pub fn canonical_text(v: &JsonValue) -> (r: String)
    ensures
        r@ == canonical(json_view(*v)),
    decreases v,
{
    match v {
        JsonValue::Null => "null".to_string(),
        JsonValue::Bool(b) => if *b { "true".to_string() } else { "false".to_string() },
        JsonValue::Number(n) => {
            let mut s = String::new();
            match n {
                JsonNumber::PosInt(x) => push_u64_decimal(&mut s, *x),
                JsonNumber::NegInt(x) => push_i64_decimal(&mut s, *x),
                JsonNumber::Float(t) => push_str(&mut s, t.as_str()),
            }
            assert(s@ =~= number_text(crate::json::number_view(*n)));
            s
        },
        JsonValue::String(t) => json_quote(t.as_str()),
        JsonValue::Array(a) => {
            proof {
                lemma_json_views_index(a@, a@.len());
            }
            let mut parts: Vec<String> = Vec::new();
            let mut i: usize = 0;
            while i < a.len()
                invariant
                    i <= a@.len(),
                    parts@.map_values(|s: String| s@) == canonical_items(json_views(a@, a@.len()), i as nat),
                decreases a@.len() - i,
            {
                proof {
                    broadcast use vstd::std_specs::vec::axiom_vec_index_decreases;
                    assert(decreases_to!(*a => a[i as int]));
                    assert(decreases_to!(*v => a[i as int]));
                }
                let t = canonical_text(&a[i]);
                let ghost before = parts@;
                parts.push(t);
                assert(parts@.map_values(|s: String| s@) =~= before.map_values(|s: String| s@).push(t@));
                i = i + 1;
            }
            let mut out = String::new();
            push_char(&mut out, '[');
            push_comma_joined(&mut out, &parts);
            push_char(&mut out, ']');
            assert(out@ =~= canonical(json_view(*v)));
            out
        },
        JsonValue::Object(m) => {
            let ghost mv = member_views(m@, m@.len());
            proof {
                lemma_member_views_index(m@, m@.len());
            }
            let order = member_order(m);
            let ghost o = order@.map_values(|i: usize| i as int);
            proof {
                lemma_sort_order_len(member_keys(mv), m@.len());
                assert(o.len() == order@.len());
            }
            let mut parts: Vec<String> = Vec::new();
            let mut i: usize = 0;
            while i < order.len()
                invariant
                    i <= order@.len(),
                    o == order@.map_values(|i: usize| i as int),
                    o == sort_order(member_keys(mv), m@.len()),
                    forall|t: int| 0 <= t < order@.len() ==> (#[trigger] order@[t]) < m@.len(),
                    parts@.map_values(|s: String| s@) == canonical_members(mv, o, i as nat),
                decreases order@.len() - i,
            {
                let j = order[i];
                proof {
                    broadcast use vstd::std_specs::vec::axiom_vec_index_decreases;
                    assert(decreases_to!(*m => m[j as int]));
                    assert(decreases_to!(*v => m[j as int].1));
                    assert(mv[j as int] == (m@[j as int].0@, json_view(m@[j as int].1)));
                    assert(o[i as int] == j as int);
                }
                let mut t = json_quote(m[j].0.as_str());
                push_char(&mut t, ':');
                let inner = canonical_text(&m[j].1);
                push_str(&mut t, inner.as_str());
                proof {
                    assert(t@ =~= json_quoted(mv[j as int].0) + seq![':'] + canonical(mv[j as int].1));
                    assert(canonical_members(mv, o, (i + 1) as nat) == canonical_members(mv, o, i as nat).push(
                        json_quoted(mv[j as int].0) + seq![':'] + canonical(mv[j as int].1),
                    ));
                }
                let ghost before = parts@;
                parts.push(t);
                assert(parts@.map_values(|s: String| s@) =~= before.map_values(|s: String| s@).push(t@));
                i = i + 1;
            }
            let mut out = String::new();
            push_char(&mut out, '{');
            push_comma_joined(&mut out, &parts);
            push_char(&mut out, '}');
            assert(out@ =~= canonical(json_view(*v)));
            out
        },
    }
}

/// The SHA-256 digest of `bytes`.
pub uninterp spec fn sha256_digest(bytes: Seq<u8>) -> Seq<u8>;

/// `sha2::Sha256::digest`: the 32 byte SHA-256 digest.
#[verifier::external_body]
fn sha256(bytes: &[u8]) -> (r: Vec<u8>)
    ensures
        r@ == sha256_digest(bytes@),
        r@.len() == 32,
{
    sha2::Sha256::digest(bytes).to_vec()
}

/// Two lower-case hex digits per byte.
pub open spec fn hex_bytes(b: Seq<u8>) -> Seq<char>
    decreases b.len(),
{
    if b.len() == 0 {
        Seq::empty()
    } else {
        hex_bytes(b.drop_last()) + seq![hex_digit_char((b.last() / 16) as nat), hex_digit_char((b.last() % 16) as nat)]
    }
}

/// Hex text has two lower-case hex digits per byte.
pub proof fn lemma_hex_bytes_shape(b: Seq<u8>)
    ensures
        hex_bytes(b).len() == 2 * b.len(),
        forall|i: int| 0 <= i < hex_bytes(b).len() ==> crate::ids::is_lower_hex_digit(#[trigger] hex_bytes(b)[i]),
    decreases b.len(),
{
    if b.len() > 0 {
        lemma_hex_bytes_shape(b.drop_last());
        let hi = (b.last() / 16) as nat;
        let lo = (b.last() % 16) as nat;
        assert(crate::ids::is_lower_hex_digit(hex_digit_char(hi)));
        assert(crate::ids::is_lower_hex_digit(hex_digit_char(lo)));
    }
}

fn hex_char(d: u8) -> (c: char)
    requires
        d < 16,
    ensures
        c == hex_digit_char(d as nat),
{
    if d == 0 { '0' }
    else if d == 1 { '1' }
    else if d == 2 { '2' }
    else if d == 3 { '3' }
    else if d == 4 { '4' }
    else if d == 5 { '5' }
    else if d == 6 { '6' }
    else if d == 7 { '7' }
    else if d == 8 { '8' }
    else if d == 9 { '9' }
    else if d == 10 { 'a' }
    else if d == 11 { 'b' }
    else if d == 12 { 'c' }
    else if d == 13 { 'd' }
    else if d == 14 { 'e' }
    else { 'f' }
}

/// The bytes in lower-case hexadecimal, two digits each (`{:02x}`).
pub fn hex_encode(bytes: &[u8]) -> (r: String)
    ensures
        r@ == hex_bytes(bytes@),
{
    let mut s = String::new();
    let mut i: usize = 0;
    while i < bytes.len()
        invariant
            i <= bytes@.len(),
            s@ == hex_bytes(bytes@.subrange(0, i as int)),
        decreases bytes@.len() - i,
    {
        let b = bytes[i];
        push_char(&mut s, hex_char(b / 16));
        push_char(&mut s, hex_char(b % 16));
        let ghost post = bytes@.subrange(0, i + 1);
        assert(post.drop_last() =~= bytes@.subrange(0, i as int));
        i = i + 1;
        assert(s@ =~= hex_bytes(bytes@.subrange(0, i as int)));
    }
    assert(bytes@.subrange(0, bytes@.len() as int) =~= bytes@);
    s
}

/// The reference of a canonical text: `sha256:` and the hex digest of its
/// UTF-8 bytes.
pub open spec fn ref_of_text(t: Seq<char>) -> Seq<char> {
    "sha256:"@ + hex_bytes(sha256_digest(vstd::utf8::encode_utf8(t)))
}

/// The content reference of a JSON document: the digest of its canonical text.
pub fn content_ref(v: &JsonValue) -> (r: String)
    ensures
        r@ == ref_of_text(canonical(json_view(*v))),
        r@.len() == 71,
        r@.subrange(0, 7) == "sha256:"@,
        forall|i: int| 7 <= i < 71 ==> crate::ids::is_lower_hex_digit(#[trigger] r@[i]),
{
    let t = canonical_text(v);
    let digest = sha256(t.as_str().as_bytes());
    let mut s = String::new();
    push_str(&mut s, "sha256:");
    let h = hex_encode(digest.as_slice());
    push_str(&mut s, h.as_str());
    assert(s@ =~= ref_of_text(t@));
    proof {
        reveal_strlit("sha256:");
        lemma_hex_bytes_shape(digest@);
        assert(s@ =~= "sha256:"@ + hex_bytes(digest@));
        assert(s@.subrange(0, 7) =~= "sha256:"@);
        assert forall|i: int| 7 <= i < 71 implies crate::ids::is_lower_hex_digit(#[trigger] s@[i]) by {
            assert(s@[i] == hex_bytes(digest@)[i - 7]);
        }
    }
    s
}

} // verus!
