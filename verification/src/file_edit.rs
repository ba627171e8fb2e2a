use vstd::prelude::*;
use crate::json::{field, json_get, json_view, JsonValue, JsonView};
use crate::text::{decimal, push_char, push_i64_decimal, push_str, push_u64_decimal, signed_decimal, str_chars};

verus! {

/// The result of a file or shell tool call: text output.
#[derive(Debug)]
pub struct TextToolResult {
    pub success: bool,
    pub output: String,
    pub error: Option<String>,
}

/// The result is a failure with this output and error.
pub open spec fn failed_with(r: TextToolResult, output: Seq<char>, error: Seq<char>) -> bool {
    &&& !r.success
    &&& r.output@ == output
    &&& r.error matches Some(e) && e@ == error
}

/// The result is a success with this output.
pub open spec fn succeeded_with(r: TextToolResult, output: Seq<char>) -> bool {
    &&& r.success
    &&& r.output@ == output
    &&& r.error is None
}

fn fail(output: String, error: String) -> (r: TextToolResult)
    ensures
        failed_with(r, output@, error@),
{
    TextToolResult { success: false, output, error: Some(error) }
}

/// One replacement of a `replace_in_file` call.
#[derive(Debug)]
pub struct Replacement {
    pub old_str: String,
    pub new_str: String,
}

/// `p` occurs in `s` at `i`.
pub open spec fn match_at(s: Seq<char>, p: Seq<char>, i: int) -> bool {
    0 <= i && i + p.len() <= s.len() && s.subrange(i, i + p.len()) == p
}

/// The number of non-overlapping occurrences of `p` in `s`, found from the
/// left (`str::matches(..).count()`).
pub open spec fn match_count(s: Seq<char>, p: Seq<char>) -> nat
    decreases s.len(),
{
    if p.len() == 0 || s.len() < p.len() {
        0
    } else if match_at(s, p, 0) {
        1 + match_count(s.skip(p.len() as int), p)
    } else {
        match_count(s.drop_first(), p)
    }
}

/// The first position of `p` in `s`.
pub open spec fn first_match(s: Seq<char>, p: Seq<char>) -> Option<int>
    decreases s.len(),
{
    if p.len() == 0 || s.len() < p.len() {
        None
    } else if match_at(s, p, 0) {
        Some(0)
    } else {
        match first_match(s.drop_first(), p) {
            Some(k) => Some(k + 1),
            None => None,
        }
    }
}

/// `s` with its first occurrence of `p` replaced by `q` (`str::replacen(p, q, 1)`).
pub open spec fn replace_first(s: Seq<char>, p: Seq<char>, q: Seq<char>) -> Seq<char> {
    match first_match(s, p) {
        Some(i) => s.subrange(0, i) + q + s.skip(i + p.len()),
        None => s,
    }
}

proof fn lemma_match_at_skip(s: Seq<char>, p: Seq<char>, i: int)
    requires
        0 <= i <= s.len(),
    ensures
        match_at(s.skip(i), p, 0) == match_at(s, p, i),
{
    if i + p.len() <= s.len() {
        assert(s.skip(i).subrange(0, p.len() as int) =~= s.subrange(i, i + p.len()));
    }
}

/// Counts the occurrences of `p` in `s` and finds the first.
fn count_matches(s: &Vec<char>, p: &Vec<char>) -> (r: (usize, Option<usize>))
    requires
        p@.len() > 0,
    ensures
        r.0 == match_count(s@, p@),
        match first_match(s@, p@) {
            Some(k) => r.1 == Some(k as usize),
            None => r.1 is None,
        },
{
    let n = s.len();
    let m = p.len();
    let mut count: usize = 0;
    let mut first: Option<usize> = None;
    let mut i: usize = 0;
    assert(s@.skip(0) =~= s@);
    while i < n && n - i >= m
        invariant
            n == s@.len(),
            m == p@.len(),
            m > 0,
            i <= n,
            count <= i,
            match_count(s@, p@) == count + match_count(s@.skip(i as int), p@),
            first is None ==> (match first_match(s@, p@) {
                Some(k) => first_match(s@.skip(i as int), p@) == Some(k - i),
                None => first_match(s@.skip(i as int), p@) is None,
            }),
            first matches Some(k) ==> first_match(s@, p@) == Some(k as int),
        decreases n - i,
    {
        let mut j: usize = 0;
        while j < m && s[i + j] == p[j]
            invariant
                n == s@.len(),
                m == p@.len(),
                i + m <= n,
                j <= m,
                forall|t: int| 0 <= t < j ==> s@[i + t] == p@[t],
            decreases m - j,
        {
            j = j + 1;
        }
        let ghost rest = s@.skip(i as int);
        proof {
            lemma_match_at_skip(s@, p@, i as int);
            if j == m {
                assert(s@.subrange(i as int, i + m) =~= p@);
            } else {
                assert(s@.subrange(i as int, i + m)[j as int] != p@[j as int]);
            }
        }
        if j == m {
            proof {
                assert(rest.skip(m as int) =~= s@.skip(i + m));
            }
            if first.is_none() {
                first = Some(i);
            }
            count = count + 1;
            i = i + m;
        } else {
            proof {
                assert(rest.drop_first() =~= s@.skip(i + 1));
            }
            i = i + 1;
        }
    }
    proof {
        assert(s@.skip(i as int).len() < m);
    }
    (count, first)
}

/// What applying the replacements to `content` gives: the new content, or the
/// (output, error) of the first replacement that cannot be applied.
pub open spec fn replace_outcome(path: Seq<char>, content: Seq<char>, reps: Seq<Replacement>, n: nat) -> Result<
    Seq<char>,
    (Seq<char>, Seq<char>),
>
    decreases n,
{
    if n == 0 || n > reps.len() {
        Ok(content)
    } else {
        match replace_outcome(path, content, reps, (n - 1) as nat) {
            Err(e) => Err(e),
            Ok(c) => {
                let item = reps[n - 1];
                let old = item.old_str@;
                let count = match_count(c, old);
                if old.len() == 0 {
                    Err(("replacement #"@ + decimal(n) + " has an empty 'old_str'"@, "empty old_str"@))
                } else if count == 0 {
                    Err(
                        (
                            "replacement #"@ + decimal(n) + " failed: 'old_str' not found in '"@ + path
                                + "'.\nold_str content:\n"@ + old,
                            "old_str not found"@,
                        ),
                    )
                } else if count > 1 {
                    Err(
                        (
                            "replacement #"@ + decimal(n) + " failed: 'old_str' is not unique in '"@ + path
                                + "' (matched "@ + decimal(count)
                                + " times). Please include more surrounding context to disambiguate.\nold_str content:\n"@
                                + old,
                            "old_str matched "@ + decimal(count) + " times (not unique)"@,
                        ),
                    )
                } else {
                    Ok(replace_first(c, old, item.new_str@))
                }
            },
        }
    }
}

fn chars_to_string(cs: &Vec<char>) -> (r: String)
    ensures
        r@ == cs@,
{
    let mut s = String::new();
    let mut i: usize = 0;
    while i < cs.len()
        invariant
            i <= cs@.len(),
            s@ == cs@.subrange(0, i as int),
        decreases cs@.len() - i,
    {
        push_char(&mut s, cs[i]);
        i = i + 1;
        assert(s@ =~= cs@.subrange(0, i as int));
    }
    assert(cs@.subrange(0, cs@.len() as int) =~= cs@);
    s
}

/// Applies the replacements in order: each `old_str` must occur in the
/// current content exactly once and is replaced there by its `new_str`.
pub fn apply_replacements(path: &str, content: &str, reps: &Vec<Replacement>) -> (r: Result<String, TextToolResult>)
    ensures
        match replace_outcome(path@, content@, reps@, reps@.len()) {
            Ok(c) => r matches Ok(s) && s@ == c,
            Err((o, e)) => r matches Err(f) && failed_with(f, o, e),
        },
{
    let mut cur: Vec<char> = str_chars(content);
    let mut k: usize = 0;
    while k < reps.len()
        invariant
            k <= reps@.len(),
            replace_outcome(path@, content@, reps@, k as nat) == Ok::<Seq<char>, (Seq<char>, Seq<char>)>(cur@),
        decreases reps@.len() - k,
    {
        let item = &reps[k];
        let old = str_chars(item.old_str.as_str());
        let idx: u64 = (k + 1) as u64;
        if old.len() == 0 {
            let mut o = String::new();
            push_str(&mut o, "replacement #");
            push_u64_decimal(&mut o, idx);
            push_str(&mut o, " has an empty 'old_str'");
            proof {
                assert(o@ =~= "replacement #"@ + decimal((k + 1) as nat) + " has an empty 'old_str'"@);
                lemma_outcome_stops(path@, content@, reps@, (k + 1) as nat, reps@.len());
            }
            return Err(fail(o, "empty old_str".to_string()));
        }
        let (count, first) = count_matches(&cur, &old);
        if count == 0 {
            let mut o = String::new();
            push_str(&mut o, "replacement #");
            push_u64_decimal(&mut o, idx);
            push_str(&mut o, " failed: 'old_str' not found in '");
            push_str(&mut o, path);
            push_str(&mut o, "'.\nold_str content:\n");
            push_str(&mut o, item.old_str.as_str());
            proof {
                assert(o@ =~= "replacement #"@ + decimal((k + 1) as nat) + " failed: 'old_str' not found in '"@
                    + path@ + "'.\nold_str content:\n"@ + item.old_str@);
                lemma_outcome_stops(path@, content@, reps@, (k + 1) as nat, reps@.len());
            }
            return Err(fail(o, "old_str not found".to_string()));
        }
        if count > 1 {
            let mut o = String::new();
            push_str(&mut o, "replacement #");
            push_u64_decimal(&mut o, idx);
            push_str(&mut o, " failed: 'old_str' is not unique in '");
            push_str(&mut o, path);
            push_str(&mut o, "' (matched ");
            push_u64_decimal(&mut o, count as u64);
            push_str(
                &mut o,
                " times). Please include more surrounding context to disambiguate.\nold_str content:\n",
            );
            push_str(&mut o, item.old_str.as_str());
            let mut e = String::new();
            push_str(&mut e, "old_str matched ");
            push_u64_decimal(&mut e, count as u64);
            push_str(&mut e, " times (not unique)");
            proof {
                assert(o@ =~= "replacement #"@ + decimal((k + 1) as nat) + " failed: 'old_str' is not unique in '"@
                    + path@ + "' (matched "@ + decimal(count as nat)
                    + " times). Please include more surrounding context to disambiguate.\nold_str content:\n"@
                    + item.old_str@);
                assert(e@ =~= "old_str matched "@ + decimal(count as nat) + " times (not unique)"@);
                lemma_outcome_stops(path@, content@, reps@, (k + 1) as nat, reps@.len());
            }
            return Err(fail(o, e));
        }
        proof {
            lemma_count_positive_has_first(cur@, old@);
        }
        let at = match first {
            Some(a) => a,
            None => {
                proof {
                    assert(false);
                }
                0
            },
        };
        let new_chars = str_chars(item.new_str.as_str());
        let mut next: Vec<char> = Vec::new();
        let mut t: usize = 0;
        while t < at
            invariant
                at + old@.len() <= cur@.len(),
                t <= at,
                next@ == cur@.subrange(0, t as int),
            decreases at - t,
        {
            next.push(cur[t]);
            t = t + 1;
            assert(next@ =~= cur@.subrange(0, t as int));
        }
        let mut u: usize = 0;
        while u < new_chars.len()
            invariant
                at + old@.len() <= cur@.len(),
                u <= new_chars@.len(),
                next@ == cur@.subrange(0, at as int) + new_chars@.subrange(0, u as int),
            decreases new_chars@.len() - u,
        {
            next.push(new_chars[u]);
            u = u + 1;
            assert(next@ =~= cur@.subrange(0, at as int) + new_chars@.subrange(0, u as int));
        }
        let cl = cur.len();
        assert(at + old@.len() <= cl);
        let mut w: usize = at + old.len();
        assert(new_chars@.subrange(0, new_chars@.len() as int) =~= new_chars@);
        while w < cur.len()
            invariant
                at + old@.len() <= w <= cur@.len(),
                next@ == cur@.subrange(0, at as int) + new_chars@ + cur@.subrange(at + old@.len(), w as int),
            decreases cur@.len() - w,
        {
            next.push(cur[w]);
            w = w + 1;
            assert(next@ =~= cur@.subrange(0, at as int) + new_chars@ + cur@.subrange(at + old@.len(), w as int));
        }
        proof {
            assert(cur@.subrange(at + old@.len(), cur@.len() as int) =~= cur@.skip(at + old@.len()));
        }
        cur = next;
        k = k + 1;
    }
    Ok(chars_to_string(&cur))
}

proof fn lemma_count_positive_has_first(s: Seq<char>, p: Seq<char>)
    requires
        p.len() > 0,
        match_count(s, p) > 0,
    ensures
        first_match(s, p) matches Some(i) && 0 <= i && i + p.len() <= s.len(),
    decreases s.len(),
{
    if !match_at(s, p, 0) {
        lemma_count_positive_has_first(s.drop_first(), p);
    }
}

proof fn lemma_outcome_stops(path: Seq<char>, content: Seq<char>, reps: Seq<Replacement>, k: nat, n: nat)
    requires
        k <= n <= reps.len(),
        replace_outcome(path, content, reps, k) is Err,
    ensures
        replace_outcome(path, content, reps, n) == replace_outcome(path, content, reps, k),
    decreases n,
{
    if n > k {
        lemma_outcome_stops(path, content, reps, k, (n - 1) as nat);
    }
}

/// The failure when a `replace_in_file` call brings no replacement.
pub fn empty_replacements() -> (r: TextToolResult)
    ensures
        failed_with(r, "replacements list must not be empty"@, "empty replacements list"@),
{
    fail("replacements list must not be empty".to_string(), "empty replacements list".to_string())
}

/// The failure to read the file to edit.
pub fn read_failure(path: &str, error: &str) -> (r: TextToolResult)
    ensures
        failed_with(r, "failed to read file '"@ + path@ + "': "@ + error@, error@),
{
    let mut o = String::new();
    push_str(&mut o, "failed to read file '");
    push_str(&mut o, path);
    push_str(&mut o, "': ");
    push_str(&mut o, error);
    assert(o@ =~= "failed to read file '"@ + path@ + "': "@ + error@);
    fail(o, error.to_string())
}

/// The result of writing back the edited content of `path` after `n`
/// replacements.
pub fn replace_written(path: &str, n: usize, written: Result<(), String>) -> (r: TextToolResult)
    ensures
        written is Ok ==> succeeded_with(
            r,
            "successfully applied "@ + decimal(n as nat) + " replacement(s) to '"@ + path@ + "'"@,
        ),
        written matches Err(e) ==> failed_with(r, "failed to write modified content to '"@ + path@ + "': "@ + e@, e@),
{
    match written {
        Ok(()) => {
            let mut o = String::new();
            push_str(&mut o, "successfully applied ");
            push_u64_decimal(&mut o, n as u64);
            push_str(&mut o, " replacement(s) to '");
            push_str(&mut o, path);
            push_str(&mut o, "'");
            assert(o@ =~= "successfully applied "@ + decimal(n as nat) + " replacement(s) to '"@ + path@ + "'"@);
            TextToolResult { success: true, output: o, error: None }
        },
        Err(e) => {
            let mut o = String::new();
            push_str(&mut o, "failed to write modified content to '");
            push_str(&mut o, path);
            push_str(&mut o, "': ");
            push_str(&mut o, e.as_str());
            assert(o@ =~= "failed to write modified content to '"@ + path@ + "': "@ + e@);
            fail(o, e)
        },
    }
}

/// How writing a whole file went.
#[derive(Debug)]
pub enum WriteOutcome {
    Written,
    /// The parent directories could not be created.
    CreateDirFailed(String),
    WriteFailed(String),
}

/// The result of a `write_file` call that wrote `byte_len` bytes to `path`.
pub fn write_file_result(path: &str, byte_len: usize, outcome: WriteOutcome) -> (r: TextToolResult)
    ensures
        outcome is Written ==> succeeded_with(
            r,
            "successfully wrote "@ + decimal(byte_len as nat) + " bytes to '"@ + path@ + "'"@,
        ),
        outcome matches WriteOutcome::CreateDirFailed(e) ==> failed_with(
            r,
            "failed to create parent directories for '"@ + path@ + "': "@ + e@,
            e@,
        ),
        outcome matches WriteOutcome::WriteFailed(e) ==> failed_with(
            r,
            "failed to write file '"@ + path@ + "': "@ + e@,
            e@,
        ),
{
    match outcome {
        WriteOutcome::Written => {
            let mut o = String::new();
            push_str(&mut o, "successfully wrote ");
            push_u64_decimal(&mut o, byte_len as u64);
            push_str(&mut o, " bytes to '");
            push_str(&mut o, path);
            push_str(&mut o, "'");
            assert(o@ =~= "successfully wrote "@ + decimal(byte_len as nat) + " bytes to '"@ + path@ + "'"@);
            TextToolResult { success: true, output: o, error: None }
        },
        WriteOutcome::CreateDirFailed(e) => {
            let mut o = String::new();
            push_str(&mut o, "failed to create parent directories for '");
            push_str(&mut o, path);
            push_str(&mut o, "': ");
            push_str(&mut o, e.as_str());
            assert(o@ =~= "failed to create parent directories for '"@ + path@ + "': "@ + e@);
            fail(o, e)
        },
        WriteOutcome::WriteFailed(e) => {
            let mut o = String::new();
            push_str(&mut o, "failed to write file '");
            push_str(&mut o, path);
            push_str(&mut o, "': ");
            push_str(&mut o, e.as_str());
            assert(o@ =~= "failed to write file '"@ + path@ + "': "@ + e@);
            fail(o, e)
        },
    }
}

/// The command of a `shell` call: the string argument `command`.
pub fn shell_command_of(name: &str, arguments: &JsonValue) -> (r: Result<String, String>)
    ensures
        name@ != "shell"@ ==> (r matches Err(e) && e@ == "unknown tool: "@ + name@),
        name@ == "shell"@ ==> match field(json_view(*arguments), "command"@) {
            Some(JsonView::String(c)) => r matches Ok(s) && s@ == c,
            _ => r matches Err(e) && e@ == "missing string argument 'command'"@,
        },
{
    let shell = "shell".to_string();
    if name.to_string() != shell {
        let mut e = String::new();
        push_str(&mut e, "unknown tool: ");
        push_str(&mut e, name);
        return Err(e);
    }
    let r = match json_get(arguments, "command") {
        Some(JsonValue::String(c)) => Ok(c.clone()),
        _ => Err("missing string argument 'command'".to_string()),
    };
    proof {
        reveal_strlit("command");
    }
    r
}

/// The result of a shell command: success when it exited with status 0 and
/// could run; the output shows the status and both streams, or the reason
/// it could not run.
pub fn shell_tool_result(exit_code: i32, stdout: &str, stderr: &str, error: Option<String>) -> (r: TextToolResult)
    ensures
        r.success == (exit_code == 0 && error is None),
        error matches Some(e) ==> r.output@ == "failed to execute command: "@ + e@,
        error is None ==> r.output@ == "exit_code: "@ + signed_decimal(exit_code as int) + "\nstdout:\n"@ + stdout@
            + "\nstderr:\n"@ + stderr@,
        r.success ==> r.error is None,
        !r.success ==> (r.error matches Some(x) && x@ == (match error {
            Some(e) => e@,
            None => "command exited with status "@ + signed_decimal(exit_code as int),
        })),
{
    let success = exit_code == 0 && error.is_none();
    let mut output = String::new();
    match &error {
        Some(e) => {
            push_str(&mut output, "failed to execute command: ");
            push_str(&mut output, e.as_str());
        },
        None => {
            push_str(&mut output, "exit_code: ");
            push_i64_decimal(&mut output, exit_code as i64);
            push_str(&mut output, "\nstdout:\n");
            push_str(&mut output, stdout);
            push_str(&mut output, "\nstderr:\n");
            push_str(&mut output, stderr);
        },
    }
    let err = if success {
        None
    } else {
        match error {
            Some(e) => Some(e),
            None => {
                let mut m = String::new();
                push_str(&mut m, "command exited with status ");
                push_i64_decimal(&mut m, exit_code as i64);
                Some(m)
            },
        }
    };
    proof {
        assert(Seq::<char>::empty() + output@ =~= output@);
    }
    TextToolResult { success, output, error: err }
}

} // verus!
