use vstd::prelude::*;
use crate::cli::{blank, command_of, has_prefix, join, parse_spec, scan, CommandView, ParsedView, ScanOutcome, ScanState};

verus! {

/// A flag that takes its value from the next argument.
pub open spec fn pair_flag(a: Seq<char>) -> bool {
    a == "-d"@ || a == "--dir"@ || a == "-m"@ || a == "--model"@ || a == "-w"@ || a == "--workspace"@
        || a == "-p"@ || a == "--prompt"@
}

/// The option that a two-token flag sets: 0 the directory, 1 the model, 2 the
/// workspace, 3 the prompt.
pub open spec fn flag_field(a: Seq<char>) -> int {
    if a == "-d"@ || a == "--dir"@ {
        0
    } else if a == "-m"@ || a == "--model"@ {
        1
    } else if a == "-w"@ || a == "--workspace"@ {
        2
    } else {
        3
    }
}

/// An argument that the scan takes as a positional word: no option in any
/// form, and not a request for help.
pub open spec fn plain_word(a: Seq<char>) -> bool {
    &&& !pair_flag(a)
    &&& !has_prefix(a, "--dir="@) && !has_prefix(a, "-d="@)
    &&& !has_prefix(a, "--model="@) && !has_prefix(a, "-m="@)
    &&& !has_prefix(a, "--workspace="@) && !has_prefix(a, "-w="@)
    &&& !has_prefix(a, "--prompt="@) && !has_prefix(a, "-p="@)
    &&& a != "-h"@ && a != "--help"@
}

/// The state after a two-token flag set its option to `v`.
pub open spec fn with_option(st: ScanState, field: int, v: Seq<char>) -> ScanState {
    if field == 0 {
        ScanState { dir: Some(v), ..st }
    } else if field == 1 {
        ScanState { model: Some(v), ..st }
    } else if field == 2 {
        ScanState { workspace: Some(v), ..st }
    } else {
        ScanState { prompt: Some(v), ..st }
    }
}

proof fn lemma_not_prefix(a: Seq<char>, p: Seq<char>, k: int)
    requires
        0 <= k < p.len(),
        k < a.len(),
        a[k] != p[k],
    ensures
        !has_prefix(a, p),
{
    if has_prefix(a, p) {
        assert(a.subrange(0, p.len() as int)[k] == a[k]);
    }
}

proof fn lemma_differs_at(a: Seq<char>, b: Seq<char>, k: int)
    requires
        0 <= k < a.len(),
        k < b.len(),
        a[k] != b[k],
    ensures
        a != b,
{
}

/// How the scan treats a two-token flag: it sets its option from the next
/// argument, and only a blank model name is refused.
proof fn lemma_flag_step(args: Seq<Seq<char>>, i: int, st: ScanState)
    requires
        0 <= i,
        i + 1 < args.len(),
        pair_flag(args[i]),
    ensures
        flag_field(args[i]) == 1 && blank(args[i + 1]) ==> scan(args, i, st) == crate::cli::ScanOutcome::Failed(
            crate::cli::model_empty_msg(),
        ),
        !(flag_field(args[i]) == 1 && blank(args[i + 1])) ==> scan(args, i, st) == scan(
            args,
            i + 2,
            with_option(st, flag_field(args[i]), args[i + 1]),
        ),
{
    reveal_strlit("-d");
    reveal_strlit("--dir");
    reveal_strlit("-m");
    reveal_strlit("--model");
    reveal_strlit("-w");
    reveal_strlit("--workspace");
    reveal_strlit("-p");
    reveal_strlit("--prompt");
    reveal_strlit("--dir=");
    reveal_strlit("-d=");
    reveal_strlit("--model=");
    reveal_strlit("-m=");
    reveal_strlit("--workspace=");
    reveal_strlit("-w=");
    reveal_strlit("--prompt=");
    reveal_strlit("-p=");
    let a = args[i];
    if a == "--model"@ {
        lemma_not_prefix(a, "--dir="@, 2);
        lemma_not_prefix(a, "-d="@, 1);
    } else if a == "--workspace"@ {
        lemma_not_prefix(a, "--dir="@, 2);
        lemma_not_prefix(a, "-d="@, 1);
        lemma_not_prefix(a, "--model="@, 2);
        lemma_not_prefix(a, "-m="@, 1);
    } else if a == "--prompt"@ {
        lemma_not_prefix(a, "--dir="@, 2);
        lemma_not_prefix(a, "-d="@, 1);
        lemma_not_prefix(a, "--model="@, 2);
        lemma_not_prefix(a, "-m="@, 1);
        lemma_not_prefix(a, "-w="@, 1);
    }
}

/// The message of a two-token flag without its value.
pub open spec fn flag_missing_msg(field: int) -> Seq<char> {
    if field == 0 {
        crate::cli::dir_missing_msg()
    } else if field == 1 {
        crate::cli::model_missing_msg()
    } else if field == 2 {
        crate::cli::workspace_missing_msg()
    } else {
        crate::cli::prompt_missing_msg()
    }
}

/// A two-token flag as the last argument is refused.
proof fn lemma_flag_at_end(args: Seq<Seq<char>>, i: int, st: ScanState)
    requires
        0 <= i,
        i + 1 == args.len(),
        pair_flag(args[i]),
    ensures
        scan(args, i, st) == crate::cli::ScanOutcome::Failed(flag_missing_msg(flag_field(args[i]))),
{
    reveal_strlit("-d");
    reveal_strlit("--dir");
    reveal_strlit("-m");
    reveal_strlit("--model");
    reveal_strlit("-w");
    reveal_strlit("--workspace");
    reveal_strlit("-p");
    reveal_strlit("--prompt");
    reveal_strlit("--dir=");
    reveal_strlit("-d=");
    reveal_strlit("--model=");
    reveal_strlit("-m=");
    reveal_strlit("--workspace=");
    reveal_strlit("-w=");
    reveal_strlit("--prompt=");
    reveal_strlit("-p=");
    let a = args[i];
    if a == "--model"@ {
        lemma_not_prefix(a, "--dir="@, 2);
        lemma_not_prefix(a, "-d="@, 1);
    } else if a == "--workspace"@ {
        lemma_not_prefix(a, "--dir="@, 2);
        lemma_not_prefix(a, "-d="@, 1);
        lemma_not_prefix(a, "--model="@, 2);
        lemma_not_prefix(a, "-m="@, 1);
    } else if a == "--prompt"@ {
        lemma_not_prefix(a, "--dir="@, 2);
        lemma_not_prefix(a, "-d="@, 1);
        lemma_not_prefix(a, "--model="@, 2);
        lemma_not_prefix(a, "-m="@, 1);
        lemma_not_prefix(a, "-w="@, 1);
    }
}

/// A request for help ends the scan with what it gathered.
proof fn lemma_help_step(args: Seq<Seq<char>>, i: int, st: ScanState)
    requires
        0 <= i < args.len(),
        args[i] == "-h"@ || args[i] == "--help"@,
    ensures
        scan(args, i, st) == crate::cli::ScanOutcome::Help(st),
{
    reveal_strlit("-d");
    reveal_strlit("--dir");
    reveal_strlit("-m");
    reveal_strlit("--model");
    reveal_strlit("-w");
    reveal_strlit("--workspace");
    reveal_strlit("-p");
    reveal_strlit("--prompt");
    reveal_strlit("--dir=");
    reveal_strlit("-d=");
    reveal_strlit("--model=");
    reveal_strlit("-m=");
    reveal_strlit("--workspace=");
    reveal_strlit("-w=");
    reveal_strlit("--prompt=");
    reveal_strlit("-p=");
    reveal_strlit("-h");
    reveal_strlit("--help");
    let a = args[i];
    if a == "--help"@ {
        lemma_not_prefix(a, "--dir="@, 2);
        lemma_not_prefix(a, "-d="@, 1);
        lemma_not_prefix(a, "-m="@, 1);
        lemma_not_prefix(a, "-w="@, 1);
        lemma_not_prefix(a, "-p="@, 1);
    } else {
        lemma_differs_at(a, "-d"@, 1);
        lemma_differs_at(a, "-m"@, 1);
        lemma_differs_at(a, "-w"@, 1);
        lemma_differs_at(a, "-p"@, 1);
    }
    assert(!(a == "-d"@ || a == "--dir"@));
    assert(!(has_prefix(a, "--dir="@) || has_prefix(a, "-d="@)));
    assert(!(a == "-m"@ || a == "--model"@));
    assert(!(has_prefix(a, "--model="@) || has_prefix(a, "-m="@)));
    assert(!(a == "-w"@ || a == "--workspace"@));
    assert(!(has_prefix(a, "--workspace="@) || has_prefix(a, "-w="@)));
    assert(!(a == "-p"@ || a == "--prompt"@));
    assert(!(has_prefix(a, "--prompt="@) || has_prefix(a, "-p="@)));
}

/// The state after an option written as `--name=value`, or `None` when the
/// value is refused.
pub open spec fn inline_option_state(a: Seq<char>, st: ScanState) -> Option<ScanState> {
    if has_prefix(a, "--dir="@) || has_prefix(a, "-d="@) {
        let rest = if has_prefix(a, "--dir="@) { a.skip(6) } else { a.skip(3) };
        if blank(rest) { None } else { Some(ScanState { dir: Some(rest), ..st }) }
    } else if has_prefix(a, "--model="@) || has_prefix(a, "-m="@) {
        let rest = if has_prefix(a, "--model="@) { a.skip(8) } else { a.skip(3) };
        if blank(rest) { None } else { Some(ScanState { model: Some(rest), ..st }) }
    } else if has_prefix(a, "--workspace="@) || has_prefix(a, "-w="@) {
        let rest = if has_prefix(a, "--workspace="@) { a.skip(12) } else { a.skip(3) };
        if blank(rest) { None } else { Some(ScanState { workspace: Some(rest), ..st }) }
    } else {
        let rest = if has_prefix(a, "--prompt="@) { a.skip(9) } else { a.skip(3) };
        Some(ScanState { prompt: Some(rest), ..st })
    }
}

/// The message of a refused `--name=value` option.
pub open spec fn inline_option_msg(a: Seq<char>) -> Seq<char> {
    if has_prefix(a, "--dir="@) || has_prefix(a, "-d="@) {
        crate::cli::dir_missing_msg()
    } else if has_prefix(a, "--model="@) || has_prefix(a, "-m="@) {
        crate::cli::model_empty_msg()
    } else {
        crate::cli::workspace_missing_msg()
    }
}

/// How the scan treats an option written as `--name=value`.
proof fn lemma_inline_step(args: Seq<Seq<char>>, i: int, st: ScanState)
    requires
        0 <= i < args.len(),
        !plain_word(args[i]),
        !pair_flag(args[i]),
        args[i] != "-h"@,
        args[i] != "--help"@,
    ensures
        inline_option_state(args[i], st) matches Some(s2) ==> scan(args, i, st) == scan(args, i + 1, s2),
        inline_option_state(args[i], st) is None ==> scan(args, i, st) == crate::cli::ScanOutcome::Failed(
            inline_option_msg(args[i]),
        ),
{
}

/// How the scan treats a positional word: it keeps it and goes on.
proof fn lemma_word_step(args: Seq<Seq<char>>, i: int, st: ScanState)
    requires
        0 <= i < args.len(),
        plain_word(args[i]),
    ensures
        scan(args, i, st) == scan(args, i + 1, ScanState { tokens: st.tokens.push(args[i]), ..st }),
{
}

/// The scan from `i` on reads only the arguments from `i` on.
proof fn lemma_scan_frame(a1: Seq<Seq<char>>, a2: Seq<Seq<char>>, i: int, st: ScanState)
    requires
        0 <= i,
        a1.len() == a2.len(),
        forall|k: int| i <= k < a1.len() ==> a1[k] == a2[k],
    ensures
        scan(a1, i, st) == scan(a2, i, st),
    decreases a1.len() - i,
{
    reveal_strlit("-d");
    reveal_strlit("--dir");
    reveal_strlit("-m");
    reveal_strlit("--model");
    reveal_strlit("-w");
    reveal_strlit("--workspace");
    reveal_strlit("-p");
    reveal_strlit("--prompt");
    reveal_strlit("--dir=");
    reveal_strlit("-d=");
    reveal_strlit("--model=");
    reveal_strlit("-m=");
    reveal_strlit("--workspace=");
    reveal_strlit("-w=");
    reveal_strlit("--prompt=");
    reveal_strlit("-p=");
    reveal_strlit("-h");
    reveal_strlit("--help");
    if i < a1.len() {
        assert(a1[i] == a2[i]);
        if i + 1 < a1.len() {
            assert(a1[i + 1] == a2[i + 1]);
        }
        if plain_word(a1[i]) {
            lemma_word_step(a1, i, st);
            lemma_word_step(a2, i, st);
            lemma_scan_frame(a1, a2, i + 1, ScanState { tokens: st.tokens.push(a1[i]), ..st });
        } else if pair_flag(a1[i]) && i + 1 < a1.len() {
            lemma_flag_step(a1, i, st);
            lemma_flag_step(a2, i, st);
            lemma_scan_frame(a1, a2, i + 2, with_option(st, flag_field(a1[i]), a1[i + 1]));
        } else if pair_flag(a1[i]) {
            lemma_flag_at_end(a1, i, st);
            lemma_flag_at_end(a2, i, st);
        } else if a1[i] == "-h"@ || a1[i] == "--help"@ {
            lemma_help_step(a1, i, st);
            lemma_help_step(a2, i, st);
        } else {
            lemma_inline_step(a1, i, st);
            lemma_inline_step(a2, i, st);
            if let Some(s2) = inline_option_state(a1[i], st) {
                lemma_scan_frame(a1, a2, i + 1, s2);
            }
        }
    }
}

/// Wherever the scan stands, an option given as a flag and its value may
/// change places with the positional word after them: the outcome is the
/// same.
pub proof fn lemma_option_pair_passes_word(args: Seq<Seq<char>>, i: int, st: ScanState)
    requires
        0 <= i,
        i + 2 < args.len(),
        pair_flag(args[i]),
        plain_word(args[i + 2]),
    ensures
        scan(args, i, st) == scan(
            args.update(i, args[i + 2]).update(i + 1, args[i]).update(i + 2, args[i + 1]),
            i,
            st,
        ),
{
    let o = args[i];
    let v = args[i + 1];
    let t = args[i + 2];
    let b = args.update(i, t).update(i + 1, o).update(i + 2, v);
    let pushed = ScanState { tokens: st.tokens.push(t), ..st };
    lemma_word_step(b, i, st);
    lemma_flag_step(b, i + 1, pushed);
    lemma_flag_step(args, i, st);
    if !(flag_field(o) == 1 && blank(v)) {
        let set = with_option(st, flag_field(o), v);
        lemma_word_step(args, i + 2, set);
        let both = ScanState { tokens: st.tokens.push(t), ..set };
        assert(with_option(pushed, flag_field(o), v) == both);
        lemma_scan_frame(args, b, i + 3, both);
    }
}

/// Wherever the scan stands, two options of different kinds, each given as
/// a flag and its value, may change places: the outcome is the same.
pub proof fn lemma_option_pairs_commute(args: Seq<Seq<char>>, i: int, st: ScanState)
    requires
        0 <= i,
        i + 3 < args.len(),
        pair_flag(args[i]),
        pair_flag(args[i + 2]),
        flag_field(args[i]) != flag_field(args[i + 2]),
    ensures
        scan(args, i, st) == scan(
            args.update(i, args[i + 2]).update(i + 1, args[i + 3]).update(i + 2, args[i]).update(i + 3, args[i + 1]),
            i,
            st,
        ),
{
    let o1 = args[i];
    let v1 = args[i + 1];
    let o2 = args[i + 2];
    let v2 = args[i + 3];
    let b = args.update(i, o2).update(i + 1, v2).update(i + 2, o1).update(i + 3, v1);
    lemma_flag_step(args, i, st);
    lemma_flag_step(b, i, st);
    let s1 = with_option(st, flag_field(o1), v1);
    let s2 = with_option(st, flag_field(o2), v2);
    lemma_flag_step(args, i + 2, s1);
    lemma_flag_step(b, i + 2, s2);
    let s12 = with_option(s1, flag_field(o2), v2);
    let s21 = with_option(s2, flag_field(o1), v1);
    assert(s12 == s21);
    lemma_scan_frame(args, b, i + 4, s12);
}

/// Where scanning from `i` in state `st` stands when it arrives at index `j`
/// without stopping there or before, and with which options and words.
pub open spec fn scan_arrives(args: Seq<Seq<char>>, i: int, st: ScanState, j: int) -> Option<ScanState>
    decreases j - i,
{
    if i == j {
        Some(st)
    } else if i > j || i < 0 || i >= args.len() {
        None
    } else if plain_word(args[i]) {
        scan_arrives(args, i + 1, ScanState { tokens: st.tokens.push(args[i]), ..st }, j)
    } else if pair_flag(args[i]) {
        if i + 1 < args.len() && i + 2 <= j && !(flag_field(args[i]) == 1 && blank(args[i + 1])) {
            scan_arrives(args, i + 2, with_option(st, flag_field(args[i]), args[i + 1]), j)
        } else {
            None
        }
    } else if args[i] == "-h"@ || args[i] == "--help"@ {
        None
    } else {
        match inline_option_state(args[i], st) {
            Some(s2) => scan_arrives(args, i + 1, s2, j),
            None => None,
        }
    }
}

/// Scanning on from where the scan arrives gives the scan's outcome.
proof fn lemma_scan_arrives(args: Seq<Seq<char>>, i: int, st: ScanState, j: int)
    requires
        scan_arrives(args, i, st, j) is Some,
    ensures
        scan(args, i, st) == scan(args, j, scan_arrives(args, i, st, j)->Some_0),
    decreases j - i,
{
    if i != j {
        if plain_word(args[i]) {
            lemma_word_step(args, i, st);
            lemma_scan_arrives(args, i + 1, ScanState { tokens: st.tokens.push(args[i]), ..st }, j);
        } else if pair_flag(args[i]) {
            lemma_flag_step(args, i, st);
            lemma_scan_arrives(args, i + 2, with_option(st, flag_field(args[i]), args[i + 1]), j);
        } else {
            lemma_inline_step(args, i, st);
            lemma_scan_arrives(args, i + 1, inline_option_state(args[i], st)->Some_0, j);
        }
    }
}

/// Where the scan arrives depends only on the arguments before that point.
proof fn lemma_scan_arrives_prefix(a1: Seq<Seq<char>>, a2: Seq<Seq<char>>, i: int, st: ScanState, j: int)
    requires
        a1.len() == a2.len(),
        forall|k: int| 0 <= k < j && k < a1.len() ==> a1[k] == a2[k],
        scan_arrives(a1, i, st, j) is Some,
    ensures
        scan_arrives(a2, i, st, j) == scan_arrives(a1, i, st, j),
    decreases j - i,
{
    if i != j {
        assert(a1[i] == a2[i]);
        if plain_word(a1[i]) {
            lemma_scan_arrives_prefix(a1, a2, i + 1, ScanState { tokens: st.tokens.push(a1[i]), ..st }, j);
        } else if pair_flag(a1[i]) {
            assert(a1[i + 1] == a2[i + 1]);
            lemma_scan_arrives_prefix(a1, a2, i + 2, with_option(st, flag_field(a1[i]), a1[i + 1]), j);
        } else {
            lemma_scan_arrives_prefix(a1, a2, i + 1, inline_option_state(a1[i], st)->Some_0, j);
        }
    }
}

/// An option given as a flag and its value, at a point the scan of a
/// command line arrives at, may change places with the positional word
/// after it: the command line means the same.
pub proof fn lemma_option_moves_past_word(args: Seq<Seq<char>>, j: int)
    requires
        1 < args.len(),
        scan_arrives(args, 1, scan_start(), j) is Some,
        j + 2 < args.len(),
        pair_flag(args[j]),
        plain_word(args[j + 2]),
    ensures
        parse_spec(args) == parse_spec(args.update(j, args[j + 2]).update(j + 1, args[j]).update(j + 2, args[j + 1])),
{
    let b = args.update(j, args[j + 2]).update(j + 1, args[j]).update(j + 2, args[j + 1]);
    lemma_scan_arrives_prefix(args, b, 1, scan_start(), j);
    let st = scan_arrives(args, 1, scan_start(), j)->Some_0;
    lemma_scan_arrives(args, 1, scan_start(), j);
    lemma_scan_arrives(b, 1, scan_start(), j);
    lemma_option_pair_passes_word(args, j, st);
}

/// Two options of different kinds, each given as a flag and its value, at a
/// point the scan of a command line arrives at, may change places: the
/// command line means the same.
pub proof fn lemma_options_swap(args: Seq<Seq<char>>, j: int)
    requires
        1 < args.len(),
        scan_arrives(args, 1, scan_start(), j) is Some,
        j + 3 < args.len(),
        pair_flag(args[j]),
        pair_flag(args[j + 2]),
        flag_field(args[j]) != flag_field(args[j + 2]),
    ensures
        parse_spec(args) == parse_spec(
            args.update(j, args[j + 2]).update(j + 1, args[j + 3]).update(j + 2, args[j]).update(j + 3, args[j + 1]),
        ),
{
    let b = args.update(j, args[j + 2]).update(j + 1, args[j + 3]).update(j + 2, args[j]).update(j + 3, args[j + 1]);
    lemma_scan_arrives_prefix(args, b, 1, scan_start(), j);
    let st = scan_arrives(args, 1, scan_start(), j)->Some_0;
    lemma_scan_arrives(args, 1, scan_start(), j);
    lemma_scan_arrives(b, 1, scan_start(), j);
    lemma_option_pairs_commute(args, j, st);
}

/// The initial scan state.
pub open spec fn scan_start() -> ScanState {
    ScanState { dir: None, model: None, workspace: None, prompt: None, tokens: Seq::empty() }
}

/// The arguments in `[a, b)` are whole units that the scan reads one by one:
/// positional words, and flags with their values for options other than
/// `field` (a model name among them not blank).
pub open spec fn units_between(args: Seq<Seq<char>>, a: int, b: int, field: int) -> bool
    decreases b - a,
{
    if a >= b {
        a == b
    } else if 0 <= a < args.len() && plain_word(args[a]) {
        units_between(args, a + 1, b, field)
    } else if 0 <= a && a + 1 < args.len() && a + 2 <= b && pair_flag(args[a]) && flag_field(args[a]) != field
        && !(flag_field(args[a]) == 1 && blank(args[a + 1])) {
        units_between(args, a + 2, b, field)
    } else {
        false
    }
}

/// `args` with the option pair at `j` moved to stand at `k`: the arguments
/// between them shift back by two.
pub open spec fn pair_moved(args: Seq<Seq<char>>, j: int, k: int) -> Seq<Seq<char>> {
    args.subrange(0, j) + args.subrange(j + 2, k + 2) + seq![args[j], args[j + 1]] + args.subrange(
        k + 2,
        args.len() as int,
    )
}

proof fn lemma_arrives_word(args: Seq<Seq<char>>, i: int, st: ScanState, j: int)
    requires
        0 <= i,
        scan_arrives(args, i, st, j) is Some,
        0 <= j < args.len(),
        plain_word(args[j]),
    ensures
        scan_arrives(args, i, st, j + 1) == Some(
            ScanState { tokens: scan_arrives(args, i, st, j)->Some_0.tokens.push(args[j]), ..scan_arrives(args, i, st, j)->Some_0 },
        ),
    decreases j - i,
{
    if i == j {
        let pushed = ScanState { tokens: st.tokens.push(args[j]), ..st };
        assert(scan_arrives(args, j + 1, pushed, j + 1) == Some(pushed));
    } else {
        if plain_word(args[i]) {
            lemma_arrives_word(args, i + 1, ScanState { tokens: st.tokens.push(args[i]), ..st }, j);
        } else if pair_flag(args[i]) {
            lemma_arrives_word(args, i + 2, with_option(st, flag_field(args[i]), args[i + 1]), j);
        } else {
            lemma_arrives_word(args, i + 1, inline_option_state(args[i], st)->Some_0, j);
        }
    }
}

proof fn lemma_arrives_pair(args: Seq<Seq<char>>, i: int, st: ScanState, j: int)
    requires
        0 <= i,
        scan_arrives(args, i, st, j) is Some,
        0 <= j,
        j + 1 < args.len(),
        pair_flag(args[j]),
        !(flag_field(args[j]) == 1 && blank(args[j + 1])),
    ensures
        scan_arrives(args, i, st, j + 2) == Some(
            with_option(scan_arrives(args, i, st, j)->Some_0, flag_field(args[j]), args[j + 1]),
        ),
    decreases j - i,
{
    if i == j {
        let set = with_option(st, flag_field(args[j]), args[j + 1]);
        assert(scan_arrives(args, j + 2, set, j + 2) == Some(set));
    } else {
        if plain_word(args[i]) {
            lemma_arrives_pair(args, i + 1, ScanState { tokens: st.tokens.push(args[i]), ..st }, j);
        } else if pair_flag(args[i]) {
            lemma_arrives_pair(args, i + 2, with_option(st, flag_field(args[i]), args[i + 1]), j);
        } else {
            lemma_arrives_pair(args, i + 1, inline_option_state(args[i], st)->Some_0, j);
        }
    }
}

proof fn lemma_units_frame(a1: Seq<Seq<char>>, a2: Seq<Seq<char>>, a: int, b: int, field: int)
    requires
        a1.len() == a2.len(),
        forall|x: int| a <= x < b && 0 <= x < a1.len() ==> a1[x] == a2[x],
        units_between(a1, a, b, field),
    ensures
        units_between(a2, a, b, field),
    decreases b - a,
{
    if a < b {
        if 0 <= a < a1.len() && plain_word(a1[a]) {
            lemma_units_frame(a1, a2, a + 1, b, field);
        } else {
            assert(a1[a + 1] == a2[a + 1]);
            lemma_units_frame(a1, a2, a + 2, b, field);
        }
    }
}

/// An option given as a flag and its value, at a point the scan of a
/// command line arrives at, may be moved forward to any later place that
/// leaves every argument it passes a whole unit (a positional word, or
/// another option with its value): the command line means the same. Options
/// are recognised wherever they stand and leave the order of the positional
/// words as it is.
pub proof fn lemma_option_moves_anywhere(args: Seq<Seq<char>>, j: int, k: int)
    requires
        1 <= j <= k,
        k + 2 <= args.len(),
        scan_arrives(args, 1, scan_start(), j) is Some,
        pair_flag(args[j]),
        units_between(args, j + 2, k + 2, flag_field(args[j])),
    ensures
        parse_spec(args) == parse_spec(pair_moved(args, j, k)),
    decreases k - j,
{
    let f = flag_field(args[j]);
    if j == k {
        assert(pair_moved(args, j, k) =~= args);
    } else if plain_word(args[j + 2]) {
        let b = args.update(j, args[j + 2]).update(j + 1, args[j]).update(j + 2, args[j + 1]);
        lemma_option_moves_past_word(args, j);
        lemma_scan_arrives_prefix(args, b, 1, scan_start(), j);
        lemma_arrives_word(b, 1, scan_start(), j);
        lemma_units_frame(args, b, j + 3, k + 2, f);
        lemma_option_moves_anywhere(b, j + 1, k);
        assert(pair_moved(b, j + 1, k) =~= pair_moved(args, j, k));
    } else {
        let b = args.update(j, args[j + 2]).update(j + 1, args[j + 3]).update(j + 2, args[j]).update(j + 3, args[j + 1]);
        lemma_options_swap(args, j);
        lemma_scan_arrives_prefix(args, b, 1, scan_start(), j);
        lemma_arrives_pair(b, 1, scan_start(), j);
        lemma_units_frame(args, b, j + 4, k + 2, f);
        lemma_option_moves_anywhere(b, j + 2, k);
        assert(pair_moved(b, j + 2, k) =~= pair_moved(args, j, k));
    }
}


/// `args` with the option pair at `k` moved back to stand at `j`: the
/// arguments in `[j, k)` follow it.
pub open spec fn pair_moved_back(args: Seq<Seq<char>>, j: int, k: int) -> Seq<Seq<char>> {
    args.subrange(0, j) + seq![args[k], args[k + 1]] + args.subrange(j, k) + args.subrange(k + 2, args.len() as int)
}

proof fn lemma_units_shift(a1: Seq<Seq<char>>, a2: Seq<Seq<char>>, a: int, b: int, field: int)
    requires
        0 <= a,
        b + 2 <= a2.len(),
        b <= a1.len(),
        forall|x: int| a <= x < b ==> a2[x + 2] == a1[x],
        units_between(a1, a, b, field),
    ensures
        units_between(a2, a + 2, b + 2, field),
    decreases b - a,
{
    if a < b {
        if 0 <= a < a1.len() && plain_word(a1[a]) {
            lemma_units_shift(a1, a2, a + 1, b, field);
        } else {
            assert(a2[a + 3] == a1[a + 1]);
            lemma_units_shift(a1, a2, a + 2, b, field);
        }
    }
}

/// An option given as a flag and its value may as well be moved back, to
/// any earlier place that the scan of the command line arrives at, over
/// arguments that are whole units (positional words, or other options with
/// their values): the command line means the same.
pub proof fn lemma_option_moves_back(args: Seq<Seq<char>>, j: int, k: int)
    requires
        1 <= j <= k,
        k + 2 <= args.len(),
        scan_arrives(args, 1, scan_start(), j) is Some,
        pair_flag(args[k]),
        units_between(args, j, k, flag_field(args[k])),
    ensures
        parse_spec(args) == parse_spec(pair_moved_back(args, j, k)),
{
    let b = pair_moved_back(args, j, k);
    assert(b.len() == args.len());
    assert(b[j] == args[k]);
    assert(b[j + 1] == args[k + 1]);
    lemma_scan_arrives_prefix(args, b, 1, scan_start(), j);
    assert forall|x: int| j <= x < k implies b[x + 2] == args[x] by {}
    lemma_units_shift(args, b, j, k, flag_field(args[k]));
    lemma_option_moves_anywhere(b, j, k);
    assert(pair_moved(b, j, k) =~= args);
}


/// Each word after `session` names its own command, whatever options were
/// given and whatever follows: `show`/`view` show the session named next,
/// `history`/`hist` give its event history, `run` runs it on the rest of the
/// words, `list`/`ls` list the sessions and `create`/`new` create one.
pub proof fn lemma_session_subcommands(st: ScanState)
    requires
        st.tokens.len() >= 3,
        st.tokens[0] == "session"@ || st.tokens[0] == "s"@,
    ensures
        st.tokens[1] == "show"@ || st.tokens[1] == "view"@ ==> command_of(st) == Ok::<CommandView, Seq<char>>(
            (CommandView::SessionShow { session_id: st.tokens[2] }),
        ),
        st.tokens[1] == "history"@ || st.tokens[1] == "hist"@ ==> command_of(st) == Ok::<CommandView, Seq<char>>(
            (CommandView::SessionHistory { session_id: st.tokens[2] }),
        ),
        st.tokens[1] == "list"@ || st.tokens[1] == "ls"@ ==> command_of(st) == Ok::<CommandView, Seq<char>>(
            CommandView::SessionList,
        ),
        st.tokens[1] == "create"@ || st.tokens[1] == "new"@ ==> (command_of(st) matches Ok(
            CommandView::SessionCreate { .. },
        )),
        st.tokens[1] == "run"@ && st.tokens.len() >= 4 ==> command_of(st) == Ok::<CommandView, Seq<char>>(
            (CommandView::SessionRun { session_id: st.tokens[2], input: join(st.tokens.skip(3), " "@) }),
        ),
{
    reveal_strlit("create");
    reveal_strlit("new");
    reveal_strlit("list");
    reveal_strlit("ls");
    reveal_strlit("show");
    reveal_strlit("view");
    reveal_strlit("history");
    reveal_strlit("hist");
    reveal_strlit("run");
    assert("hist"@[0] != "list"@[0] && "hist"@[0] != "show"@[0] && "hist"@[0] != "view"@[0]);
    assert("show"@[0] != "list"@[0] && "view"@[0] != "list"@[0]);
    assert("run"@[0] != "new"@[0]);
    assert("history"@.len() == 7 && "create"@.len() == 6 && "new"@.len() == 3 && "list"@.len() == 4);
    assert("hist"@ != "list"@ && "hist"@ != "show"@ && "hist"@ != "view"@ && "hist"@ != "create"@ && "hist"@ != "new"@
        && "hist"@ != "ls"@);
    assert("history"@ != "list"@ && "history"@ != "show"@ && "history"@ != "view"@ && "history"@ != "create"@
        && "history"@ != "new"@ && "history"@ != "ls"@);
    assert("show"@ != "list"@ && "show"@ != "create"@ && "show"@ != "new"@ && "show"@ != "ls"@);
    assert("view"@ != "list"@ && "view"@ != "create"@ && "view"@ != "new"@ && "view"@ != "ls"@);
    assert("list"@ != "create"@ && "list"@ != "new"@ && "ls"@ != "create"@ && "ls"@ != "new"@);
    assert("run"@ != "create"@ && "run"@ != "new"@ && "run"@ != "list"@ && "run"@ != "ls"@ && "run"@ != "show"@
        && "run"@ != "view"@ && "run"@ != "history"@ && "run"@ != "hist"@);
}

/// A word that does not start with `-` is a positional word.
proof fn lemma_dashless_plain(a: Seq<char>)
    requires
        a.len() > 0,
        a[0] != '-',
    ensures
        plain_word(a),
{
    reveal_strlit("-d");
    reveal_strlit("--dir");
    reveal_strlit("-m");
    reveal_strlit("--model");
    reveal_strlit("-w");
    reveal_strlit("--workspace");
    reveal_strlit("-p");
    reveal_strlit("--prompt");
    reveal_strlit("--dir=");
    reveal_strlit("-d=");
    reveal_strlit("--model=");
    reveal_strlit("-m=");
    reveal_strlit("--workspace=");
    reveal_strlit("-w=");
    reveal_strlit("--prompt=");
    reveal_strlit("-p=");
    reveal_strlit("-h");
    reveal_strlit("--help");
    assert(a != "-d"@ && a != "--dir"@ && a != "-m"@ && a != "--model"@ && a != "-w"@ && a != "--workspace"@
        && a != "-p"@ && a != "--prompt"@ && a != "-h"@ && a != "--help"@) by {
        assert("-d"@[0] == '-' && "--dir"@[0] == '-' && "-m"@[0] == '-' && "--model"@[0] == '-' && "-w"@[0] == '-'
            && "--workspace"@[0] == '-' && "-p"@[0] == '-' && "--prompt"@[0] == '-' && "-h"@[0] == '-' && "--help"@[0]
            == '-');
    }
    assert(!has_prefix(a, "--dir="@) && !has_prefix(a, "-d="@) && !has_prefix(a, "--model="@) && !has_prefix(a, "-m="@)
        && !has_prefix(a, "--workspace="@) && !has_prefix(a, "-w="@) && !has_prefix(a, "--prompt="@) && !has_prefix(
        a,
        "-p="@,
    )) by {
        assert(a.len() >= 3 ==> a.subrange(0, 3)[0] == a[0]);
        assert(a.len() >= 6 ==> a.subrange(0, 6)[0] == a[0]);
        assert(a.len() >= 8 ==> a.subrange(0, 8)[0] == a[0]);
        assert(a.len() >= 9 ==> a.subrange(0, 9)[0] == a[0]);
        assert(a.len() >= 12 ==> a.subrange(0, 12)[0] == a[0]);
    }
}

/// `ragent session history <id>` (or `hist`, or `s` for `session`) asks for
/// the event history of session `<id>`, and `show`/`view` for its details,
/// for any session id that is not an option.
pub proof fn lemma_session_history_command(prog: Seq<char>, s: Seq<char>, w: Seq<char>, id: Seq<char>)
    requires
        s == "session"@ || s == "s"@,
        w == "history"@ || w == "hist"@ || w == "show"@ || w == "view"@,
        id.len() > 0,
        id[0] != '-',
    ensures
        w == "history"@ || w == "hist"@ ==> parse_spec(seq![prog, s, w, id]) == Ok::<ParsedView, Seq<char>>(
            (ParsedView { custom_dir: None, custom_model: None, command: CommandView::SessionHistory { session_id: id } }),
        ),
        w == "show"@ || w == "view"@ ==> parse_spec(seq![prog, s, w, id]) == Ok::<ParsedView, Seq<char>>(
            (ParsedView { custom_dir: None, custom_model: None, command: CommandView::SessionShow { session_id: id } }),
        ),
{
    reveal_strlit("session");
    reveal_strlit("s");
    reveal_strlit("history");
    reveal_strlit("hist");
    reveal_strlit("show");
    reveal_strlit("view");
    assert(s[0] == 's');
    assert(w[0] != '-') by {
        assert("history"@[0] == 'h' && "hist"@[0] == 'h' && "show"@[0] == 's' && "view"@[0] == 'v');
    }
    lemma_dashless_plain(s);
    lemma_dashless_plain(w);
    lemma_dashless_plain(id);
    let args = seq![prog, s, w, id];
    let st0 = ScanState { dir: None, model: None, workspace: None, prompt: None, tokens: Seq::empty() };
    let st1 = ScanState { tokens: st0.tokens.push(s), ..st0 };
    let st2 = ScanState { tokens: st1.tokens.push(w), ..st1 };
    let st3 = ScanState { tokens: st2.tokens.push(id), ..st2 };
    assert(args[1] == s && args[2] == w && args[3] == id);
    lemma_plain_scan_step(args, 1, st0);
    lemma_plain_scan_step(args, 2, st1);
    lemma_plain_scan_step(args, 3, st2);
    assert(scan(args, 4, st3) == ScanOutcome::Done(st3));
    assert(st3.tokens =~= seq![s, w, id]);
    lemma_session_subcommands(st3);
}

/// The scan takes a positional word as a token and goes on.
proof fn lemma_plain_scan_step(args: Seq<Seq<char>>, i: int, st: ScanState)
    requires
        0 <= i < args.len(),
        plain_word(args[i]),
    ensures
        scan(args, i, st) == scan(args, i + 1, ScanState { tokens: st.tokens.push(args[i]), ..st }),
{
}

} // verus!
