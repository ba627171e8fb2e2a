use vstd::prelude::*;
use crate::text::{push_char, push_str, str_chars, string_from_chars};

verus! {

/// A command of the `ragent` command line.
#[derive(Debug)]
pub enum CliCommand {
    Help,
    SessionCreate { workspace: String, prompt: Option<String> },
    SessionList,
    SessionShow { session_id: String },
    SessionHistory { session_id: String },
    SessionRun { session_id: String, input: String },
    RunNew { workspace: Option<String>, prompt: String },
}

/// A parsed command line: the global options and the command.
#[derive(Debug)]
pub struct ParsedCli {
    pub custom_dir: Option<String>,
    pub custom_model: Option<String>,
    pub command: CliCommand,
}

/// A command line command, over character sequences.
pub enum CommandView {
    Help,
    SessionCreate { workspace: Seq<char>, prompt: Option<Seq<char>> },
    SessionList,
    SessionShow { session_id: Seq<char> },
    SessionHistory { session_id: Seq<char> },
    SessionRun { session_id: Seq<char>, input: Seq<char> },
    RunNew { workspace: Option<Seq<char>>, prompt: Seq<char> },
}

/// A parsed command line, over character sequences.
pub struct ParsedView {
    pub custom_dir: Option<Seq<char>>,
    pub custom_model: Option<Seq<char>>,
    pub command: CommandView,
}

pub open spec fn opt_view(o: Option<String>) -> Option<Seq<char>> {
    match o {
        Some(s) => Some(s@),
        None => None,
    }
}

impl CliCommand {
    pub open spec fn view(self) -> CommandView {
        match self {
            CliCommand::Help => CommandView::Help,
            CliCommand::SessionCreate { workspace, prompt } => CommandView::SessionCreate {
                workspace: workspace@,
                prompt: opt_view(prompt),
            },
            CliCommand::SessionList => CommandView::SessionList,
            CliCommand::SessionShow { session_id } => CommandView::SessionShow {
                session_id: session_id@,
            },
            CliCommand::SessionHistory { session_id } => CommandView::SessionHistory {
                session_id: session_id@,
            },
            CliCommand::SessionRun { session_id, input } => CommandView::SessionRun {
                session_id: session_id@,
                input: input@,
            },
            CliCommand::RunNew { workspace, prompt } => CommandView::RunNew {
                workspace: opt_view(workspace),
                prompt: prompt@,
            },
        }
    }
}

impl ParsedCli {
    pub open spec fn view(self) -> ParsedView {
        ParsedView {
            custom_dir: opt_view(self.custom_dir),
            custom_model: opt_view(self.custom_model),
            command: self.command.view(),
        }
    }
}

/// Characters that Unicode classes as white space (what `str::trim` removes).
pub open spec fn is_unicode_whitespace(c: char) -> bool {
    ('\u{9}' <= c && c <= '\u{d}') || c == ' ' || c == '\u{85}' || c == '\u{a0}' || c
        == '\u{1680}' || ('\u{2000}' <= c && c <= '\u{200a}') || c == '\u{2028}' || c
        == '\u{2029}' || c == '\u{202f}' || c == '\u{205f}' || c == '\u{3000}'
}

/// The text is empty once trimmed: it holds white space only.
pub open spec fn blank(s: Seq<char>) -> bool {
    forall|i: int| 0 <= i < s.len() ==> is_unicode_whitespace(#[trigger] s[i])
}

/// `p` is a prefix of `s`.
pub open spec fn has_prefix(s: Seq<char>, p: Seq<char>) -> bool {
    p.len() <= s.len() && s.subrange(0, p.len() as int) == p
}

/// Joins texts with a separator.
pub open spec fn join(parts: Seq<Seq<char>>, sep: Seq<char>) -> Seq<char>
    decreases parts.len(),
{
    if parts.len() == 0 {
        Seq::empty()
    } else if parts.len() == 1 {
        parts[0]
    } else {
        join(parts.drop_last(), sep) + sep + parts.last()
    }
}

/// Options gathered while scanning the arguments.
pub struct ScanState {
    pub dir: Option<Seq<char>>,
    pub model: Option<Seq<char>>,
    pub workspace: Option<Seq<char>>,
    pub prompt: Option<Seq<char>>,
    pub tokens: Seq<Seq<char>>,
}

/// Outcome of scanning the arguments.
pub enum ScanOutcome {
    Failed(Seq<char>),
    Help(ScanState),
    Done(ScanState),
}

pub open spec fn dir_missing_msg() -> Seq<char> {
    "选项 '-d' / '--dir' 需要提供目录路径参数"@
}

pub open spec fn model_empty_msg() -> Seq<char> {
    "选项 '-m' / '--model' 模型名称不能为空"@
}

pub open spec fn model_missing_msg() -> Seq<char> {
    "选项 '-m' / '--model' 需要提供模型名称参数"@
}

pub open spec fn workspace_missing_msg() -> Seq<char> {
    "选项 '-w' / '--workspace' 需要提供路径参数"@
}

pub open spec fn prompt_missing_msg() -> Seq<char> {
    "选项 '-p' / '--prompt' 需要提供文本参数"@
}

/// Scans the arguments from index `i` on (index 0 is the program name).
pub open spec fn scan(args: Seq<Seq<char>>, i: int, st: ScanState) -> ScanOutcome
    decreases args.len() - i,
{
    if i < 0 || i >= args.len() {
        ScanOutcome::Done(st)
    } else {
        let a = args[i];
        if a == "-d"@ || a == "--dir"@ {
            if i + 1 < args.len() {
                scan(args, i + 2, ScanState { dir: Some(args[i + 1]), ..st })
            } else {
                ScanOutcome::Failed(dir_missing_msg())
            }
        } else if has_prefix(a, "--dir="@) || has_prefix(a, "-d="@) {
            let rest = if has_prefix(a, "--dir="@) { a.skip(6) } else { a.skip(3) };
            if blank(rest) {
                ScanOutcome::Failed(dir_missing_msg())
            } else {
                scan(args, i + 1, ScanState { dir: Some(rest), ..st })
            }
        } else if a == "-m"@ || a == "--model"@ {
            if i + 1 < args.len() {
                if blank(args[i + 1]) {
                    ScanOutcome::Failed(model_empty_msg())
                } else {
                    scan(args, i + 2, ScanState { model: Some(args[i + 1]), ..st })
                }
            } else {
                ScanOutcome::Failed(model_missing_msg())
            }
        } else if has_prefix(a, "--model="@) || has_prefix(a, "-m="@) {
            let rest = if has_prefix(a, "--model="@) { a.skip(8) } else { a.skip(3) };
            if blank(rest) {
                ScanOutcome::Failed(model_empty_msg())
            } else {
                scan(args, i + 1, ScanState { model: Some(rest), ..st })
            }
        } else if a == "-w"@ || a == "--workspace"@ {
            if i + 1 < args.len() {
                scan(args, i + 2, ScanState { workspace: Some(args[i + 1]), ..st })
            } else {
                ScanOutcome::Failed(workspace_missing_msg())
            }
        } else if has_prefix(a, "--workspace="@) || has_prefix(a, "-w="@) {
            let rest = if has_prefix(a, "--workspace="@) { a.skip(12) } else { a.skip(3) };
            if blank(rest) {
                ScanOutcome::Failed(workspace_missing_msg())
            } else {
                scan(args, i + 1, ScanState { workspace: Some(rest), ..st })
            }
        } else if a == "-p"@ || a == "--prompt"@ {
            if i + 1 < args.len() {
                scan(args, i + 2, ScanState { prompt: Some(args[i + 1]), ..st })
            } else {
                ScanOutcome::Failed(prompt_missing_msg())
            }
        } else if has_prefix(a, "--prompt="@) || has_prefix(a, "-p="@) {
            let rest = if has_prefix(a, "--prompt="@) { a.skip(9) } else { a.skip(3) };
            scan(args, i + 1, ScanState { prompt: Some(rest), ..st })
        } else if a == "-h"@ || a == "--help"@ {
            ScanOutcome::Help(st)
        } else {
            scan(args, i + 1, ScanState { tokens: st.tokens.push(a), ..st })
        }
    }
}

/// The command that the positional words name, given the options.
pub open spec fn command_of(st: ScanState) -> Result<CommandView, Seq<char>> {
    let t = st.tokens;
    if t.len() == 0 {
        Ok(CommandView::Help)
    } else if t[0] == "session"@ || t[0] == "s"@ {
        if t.len() == 1 {
            Ok(CommandView::SessionList)
        } else if t[1] == "create"@ || t[1] == "new"@ {
            Ok(
                CommandView::SessionCreate {
                    workspace: match st.workspace {
                        Some(w) => w,
                        None => "."@,
                    },
                    prompt: st.prompt,
                },
            )
        } else if t[1] == "list"@ || t[1] == "ls"@ {
            Ok(CommandView::SessionList)
        } else if t[1] == "show"@ || t[1] == "view"@ {
            if t.len() < 3 {
                Err("用法: ragent session show <session_id>"@)
            } else {
                Ok(CommandView::SessionShow { session_id: t[2] })
            }
        } else if t[1] == "history"@ || t[1] == "hist"@ {
            if t.len() < 3 {
                Err("用法: ragent session history <session_id>"@)
            } else {
                Ok(CommandView::SessionHistory { session_id: t[2] })
            }
        } else if t[1] == "run"@ {
            if t.len() < 4 {
                Err("用法: ragent session run <session_id> <input>"@)
            } else {
                Ok(CommandView::SessionRun { session_id: t[2], input: join(t.skip(3), " "@) })
            }
        } else if t.len() >= 3 {
            Ok(CommandView::SessionRun { session_id: t[1], input: join(t.skip(2), " "@) })
        } else {
            Ok(CommandView::RunNew { workspace: st.workspace, prompt: join(t.skip(1), " "@) })
        }
    } else {
        Ok(CommandView::RunNew { workspace: st.workspace, prompt: join(t, " "@) })
    }
}

/// The meaning of a whole command line (`args[0]` is the program name).
pub open spec fn parse_spec(args: Seq<Seq<char>>) -> Result<ParsedView, Seq<char>> {
    if args.len() <= 1 {
        Ok(ParsedView { custom_dir: None, custom_model: None, command: CommandView::Help })
    } else {
        match scan(
            args,
            1,
            ScanState { dir: None, model: None, workspace: None, prompt: None, tokens: Seq::empty() },
        ) {
            ScanOutcome::Failed(m) => Err(m),
            ScanOutcome::Help(st) => Ok(
                ParsedView { custom_dir: st.dir, custom_model: st.model, command: CommandView::Help },
            ),
            ScanOutcome::Done(st) => match command_of(st) {
                Ok(c) => Ok(ParsedView { custom_dir: st.dir, custom_model: st.model, command: c }),
                Err(m) => Err(m),
            },
        }
    }
}

/// The views of the arguments.
pub open spec fn args_view(args: Seq<String>) -> Seq<Seq<char>> {
    args.map_values(|a: String| a@)
}


/// Whether the characters spell `lit` exactly.
pub fn chars_eq(a: &[char], lit: &str) -> (r: bool)
    ensures
        r == (a@ == lit@),
{
    let l = str_chars(lit);
    if a.len() != l.len() {
        return false;
    }
    let mut i: usize = 0;
    while i < a.len()
        invariant
            l@ == lit@,
            a@.len() == l@.len(),
            i <= a@.len(),
            forall|j: int| 0 <= j < i ==> a@[j] == l@[j],
        decreases a@.len() - i,
    {
        if a[i] != l[i] {
            return false;
        }
        i = i + 1;
    }
    assert(a@ =~= l@);
    true
}

/// Whether the characters begin with `lit`.
pub fn chars_start_with(a: &[char], lit: &str) -> (r: bool)
    ensures
        r == has_prefix(a@, lit@),
{
    let l = str_chars(lit);
    if l.len() > a.len() {
        return false;
    }
    let mut i: usize = 0;
    while i < l.len()
        invariant
            l@ == lit@,
            l@.len() <= a@.len(),
            i <= l@.len(),
            forall|j: int| 0 <= j < i ==> a@[j] == l@[j],
        decreases l@.len() - i,
    {
        if a[i] != l[i] {
            assert(a@.subrange(0, l@.len() as int)[i as int] != l@[i as int]);
            return false;
        }
        i = i + 1;
    }
    assert(a@.subrange(0, l@.len() as int) =~= l@);
    true
}

pub fn is_whitespace_char(c: char) -> (r: bool)
    ensures
        r == is_unicode_whitespace(c),
{
    ('\u{9}' <= c && c <= '\u{d}') || c == ' ' || c == '\u{85}' || c == '\u{a0}' || c
        == '\u{1680}' || ('\u{2000}' <= c && c <= '\u{200a}') || c == '\u{2028}' || c
        == '\u{2029}' || c == '\u{202f}' || c == '\u{205f}' || c == '\u{3000}'
}

/// Whether the characters from `k` on are all white space.
pub fn blank_from(a: &[char], k: usize) -> (r: bool)
    requires
        k <= a@.len(),
    ensures
        r == blank(a@.skip(k as int)),
{
    let mut i: usize = k;
    while i < a.len()
        invariant
            k <= i <= a@.len(),
            forall|j: int| k <= j < i ==> is_unicode_whitespace(#[trigger] a@[j]),
        decreases a@.len() - i,
    {
        if !is_whitespace_char(a[i]) {
            assert(a@.skip(k as int)[i - k] == a@[i as int]);
            return false;
        }
        i = i + 1;
    }
    assert forall|j: int| 0 <= j < a@.skip(k as int).len() implies is_unicode_whitespace(
        #[trigger] a@.skip(k as int)[j],
    ) by {
        assert(a@.skip(k as int)[j] == a@[k + j]);
    }
    true
}

/// `s` without its leading white space.
pub open spec fn trim_start(s: Seq<char>) -> Seq<char>
    decreases s.len(),
{
    if s.len() > 0 && is_unicode_whitespace(s[0]) {
        trim_start(s.drop_first())
    } else {
        s
    }
}

/// `s` without its trailing white space.
pub open spec fn trim_end(s: Seq<char>) -> Seq<char>
    decreases s.len(),
{
    if s.len() > 0 && is_unicode_whitespace(s.last()) {
        trim_end(s.drop_last())
    } else {
        s
    }
}

/// `s` without leading and trailing white space (`str::trim`).
pub open spec fn trimmed(s: Seq<char>) -> Seq<char> {
    trim_end(trim_start(s))
}

/// The characters of `cs` without leading and trailing white space.
pub fn trim_chars(cs: &[char]) -> (r: String)
    ensures
        r@ == trimmed(cs@),
{
    let mut a: usize = 0;
    assert(cs@.skip(0) =~= cs@);
    while a < cs.len() && is_whitespace_char(cs[a])
        invariant
            a <= cs@.len(),
            trim_start(cs@) == trim_start(cs@.skip(a as int)),
        decreases cs@.len() - a,
    {
        assert(cs@.skip(a as int).drop_first() =~= cs@.skip(a + 1));
        a = a + 1;
    }
    let ghost t = cs@.skip(a as int);
    assert(trim_start(cs@) == t);
    let mut b: usize = cs.len();
    assert(cs@.subrange(a as int, b as int) =~= t);
    while b > a && is_whitespace_char(cs[b - 1])
        invariant
            a <= b <= cs@.len(),
            t == cs@.skip(a as int),
            trim_end(t) == trim_end(cs@.subrange(a as int, b as int)),
        decreases b,
    {
        assert(cs@.subrange(a as int, b as int).drop_last() =~= cs@.subrange(a as int, b - 1));
        b = b - 1;
    }
    let mut out = String::new();
    let mut i: usize = a;
    while i < b
        invariant
            a <= i <= b <= cs@.len(),
            out@ == cs@.subrange(a as int, i as int),
        decreases b - i,
    {
        push_char(&mut out, cs[i]);
        i = i + 1;
        assert(out@ =~= cs@.subrange(a as int, i as int));
    }
    out
}

/// `s` without leading and trailing white space.
pub fn trim_str(s: &str) -> (r: String)
    ensures
        r@ == trimmed(s@),
{
    let cs = str_chars(s);
    trim_chars(cs.as_slice())
}

/// Whether `s` is empty once trimmed.
pub fn is_blank(s: &str) -> (r: bool)
    ensures
        r == blank(s@),
{
    let cs = str_chars(s);
    let r = blank_from(cs.as_slice(), 0);
    assert(cs@.skip(0) =~= cs@);
    r
}

/// The characters from `k` on, as a string.
pub fn chars_skip(a: &[char], k: usize) -> (r: String)
    requires
        k <= a@.len(),
    ensures
        r@ == a@.skip(k as int),
{
    let mut s = String::new();
    let mut i: usize = k;
    while i < a.len()
        invariant
            k <= i <= a@.len(),
            s@ == a@.subrange(k as int, i as int),
        decreases a@.len() - i,
    {
        push_char(&mut s, a[i]);
        i = i + 1;
        assert(s@ =~= a@.subrange(k as int, i as int));
    }
    assert(s@ =~= a@.skip(k as int));
    s
}

/// Joins `parts[from..]` with single spaces.
pub fn join_words(parts: &Vec<String>, from: usize) -> (r: String)
    requires
        from <= parts@.len(),
    ensures
        r@ == join(args_view(parts@).skip(from as int), " "@),
{
    let ghost v = args_view(parts@).skip(from as int);
    let mut s = String::new();
    let mut i: usize = from;
    while i < parts.len()
        invariant
            from <= i <= parts@.len(),
            v == args_view(parts@).skip(from as int),
            s@ == join(v.subrange(0, i - from), " "@),
        decreases parts@.len() - i,
    {
        let ghost pre = v.subrange(0, i - from);
        let ghost post = v.subrange(0, i + 1 - from);
        assert(post.drop_last() =~= pre);
        assert(post.last() == parts@[i as int]@);
        if i > from {
            push_str(&mut s, " ");
        }
        push_str(&mut s, parts[i].as_str());
        i = i + 1;
        proof {
            if pre.len() == 0 {
                assert(s@ =~= post[0]);
            }
        }
    }
    assert(v.subrange(0, parts@.len() - from) =~= v);
    s
}

fn clone_opt(a: &Option<String>) -> (r: Option<String>)
    ensures
        r == *a,
{
    match a {
        Some(x) => Some(x.clone()),
        None => None,
    }
}


/// The command that the positional words name (see `command_of`).
fn command_from(tokens: &Vec<String>, workspace: Option<String>, prompt: Option<String>) -> (r: Result<
    CliCommand,
    String,
>)
    ensures
        command_of(
            ScanState {
                dir: None,
                model: None,
                workspace: opt_view(workspace),
                prompt: opt_view(prompt),
                tokens: args_view(tokens@),
            },
        ) == (match r {
            Ok(c) => Ok(c.view()),
            Err(e) => Err(e@),
        }),
{
    let ghost t = args_view(tokens@);
    if tokens.len() == 0 {
        return Ok(CliCommand::Help);
    }
    let t0 = str_chars(tokens[0].as_str());
    assert(t0@ == t[0]);
    if chars_eq(&t0, "session") || chars_eq(&t0, "s") {
        if tokens.len() == 1 {
            return Ok(CliCommand::SessionList);
        }
        let t1 = str_chars(tokens[1].as_str());
        assert(t1@ == t[1]);
        if chars_eq(&t1, "create") || chars_eq(&t1, "new") {
            let ws = match workspace {
                Some(w) => w,
                None => String::from_str("."),
            };
            return Ok(CliCommand::SessionCreate { workspace: ws, prompt });
        }
        if chars_eq(&t1, "list") || chars_eq(&t1, "ls") {
            return Ok(CliCommand::SessionList);
        }
        if chars_eq(&t1, "show") || chars_eq(&t1, "view") {
            if tokens.len() < 3 {
                return Err(String::from_str("用法: ragent session show <session_id>"));
            }
            return Ok(CliCommand::SessionShow { session_id: tokens[2].clone() });
        }
        if chars_eq(&t1, "history") || chars_eq(&t1, "hist") {
            if tokens.len() < 3 {
                return Err(String::from_str("用法: ragent session history <session_id>"));
            }
            return Ok(CliCommand::SessionHistory { session_id: tokens[2].clone() });
        }
        if chars_eq(&t1, "run") {
            if tokens.len() < 4 {
                return Err(String::from_str("用法: ragent session run <session_id> <input>"));
            }
            let input = join_words(tokens, 3);
            return Ok(CliCommand::SessionRun { session_id: tokens[2].clone(), input });
        }
        if tokens.len() >= 3 {
            let input = join_words(tokens, 2);
            return Ok(CliCommand::SessionRun { session_id: tokens[1].clone(), input });
        }
        let input = join_words(tokens, 1);
        return Ok(CliCommand::RunNew { workspace, prompt: input });
    }
    let p = join_words(tokens, 0);
    assert(t.skip(0) =~= t);
    Ok(CliCommand::RunNew { workspace, prompt: p })
}

/// Parses the command line (`args[0]` is the program name): the options
/// `-d/--dir`, `-m/--model`, `-w/--workspace`, `-p/--prompt` (each also as
/// `--opt=value` and `-o=value`) and `-h/--help`, anywhere among the words;
/// then the command that the remaining words name. No words, or only the
/// program name, asks for help.
pub fn parse_cli_args(args: &Vec<String>) -> (r: Result<ParsedCli, String>)
    ensures
        parse_spec(args_view(args@)) == (match r {
            Ok(p) => Ok(p.view()),
            Err(e) => Err(e@),
        }),
{
    let ghost av = args_view(args@);
    if args.len() <= 1 {
        return Ok(ParsedCli { custom_dir: None, custom_model: None, command: CliCommand::Help });
    }
    let mut dir: Option<String> = None;
    let mut model: Option<String> = None;
    let mut workspace: Option<String> = None;
    let mut prompt: Option<String> = None;
    let mut tokens: Vec<String> = Vec::new();
    let mut i: usize = 1;
    let ghost start = ScanState {
        dir: None,
        model: None,
        workspace: None,
        prompt: None,
        tokens: Seq::empty(),
    };
    assert(args_view(tokens@) =~= Seq::<Seq<char>>::empty());
    while i < args.len()
        invariant
            av == args_view(args@),
            args@.len() > 1,
            start == (ScanState {
                dir: None,
                model: None,
                workspace: None,
                prompt: None,
                tokens: Seq::empty(),
            }),
            1 <= i,
            scan(av, 1, start) == scan(
                av,
                i as int,
                ScanState {
                    dir: opt_view(dir),
                    model: opt_view(model),
                    workspace: opt_view(workspace),
                    prompt: opt_view(prompt),
                    tokens: args_view(tokens@),
                },
            ),
        decreases args@.len() - i,
    {
        let a = str_chars(args[i].as_str());
        assert(a@ == av[i as int]);
        if chars_eq(&a, "-d") || chars_eq(&a, "--dir") {
            if i + 1 < args.len() {
                dir = Some(args[i + 1].clone());
                i = i + 2;
                continue;
            } else {
                return Err(String::from_str("选项 '-d' / '--dir' 需要提供目录路径参数"));
            }
        } else if chars_start_with(&a, "--dir=") || chars_start_with(&a, "-d=") {
            let k: usize = if chars_start_with(&a, "--dir=") {
                proof {
                    reveal_strlit("--dir=");
                }
                6
            } else {
                proof {
                    reveal_strlit("-d=");
                }
                3
            };
            if blank_from(&a, k) {
                return Err(String::from_str("选项 '-d' / '--dir' 需要提供目录路径参数"));
            }
            dir = Some(chars_skip(&a, k));
            i = i + 1;
            continue;
        } else if chars_eq(&a, "-m") || chars_eq(&a, "--model") {
            if i + 1 < args.len() {
                let m = str_chars(args[i + 1].as_str());
                assert(m@ == av[i + 1]);
                assert(m@.skip(0) =~= m@);
                if blank_from(&m, 0) {
                    return Err(String::from_str("选项 '-m' / '--model' 模型名称不能为空"));
                }
                model = Some(args[i + 1].clone());
                i = i + 2;
                continue;
            } else {
                return Err(String::from_str("选项 '-m' / '--model' 需要提供模型名称参数"));
            }
        } else if chars_start_with(&a, "--model=") || chars_start_with(&a, "-m=") {
            let k: usize = if chars_start_with(&a, "--model=") {
                proof {
                    reveal_strlit("--model=");
                }
                8
            } else {
                proof {
                    reveal_strlit("-m=");
                }
                3
            };
            if blank_from(&a, k) {
                return Err(String::from_str("选项 '-m' / '--model' 模型名称不能为空"));
            }
            model = Some(chars_skip(&a, k));
            i = i + 1;
            continue;
        } else if chars_eq(&a, "-w") || chars_eq(&a, "--workspace") {
            if i + 1 < args.len() {
                workspace = Some(args[i + 1].clone());
                i = i + 2;
                continue;
            } else {
                return Err(String::from_str("选项 '-w' / '--workspace' 需要提供路径参数"));
            }
        } else if chars_start_with(&a, "--workspace=") || chars_start_with(&a, "-w=") {
            let k: usize = if chars_start_with(&a, "--workspace=") {
                proof {
                    reveal_strlit("--workspace=");
                }
                12
            } else {
                proof {
                    reveal_strlit("-w=");
                }
                3
            };
            if blank_from(&a, k) {
                return Err(String::from_str("选项 '-w' / '--workspace' 需要提供路径参数"));
            }
            workspace = Some(chars_skip(&a, k));
            i = i + 1;
            continue;
        } else if chars_eq(&a, "-p") || chars_eq(&a, "--prompt") {
            if i + 1 < args.len() {
                prompt = Some(args[i + 1].clone());
                i = i + 2;
                continue;
            } else {
                return Err(String::from_str("选项 '-p' / '--prompt' 需要提供文本参数"));
            }
        } else if chars_start_with(&a, "--prompt=") || chars_start_with(&a, "-p=") {
            let k: usize = if chars_start_with(&a, "--prompt=") {
                proof {
                    reveal_strlit("--prompt=");
                }
                9
            } else {
                proof {
                    reveal_strlit("-p=");
                }
                3
            };
            prompt = Some(chars_skip(&a, k));
            i = i + 1;
            continue;
        } else if chars_eq(&a, "-h") || chars_eq(&a, "--help") {
            return Ok(ParsedCli { custom_dir: dir, custom_model: model, command: CliCommand::Help });
        } else {
            let ghost old_tokens = tokens@;
            tokens.push(args[i].clone());
            assert(args_view(tokens@) =~= args_view(old_tokens).push(av[i as int]));
            i = i + 1;
        }
    }
    let d2 = clone_opt(&dir);
    let m2 = clone_opt(&model);
    match command_from(&tokens, workspace, prompt) {
        Ok(c) => Ok(ParsedCli { custom_dir: d2, custom_model: m2, command: c }),
        Err(e) => Err(e),
    }
}

} // verus!
