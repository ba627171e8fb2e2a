use vstd::prelude::*;
use crate::cli::{blank, is_blank, is_whitespace_char, trim_chars, trim_str, trimmed};
use crate::error::AgentError;
use crate::ext_config::{join_path, joined_path};
use crate::item::{ContentPart, Item, MessageRole};
use crate::text::{decimal, push_char, push_str, push_u64_decimal, str_chars};

verus! {

/// The version of the session file format this build reads and writes.
pub const SESSION_SCHEMA_VERSION: u32 = 2;

/// The title of a session before its first user message names it.
pub const DEFAULT_SESSION_TITLE: &'static str = "新建会话";

/// The agent's standing instructions in a session file.
pub const SESSION_SYSTEM_PROMPT: &'static str = "你是一个高效、精准、善于深度思考的 AI 智能体助手";

/// What a session list shows of a session.
#[derive(Debug)]
pub struct SessionMeta {
    pub id: String,
    pub title: String,
    pub model: String,
    pub created_at: u64,
    pub updated_at: u64,
    pub item_count: usize,
}

/// Characters of a session name: ASCII letters and digits, `_` and `-`.
pub open spec fn is_name_char(c: char) -> bool {
    ('0' <= c && c <= '9') || ('a' <= c && c <= 'z') || ('A' <= c && c <= 'Z') || c == '_' || c == '-'
}

/// A session name is valid once trimmed: 1 to 64 characters, each a name
/// character.
pub open spec fn session_name_valid(id: Seq<char>) -> bool {
    let t = trimmed(id);
    &&& t.len() > 0
    &&& t.len() <= 64
    &&& forall|i: int| 0 <= i < t.len() ==> is_name_char(#[trigger] t[i])
}

/// Checks a session name (it becomes a file name); the error holds the
/// trimmed name.
pub fn validate_session_id(id: &str) -> (r: Result<(), AgentError>)
    ensures
        r is Ok <==> session_name_valid(id@),
        r is Err ==> (r matches Err(AgentError::InvalidSessionId(m)) && m@ == trimmed(id@)),
{
    let t = trim_str(id);
    let cs = str_chars(t.as_str());
    if cs.len() == 0 || cs.len() > 64 {
        return Err(AgentError::InvalidSessionId(t));
    }
    let mut i: usize = 0;
    while i < cs.len()
        invariant
            cs@ == t@,
            t@ == trimmed(id@),
            i <= cs@.len(),
            forall|j: int| 0 <= j < i ==> is_name_char(#[trigger] cs@[j]),
        decreases cs@.len() - i,
    {
        let c = cs[i];
        let ok = ('0' <= c && c <= '9') || ('a' <= c && c <= 'z') || ('A' <= c && c <= 'Z') || c == '_'
            || c == '-';
        if !ok {
            assert(!is_name_char(t@[i as int]));
            return Err(AgentError::InvalidSessionId(t));
        }
        i = i + 1;
    }
    Ok(())
}

/// The scratch directory of a named session.
pub open spec fn tmp_dir_text(name: Seq<char>) -> Seq<char> {
    joined_path("/tmp/ragent"@, name)
}

/// The basic system prompt of a session file's session.
pub open spec fn session_prompt_text(tmp_dir: Seq<char>) -> Seq<char> {
    SESSION_SYSTEM_PROMPT@ + "\n\n## 会话临时目录 (session_tmp)\n当前会话临时目录为: `"@ + tmp_dir
        + "`\n使用指南:\n- 该目录用来放置那些不适合出现在 workspace 的文件，比如从剪切板粘贴的图片、测试代码等过渡内容。\n- 在处理临时或过渡性文件时，请优先使用此目录，避免污染工作区。"@
}

/// The basic system prompt for the session named `session_id`.
pub fn build_basic_system_prompt(session_id: &str) -> (r: Result<String, AgentError>)
    ensures
        r is Ok <==> session_name_valid(session_id@),
        r matches Ok(p) ==> p@ == session_prompt_text(tmp_dir_text(session_id@)),
        r is Err ==> (r matches Err(AgentError::InvalidSessionId(m)) && m@ == trimmed(session_id@)),
{
    match validate_session_id(session_id) {
        Err(e) => Err(e),
        Ok(()) => {
            let dir = join_path("/tmp/ragent", session_id);
            proof { reveal_strlit("/tmp/ragent"); }
            let mut p = String::new();
            push_str(&mut p, SESSION_SYSTEM_PROMPT);
            push_str(&mut p, "\n\n## 会话临时目录 (session_tmp)\n当前会话临时目录为: `");
            push_str(&mut p, dir.as_str());
            push_str(
                &mut p,
                "`\n使用指南:\n- 该目录用来放置那些不适合出现在 workspace 的文件，比如从剪切板粘贴的图片、测试代码等过渡内容。\n- 在处理临时或过渡性文件时，请优先使用此目录，避免污染工作区。",
            );
            assert(p@ =~= session_prompt_text(tmp_dir_text(session_id@)));
            Ok(p)
        },
    }
}

/// The error for a stored session of another schema version.
pub fn check_session_schema(found: Option<u64>) -> (r: Result<(), AgentError>)
    ensures
        found == Some(SESSION_SCHEMA_VERSION as u64) ==> r is Ok,
        found != Some(SESSION_SCHEMA_VERSION as u64) ==> r == Err::<(), AgentError>(
            AgentError::UnsupportedSessionVersion { found, expected: SESSION_SCHEMA_VERSION },
        ),
{
    if found == Some(SESSION_SCHEMA_VERSION as u64) {
        Ok(())
    } else {
        Err(AgentError::UnsupportedSessionVersion { found, expected: SESSION_SCHEMA_VERSION })
    }
}

/// A control character that a title shows as a space.
pub open spec fn title_space(c: char) -> char {
    if c == '\r' || c == '\n' || c == '\t' { ' ' } else { c }
}

/// A title from a message: line breaks and tabs become spaces, the text is
/// trimmed and cut after `max` characters, with `...` when it was longer.
pub open spec fn title_text(content: Seq<char>, max: nat) -> Seq<char> {
    let t = trimmed(content.map_values(|c: char| title_space(c)));
    if t.len() > max {
        t.subrange(0, max as int) + "..."@
    } else {
        t
    }
}

/// Cuts a message down to a title (see `title_text`).
pub fn truncate_title(content: &str, max_chars: usize) -> (r: String)
    ensures
        r@ == title_text(content@, max_chars as nat),
{
    let cs = str_chars(content);
    let mut clean: Vec<char> = Vec::new();
    let mut i: usize = 0;
    while i < cs.len()
        invariant
            i <= cs@.len(),
            cs@ == content@,
            clean@ == cs@.subrange(0, i as int).map_values(|c: char| title_space(c)),
        decreases cs@.len() - i,
    {
        let c = cs[i];
        clean.push(if c == '\r' || c == '\n' || c == '\t' { ' ' } else { c });
        i = i + 1;
        assert(clean@ =~= cs@.subrange(0, i as int).map_values(|c: char| title_space(c)));
    }
    assert(cs@.subrange(0, cs@.len() as int) =~= cs@);
    let t = trim_chars(clean.as_slice());
    let tc = str_chars(t.as_str());
    if tc.len() > max_chars {
        let mut out = String::new();
        let mut k: usize = 0;
        while k < max_chars
            invariant
                k <= max_chars < tc@.len(),
                out@ == tc@.subrange(0, k as int),
            decreases max_chars - k,
        {
            push_char(&mut out, tc[k]);
            k = k + 1;
            assert(out@ =~= tc@.subrange(0, k as int));
        }
        push_str(&mut out, "...");
        out
    } else {
        t
    }
}

/// The text a part contributes when a session looks for its first user text.
pub open spec fn part_text_field(p: ContentPart) -> Option<Seq<char>> {
    match p {
        ContentPart::InputText { text } => Some(text@),
        ContentPart::OutputText { text, .. } => Some(text@),
        ContentPart::PlainText { text } => Some(text@),
        ContentPart::SummaryText { text } => Some(text@),
        ContentPart::ReasoningText { text } => Some(text@),
        _ => None,
    }
}

/// The first non-blank text of a user message's parts.
pub open spec fn first_text_of(parts: Seq<ContentPart>) -> Option<Seq<char>>
    decreases parts.len(),
{
    if parts.len() == 0 {
        None
    } else {
        match part_text_field(parts[0]) {
            Some(t) => if !blank(t) {
                Some(t)
            } else {
                first_text_of(parts.drop_first())
            },
            None => first_text_of(parts.drop_first()),
        }
    }
}

/// The first non-blank text of the first user message that has one.
pub open spec fn first_user_text(items: Seq<Item>) -> Option<Seq<char>>
    decreases items.len(),
{
    if items.len() == 0 {
        None
    } else {
        match items[0] {
            Item::Message { role: MessageRole::User, content, .. } => match first_text_of(content@) {
                Some(t) => Some(t),
                None => first_user_text(items.drop_first()),
            },
            _ => first_user_text(items.drop_first()),
        }
    }
}

fn first_text_in(parts: &Vec<ContentPart>) -> (r: Option<String>)
    ensures
        match first_text_of(parts@) {
            Some(t) => r matches Some(s) && s@ == t,
            None => r is None,
        },
{
    let mut i: usize = 0;
    assert(parts@.skip(0) =~= parts@);
    while i < parts.len()
        invariant
            i <= parts@.len(),
            first_text_of(parts@) == first_text_of(parts@.skip(i as int)),
        decreases parts@.len() - i,
    {
        assert(parts@.skip(i as int)[0] == parts@[i as int]);
        assert(parts@.skip(i as int).drop_first() =~= parts@.skip(i + 1));
        let t: Option<&String> = match &parts[i] {
            ContentPart::InputText { text } => Some(text),
            ContentPart::OutputText { text, .. } => Some(text),
            ContentPart::PlainText { text } => Some(text),
            ContentPart::SummaryText { text } => Some(text),
            ContentPart::ReasoningText { text } => Some(text),
            _ => None,
        };
        match t {
            Some(s) => {
                if !is_blank(s.as_str()) {
                    return Some(s.clone());
                }
            },
            None => {},
        }
        i = i + 1;
    }
    None
}

/// The first user text of a session's items (see `first_user_text`).
pub fn find_first_user_message(items: &Vec<Item>) -> (r: Option<String>)
    ensures
        match first_user_text(items@) {
            Some(t) => r matches Some(s) && s@ == t,
            None => r is None,
        },
{
    let mut i: usize = 0;
    assert(items@.skip(0) =~= items@);
    while i < items.len()
        invariant
            i <= items@.len(),
            first_user_text(items@) == first_user_text(items@.skip(i as int)),
        decreases items@.len() - i,
    {
        assert(items@.skip(i as int)[0] == items@[i as int]);
        assert(items@.skip(i as int).drop_first() =~= items@.skip(i + 1));
        match &items[i] {
            Item::Message { role: MessageRole::User, content, .. } => {
                match first_text_in(content) {
                    Some(t) => {
                        return Some(t);
                    },
                    None => {},
                }
            },
            _ => {},
        }
        i = i + 1;
    }
    None
}

/// A session as its file holds it.
#[derive(Debug)]
pub struct SessionData {
    pub schema_version: u32,
    pub meta: SessionMeta,
    /// Fixed when the session is created; not updated afterwards.
    pub basic_system_prompt: String,
    pub items: Vec<Item>,
}

/// The current time in whole seconds since the Unix epoch (0 before it).
/// Depends on the clock: nothing is promised of the value.
#[verifier::external_body]
fn now_secs() -> u64 {
    match std::time::SystemTime::now().duration_since(std::time::UNIX_EPOCH) {
        Ok(d) => d.as_secs(),
        Err(_) => 0,
    }
}

/// A title that a session's first user message may replace.
pub open spec fn title_replaceable(title: Seq<char>) -> bool {
    title == DEFAULT_SESSION_TITLE@ || title.len() == 0
}

impl SessionData {
    /// A new empty session named `id` for `model`, created now.
    pub fn new(id: String, model: String) -> (r: Result<Self, AgentError>)
        ensures
            r is Ok <==> session_name_valid(id@),
            r matches Ok(d) ==> {
                &&& d.schema_version == SESSION_SCHEMA_VERSION
                &&& d.meta.id == id
                &&& d.meta.title@ == DEFAULT_SESSION_TITLE@
                &&& d.meta.model == model
                &&& d.meta.created_at == d.meta.updated_at
                &&& d.meta.item_count == 0
                &&& d.items@.len() == 0
                &&& d.basic_system_prompt@ == session_prompt_text(tmp_dir_text(id@))
            },
            r is Err ==> (r matches Err(AgentError::InvalidSessionId(m)) && m@ == trimmed(id@)),
    {
        let now = now_secs();
        SessionData::new_at(id, model, now)
    }

    /// A new empty session named `id` for `model`, created at `now` (seconds).
    pub fn new_at(id: String, model: String, now: u64) -> (r: Result<Self, AgentError>)
        ensures
            r is Ok <==> session_name_valid(id@),
            r matches Ok(d) ==> {
                &&& d.schema_version == SESSION_SCHEMA_VERSION
                &&& d.meta.id == id
                &&& d.meta.title@ == DEFAULT_SESSION_TITLE@
                &&& d.meta.model == model
                &&& d.meta.created_at == now
                &&& d.meta.updated_at == now
                &&& d.meta.item_count == 0
                &&& d.items@.len() == 0
                &&& d.basic_system_prompt@ == session_prompt_text(tmp_dir_text(id@))
            },
            r is Err ==> (r matches Err(AgentError::InvalidSessionId(m)) && m@ == trimmed(id@)),
    {
        let prompt = match build_basic_system_prompt(id.as_str()) {
            Ok(p) => p,
            Err(e) => {
                return Err(e);
            },
        };
        Ok(
            SessionData {
                schema_version: SESSION_SCHEMA_VERSION,
                meta: SessionMeta {
                    id,
                    title: DEFAULT_SESSION_TITLE.to_string(),
                    model,
                    created_at: now,
                    updated_at: now,
                    item_count: 0,
                },
                basic_system_prompt: prompt,
                items: Vec::new(),
            },
        )
    }

    /// A session name made from the current time (see `generate_id_at`).
    pub fn generate_id() -> (r: String)
        ensures
            exists|now: u64| r@ == generated_session_name(now),
    {
        let now = now_secs();
        generate_id_at(now)
    }

    /// The temporary directory of the session.
    pub fn temp_dir(&self) -> (r: String)
        ensures
            r@ == crate::session::session_tmp_dir_text(self.meta.id@),
    {
        crate::session::session_tmp_dir(self.meta.id.as_str())
    }

    /// The prompt fixed when the session was created.
    pub fn basic_system_prompt(&self) -> (r: &str)
        ensures
            r@ == self.basic_system_prompt@,
    {
        self.basic_system_prompt.as_str()
    }

    /// Checks that the data is of the schema version this build reads.
    pub fn validate_schema_version(&self) -> (r: Result<(), AgentError>)
        ensures
            self.schema_version == SESSION_SCHEMA_VERSION ==> r is Ok,
            self.schema_version != SESSION_SCHEMA_VERSION ==> r == Err::<(), AgentError>(
                AgentError::UnsupportedSessionVersion {
                    found: Some(self.schema_version as u64),
                    expected: SESSION_SCHEMA_VERSION,
                },
            ),
    {
        if self.schema_version != SESSION_SCHEMA_VERSION {
            return Err(
                AgentError::UnsupportedSessionVersion {
                    found: Some(self.schema_version as u64),
                    expected: SESSION_SCHEMA_VERSION,
                },
            );
        }
        Ok(())
    }

    /// Replaces the items now (see `update_at`).
    pub fn update_from_context(&mut self, items: Vec<Item>)
        ensures
            final(self).items == items,
            final(self).meta.item_count == items@.len(),
            final(self).meta.id == old(self).meta.id,
            final(self).meta.model == old(self).meta.model,
            final(self).meta.created_at == old(self).meta.created_at,
            final(self).schema_version == old(self).schema_version,
            final(self).basic_system_prompt == old(self).basic_system_prompt,
            final(self).meta.title@ == (if title_replaceable(old(self).meta.title@) && first_user_text(items@) is Some {
                title_text(first_user_text(items@)->Some_0, 40)
            } else {
                old(self).meta.title@
            }),
    {
        let now = now_secs();
        self.update_at(items, now);
    }

    /// Replaces the items at `now`; a session still without a title takes
    /// one from its first user text.
    pub fn update_at(&mut self, items: Vec<Item>, now: u64)
        ensures
            final(self).items == items,
            final(self).meta.item_count == items@.len(),
            final(self).meta.updated_at == now,
            final(self).meta.id == old(self).meta.id,
            final(self).meta.model == old(self).meta.model,
            final(self).meta.created_at == old(self).meta.created_at,
            final(self).schema_version == old(self).schema_version,
            final(self).basic_system_prompt == old(self).basic_system_prompt,
            final(self).meta.title@ == (if title_replaceable(old(self).meta.title@) && first_user_text(items@) is Some {
                title_text(first_user_text(items@)->Some_0, 40)
            } else {
                old(self).meta.title@
            }),
    {
        let n = items.len();
        self.items = items;
        self.meta.item_count = n;
        self.meta.updated_at = now;
        let replaceable = {
            let d = DEFAULT_SESSION_TITLE.to_string();
            self.meta.title == d || self.meta.title.as_str().unicode_len() == 0
        };
        if replaceable {
            match find_first_user_message(&self.items) {
                Some(first) => {
                    self.meta.title = truncate_title(first.as_str(), 40);
                },
                None => {},
            }
        }
    }
}

pub open spec fn hex_digit(d: nat) -> char {
    if d < 10 { crate::text::digit_char(d) } else { ((97 + d - 10) as int) as char }
}

/// Lower-case hexadecimal notation without leading zeros.
pub open spec fn hex(n: nat) -> Seq<char>
    decreases n,
{
    if n < 16 {
        seq![hex_digit(n)]
    } else {
        hex(n / 16).push(hex_digit(n % 16))
    }
}

/// Lower-case hexadecimal padded with zeros to at least `w` digits.
pub open spec fn hex_padded(n: nat, w: nat) -> Seq<char> {
    let h = hex(n);
    if h.len() >= w {
        h
    } else {
        Seq::new((w - h.len()) as nat, |i: int| '0') + h
    }
}

fn hex_char(d: u64) -> (c: char)
    requires
        d < 16,
    ensures
        c == hex_digit(d as nat),
{
    if d < 10 {
        let mut s = String::new();
        push_u64_decimal(&mut s, d);
        assert(decimal(d as nat) == seq![crate::text::digit_char(d as nat)]);
        s.get_char(0)
    } else if d == 10 {
        'a'
    } else if d == 11 {
        'b'
    } else if d == 12 {
        'c'
    } else if d == 13 {
        'd'
    } else if d == 14 {
        'e'
    } else {
        'f'
    }
}

fn push_hex(s: &mut String, n: u64)
    ensures
        final(s)@ == old(s)@ + hex(n as nat),
    decreases n,
{
    if n < 16 {
        push_char(s, hex_char(n));
        assert(old(s)@.push(hex_digit(n as nat)) =~= old(s)@ + hex(n as nat));
    } else {
        push_hex(s, n / 16);
        push_char(s, hex_char(n % 16));
        assert(old(s)@ + hex((n / 16) as nat) + seq![hex_digit((n % 16) as nat)] =~= old(s)@ + hex(n as nat));
    }
}

/// Appends `n` in lower-case hexadecimal, zero padded to `w` digits.
pub fn push_hex_padded(s: &mut String, n: u64, w: usize)
    ensures
        final(s)@ == old(s)@ + hex_padded(n as nat, w as nat),
{
    let mut h = String::new();
    push_hex(&mut h, n);
    let hl = h.as_str().unicode_len();
    let mut pad = String::new();
    if hl < w {
        let mut k: usize = 0;
        while k < w - hl
            invariant
                hl < w,
                k <= w - hl,
                pad@ == Seq::new(k as nat, |i: int| '0'),
            decreases w - hl - k,
        {
            push_char(&mut pad, '0');
            k = k + 1;
            assert(pad@ =~= Seq::new(k as nat, |i: int| '0'));
        }
    }
    push_str(s, pad.as_str());
    push_str(s, h.as_str());
    proof {
        if hl >= w {
            assert(pad@ =~= Seq::<char>::empty());
        }
        assert(final(s)@ =~= old(s)@ + hex_padded(n as nat, w as nat));
    }
}

/// The id generated at `now` (seconds): `sess_<now in hex>_<4 hex digits>`,
/// the digits being `(now ^ (now << 13)) % 0xffff`.
pub open spec fn generated_session_name(now: u64) -> Seq<char> {
    "sess_"@ + hex(now as nat) + "_"@ + hex_padded(((now ^ ((now << 13u64) as u64)) % 0xffffu64) as nat, 4)
}

/// A session name made from the time `now` (seconds).
pub fn generate_id_at(now: u64) -> (r: String)
    ensures
        r@ == generated_session_name(now),
{
    let shifted: u64 = now << 13u64;
    let rand_val: u64 = (now ^ shifted) % 0xffff;
    let mut s = String::new();
    push_str(&mut s, "sess_");
    push_hex(&mut s, now);
    push_str(&mut s, "_");
    push_hex_padded(&mut s, rand_val, 4);
    assert(s@ =~= generated_session_name(now));
    s
}

/// A directory of session files, one `<id>.json` per session.
#[derive(Debug)]
pub struct SessionStore {
    base_dir: String,
}

impl SessionStore {
    pub closed spec fn dir(&self) -> Seq<char> {
        self.base_dir@
    }
}

impl Clone for SessionStore {
    /// A store over the same directory.
    fn clone(&self) -> (r: Self)
        ensures
            r.dir() == self.dir(),
    {
        SessionStore { base_dir: self.base_dir.clone() }
    }
}

impl SessionStore {

    pub fn new(base_dir: String) -> (r: Self)
        ensures
            r.dir() == base_dir@,
    {
        SessionStore { base_dir }
    }

    /// The default directory, `.ragent/sessions` under the working directory.
    pub fn default_dir() -> (r: String)
        ensures
            r@ == ".ragent/sessions"@,
    {
        ".ragent/sessions".to_string()
    }

    pub fn base_dir(&self) -> (r: &str)
        ensures
            r@ == self.dir(),
    {
        self.base_dir.as_str()
    }

    /// The file of session `id`, once the name is checked.
    pub fn session_file_path(&self, id: &str) -> (r: Result<String, AgentError>)
        ensures
            r is Ok <==> session_name_valid(id@),
            r matches Ok(p) ==> p@ == joined_path(self.dir(), id@ + ".json"@),
            r is Err ==> (r matches Err(AgentError::InvalidSessionId(m)) && m@ == trimmed(id@)),
    {
        match validate_session_id(id) {
            Err(e) => Err(e),
            Ok(()) => {
                let mut f = String::new();
                push_str(&mut f, id);
                push_str(&mut f, ".json");
                Ok(join_path(self.base_dir.as_str(), f.as_str()))
            },
        }
    }
}

/// `order` lists the positions of `keys` once each, latest first; equal
/// times keep their order.
pub open spec fn is_recent_order(keys: Seq<u64>, order: Seq<usize>) -> bool {
    &&& order.len() == keys.len()
    &&& forall|i: int| 0 <= i < order.len() ==> (#[trigger] order[i]) < keys.len()
    &&& forall|i: int, j: int|
        0 <= i < j < order.len() ==> keys[#[trigger] order[i] as int] > keys[#[trigger] order[j] as int] || (
        keys[order[i] as int] == keys[order[j] as int] && order[i] < order[j])
}

/// The order in which a session list shows sessions updated at `keys`:
/// latest first, ties in their given order.
pub fn recent_order(keys: &Vec<u64>) -> (r: Vec<usize>)
    ensures
        is_recent_order(keys@, r@),
{
    let mut out: Vec<usize> = Vec::new();
    let mut p: usize = 0;
    while p < keys.len()
        invariant
            p <= keys@.len(),
            out@.len() == p,
            forall|i: int| 0 <= i < out@.len() ==> (#[trigger] out@[i]) < p,
            forall|i: int, j: int|
                0 <= i < j < out@.len() ==> keys@[#[trigger] out@[i] as int] > keys@[#[trigger] out@[j] as int] || (
                keys@[out@[i] as int] == keys@[out@[j] as int] && out@[i] < out@[j]),
        decreases keys@.len() - p,
    {
        let key = keys[p];
        let mut k: usize = out.len();
        while k > 0 && keys[out[k - 1]] < key
            invariant
                k <= out@.len(),
                forall|i: int| 0 <= i < out@.len() ==> (#[trigger] out@[i]) < p,
                p < keys@.len(),
                key == keys@[p as int],
                forall|j: int| k <= j < out@.len() ==> keys@[(#[trigger] out@[j]) as int] < key,
            decreases k,
        {
            k = k - 1;
        }
        let ghost old_out = out@;
        proof {
            assert forall|j: int| 0 <= j < k implies keys@[(#[trigger] old_out[j]) as int] >= key by {
                if j < k - 1 {
                    assert(keys@[old_out[j] as int] >= keys@[old_out[k - 1] as int]);
                }
            }
        }
        out.insert(k, p);
        proof {
            assert forall|i: int| 0 <= i < out@.len() implies (#[trigger] out@[i]) < p + 1 by {
                if i < k {
                    assert(out@[i] == old_out[i]);
                } else if i > k {
                    assert(out@[i] == old_out[i - 1]);
                }
            }
            assert forall|i: int, j: int| 0 <= i < j < out@.len() implies keys@[#[trigger] out@[i] as int]
                > keys@[#[trigger] out@[j] as int] || (keys@[out@[i] as int] == keys@[out@[j] as int] && out@[i]
                < out@[j]) by {
                if j < k {
                    assert(out@[i] == old_out[i] && out@[j] == old_out[j]);
                } else if j == k {
                    assert(out@[i] == old_out[i]);
                } else if i == k {
                    assert(out@[j] == old_out[j - 1]);
                } else if i < k {
                    assert(out@[i] == old_out[i] && out@[j] == old_out[j - 1]);
                } else {
                    assert(out@[i] == old_out[i - 1] && out@[j] == old_out[j - 1]);
                }
            }
        }
        p = p + 1;
    }
    out
}

/// The lock that lets one activation run at a time in a store kept in
/// memory: the session that holds it, if any.
#[derive(Debug)]
pub struct InMemoryLock {
    pub active: Option<String>,
}

/// The refusal when another activation holds the store's lock.
pub open spec fn busy_text(current: Seq<char>, session: Seq<char>) -> Seq<char> {
    "Another activation ("@ + current + ") is currently running in this store (cannot run session "@ + session
        + ")"@
}

impl InMemoryLock {
    pub fn new() -> (r: Self)
        ensures
            r.active is None,
    {
        InMemoryLock { active: None }
    }

    /// Takes the lock for `session_id`, or says who holds it.
    pub fn acquire(&mut self, session_id: &str) -> (r: Result<(), AgentError>)
        ensures
            (holder(*final(self)), r is Ok) == acquire_spec(holder(*old(self)), session_id@),
            old(self).active is None ==> r is Ok && (final(self).active matches Some(s) && s@ == session_id@),
            old(self).active matches Some(c) ==> (r matches Err(AgentError::SessionLocked(m)) && m@ == busy_text(
                c@,
                session_id@,
            )) && final(self).active == old(self).active,
    {
        match &self.active {
            Some(current) => {
                let mut m = String::new();
                push_str(&mut m, "Another activation (");
                push_str(&mut m, current.as_str());
                push_str(&mut m, ") is currently running in this store (cannot run session ");
                push_str(&mut m, session_id);
                push_str(&mut m, ")");
                assert(m@ =~= busy_text(current@, session_id@));
                Err(AgentError::SessionLocked(m))
            },
            None => {
                self.active = Some(session_id.to_string());
                Ok(())
            },
        }
    }

    /// Gives the lock back.
    pub fn release(&mut self)
        ensures
            final(self).active is None,
    {
        self.active = None;
    }
}

/// The refusal when another process holds a store's lock file.
pub fn lock_file_busy(session_id: &str) -> (r: AgentError)
    ensures
        r matches AgentError::SessionLocked(m) && m@
            == "Another activation is currently running in this store (cannot run session "@ + session_id@ + ")"@,
{
    let mut m = String::new();
    push_str(&mut m, "Another activation is currently running in this store (cannot run session ");
    push_str(&mut m, session_id);
    push_str(&mut m, ")");
    AgentError::SessionLocked(m)
}

/// The holder after an acquisition by `s`, and whether it succeeded.
pub open spec fn acquire_spec(active: Option<Seq<char>>, s: Seq<char>) -> (Option<Seq<char>>, bool) {
    match active {
        None => (Some(s), true),
        Some(c) => (Some(c), false),
    }
}

pub open spec fn holder(l: InMemoryLock) -> Option<Seq<char>> {
    match l.active {
        Some(s) => Some(s@),
        None => None,
    }
}

/// While one session holds the lock every other acquisition is refused, and
/// the holder stays; after a release the next acquisition succeeds.
pub proof fn lemma_lock_exclusive(a: Seq<char>, b: Seq<char>)
    ensures
        !acquire_spec(acquire_spec(None, a).0, b).1,
        acquire_spec(acquire_spec(None, a).0, b).0 == Some(a),
        acquire_spec(None, b).1,
{
}

} // verus!
