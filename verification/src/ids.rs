use vstd::prelude::*;
use crate::text::{chars_contain, contains_seq, seq_has, str_chars};
use vstd::string::StringSliceAdditionalSpecFns;
use vstd::std_specs::cmp::PartialEqSpecImpl;

verus! {

/// Lower-case hexadecimal digit, as produced by uuid's simple format.
pub open spec fn is_lower_hex_digit(c: char) -> bool {
    ('0' <= c && c <= '9') || ('a' <= c && c <= 'f')
}

/// Produces a fresh time-ordered UUID (`uuid::Uuid::now_v7`) rendered in the
/// simple format (`Uuid::simple`).
///
/// The value depends on the clock and on random bits; the contract states the
/// shape that uuid's formatter documents: 32 lower-case hexadecimal digits.
#[verifier::external_body]
fn uuid_v7_simple() -> (s: String)
    ensures
        s@.len() == 32,
        forall|i: int| 0 <= i < 32 ==> is_lower_hex_digit(#[trigger] s@[i]),
{
    uuid::Uuid::now_v7().simple().to_string()
}

/// The text of a generated identifier: the prefix, an underscore and 32 hex digits.
pub open spec fn generated_id_shape(prefix: Seq<char>, id: Seq<char>) -> bool {
    &&& id.len() == prefix.len() + 33
    &&& id.subrange(0, prefix.len() as int) == prefix
    &&& id[prefix.len() as int] == '_'
    &&& forall|i: int|
        prefix.len() + 1 <= i < id.len() ==> is_lower_hex_digit(#[trigger] id[i])
}

/// `<prefix>_<uuid v7 in simple form>`.
pub fn generate_prefixed(prefix: &str) -> (s: String)
    ensures
        generated_id_shape(prefix@, s@),
{
    let u = uuid_v7_simple();
    let mut s = String::from_str(prefix);
    s.append("_");
    s.append(u.as_str());
    proof {
        reveal_strlit("_");
        assert(s@ == prefix@ + seq!['_'] + u@);
        assert(s@.subrange(0, prefix@.len() as int) =~= prefix@);
        assert forall|i: int| prefix@.len() + 1 <= i < s@.len() implies is_lower_hex_digit(
            #[trigger] s@[i],
        ) by {
            assert(s@[i] == u@[i - prefix@.len() - 1]);
        }
    }
    s
}


/// ASCII letter or digit.
pub open spec fn is_ascii_alnum(c: char) -> bool {
    ('0' <= c && c <= '9') || ('a' <= c && c <= 'z') || ('A' <= c && c <= 'Z')
}

/// Characters a session id may hold: ASCII letters and digits, `_`, `-`, `.`, `:`.
pub open spec fn is_session_id_char(c: char) -> bool {
    is_ascii_alnum(c) || c == '_' || c == '-' || c == '.' || c == ':'
}

/// Outcome of session id validation: `None` when accepted, else the message.
pub open spec fn session_id_problem(id: &str) -> Option<Seq<char>> {
    if id@.len() == 0 {
        Some("Session ID 不能为空"@)
    } else if id.len() > 128 {
        Some("Session ID 长度不能超过 128 字符"@)
    } else if seq_has(id@, '/') || seq_has(id@, '\\') || contains_seq(id@, seq!['.', '.']) {
        Some("Session ID 包含非法路径字符"@)
    } else if !(forall|i: int| 0 <= i < id@.len() ==> is_session_id_char(#[trigger] id@[i])) {
        Some("Session ID 包含非法字符，仅支持字母、数字、_、-、.、:"@)
    } else {
        None
    }
}

fn has_char(cs: &[char], c: char) -> (r: bool)
    ensures
        r == seq_has(cs@, c),
{
    let mut i: usize = 0;
    while i < cs.len()
        invariant
            i <= cs@.len(),
            forall|j: int| 0 <= j < i ==> cs@[j] != c,
        decreases cs@.len() - i,
    {
        if cs[i] == c {
            return true;
        }
        i = i + 1;
    }
    false
}

/// Checks that a session id is non-empty, at most 128 bytes, free of path
/// separators and `..`, and made only of ASCII letters, digits, `_`, `-`, `.`, `:`
/// (so that it is safe to use as a file or directory name).
pub fn validate_session_id(id: &str) -> (r: Result<(), String>)
    ensures
        r is Ok <==> session_id_problem(id) is None,
        r matches Err(e) ==> session_id_problem(id) == Some(e@),
{
    proof {
        reveal_strlit("Session ID 不能为空");
        reveal_strlit("Session ID 长度不能超过 128 字符");
        reveal_strlit("Session ID 包含非法路径字符");
        reveal_strlit("Session ID 包含非法字符，仅支持字母、数字、_、-、.、:");
    }
    if id.is_empty() {
        return Err(String::from_str("Session ID 不能为空"));
    }
    if id.len() > 128 {
        return Err(String::from_str("Session ID 长度不能超过 128 字符"));
    }
    let cv = str_chars(id);
    let cs = cv.as_slice();
    let dots = ['.', '.'];
    let dd: &[char] = &dots;
    assert(dd@ =~= seq!['.', '.']);
    if has_char(cs, '/') || has_char(cs, '\\') || chars_contain(cs, dd) {
        return Err(String::from_str("Session ID 包含非法路径字符"));
    }
    let mut i: usize = 0;
    while i < cs.len()
        invariant
            cs@ == id@,
            id@.len() != 0,
            !(id.len() > 128),
            !(seq_has(id@, '/') || seq_has(id@, '\\') || contains_seq(id@, seq!['.', '.'])),
            i <= cs@.len(),
            forall|j: int| 0 <= j < i ==> is_session_id_char(#[trigger] id@[j]),
        decreases cs@.len() - i,
    {
        let c = cs[i];
        let ok = ('0' <= c && c <= '9') || ('a' <= c && c <= 'z') || ('A' <= c && c <= 'Z')
            || c == '_' || c == '-' || c == '.' || c == ':';
        if !ok {
            assert(!is_session_id_char(id@[i as int]));
            return Err(String::from_str("Session ID 包含非法字符，仅支持字母、数字、_、-、.、:"));
        }
        i = i + 1;
    }
    Ok(())
}

/// Identifier of a session.
#[derive(Debug)]
pub struct SessionId(pub String);

impl SessionId {
    pub fn new(val: String) -> (r: Self)
        ensures
            r.0 == val,
    {
        SessionId(val)
    }

    /// A fresh identifier `sess_<uuid>`.
    pub fn generate() -> (r: Self)
        ensures
            generated_id_shape("sess"@, r.0@),
    {
        SessionId(generate_prefixed("sess"))
    }

    pub fn as_str(&self) -> (r: &str)
        ensures
            r@ == self.0@,
    {
        self.0.as_str()
    }
}

impl Clone for SessionId {
    fn clone(&self) -> (r: Self)
        ensures
            r == *self,
    {
        SessionId(self.0.clone())
    }
}

/// Identifier of one activation (one run of the agent loop on an input).
#[derive(Debug)]
pub struct ActivationId(pub String);

impl ActivationId {
    pub fn new(val: String) -> (r: Self)
        ensures
            r.0 == val,
    {
        ActivationId(val)
    }

    /// A fresh identifier `act_<uuid>`.
    pub fn generate() -> (r: Self)
        ensures
            generated_id_shape("act"@, r.0@),
    {
        ActivationId(generate_prefixed("act"))
    }

    pub fn as_str(&self) -> (r: &str)
        ensures
            r@ == self.0@,
    {
        self.0.as_str()
    }
}

impl Clone for ActivationId {
    fn clone(&self) -> (r: Self)
        ensures
            r == *self,
    {
        ActivationId(self.0.clone())
    }
}

/// Identifier of one model turn.
#[derive(Debug)]
pub struct TurnId(pub String);

impl TurnId {
    pub fn new(val: String) -> (r: Self)
        ensures
            r.0 == val,
    {
        TurnId(val)
    }

    /// A fresh identifier `turn_<uuid>`.
    pub fn generate() -> (r: Self)
        ensures
            generated_id_shape("turn"@, r.0@),
    {
        TurnId(generate_prefixed("turn"))
    }

    pub fn as_str(&self) -> (r: &str)
        ensures
            r@ == self.0@,
    {
        self.0.as_str()
    }
}

impl Clone for TurnId {
    fn clone(&self) -> (r: Self)
        ensures
            r == *self,
    {
        TurnId(self.0.clone())
    }
}

/// Identifier of a session event.
#[derive(Debug)]
pub struct EventId(pub String);

impl EventId {
    pub fn new(val: String) -> (r: Self)
        ensures
            r.0 == val,
    {
        EventId(val)
    }

    /// A fresh identifier `evt_<uuid>`.
    pub fn generate() -> (r: Self)
        ensures
            generated_id_shape("evt"@, r.0@),
    {
        EventId(generate_prefixed("evt"))
    }

    pub fn as_str(&self) -> (r: &str)
        ensures
            r@ == self.0@,
    {
        self.0.as_str()
    }
}

impl Clone for EventId {
    fn clone(&self) -> (r: Self)
        ensures
            r == *self,
    {
        EventId(self.0.clone())
    }
}

/// Identifier of a client command.
#[derive(Debug)]
pub struct CommandId(pub String);

impl CommandId {
    pub fn new(val: String) -> (r: Self)
        ensures
            r.0 == val,
    {
        CommandId(val)
    }

    /// A fresh identifier `cmd_<uuid>`.
    pub fn generate() -> (r: Self)
        ensures
            generated_id_shape("cmd"@, r.0@),
    {
        CommandId(generate_prefixed("cmd"))
    }

    pub fn as_str(&self) -> (r: &str)
        ensures
            r@ == self.0@,
    {
        self.0.as_str()
    }
}

impl Clone for CommandId {
    fn clone(&self) -> (r: Self)
        ensures
            r == *self,
    {
        CommandId(self.0.clone())
    }
}

/// Identifier of a workspace.
#[derive(Debug)]
pub struct WorkspaceId(pub String);

impl WorkspaceId {
    pub fn new(val: String) -> (r: Self)
        ensures
            r.0 == val,
    {
        WorkspaceId(val)
    }

    /// A fresh identifier `ws_<uuid>`.
    pub fn generate() -> (r: Self)
        ensures
            generated_id_shape("ws"@, r.0@),
    {
        WorkspaceId(generate_prefixed("ws"))
    }

    pub fn as_str(&self) -> (r: &str)
        ensures
            r@ == self.0@,
    {
        self.0.as_str()
    }
}

impl Clone for WorkspaceId {
    fn clone(&self) -> (r: Self)
        ensures
            r == *self,
    {
        WorkspaceId(self.0.clone())
    }
}

/// Identifier of a configuration revision.
#[derive(Debug)]
pub struct ConfigRef(pub String);

impl ConfigRef {
    pub fn new(val: String) -> (r: Self)
        ensures
            r.0 == val,
    {
        ConfigRef(val)
    }

    /// A fresh identifier `cfg_<uuid>`.
    pub fn generate() -> (r: Self)
        ensures
            generated_id_shape("cfg"@, r.0@),
    {
        ConfigRef(generate_prefixed("cfg"))
    }

    pub fn as_str(&self) -> (r: &str)
        ensures
            r@ == self.0@,
    {
        self.0.as_str()
    }
}

impl Clone for ConfigRef {
    fn clone(&self) -> (r: Self)
        ensures
            r == *self,
    {
        ConfigRef(self.0.clone())
    }
}

/// Identifier of a permission snapshot.
#[derive(Debug)]
pub struct PermissionSnapshotRef(pub String);

impl PermissionSnapshotRef {
    pub fn new(val: String) -> (r: Self)
        ensures
            r.0 == val,
    {
        PermissionSnapshotRef(val)
    }

    /// A fresh identifier `perm_<uuid>`.
    pub fn generate() -> (r: Self)
        ensures
            generated_id_shape("perm"@, r.0@),
    {
        PermissionSnapshotRef(generate_prefixed("perm"))
    }

    pub fn as_str(&self) -> (r: &str)
        ensures
            r@ == self.0@,
    {
        self.0.as_str()
    }
}

impl Clone for PermissionSnapshotRef {
    fn clone(&self) -> (r: Self)
        ensures
            r == *self,
    {
        PermissionSnapshotRef(self.0.clone())
    }
}

/// The position of a batch in a session's batch log.
#[derive(Debug, Clone, Copy, PartialEq, Eq, Structural, PartialOrd, Ord, Hash, Default)]
pub struct BatchSeq(pub u64);

impl BatchSeq {
    /// The first position.
    pub fn zero() -> (r: Self)
        ensures
            r.0 == 0,
    {
        BatchSeq(0)
    }

    pub fn new(val: u64) -> (r: Self)
        ensures
            r.0 == val,
    {
        BatchSeq(val)
    }

    pub fn as_u64(&self) -> (r: u64)
        ensures
            r == self.0,
    {
        self.0
    }

    /// The following position.
    pub fn next(&self) -> (r: Self)
        requires
            self.0 < u64::MAX,
        ensures
            r.0 == self.0 + 1,
    {
        BatchSeq(self.0 + 1)
    }
}

/// The position of an item in a session's item log.
#[derive(Debug, Clone, Copy, PartialEq, Eq, Structural, PartialOrd, Ord, Hash, Default)]
pub struct LocalItemSeq(pub u64);

impl LocalItemSeq {
    /// The first position.
    pub fn zero() -> (r: Self)
        ensures
            r.0 == 0,
    {
        LocalItemSeq(0)
    }

    pub fn new(val: u64) -> (r: Self)
        ensures
            r.0 == val,
    {
        LocalItemSeq(val)
    }

    pub fn as_u64(&self) -> (r: u64)
        ensures
            r == self.0,
    {
        self.0
    }

    /// The following position.
    pub fn next(&self) -> (r: Self)
        requires
            self.0 < u64::MAX,
        ensures
            r.0 == self.0 + 1,
    {
        LocalItemSeq(self.0 + 1)
    }
}

/// The position of an event in a session's event log.
#[derive(Debug, Clone, Copy, PartialEq, Eq, Structural, PartialOrd, Ord, Hash, Default)]
pub struct EventSeq(pub u64);

impl EventSeq {
    /// The first position.
    pub fn zero() -> (r: Self)
        ensures
            r.0 == 0,
    {
        EventSeq(0)
    }

    pub fn new(val: u64) -> (r: Self)
        ensures
            r.0 == val,
    {
        EventSeq(val)
    }

    pub fn as_u64(&self) -> (r: u64)
        ensures
            r == self.0,
    {
        self.0
    }

    /// The following position.
    pub fn next(&self) -> (r: Self)
        requires
            self.0 < u64::MAX,
        ensures
            r.0 == self.0 + 1,
    {
        EventSeq(self.0 + 1)
    }
}

/// The position in a session's effective context.
#[derive(Debug, Clone, Copy, PartialEq, Eq, Structural, PartialOrd, Ord, Hash, Default)]
pub struct ContextPos(pub u64);

impl ContextPos {
    /// The first position.
    pub fn zero() -> (r: Self)
        ensures
            r.0 == 0,
    {
        ContextPos(0)
    }

    pub fn new(val: u64) -> (r: Self)
        ensures
            r.0 == val,
    {
        ContextPos(val)
    }

    pub fn as_u64(&self) -> (r: u64)
        ensures
            r == self.0,
    {
        self.0
    }

    /// The following position.
    pub fn next(&self) -> (r: Self)
        requires
            self.0 < u64::MAX,
        ensures
            r.0 == self.0 + 1,
    {
        ContextPos(self.0 + 1)
    }
}

impl PartialEq for SessionId {
    fn eq(&self, other: &Self) -> (r: bool) {
        self.0 == other.0
    }
}

impl Eq for SessionId {}

impl PartialEqSpecImpl for SessionId {
    open spec fn obeys_eq_spec() -> bool {
        true
    }

    open spec fn eq_spec(&self, other: &Self) -> bool {
        self.0@ == other.0@
    }
}

impl PartialEq for ActivationId {
    fn eq(&self, other: &Self) -> (r: bool) {
        self.0 == other.0
    }
}

impl Eq for ActivationId {}

impl PartialEqSpecImpl for ActivationId {
    open spec fn obeys_eq_spec() -> bool {
        true
    }

    open spec fn eq_spec(&self, other: &Self) -> bool {
        self.0@ == other.0@
    }
}

impl PartialEq for TurnId {
    fn eq(&self, other: &Self) -> (r: bool) {
        self.0 == other.0
    }
}

impl Eq for TurnId {}

impl PartialEqSpecImpl for TurnId {
    open spec fn obeys_eq_spec() -> bool {
        true
    }

    open spec fn eq_spec(&self, other: &Self) -> bool {
        self.0@ == other.0@
    }
}

impl PartialEq for EventId {
    fn eq(&self, other: &Self) -> (r: bool) {
        self.0 == other.0
    }
}

impl Eq for EventId {}

impl PartialEqSpecImpl for EventId {
    open spec fn obeys_eq_spec() -> bool {
        true
    }

    open spec fn eq_spec(&self, other: &Self) -> bool {
        self.0@ == other.0@
    }
}

impl PartialEq for CommandId {
    fn eq(&self, other: &Self) -> (r: bool) {
        self.0 == other.0
    }
}

impl Eq for CommandId {}

impl PartialEqSpecImpl for CommandId {
    open spec fn obeys_eq_spec() -> bool {
        true
    }

    open spec fn eq_spec(&self, other: &Self) -> bool {
        self.0@ == other.0@
    }
}

impl PartialEq for WorkspaceId {
    fn eq(&self, other: &Self) -> (r: bool) {
        self.0 == other.0
    }
}

impl Eq for WorkspaceId {}

impl PartialEqSpecImpl for WorkspaceId {
    open spec fn obeys_eq_spec() -> bool {
        true
    }

    open spec fn eq_spec(&self, other: &Self) -> bool {
        self.0@ == other.0@
    }
}

impl PartialEq for ConfigRef {
    fn eq(&self, other: &Self) -> (r: bool) {
        self.0 == other.0
    }
}

impl Eq for ConfigRef {}

impl PartialEqSpecImpl for ConfigRef {
    open spec fn obeys_eq_spec() -> bool {
        true
    }

    open spec fn eq_spec(&self, other: &Self) -> bool {
        self.0@ == other.0@
    }
}

impl PartialEq for PermissionSnapshotRef {
    fn eq(&self, other: &Self) -> (r: bool) {
        self.0 == other.0
    }
}

impl Eq for PermissionSnapshotRef {}

impl PartialEqSpecImpl for PermissionSnapshotRef {
    open spec fn obeys_eq_spec() -> bool {
        true
    }

    open spec fn eq_spec(&self, other: &Self) -> bool {
        self.0@ == other.0@
    }
}

} // verus!
