use vstd::prelude::*;
use crate::json::{clone_json, json_view, json_views, JsonValue, JsonView, member_views};
use crate::text::push_str;

verus! {

/// Author of a message item.
#[derive(Debug, Clone, Copy, PartialEq, Eq, Structural)]
pub enum MessageRole {
    User,
    Assistant,
    System,
    Developer,
}

/// Progress of a message, function call or function output.
#[derive(Debug, Clone, Copy, PartialEq, Eq, Structural)]
pub enum ItemStatus {
    InProgress,
    Completed,
    Incomplete,
}

/// Phase of an assistant message.
#[derive(Debug, Clone, Copy, PartialEq, Eq, Structural)]
pub enum MessagePhase {
    Commentary,
    FinalAnswer,
}

/// Resolution hint of an input image.
#[derive(Debug, Clone, Copy, PartialEq, Eq, Structural)]
pub enum ImageDetail {
    Low,
    High,
    Auto,
}

/// One part of a message's content.
#[derive(Debug)]
pub enum ContentPart {
    InputText { text: String },
    InputImage { image_url: Option<String>, detail: ImageDetail },
    InputFile { filename: Option<String>, file_data: Option<String>, file_url: Option<String> },
    InputVideo { video_url: String },
    OutputText { text: String, annotations: Vec<JsonValue>, logprobs: Option<Vec<JsonValue>> },
    Refusal { refusal: String },
    PlainText { text: String },
    SummaryText { text: String },
    ReasoningText { text: String },
}

/// Output of a function call: plain text or structured content.
#[derive(Debug)]
pub enum FunctionOutput {
    Text(String),
    Content(Vec<ContentPart>),
}

/// One item of a conversation context.
#[derive(Debug)]
pub enum Item {
    Message {
        id: Option<String>,
        status: Option<ItemStatus>,
        role: MessageRole,
        content: Vec<ContentPart>,
        phase: Option<MessagePhase>,
    },
    FunctionCall {
        id: Option<String>,
        call_id: String,
        name: String,
        arguments: String,
        status: Option<ItemStatus>,
    },
    FunctionCallOutput {
        id: Option<String>,
        call_id: String,
        output: FunctionOutput,
        status: Option<ItemStatus>,
    },
    Reasoning {
        id: Option<String>,
        status: Option<ItemStatus>,
        content: Option<Vec<ContentPart>>,
        summary: Vec<ContentPart>,
        encrypted_content: Option<String>,
    },
    Compaction { id: Option<String>, encrypted_content: String, created_by: Option<String> },
    ItemReference { id: String },
    Extension {
        id: Option<String>,
        item_type: String,
        status: Option<String>,
        extra: Vec<(String, JsonValue)>,
    },
}


/// A content part over mathematical values.
pub enum PartView {
    InputText { text: Seq<char> },
    InputImage { image_url: Option<Seq<char>>, detail: ImageDetail },
    InputFile { filename: Option<Seq<char>>, file_data: Option<Seq<char>>, file_url: Option<Seq<char>> },
    InputVideo { video_url: Seq<char> },
    OutputText { text: Seq<char>, annotations: Seq<JsonView>, logprobs: Option<Seq<JsonView>> },
    Refusal { refusal: Seq<char> },
    PlainText { text: Seq<char> },
    SummaryText { text: Seq<char> },
    ReasoningText { text: Seq<char> },
}

/// A function output over mathematical values.
pub enum OutputView {
    Text(Seq<char>),
    Content(Seq<PartView>),
}

/// An item over mathematical values.
pub enum ItemView {
    Message {
        id: Option<Seq<char>>,
        status: Option<ItemStatus>,
        role: MessageRole,
        content: Seq<PartView>,
        phase: Option<MessagePhase>,
    },
    FunctionCall {
        id: Option<Seq<char>>,
        call_id: Seq<char>,
        name: Seq<char>,
        arguments: Seq<char>,
        status: Option<ItemStatus>,
    },
    FunctionCallOutput {
        id: Option<Seq<char>>,
        call_id: Seq<char>,
        output: OutputView,
        status: Option<ItemStatus>,
    },
    Reasoning {
        id: Option<Seq<char>>,
        status: Option<ItemStatus>,
        content: Option<Seq<PartView>>,
        summary: Seq<PartView>,
        encrypted_content: Option<Seq<char>>,
    },
    Compaction { id: Option<Seq<char>>, encrypted_content: Seq<char>, created_by: Option<Seq<char>> },
    ItemReference { id: Seq<char> },
    Extension {
        id: Option<Seq<char>>,
        item_type: Seq<char>,
        status: Option<Seq<char>>,
        extra: Seq<(Seq<char>, JsonView)>,
    },
}

pub open spec fn sv(o: Option<String>) -> Option<Seq<char>> {
    match o {
        Some(s) => Some(s@),
        None => None,
    }
}

pub open spec fn part_view(p: ContentPart) -> PartView {
    match p {
        ContentPart::InputText { text } => PartView::InputText { text: text@ },
        ContentPart::InputImage { image_url, detail } => PartView::InputImage {
            image_url: sv(image_url),
            detail,
        },
        ContentPart::InputFile { filename, file_data, file_url } => PartView::InputFile {
            filename: sv(filename),
            file_data: sv(file_data),
            file_url: sv(file_url),
        },
        ContentPart::InputVideo { video_url } => PartView::InputVideo { video_url: video_url@ },
        ContentPart::OutputText { text, annotations, logprobs } => PartView::OutputText {
            text: text@,
            annotations: json_views(annotations@, annotations@.len()),
            logprobs: match logprobs {
                Some(l) => Some(json_views(l@, l@.len())),
                None => None,
            },
        },
        ContentPart::Refusal { refusal } => PartView::Refusal { refusal: refusal@ },
        ContentPart::PlainText { text } => PartView::PlainText { text: text@ },
        ContentPart::SummaryText { text } => PartView::SummaryText { text: text@ },
        ContentPart::ReasoningText { text } => PartView::ReasoningText { text: text@ },
    }
}

pub open spec fn parts_view(s: Seq<ContentPart>) -> Seq<PartView> {
    s.map_values(|p: ContentPart| part_view(p))
}

pub open spec fn output_view(o: FunctionOutput) -> OutputView {
    match o {
        FunctionOutput::Text(t) => OutputView::Text(t@),
        FunctionOutput::Content(c) => OutputView::Content(parts_view(c@)),
    }
}

/// The mathematical value of an item.
pub open spec fn item_view(i: Item) -> ItemView {
    match i {
        Item::Message { id, status, role, content, phase } => ItemView::Message {
            id: sv(id),
            status,
            role,
            content: parts_view(content@),
            phase,
        },
        Item::FunctionCall { id, call_id, name, arguments, status } => ItemView::FunctionCall {
            id: sv(id),
            call_id: call_id@,
            name: name@,
            arguments: arguments@,
            status,
        },
        Item::FunctionCallOutput { id, call_id, output, status } => ItemView::FunctionCallOutput {
            id: sv(id),
            call_id: call_id@,
            output: output_view(output),
            status,
        },
        Item::Reasoning { id, status, content, summary, encrypted_content } => ItemView::Reasoning {
            id: sv(id),
            status,
            content: match content {
                Some(c) => Some(parts_view(c@)),
                None => None,
            },
            summary: parts_view(summary@),
            encrypted_content: sv(encrypted_content),
        },
        Item::Compaction { id, encrypted_content, created_by } => ItemView::Compaction {
            id: sv(id),
            encrypted_content: encrypted_content@,
            created_by: sv(created_by),
        },
        Item::ItemReference { id } => ItemView::ItemReference { id: id@ },
        Item::Extension { id, item_type, status, extra } => ItemView::Extension {
            id: sv(id),
            item_type: item_type@,
            status: sv(status),
            extra: member_views(extra@, extra@.len()),
        },
    }
}

pub open spec fn items_view(s: Seq<Item>) -> Seq<ItemView> {
    s.map_values(|i: Item| item_view(i))
}

pub fn clone_opt_string(o: &Option<String>) -> (r: Option<String>)
    ensures
        r == *o,
{
    match o {
        Some(s) => Some(s.clone()),
        None => None,
    }
}

fn clone_json_vec(v: &Vec<JsonValue>) -> (r: Vec<JsonValue>)
    ensures
        json_views(r@, r@.len()) == json_views(v@, v@.len()),
        r@.len() == v@.len(),
{
    let mut out: Vec<JsonValue> = Vec::new();
    let mut i: usize = 0;
    while i < v.len()
        invariant
            i <= v@.len(),
            out@.len() == i,
            forall|j: int| 0 <= j < i ==> json_view(#[trigger] out@[j]) == json_view(v@[j]),
        decreases v@.len() - i,
    {
        out.push(clone_json(&v[i]));
        i = i + 1;
    }
    proof {
        lemma_json_views_agree(out@, v@, v@.len());
    }
    out
}

proof fn lemma_json_views_agree(s: Seq<JsonValue>, t: Seq<JsonValue>, n: nat)
    requires
        n <= s.len(),
        n <= t.len(),
        forall|j: int| 0 <= j < n ==> json_view(#[trigger] s[j]) == json_view(t[j]),
    ensures
        json_views(s, n) == json_views(t, n),
    decreases n,
{
    if n > 0 {
        lemma_json_views_agree(s, t, (n - 1) as nat);
    }
}

proof fn lemma_member_views_agree(s: Seq<(String, JsonValue)>, t: Seq<(String, JsonValue)>, n: nat)
    requires
        n <= s.len(),
        n <= t.len(),
        forall|j: int|
            0 <= j < n ==> (#[trigger] s[j]).0@ == t[j].0@ && json_view(s[j].1) == json_view(t[j].1),
    ensures
        member_views(s, n) == member_views(t, n),
    decreases n,
{
    if n > 0 {
        lemma_member_views_agree(s, t, (n - 1) as nat);
    }
}

/// A copy of a list of object members.
pub fn clone_members(v: &Vec<(String, JsonValue)>) -> (r: Vec<(String, JsonValue)>)
    ensures
        member_views(r@, r@.len()) == member_views(v@, v@.len()),
        r@.len() == v@.len(),
{
    let mut out: Vec<(String, JsonValue)> = Vec::new();
    let mut i: usize = 0;
    while i < v.len()
        invariant
            i <= v@.len(),
            out@.len() == i,
            forall|j: int|
                0 <= j < i ==> (#[trigger] out@[j]).0@ == v@[j].0@ && json_view(out@[j].1)
                    == json_view(v@[j].1),
        decreases v@.len() - i,
    {
        out.push((v[i].0.clone(), clone_json(&v[i].1)));
        i = i + 1;
    }
    proof {
        lemma_member_views_agree(out@, v@, v@.len());
    }
    out
}

/// A copy of a content part.
pub fn clone_part(p: &ContentPart) -> (r: ContentPart)
    ensures
        part_view(r) == part_view(*p),
{
    match p {
        ContentPart::InputText { text } => ContentPart::InputText { text: text.clone() },
        ContentPart::InputImage { image_url, detail } => ContentPart::InputImage {
            image_url: clone_opt_string(image_url),
            detail: *detail,
        },
        ContentPart::InputFile { filename, file_data, file_url } => ContentPart::InputFile {
            filename: clone_opt_string(filename),
            file_data: clone_opt_string(file_data),
            file_url: clone_opt_string(file_url),
        },
        ContentPart::InputVideo { video_url } => ContentPart::InputVideo {
            video_url: video_url.clone(),
        },
        ContentPart::OutputText { text, annotations, logprobs } => ContentPart::OutputText {
            text: text.clone(),
            annotations: clone_json_vec(annotations),
            logprobs: match logprobs {
                Some(l) => Some(clone_json_vec(l)),
                None => None,
            },
        },
        ContentPart::Refusal { refusal } => ContentPart::Refusal { refusal: refusal.clone() },
        ContentPart::PlainText { text } => ContentPart::PlainText { text: text.clone() },
        ContentPart::SummaryText { text } => ContentPart::SummaryText { text: text.clone() },
        ContentPart::ReasoningText { text } => ContentPart::ReasoningText { text: text.clone() },
    }
}

/// A copy of a list of content parts.
pub fn clone_parts(v: &Vec<ContentPart>) -> (r: Vec<ContentPart>)
    ensures
        parts_view(r@) == parts_view(v@),
{
    let mut out: Vec<ContentPart> = Vec::new();
    let mut i: usize = 0;
    while i < v.len()
        invariant
            i <= v@.len(),
            out@.len() == i,
            forall|j: int| 0 <= j < i ==> part_view(#[trigger] out@[j]) == part_view(v@[j]),
        decreases v@.len() - i,
    {
        out.push(clone_part(&v[i]));
        i = i + 1;
    }
    assert(parts_view(out@) =~= parts_view(v@));
    out
}

/// A copy of a function output.
pub fn clone_output(o: &FunctionOutput) -> (r: FunctionOutput)
    ensures
        output_view(r) == output_view(*o),
{
    match o {
        FunctionOutput::Text(t) => FunctionOutput::Text(t.clone()),
        FunctionOutput::Content(c) => FunctionOutput::Content(clone_parts(c)),
    }
}

/// A copy of an item.
pub fn clone_item(i: &Item) -> (r: Item)
    ensures
        item_view(r) == item_view(*i),
{
    match i {
        Item::Message { id, status, role, content, phase } => Item::Message {
            id: clone_opt_string(id),
            status: *status,
            role: *role,
            content: clone_parts(content),
            phase: *phase,
        },
        Item::FunctionCall { id, call_id, name, arguments, status } => Item::FunctionCall {
            id: clone_opt_string(id),
            call_id: call_id.clone(),
            name: name.clone(),
            arguments: arguments.clone(),
            status: *status,
        },
        Item::FunctionCallOutput { id, call_id, output, status } => Item::FunctionCallOutput {
            id: clone_opt_string(id),
            call_id: call_id.clone(),
            output: clone_output(output),
            status: *status,
        },
        Item::Reasoning { id, status, content, summary, encrypted_content } => Item::Reasoning {
            id: clone_opt_string(id),
            status: *status,
            content: match content {
                Some(c) => Some(clone_parts(c)),
                None => None,
            },
            summary: clone_parts(summary),
            encrypted_content: clone_opt_string(encrypted_content),
        },
        Item::Compaction { id, encrypted_content, created_by } => Item::Compaction {
            id: clone_opt_string(id),
            encrypted_content: encrypted_content.clone(),
            created_by: clone_opt_string(created_by),
        },
        Item::ItemReference { id } => Item::ItemReference { id: id.clone() },
        Item::Extension { id, item_type, status, extra } => Item::Extension {
            id: clone_opt_string(id),
            item_type: item_type.clone(),
            status: clone_opt_string(status),
            extra: clone_members(extra),
        },
    }
}

/// A copy of a list of items.
pub fn clone_items(v: &Vec<Item>) -> (r: Vec<Item>)
    ensures
        items_view(r@) == items_view(v@),
{
    let mut out: Vec<Item> = Vec::new();
    let mut i: usize = 0;
    while i < v.len()
        invariant
            i <= v@.len(),
            out@.len() == i,
            forall|j: int| 0 <= j < i ==> item_view(#[trigger] out@[j]) == item_view(v@[j]),
        decreases v@.len() - i,
    {
        out.push(clone_item(&v[i]));
        i = i + 1;
    }
    assert(items_view(out@) =~= items_view(v@));
    out
}

/// The items that a commit proposes for a context: the current items, then
/// the pending ones; nothing is dropped or reordered.
pub fn commit_candidate(current: &Vec<Item>, pending: &Vec<Item>) -> (r: Vec<Item>)
    ensures
        items_view(r@) == items_view(current@) + items_view(pending@),
{
    let mut out = clone_items(current);
    let mut i: usize = 0;
    while i < pending.len()
        invariant
            i <= pending@.len(),
            items_view(out@) == items_view(current@) + items_view(pending@.subrange(0, i as int)),
        decreases pending@.len() - i,
    {
        let ghost before = out@;
        out.push(clone_item(&pending[i]));
        assert(items_view(out@) =~= items_view(before).push(item_view(pending@[i as int])));
        assert(items_view(pending@.subrange(0, i + 1)) =~= items_view(pending@.subrange(0, i as int)).push(
            item_view(pending@[i as int]),
        ));
        i = i + 1;
    }
    assert(pending@.subrange(0, pending@.len() as int) =~= pending@);
    out
}

/// A user message holding one input text part (`Item::user_message`).
pub fn user_message(text: String) -> (r: Item)
    ensures
        ({
            &&& r matches Item::Message {
                id: None,
                status: None,
                role: MessageRole::User,
                content,
                phase: None,
            }
            &&& content@.len() == 1
            &&& content@[0] matches ContentPart::InputText { text: t }
            &&& t == text
        }),
{
    Item::Message {
        id: None,
        status: None,
        role: MessageRole::User,
        content: vec![ContentPart::InputText { text }],
        phase: None,
    }
}

/// An assistant message holding one output text part (`Item::assistant_message`).
pub fn assistant_message(text: String) -> (r: Item)
    ensures
        ({
            &&& r matches Item::Message {
                id: None,
                status: None,
                role: MessageRole::Assistant,
                content,
                phase: None,
            }
            &&& content@.len() == 1
            &&& content@[0] matches ContentPart::OutputText { text: t, annotations, logprobs: None }
            &&& t == text
            &&& annotations@.len() == 0
        }),
{
    Item::Message {
        id: None,
        status: None,
        role: MessageRole::Assistant,
        content: vec![ContentPart::OutputText { text, annotations: Vec::new(), logprobs: None }],
        phase: None,
    }
}
} // verus!
