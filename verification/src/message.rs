//! Chat messages as the agent stores them, and the sizes it measures them by.

use vstd::prelude::*;
use vstd::string::*;

use crate::text::{byte_len, decimal, truncate_middle, truncate_middle_spec, u64_to_decimal, utf8_len};

verus! {

/// The author of a chat message.
pub enum ChatRole {
    System,
    Developer,
    User,
    Assistant,
    Tool,
    /// A role the provider reported that none of the others names.
    Other(String),
}

/// The wire name of a role.
pub open spec fn role_name_spec(r: ChatRole) -> Seq<char> {
    match r {
        ChatRole::System => "system"@,
        ChatRole::Developer => "developer"@,
        ChatRole::User => "user"@,
        ChatRole::Assistant => "assistant"@,
        ChatRole::Tool => "tool"@,
        ChatRole::Other(name) => name@,
    }
}

impl ChatRole {
    /// The role's wire name, as its `Display` writes it.
    pub fn name(&self) -> (s: String)
        ensures
            s@ == role_name_spec(*self),
    {
        match self {
            ChatRole::System => "system".to_owned(),
            ChatRole::Developer => "developer".to_owned(),
            ChatRole::User => "user".to_owned(),
            ChatRole::Assistant => "assistant".to_owned(),
            ChatRole::Tool => "tool".to_owned(),
            ChatRole::Other(name) => name.clone(),
        }
    }

    pub fn is_system(&self) -> (b: bool)
        ensures
            b == (*self is System),
    {
        match self {
            ChatRole::System => true,
            _ => false,
        }
    }

    pub fn is_user(&self) -> (b: bool)
        ensures
            b == (*self is User),
    {
        match self {
            ChatRole::User => true,
            _ => false,
        }
    }

    pub fn is_tool(&self) -> (b: bool)
        ensures
            b == (*self is Tool),
    {
        match self {
            ChatRole::Tool => true,
            _ => false,
        }
    }

    pub fn duplicate(&self) -> (r: ChatRole)
        ensures
            r == *self,
    {
        match self {
            ChatRole::System => ChatRole::System,
            ChatRole::Developer => ChatRole::Developer,
            ChatRole::User => ChatRole::User,
            ChatRole::Assistant => ChatRole::Assistant,
            ChatRole::Tool => ChatRole::Tool,
            ChatRole::Other(name) => ChatRole::Other(name.clone()),
        }
    }
}

/// One part of a multi-part message.
pub enum MessagePart {
    /// A text part.
    Text(String),
    /// A non-text part (an image, audio, a file), carried as its JSON serialization;
    /// `None` when it could not be serialized.
    Other(Option<String>),
}

/// The content of a chat message.
pub enum MessageContent {
    Text(String),
    Parts(Vec<MessagePart>),
    /// No content, as assistant messages that only call tools carry.
    Null,
}

pub ghost enum ContentView {
    Text(Seq<char>),
    Parts(Seq<PartView>),
    Null,
}

pub ghost enum PartView {
    Text(Seq<char>),
    Other(Option<Seq<char>>),
}

pub open spec fn opt_view(o: Option<String>) -> Option<Seq<char>> {
    match o {
        Some(s) => Some(s@),
        None => None,
    }
}

impl View for MessagePart {
    type V = PartView;

    open spec fn view(&self) -> PartView {
        match self {
            MessagePart::Text(t) => PartView::Text(t@),
            MessagePart::Other(j) => PartView::Other(opt_view(*j)),
        }
    }
}

impl View for MessageContent {
    type V = ContentView;

    open spec fn view(&self) -> ContentView {
        match self {
            MessageContent::Text(t) => ContentView::Text(t@),
            MessageContent::Parts(parts) => ContentView::Parts(parts@.map_values(|p: MessagePart| p@)),
            MessageContent::Null => ContentView::Null,
        }
    }
}

/// A chat message.
pub struct ChatMessage {
    pub role: ChatRole,
    pub content: MessageContent,
    /// The tool name of a tool response.
    pub name: Option<String>,
    /// The id of the tool call that a tool response answers.
    pub tool_call_id: Option<String>,
    /// The tool calls of an assistant message, serialized as JSON.
    pub tool_calls_json: Option<String>,
}

pub ghost struct MessageView {
    pub role: ChatRole,
    pub content: ContentView,
    pub name: Option<Seq<char>>,
    pub tool_call_id: Option<Seq<char>>,
    pub tool_calls_json: Option<Seq<char>>,
}

impl View for ChatMessage {
    type V = MessageView;

    open spec fn view(&self) -> MessageView {
        MessageView {
            role: self.role,
            content: self.content@,
            name: opt_view(self.name),
            tool_call_id: opt_view(self.tool_call_id),
            tool_calls_json: opt_view(self.tool_calls_json),
        }
    }
}

pub fn clone_opt_string(o: &Option<String>) -> (r: Option<String>)
    ensures
        r == *o,
{
    match o {
        Some(s) => Some(s.clone()),
        None => None,
    }
}

impl MessagePart {
    pub fn duplicate(&self) -> (r: MessagePart)
        ensures
            r@ == self@,
    {
        match self {
            MessagePart::Text(t) => MessagePart::Text(t.clone()),
            MessagePart::Other(j) => MessagePart::Other(clone_opt_string(j)),
        }
    }
}

impl MessageContent {
    pub fn duplicate(&self) -> (r: MessageContent)
        ensures
            r@ == self@,
    {
        match self {
            MessageContent::Text(t) => MessageContent::Text(t.clone()),
            MessageContent::Null => MessageContent::Null,
            MessageContent::Parts(parts) => {
                let mut out: Vec<MessagePart> = Vec::new();
                let mut i: usize = 0;
                while i < parts.len()
                    invariant
                        i <= parts@.len(),
                        out@.len() == i,
                        forall|k: int| 0 <= k < i ==> (#[trigger] out@[k])@ == parts@[k]@,
                    decreases parts@.len() - i,
                {
                    out.push(parts[i].duplicate());
                    i = i + 1;
                }
                assert(out@.map_values(|p: MessagePart| p@) =~= parts@.map_values(|p: MessagePart| p@));
                MessageContent::Parts(out)
            },
        }
    }
}

impl ChatMessage {
    /// A message with the given role and text, and nothing else.
    pub fn new(role: ChatRole, text: String) -> (m: ChatMessage)
        ensures
            m@ == text_message(role, text@),
    {
        ChatMessage {
            role,
            content: MessageContent::Text(text),
            name: None,
            tool_call_id: None,
            tool_calls_json: None,
        }
    }

    pub fn duplicate(&self) -> (r: ChatMessage)
        ensures
            r@ == self@,
    {
        ChatMessage {
            role: self.role.duplicate(),
            content: self.content.duplicate(),
            name: clone_opt_string(&self.name),
            tool_call_id: clone_opt_string(&self.tool_call_id),
            tool_calls_json: clone_opt_string(&self.tool_calls_json),
        }
    }
}

/// The view of a message with only a role and a text.
pub open spec fn text_message(role: ChatRole, text: Seq<char>) -> MessageView {
    MessageView {
        role,
        content: ContentView::Text(text),
        name: None,
        tool_call_id: None,
        tool_calls_json: None,
    }
}

pub fn clone_messages(v: &Vec<ChatMessage>) -> (r: Vec<ChatMessage>)
    ensures
        r@.map_values(|m: ChatMessage| m@) == v@.map_values(|m: ChatMessage| m@),
{
    let mut out: Vec<ChatMessage> = Vec::new();
    let mut i: usize = 0;
    while i < v.len()
        invariant
            i <= v@.len(),
            out@.len() == i,
            forall|k: int| 0 <= k < i ==> (#[trigger] out@[k])@ == v@[k]@,
        decreases v@.len() - i,
    {
        out.push(v[i].duplicate());
        i = i + 1;
    }
    assert(out@.map_values(|m: ChatMessage| m@) =~= v@.map_values(|m: ChatMessage| m@));
    out
}

// ---------------------------------------------------------------------------
// Sizes
// ---------------------------------------------------------------------------

pub open spec fn sat(x: nat) -> nat {
    if x <= usize::MAX {
        x
    } else {
        usize::MAX as nat
    }
}

pub fn sat_add(a: usize, b: usize) -> (r: usize)
    ensures
        r == sat((a + b) as nat),
{
    if a > usize::MAX - b {
        usize::MAX
    } else {
        a + b
    }
}

proof fn lemma_sat_add(x: nat, y: nat)
    ensures
        sat(sat(x) + sat(y)) == sat(x + y),
{
}

pub open spec fn part_bytes(p: PartView) -> nat {
    match p {
        PartView::Text(t) => utf8_len(t),
        PartView::Other(Some(j)) => utf8_len(j),
        PartView::Other(None) => 0,
    }
}

pub open spec fn parts_bytes(ps: Seq<PartView>) -> nat
    decreases ps.len(),
{
    if ps.len() == 0 {
        0
    } else {
        parts_bytes(ps.drop_last()) + part_bytes(ps.last())
    }
}

/// Bytes of a content: text bytes, or the bytes of each part (a non-text part by its JSON).
pub open spec fn content_bytes(c: ContentView) -> nat {
    match c {
        ContentView::Text(t) => utf8_len(t),
        ContentView::Parts(ps) => parts_bytes(ps),
        ContentView::Null => 0,
    }
}

/// Bytes a message takes in the model context: role name, content and serialized tool calls.
pub open spec fn message_bytes(m: MessageView) -> nat {
    utf8_len(role_name_spec(m.role)) + content_bytes(m.content) + match m.tool_calls_json {
        Some(j) => utf8_len(j),
        None => 0,
    }
}

pub open spec fn messages_bytes(ms: Seq<MessageView>) -> nat
    decreases ms.len(),
{
    if ms.len() == 0 {
        0
    } else {
        messages_bytes(ms.drop_last()) + message_bytes(ms.last())
    }
}

pub open spec fn views(ms: Seq<ChatMessage>) -> Seq<MessageView> {
    ms.map_values(|m: ChatMessage| m@)
}

/// Byte length of a role's name.
pub fn role_len(role: &ChatRole) -> (n: usize)
    ensures
        n == utf8_len(role_name_spec(*role)),
{
    byte_len(role.name().as_str())
}

/// Byte size of a content, saturating at `usize::MAX`.
pub fn content_char_len(content: &MessageContent) -> (n: usize)
    ensures
        n == sat(content_bytes(content@)),
{
    match content {
        MessageContent::Text(t) => byte_len(t.as_str()),
        MessageContent::Null => 0,
        MessageContent::Parts(parts) => {
            let ghost pv = parts@.map_values(|p: MessagePart| p@);
            let mut acc: usize = 0;
            let mut i: usize = 0;
            while i < parts.len()
                invariant
                    i <= parts@.len(),
                    pv == parts@.map_values(|p: MessagePart| p@),
                    acc == sat(parts_bytes(pv.take(i as int))),
                decreases parts@.len() - i,
            {
                let n = match &parts[i] {
                    MessagePart::Text(t) => byte_len(t.as_str()),
                    MessagePart::Other(Some(j)) => byte_len(j.as_str()),
                    MessagePart::Other(None) => 0,
                };
                proof {
                    assert(pv.take(i + 1).drop_last() =~= pv.take(i as int));
                    assert(pv.take(i + 1).last() == parts@[i as int]@);
                    lemma_sat_add(parts_bytes(pv.take(i as int)), part_bytes(parts@[i as int]@));
                }
                acc = sat_add(acc, n);
                i = i + 1;
            }
            assert(pv.take(parts@.len() as int) =~= pv);
            acc
        },
    }
}

/// Byte size of a message in the model context, saturating at `usize::MAX`.
pub fn message_char_len(message: &ChatMessage) -> (n: usize)
    ensures
        n == sat(message_bytes(message@)),
{
    let tool_calls_len: usize = match &message.tool_calls_json {
        Some(j) => byte_len(j.as_str()),
        None => 0,
    };
    let a = role_len(&message.role);
    let b = content_char_len(&message.content);
    proof {
        lemma_sat_add(utf8_len(role_name_spec(message.role)), content_bytes(message.content@));
        lemma_sat_add(
            utf8_len(role_name_spec(message.role)) + content_bytes(message.content@),
            match message@.tool_calls_json {
                Some(j) => utf8_len(j),
                None => 0,
            },
        );
    }
    sat_add(sat_add(a, b), tool_calls_len)
}

/// Total byte size of messages, saturating at `usize::MAX`.
pub fn message_char_len_sum(messages: &[ChatMessage]) -> (n: usize)
    ensures
        n == sat(messages_bytes(views(messages@))),
{
    let ghost mv = views(messages@);
    let mut acc: usize = 0;
    let mut i: usize = 0;
    while i < messages.len()
        invariant
            i <= messages@.len(),
            mv == views(messages@),
            acc == sat(messages_bytes(mv.take(i as int))),
        decreases messages@.len() - i,
    {
        let n = message_char_len(&messages[i]);
        proof {
            assert(mv.take(i + 1).drop_last() =~= mv.take(i as int));
            assert(mv.take(i + 1).last() == messages@[i as int]@);
            lemma_sat_add(messages_bytes(mv.take(i as int)), message_bytes(messages@[i as int]@));
        }
        acc = sat_add(acc, n);
        i = i + 1;
    }
    assert(mv.take(messages@.len() as int) =~= mv);
    acc
}

/// Estimated tokens: one token per four bytes, rounded up.
pub fn estimate_tokens_for_messages(messages: &[ChatMessage]) -> (n: usize)
    ensures
        n == (sat(messages_bytes(views(messages@))) + 3) / 4,
{
    let total = message_char_len_sum(messages);
    total / 4 + if total % 4 == 0 {
        0
    } else {
        1
    }
}

// ---------------------------------------------------------------------------
// Text of a content for compaction
// ---------------------------------------------------------------------------

/// The elements of `list` joined by `sep`.
pub open spec fn join(list: Seq<Seq<char>>, sep: Seq<char>) -> Seq<char>
    decreases list.len(),
{
    if list.len() == 0 {
        seq![]
    } else if list.len() == 1 {
        list[0]
    } else {
        join(list.drop_last(), sep) + sep + list.last()
    }
}

pub open spec fn part_text(p: PartView) -> Seq<char> {
    match p {
        PartView::Text(t) => t,
        PartView::Other(Some(j)) => j,
        PartView::Other(None) => "[non-text content]"@,
    }
}

/// The text of a content: the text, or the part texts (non-text parts by their JSON) on
/// separate lines.
pub open spec fn content_text(c: ContentView) -> Seq<char> {
    match c {
        ContentView::Text(t) => t,
        ContentView::Parts(ps) => join(ps.map_values(|p: PartView| part_text(p)), "\n"@),
        ContentView::Null => seq![],
    }
}

fn part_text_exec(p: &MessagePart) -> (s: String)
    ensures
        s@ == part_text(p@),
{
    match p {
        MessagePart::Text(t) => t.clone(),
        MessagePart::Other(Some(j)) => j.clone(),
        MessagePart::Other(None) => "[non-text content]".to_owned(),
    }
}

/// The text of a content, truncated in the middle to `limit` bytes.
pub fn content_to_compaction_text(content: &MessageContent, limit: usize) -> (s: String)
    ensures
        s@ == truncate_middle_spec(content_text(content@), limit as int),
{
    let text: String = match content {
        MessageContent::Text(t) => t.clone(),
        MessageContent::Null => String::new(),
        MessageContent::Parts(parts) => {
            let ghost texts = parts@.map_values(|p: MessagePart| part_text(p@));
            let mut out = String::new();
            let mut i: usize = 0;
            while i < parts.len()
                invariant
                    i <= parts@.len(),
                    texts == parts@.map_values(|p: MessagePart| part_text(p@)),
                    out@ == join(texts.take(i as int), "\n"@),
                decreases parts@.len() - i,
            {
                let piece = part_text_exec(&parts[i]);
                proof {
                    assert(texts.take(i + 1).drop_last() =~= texts.take(i as int));
                }
                if i > 0 {
                    out.append("\n");
                }
                out.append(piece.as_str());
                proof {
                    if i == 0 {
                        assert(out@ =~= join(texts.take(1), "\n"@));
                    }
                }
                i = i + 1;
            }
            assert(texts.take(parts@.len() as int) =~= texts);
            proof {
                let pv = parts@.map_values(|p: MessagePart| p@);
                assert(pv.map_values(|p: PartView| part_text(p)) =~= texts);
            }
            out
        },
    };
    truncate_middle(text.as_str(), limit)
}

/// The header that precedes a truncated tool output.
pub open spec fn truncation_header(len: nat, max: nat) -> Seq<char> {
    "[Tool output truncated from "@ + decimal(len) + " chars to "@ + decimal(max)
        + " chars for model context]\n"@
}

/// A message whose text exceeds `max` bytes gets its text truncated in the middle,
/// behind a header that reports both sizes; any other message is kept.
pub open spec fn truncate_message_spec(m: MessageView, max: nat) -> MessageView {
    match m.content {
        ContentView::Text(t) => if utf8_len(t) > max {
            MessageView {
                content: ContentView::Text(
                    truncation_header(utf8_len(t), max) + truncate_middle_spec(t, max as int),
                ),
                ..m
            }
        } else {
            m
        },
        _ => m,
    }
}

/// Truncates the text of a message that exceeds `max_chars` bytes.
pub fn truncate_message_text(message: &ChatMessage, max_chars: usize) -> (r: ChatMessage)
    ensures
        r@ == truncate_message_spec(message@, max_chars as nat),
{
    let mut truncated = message.duplicate();
    if let MessageContent::Text(text) = &message.content {
        let len = byte_len(text.as_str());
        if len > max_chars {
            let mut s = "[Tool output truncated from ".to_owned();
            s.append(u64_to_decimal(len as u64).as_str());
            s.append(" chars to ");
            s.append(u64_to_decimal(max_chars as u64).as_str());
            s.append(" chars for model context]\n");
            s.append(truncate_middle(text.as_str(), max_chars).as_str());
            truncated.content = MessageContent::Text(s);
        }
    }
    truncated
}

} // verus!
