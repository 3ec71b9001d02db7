//! Chat messages exchanged with the model provider.

use vstd::prelude::*;

use crate::text::utf8_len;

verus! {

/// The function part of a tool call.
pub struct FunctionCall {
    pub name: String,
    pub arguments: String,
}

/// A tool call requested by the model.
pub struct ToolCall {
    pub id: String,
    /// Always `function` for chat-completion tool calls.
    pub kind: String,
    pub function: FunctionCall,
}

/// One chat message.
pub struct ConversationMessage {
    pub role: String,
    /// Text content, if any.
    pub content: Option<String>,
    pub tool_calls: Option<Vec<ToolCall>>,
    pub tool_call_id: Option<String>,
    pub name: Option<String>,
}

/// The mathematical content of a chat message.
pub struct MessageView {
    pub role: Seq<char>,
    pub content: Option<Seq<char>>,
    pub tool_calls: Option<Seq<ToolCall>>,
    pub tool_call_id: Option<Seq<char>>,
    pub name: Option<Seq<char>>,
}

/// A message with a role and text content only.
pub open spec fn text_message(role: Seq<char>, text: Seq<char>) -> MessageView {
    MessageView { role, content: Some(text), tool_calls: None, tool_call_id: None, name: None }
}

/// The character view of an optional string.
pub open spec fn opt_chars(o: Option<String>) -> Option<Seq<char>> {
    match o {
        Some(s) => Some(s@),
        None => None,
    }
}

impl View for ConversationMessage {
    type V = MessageView;

    open spec fn view(&self) -> MessageView {
        MessageView {
            role: self.role@,
            content: opt_chars(self.content),
            tool_calls: match self.tool_calls {
                Some(v) => Some(v@),
                None => None,
            },
            tool_call_id: opt_chars(self.tool_call_id),
            name: opt_chars(self.name),
        }
    }
}

/// The views of a sequence of messages.
pub open spec fn message_views(v: Seq<ConversationMessage>) -> Seq<MessageView> {
    v.map_values(|m: ConversationMessage| m@)
}

fn clone_opt_string(o: &Option<String>) -> (r: Option<String>)
    ensures
        opt_chars(r) == opt_chars(*o),
{
    match o {
        Some(s) => Some(s.clone()),
        None => None,
    }
}

fn clone_tool_calls(v: &Vec<ToolCall>) -> (r: Vec<ToolCall>)
    ensures
        r@ == v@,
{
    let mut out: Vec<ToolCall> = Vec::new();
    let mut i: usize = 0;
    while i < v.len()
        invariant
            i <= v.len(),
            out@ == v@.take(i as int),
        decreases v.len() - i,
    {
        let c = ToolCall {
            id: v[i].id.clone(),
            kind: v[i].kind.clone(),
            function: FunctionCall {
                name: v[i].function.name.clone(),
                arguments: v[i].function.arguments.clone(),
            },
        };
        out.push(c);
        assert(out@ =~= v@.take(i + 1));
        i += 1;
    }
    assert(v@.take(v.len() as int) =~= v@);
    out
}

/// The text content of a message (empty without content).
pub open spec fn text_of(m: ConversationMessage) -> Seq<char> {
    match m.content {
        Some(c) => c@,
        None => Seq::empty(),
    }
}

/// UTF-8 bytes of a message's tool-call names and arguments.
pub open spec fn calls_bytes(calls: Seq<ToolCall>) -> nat
    decreases calls.len(),
{
    if calls.len() == 0 {
        0
    } else {
        calls_bytes(calls.drop_last()) + utf8_len(calls.last().function.name@) + utf8_len(
            calls.last().function.arguments@,
        )
    }
}

impl ConversationMessage {
    /// A message with a role and text content only.
    pub fn with_text(role: &str, text: &str) -> (r: Self)
        ensures
            r@ == text_message(role@, text@),
    {
        ConversationMessage {
            role: role.to_owned(),
            content: Some(text.to_owned()),
            tool_calls: None,
            tool_call_id: None,
            name: None,
        }
    }

    /// A system message.
    pub fn system(text: &str) -> (r: Self)
        ensures
            r@ == text_message("system"@, text@),
            text_of(r) == text@,
    {
        Self::with_text("system", text)
    }

    /// A user message.
    pub fn user(text: &str) -> (r: Self)
        ensures
            r@ == text_message("user"@, text@),
            text_of(r) == text@,
    {
        Self::with_text("user", text)
    }

    /// An assistant message with text only.
    pub fn assistant_text(text: &str) -> (r: Self)
        ensures
            r@ == text_message("assistant"@, text@),
            text_of(r) == text@,
    {
        Self::with_text("assistant", text)
    }

    /// The result of a tool call, answering the call with id `call_id`.
    pub fn tool_result(call_id: &str, body: &str) -> (r: Self)
        ensures
            r.role@ == "tool"@,
            text_of(r) == body@,
            r.tool_calls is None,
            r.tool_call_id matches Some(id) && id@ == call_id@,
    {
        ConversationMessage {
            role: "tool".to_owned(),
            content: Some(body.to_owned()),
            tool_calls: None,
            tool_call_id: Some(call_id.to_owned()),
            name: None,
        }
    }

    /// A copy of the message.
    pub fn copy(&self) -> (r: Self)
        ensures
            r@ == self@,
    {
        ConversationMessage {
            role: self.role.clone(),
            content: clone_opt_string(&self.content),
            tool_calls: match &self.tool_calls {
                Some(v) => Some(clone_tool_calls(v)),
                None => None,
            },
            tool_call_id: clone_opt_string(&self.tool_call_id),
            name: clone_opt_string(&self.name),
        }
    }

    /// The text content (empty without content).
    pub fn text_content(&self) -> (r: String)
        ensures
            r@ == text_of(*self),
    {
        match &self.content {
            Some(c) => c.clone(),
            None => String::new(),
        }
    }
}

} // verus!
