//! The chat messages exchanged with an Ollama server, and what the agent
//! reads from them.
use vstd::prelude::*;
use crate::text::{push_str, trim_end_char, strip_trailing};
use crate::progress::opt_view;

verus! {

/// The function a model asks to call, with its arguments as JSON text.
pub struct ToolCallFunction {
    pub name: String,
    pub arguments: String,
}

/// One tool call of a model's reply.
pub struct ToolCall {
    pub function: ToolCallFunction,
}

/// A chat message: from the system, the user, the model ("assistant") or a
/// tool.
pub struct Message {
    pub role: String,
    pub content: String,
    pub tool_calls: Option<Vec<ToolCall>>,
}

/// The string field `key` of the JSON object written in `text`, as
/// `serde_json` reads it; `None` when the text is no JSON object or the field
/// is missing or not a string.
pub uninterp spec fn json_string_field(text: Seq<char>, key: Seq<char>) -> Option<Seq<char>>;

/// Parses `text` as JSON (`serde_json::from_str` into a `Value`), reads its
/// field `key` (`Value::get`) and keeps it where it is a string (the
/// `Value::String` variant). Claimed: the result is the named function of the
/// two texts.
#[verifier::external_body]
fn string_field(text: &str, key: &str) -> (r: Option<String>)
    ensures
        opt_view(r) == json_string_field(text@, key@),
{
    match serde_json::from_str::<serde_json::Value>(text) {
        Ok(v) => match v.get(key) {
            Some(serde_json::Value::String(s)) => Some(s.clone()),
            _ => None,
        },
        Err(_) => None,
    }
}

/// The command a tool call asks to run: its `command` argument, or the empty
/// string when there is none.
pub open spec fn call_command(call: ToolCall) -> Seq<char> {
    match json_string_field(call.function.arguments@, "command"@) {
        Some(c) => c,
        None => Seq::empty(),
    }
}

/// The command of a tool call.
pub fn command_of(call: &ToolCall) -> (r: String)
    ensures
        r@ == call_command(*call),
{
    match string_field(call.function.arguments.as_str(), "command") {
        Some(c) => c,
        None => String::new(),
    }
}

/// The chat endpoint of a server: `/api/chat` after its address without
/// trailing slashes.
pub fn chat_url(host: &str) -> (r: String)
    ensures
        r@ == strip_trailing(host@, '/') + "/api/chat"@,
{
    let mut r = trim_end_char(host, '/');
    push_str(&mut r, "/api/chat");
    r
}

} // verus!
