//! Canonical conversation types: tool calls, tool responses, unified replies,
//! and the content-block message family.

use vstd::prelude::*;
use crate::json::{JsonVal, JsonData};
use crate::text::str_eq;

verus! {

/// A tool call requested by the model.
#[derive(Debug)]
pub struct ToolCall {
    /// Provider-issued identifier, opaque and unique within one round.
    pub id: String,
    /// Name of the tool to call.
    pub name: String,
    /// Arguments to pass to the tool.
    pub arguments: JsonVal,
}

pub struct ToolCallData {
    pub id: Seq<char>,
    pub name: Seq<char>,
    pub arguments: JsonData,
}

impl View for ToolCall {
    type V = ToolCallData;

    open spec fn view(&self) -> ToolCallData {
        ToolCallData { id: self.id@, name: self.name@, arguments: self.arguments@ }
    }
}

/// The views of a sequence of tool calls.
pub open spec fn calls_view(s: Seq<ToolCall>) -> Seq<ToolCallData> {
    Seq::new(s.len(), |i: int| s[i]@)
}

/// The result of one tool execution, sent back to the model.
#[derive(Debug)]
pub struct ToolResponse {
    /// The id of the tool call this responds to.
    pub tool_call_id: String,
    /// What the model will read next turn.
    pub content: String,
    /// Whether the execution failed.
    pub is_error: bool,
}

pub struct ToolResponseData {
    pub tool_call_id: Seq<char>,
    pub content: Seq<char>,
    pub is_error: bool,
}

impl View for ToolResponse {
    type V = ToolResponseData;

    open spec fn view(&self) -> ToolResponseData {
        ToolResponseData {
            tool_call_id: self.tool_call_id@,
            content: self.content@,
            is_error: self.is_error,
        }
    }
}

/// The views of a sequence of tool responses.
pub open spec fn responses_view(s: Seq<ToolResponse>) -> Seq<ToolResponseData> {
    Seq::new(s.len(), |i: int| s[i]@)
}

impl ToolResponse {
    pub fn success(tool_call_id: String, content: String) -> (r: ToolResponse)
        ensures
            r.tool_call_id == tool_call_id,
            r.content == content,
            r.is_error == false,
    {
        ToolResponse { tool_call_id, content, is_error: false }
    }

    pub fn error(tool_call_id: String, error: String) -> (r: ToolResponse)
        ensures
            r.tool_call_id == tool_call_id,
            r.content == error,
            r.is_error == true,
    {
        ToolResponse { tool_call_id, content: error, is_error: true }
    }
}

/// One round of tool calls and the responses that answered them.
#[derive(Debug)]
pub struct ToolHistoryEntry {
    pub tool_calls: Vec<ToolCall>,
    pub tool_responses: Vec<ToolResponse>,
}

impl ToolHistoryEntry {
    pub fn new(tool_calls: Vec<ToolCall>, tool_responses: Vec<ToolResponse>) -> (r:
        ToolHistoryEntry)
        ensures
            r.tool_calls == tool_calls,
            r.tool_responses == tool_responses,
    {
        ToolHistoryEntry { tool_calls, tool_responses }
    }
}

/// `reason` holds exactly the given text.
pub open spec fn stop_is(reason: Option<String>, lit: Seq<char>) -> bool {
    reason matches Some(s) && s@ == lit
}

/// A unified model reply: text plus any requested tool calls.
#[derive(Debug)]
pub struct AiResponse {
    /// Text content; may be empty when only tool calls came back.
    pub content: String,
    /// Tool calls requested by the model.
    pub tool_calls: Vec<ToolCall>,
    /// Why the model stopped.
    pub stop_reason: Option<String>,
}

impl AiResponse {
    /// The reply asks for tools: either the stop reason says so or calls came back.
    pub open spec fn spec_is_tool_use(&self) -> bool {
        stop_is(self.stop_reason, "tool_use"@) || self.tool_calls@.len() > 0
    }

    /// A well-formed reply marks tool use whenever it carries tool calls.
    pub open spec fn wf(&self) -> bool {
        self.tool_calls@.len() > 0 ==> stop_is(self.stop_reason, "tool_use"@)
    }

    pub fn text(content: String) -> (r: AiResponse)
        ensures
            r.content == content,
            r.tool_calls@.len() == 0,
            stop_is(r.stop_reason, "end_turn"@),
            r.wf(),
            !r.spec_is_tool_use(),
    {
        proof {
            reveal_strlit("end_turn");
            reveal_strlit("tool_use");
            assert("end_turn"@[0] == 'e');
            assert("tool_use"@[0] == 't');
            assert("end_turn"@ != "tool_use"@);
        }
        AiResponse {
            content,
            tool_calls: Vec::new(),
            stop_reason: Some("end_turn".to_owned()),
        }
    }

    pub fn with_tools(content: String, tool_calls: Vec<ToolCall>) -> (r: AiResponse)
        ensures
            r.content == content,
            r.tool_calls == tool_calls,
            stop_is(r.stop_reason, "tool_use"@),
            r.wf(),
            r.spec_is_tool_use(),
    {
        AiResponse {
            content,
            tool_calls,
            stop_reason: Some("tool_use".to_owned()),
        }
    }

    /// Whether the reply contains tool calls.
    pub fn has_tool_calls(&self) -> (r: bool)
        ensures
            r == (self.tool_calls@.len() > 0),
    {
        self.tool_calls.len() > 0
    }

    /// Whether the model wants to use tools.
    pub fn is_tool_use(&self) -> (r: bool)
        ensures
            r == self.spec_is_tool_use(),
    {
        let by_reason = match &self.stop_reason {
            Some(s) => str_eq(s.as_str(), "tool_use"),
            None => false,
        };
        by_reason || self.tool_calls.len() > 0
    }
}

/// A tool definition in the content-block API shape.
#[derive(Debug)]
pub struct ClaudeTool {
    pub name: String,
    pub description: String,
    pub input_schema: JsonVal,
}

/// One content block of a content-block API message.
#[derive(Debug)]
pub enum ClaudeContentBlock {
    Text { text: String },
    ToolUse { id: String, name: String, input: JsonVal },
    ToolResult { tool_use_id: String, content: String, is_error: Option<bool> },
}

/// The mathematical shape of a content block.
pub enum BlockData {
    Text { text: Seq<char> },
    ToolUse { id: Seq<char>, name: Seq<char>, input: JsonData },
    ToolResult { tool_use_id: Seq<char>, content: Seq<char>, is_error: Option<bool> },
}

impl View for ClaudeContentBlock {
    type V = BlockData;

    open spec fn view(&self) -> BlockData {
        match self {
            ClaudeContentBlock::Text { text } => BlockData::Text { text: text@ },
            ClaudeContentBlock::ToolUse { id, name, input } => BlockData::ToolUse {
                id: id@,
                name: name@,
                input: input@,
            },
            ClaudeContentBlock::ToolResult { tool_use_id, content, is_error } =>
                BlockData::ToolResult {
                tool_use_id: tool_use_id@,
                content: content@,
                is_error: *is_error,
            },
        }
    }
}

/// The views of a sequence of content blocks.
pub open spec fn blocks_view(s: Seq<ClaudeContentBlock>) -> Seq<BlockData> {
    Seq::new(s.len(), |i: int| s[i]@)
}

impl ClaudeContentBlock {
    pub fn text(text: String) -> (r: ClaudeContentBlock)
        ensures
            r@ == (BlockData::Text { text: text@ }),
    {
        ClaudeContentBlock::Text { text }
    }

    pub fn tool_result(tool_use_id: String, content: String, is_error: bool) -> (r:
        ClaudeContentBlock)
        ensures
            r@ == (BlockData::ToolResult {
                tool_use_id: tool_use_id@,
                content: content@,
                is_error: if is_error {
                    Some(true)
                } else {
                    None
                },
            }),
    {
        ClaudeContentBlock::ToolResult {
            tool_use_id,
            content,
            is_error: if is_error {
                Some(true)
            } else {
                None
            },
        }
    }
}

/// A content-block API message: text, or a list of blocks.
#[derive(Debug)]
pub enum ClaudeMessageContent {
    Text(String),
    Blocks(Vec<ClaudeContentBlock>),
}

/// A message in the content-block API shape.
#[derive(Debug)]
pub struct ClaudeMessage {
    pub role: String,
    pub content: ClaudeMessageContent,
}

impl ClaudeMessage {
    pub fn user(content: String) -> (r: ClaudeMessage)
        ensures
            r.role@ == "user"@,
            r.content matches ClaudeMessageContent::Text(t) && t == content,
    {
        ClaudeMessage { role: "user".to_owned(), content: ClaudeMessageContent::Text(content) }
    }

    pub fn assistant(content: String) -> (r: ClaudeMessage)
        ensures
            r.role@ == "assistant"@,
            r.content matches ClaudeMessageContent::Text(t) && t == content,
    {
        ClaudeMessage {
            role: "assistant".to_owned(),
            content: ClaudeMessageContent::Text(content),
        }
    }

    pub fn assistant_with_blocks(blocks: Vec<ClaudeContentBlock>) -> (r: ClaudeMessage)
        ensures
            r.role@ == "assistant"@,
            r.content matches ClaudeMessageContent::Blocks(b) && b == blocks,
    {
        ClaudeMessage {
            role: "assistant".to_owned(),
            content: ClaudeMessageContent::Blocks(blocks),
        }
    }

    pub fn user_with_tool_results(results: Vec<ClaudeContentBlock>) -> (r: ClaudeMessage)
        ensures
            r.role@ == "user"@,
            r.content matches ClaudeMessageContent::Blocks(b) && b == results,
    {
        ClaudeMessage { role: "user".to_owned(), content: ClaudeMessageContent::Blocks(results) }
    }
}

/// The role of a canonical conversation turn.
#[derive(Debug, Clone, Copy, PartialEq, Eq, Structural)]
pub enum MsgRole {
    System,
    User,
    Assistant,
    Tool,
}

/// One canonical conversation turn.
#[derive(Debug)]
pub struct Message {
    pub role: MsgRole,
    pub content: String,
    /// Tool calls, on assistant turns that request tools.
    pub tool_calls: Vec<ToolCall>,
    /// The call answered, on tool turns.
    pub tool_call_id: Option<String>,
}

pub struct MessageData {
    pub role: MsgRole,
    pub content: Seq<char>,
    pub tool_calls: Seq<ToolCallData>,
    pub tool_call_id: Option<Seq<char>>,
}

impl View for Message {
    type V = MessageData;

    open spec fn view(&self) -> MessageData {
        MessageData {
            role: self.role,
            content: self.content@,
            tool_calls: calls_view(self.tool_calls@),
            tool_call_id: match self.tool_call_id {
                Some(s) => Some(s@),
                None => None,
            },
        }
    }
}

/// The views of a sequence of canonical turns.
pub open spec fn messages_view(s: Seq<Message>) -> Seq<MessageData> {
    Seq::new(s.len(), |i: int| s[i]@)
}

impl Message {
    /// A plain user turn.
    pub fn user(content: String) -> (r: Message)
        ensures
            r@.role == MsgRole::User,
            r@.content == content@,
            r@.tool_calls.len() == 0,
            r@.tool_call_id is None,
    {
        Message { role: MsgRole::User, content, tool_calls: Vec::new(), tool_call_id: None }
    }

    /// A plain assistant turn.
    pub fn assistant(content: String) -> (r: Message)
        ensures
            r@.role == MsgRole::Assistant,
            r@.content == content@,
            r@.tool_calls.len() == 0,
            r@.tool_call_id is None,
    {
        Message { role: MsgRole::Assistant, content, tool_calls: Vec::new(), tool_call_id: None }
    }
}

} // verus!
