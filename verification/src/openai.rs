//! The function-calling provider wire format: canonical turns and tool
//! definitions out, completion replies and tool calls back.

use vstd::prelude::*;
use crate::json::{JsonVal, JsonData, json_write, json_text, field_views_of};
use crate::json_parse::{json_parse, spec_json_parse};
use crate::ai_types::{
    ToolCall, ToolCallData, calls_view, ToolResponse, ToolResponseData, responses_view, AiResponse,
    Message, MessageData, MsgRole, stop_is,
};
use crate::tool_types::{ToolDefinition, ToolDefinitionData, ToolInputSchemaData};
use crate::text::str_eq;

verus! {

broadcast use vstd::seq::group_seq_axioms, vstd::std_specs::vec::group_vec_axioms;

/// A configured function-calling provider client: where to send completions,
/// which model to name, and the bearer key the transport will attach.
#[derive(Debug)]
pub struct OpenAIClient {
    pub endpoint: String,
    pub model: String,
    pub api_key: String,
}

/// A character an HTTP header value may hold: printable ASCII, space, or tab.
pub open spec fn valid_key_char(c: char) -> bool {
    c == '\t' || (' ' <= c && c <= '~')
}

pub open spec fn valid_key(s: Seq<char>) -> bool {
    forall|i: int| 0 <= i < s.len() ==> valid_key_char(s[i])
}

impl OpenAIClient {
    /// Configure a client. The key must fit in an HTTP header; the endpoint
    /// and model fall back to the usual defaults.
    pub fn new(api_key: &str, endpoint: Option<&str>, model: Option<&str>) -> (r: Result<
        OpenAIClient,
        String,
    >)
        ensures
            match r {
                Ok(c) => valid_key(api_key@) && c.api_key@ == api_key@ && c.endpoint@ == (
                match endpoint {
                    Some(e) => e@,
                    None => "https://api.openai.com/v1/chat/completions"@,
                }) && c.model@ == (match model {
                    Some(m) => m@,
                    None => "gpt-4o"@,
                }),
                Err(e) => !valid_key(api_key@) && e@ == "Invalid API key format"@,
            },
    {
        let key_chars = crate::text::chars_vec(api_key);
        let mut i: usize = 0;
        while i < key_chars.len()
            invariant
                i <= key_chars@.len(),
                key_chars@ == api_key@,
                forall|j: int| 0 <= j < i ==> valid_key_char(api_key@[j]),
            decreases key_chars@.len() - i,
        {
            let c = key_chars[i];
            if !(c == '\t' || (c >= ' ' && c <= '~')) {
                proof {
                    assert(!valid_key_char(api_key@[i as int]));
                }
                return Err("Invalid API key format".to_owned());
            }
            i = i + 1;
        }
        Ok(
            OpenAIClient {
                endpoint: match endpoint {
                    Some(e) => e.to_owned(),
                    None => "https://api.openai.com/v1/chat/completions".to_owned(),
                },
                model: match model {
                    Some(m) => m.to_owned(),
                    None => "gpt-4o".to_owned(),
                },
                api_key: api_key.to_owned(),
            },
        )
    }
}

/// One tool call on the wire: provider id, call type, and the function call.
#[derive(Debug)]
pub struct OpenAIFunctionCall {
    pub name: String,
    /// The arguments as JSON text, as the wire carries them.
    pub arguments: String,
}

pub struct OpenAIFunctionCallData {
    pub name: Seq<char>,
    pub arguments: Seq<char>,
}

impl View for OpenAIFunctionCall {
    type V = OpenAIFunctionCallData;

    open spec fn view(&self) -> OpenAIFunctionCallData {
        OpenAIFunctionCallData { name: self.name@, arguments: self.arguments@ }
    }
}

#[derive(Debug)]
pub struct OpenAIToolCall {
    pub id: String,
    pub call_type: String,
    pub function: OpenAIFunctionCall,
}

pub struct OpenAIToolCallData {
    pub id: Seq<char>,
    pub call_type: Seq<char>,
    pub function: OpenAIFunctionCallData,
}

impl View for OpenAIToolCall {
    type V = OpenAIToolCallData;

    open spec fn view(&self) -> OpenAIToolCallData {
        OpenAIToolCallData { id: self.id@, call_type: self.call_type@, function: self.function@ }
    }
}

pub open spec fn wire_calls_view(s: Seq<OpenAIToolCall>) -> Seq<OpenAIToolCallData> {
    Seq::new(s.len(), |i: int| s[i]@)
}

/// One message on the wire.
#[derive(Debug)]
pub struct OpenAIMessage {
    pub role: String,
    pub content: Option<String>,
    pub tool_calls: Option<Vec<OpenAIToolCall>>,
    pub tool_call_id: Option<String>,
}

pub struct OpenAIMessageData {
    pub role: Seq<char>,
    pub content: Option<Seq<char>>,
    pub tool_calls: Option<Seq<OpenAIToolCallData>>,
    pub tool_call_id: Option<Seq<char>>,
}

impl View for OpenAIMessage {
    type V = OpenAIMessageData;

    open spec fn view(&self) -> OpenAIMessageData {
        OpenAIMessageData {
            role: self.role@,
            content: match self.content {
                Some(c) => Some(c@),
                None => None,
            },
            tool_calls: match self.tool_calls {
                Some(cs) => Some(wire_calls_view(cs@)),
                None => None,
            },
            tool_call_id: match self.tool_call_id {
                Some(t) => Some(t@),
                None => None,
            },
        }
    }
}

pub open spec fn wire_msgs_view(s: Seq<OpenAIMessage>) -> Seq<OpenAIMessageData> {
    Seq::new(s.len(), |i: int| s[i]@)
}

/// A canonical tool call, put on the wire: the arguments become JSON text.
pub open spec fn wire_of_call(tc: ToolCallData) -> OpenAIToolCallData {
    OpenAIToolCallData {
        id: tc.id,
        call_type: "function"@,
        function: OpenAIFunctionCallData { name: tc.name, arguments: json_text(tc.arguments) },
    }
}

pub open spec fn wire_calls_of(calls: Seq<ToolCallData>) -> Seq<OpenAIToolCallData> {
    calls.map_values(|c: ToolCallData| wire_of_call(c))
}

/// A wire tool call read back as a canonical one: the arguments text is
/// parsed, with an empty object standing in when it cannot be.
pub open spec fn call_of_wire(w: OpenAIToolCallData) -> ToolCallData {
    ToolCallData {
        id: w.id,
        name: w.function.name,
        arguments: match spec_json_parse(w.function.arguments) {
            Some(d) => d,
            None => JsonData::Obj(Seq::empty()),
        },
    }
}

pub open spec fn calls_of_wire(ws: Seq<OpenAIToolCallData>) -> Seq<ToolCallData> {
    ws.map_values(|w: OpenAIToolCallData| call_of_wire(w))
}

/// Put one canonical tool call on the wire.
pub fn call_to_wire(tc: &ToolCall) -> (r: OpenAIToolCall)
    ensures
        r@ == wire_of_call(tc@),
{
    OpenAIToolCall {
        id: tc.id.clone(),
        call_type: "function".to_owned(),
        function: OpenAIFunctionCall {
            name: tc.name.clone(),
            arguments: json_write(&tc.arguments),
        },
    }
}

/// Read one wire tool call back; unparseable arguments become `{}`.
pub fn parse_wire_call(w: &OpenAIToolCall) -> (r: ToolCall)
    ensures
        r@ == call_of_wire(w@),
{
    let arguments = match json_parse(w.function.arguments.as_str()) {
        Some(v) => v,
        None => JsonVal::Obj(Vec::new()),
    };
    proof {
        if spec_json_parse(w.function.arguments@) is None {
            assert(crate::json::field_views_of(Seq::<(String, JsonVal)>::empty()) =~= Seq::<
                (Seq<char>, JsonData),
            >::empty());
        }
    }
    ToolCall { id: w.id.clone(), name: w.function.name.clone(), arguments }
}

/// The wire role of a canonical role.
pub open spec fn role_chars(r: MsgRole) -> Seq<char> {
    match r {
        MsgRole::System => "system"@,
        MsgRole::User => "user"@,
        MsgRole::Assistant => "assistant"@,
        MsgRole::Tool => "tool"@,
    }
}

/// A canonical turn on the wire: an assistant turn that carries tool calls is
/// sent with the calls and no content; a tool turn carries its call id.
pub open spec fn openai_of_message(m: MessageData) -> OpenAIMessageData {
    if m.role == MsgRole::Assistant && m.tool_calls.len() > 0 {
        OpenAIMessageData {
            role: "assistant"@,
            content: None,
            tool_calls: Some(wire_calls_of(m.tool_calls)),
            tool_call_id: None,
        }
    } else if m.role == MsgRole::Tool {
        OpenAIMessageData {
            role: "tool"@,
            content: Some(m.content),
            tool_calls: None,
            tool_call_id: m.tool_call_id,
        }
    } else {
        OpenAIMessageData {
            role: role_chars(m.role),
            content: Some(m.content),
            tool_calls: None,
            tool_call_id: None,
        }
    }
}

fn calls_to_wire(calls: &Vec<ToolCall>) -> (r: Vec<OpenAIToolCall>)
    ensures
        wire_calls_view(r@) == wire_calls_of(calls_view(calls@)),
{
    let mut out: Vec<OpenAIToolCall> = Vec::new();
    let mut i: usize = 0;
    while i < calls.len()
        invariant
            i <= calls@.len(),
            out@.len() == i,
            forall|k: int| 0 <= k < i ==> out@[k]@ == wire_of_call(calls@[k]@),
        decreases calls@.len() - i,
    {
        let w = call_to_wire(&calls[i]);
        out.push(w);
        i = i + 1;
    }
    proof {
        assert(wire_calls_view(out@) =~= wire_calls_of(calls_view(calls@)));
    }
    out
}

/// Put one canonical turn on the wire.
pub fn message_to_openai(m: &Message) -> (r: OpenAIMessage)
    ensures
        r@ == openai_of_message(m@),
{
    if matches!(m.role, MsgRole::Assistant) && m.tool_calls.len() > 0 {
        let wire_calls = calls_to_wire(&m.tool_calls);
        OpenAIMessage {
            role: "assistant".to_owned(),
            content: None,
            tool_calls: Some(wire_calls),
            tool_call_id: None,
        }
    } else if matches!(m.role, MsgRole::Tool) {
        OpenAIMessage {
            role: "tool".to_owned(),
            content: Some(m.content.clone()),
            tool_calls: None,
            tool_call_id: match &m.tool_call_id {
                Some(t) => Some(t.clone()),
                None => None,
            },
        }
    } else {
        let role = match m.role {
            MsgRole::System => "system".to_owned(),
            MsgRole::User => "user".to_owned(),
            MsgRole::Assistant => "assistant".to_owned(),
            MsgRole::Tool => "tool".to_owned(),
        };
        OpenAIMessage {
            role,
            content: Some(m.content.clone()),
            tool_calls: None,
            tool_call_id: None,
        }
    }
}

/// The assistant turn that reports a round of tool calls.
pub open spec fn assistant_round_msg(calls: Seq<ToolCallData>) -> OpenAIMessageData {
    OpenAIMessageData {
        role: "assistant"@,
        content: None,
        tool_calls: Some(wire_calls_of(calls)),
        tool_call_id: None,
    }
}

/// The tool turn that reports one tool response.
pub open spec fn tool_turn_msg(resp: ToolResponseData) -> OpenAIMessageData {
    OpenAIMessageData {
        role: "tool"@,
        content: Some(resp.content),
        tool_calls: None,
        tool_call_id: Some(resp.tool_call_id),
    }
}

/// The messages of one completed tool round: the assistant turn with the
/// calls, then one tool turn per response, in response order.
pub open spec fn round_messages(calls: Seq<ToolCallData>, resps: Seq<ToolResponseData>) -> Seq<
    OpenAIMessageData,
> {
    seq![assistant_round_msg(calls)] + resps.map_values(|r: ToolResponseData| tool_turn_msg(r))
}

/// Build the wire messages that continue a conversation after running one
/// round of tool calls.
pub fn build_tool_result_messages(
    tool_calls: &Vec<ToolCall>,
    tool_responses: &Vec<ToolResponse>,
) -> (r: Vec<OpenAIMessage>)
    ensures
        wire_msgs_view(r@) == round_messages(
            calls_view(tool_calls@),
            responses_view(tool_responses@),
        ),
{
    let mut msgs: Vec<OpenAIMessage> = Vec::new();
    let wire_calls = calls_to_wire(tool_calls);
    msgs.push(
        OpenAIMessage {
            role: "assistant".to_owned(),
            content: None,
            tool_calls: Some(wire_calls),
            tool_call_id: None,
        },
    );
    let mut i: usize = 0;
    while i < tool_responses.len()
        invariant
            i <= tool_responses@.len(),
            msgs@.len() == i + 1,
            msgs@[0]@ == assistant_round_msg(calls_view(tool_calls@)),
            forall|k: int| 0 <= k < i ==> msgs@[k + 1]@ == tool_turn_msg(tool_responses@[k]@),
        decreases tool_responses@.len() - i,
    {
        msgs.push(
            OpenAIMessage {
                role: "tool".to_owned(),
                content: Some(tool_responses[i].content.clone()),
                tool_calls: None,
                tool_call_id: Some(tool_responses[i].tool_call_id.clone()),
            },
        );
        i = i + 1;
    }
    proof {
        assert(wire_msgs_view(msgs@) =~= round_messages(
            calls_view(tool_calls@),
            responses_view(tool_responses@),
        ));
    }
    msgs
}

/// A tool definition's property, as the wire schema shows it: type and
/// description only.
pub open spec fn prop_json_of(p: crate::tool_types::PropertySchemaData) -> JsonData {
    JsonData::Obj(
        seq![
            ("type"@, JsonData::Str(p.schema_type)),
            ("description"@, JsonData::Str(p.description)),
        ],
    )
}

/// A tool's input schema as the wire carries it.
pub open spec fn schema_json_of(s: ToolInputSchemaData) -> JsonData {
    JsonData::Obj(
        seq![
            ("type"@, JsonData::Str(s.schema_type)),
            (
                "properties"@,
                JsonData::Obj(
                    s.properties.map_values(
                        |pr: (Seq<char>, crate::tool_types::PropertySchemaData)|
                            (pr.0, prop_json_of(pr.1)),
                    ),
                ),
            ),
            ("required"@, JsonData::Arr(s.required.map_values(|n: Seq<char>| JsonData::Str(n)))),
        ],
    )
}

/// Render a tool's input schema as a JSON value for the wire.
pub fn schema_to_json(s: &crate::tool_types::ToolInputSchema) -> (r: JsonVal)
    ensures
        r@ == schema_json_of(s@),
{
    let mut props: Vec<(String, JsonVal)> = Vec::new();
    let mut i: usize = 0;
    while i < s.properties.len()
        invariant
            i <= s.properties@.len(),
            props@.len() == i,
            forall|k: int|
                0 <= k < i ==> props@[k].0@ == s.properties@[k].0@ && props@[k].1@ == prop_json_of(
                    s.properties@[k].1@,
                ),
        decreases s.properties@.len() - i,
    {
        let mut fields: Vec<(String, JsonVal)> = Vec::new();
        fields.push(("type".to_owned(), JsonVal::Str(s.properties[i].1.schema_type.clone())));
        fields.push(
            ("description".to_owned(), JsonVal::Str(s.properties[i].1.description.clone())),
        );
        proof {
            crate::json::lemma_field_views_elts(fields@);
            assert(field_views_of(fields@) =~= seq![
                ("type"@, JsonData::Str(s.properties@[i as int].1@.schema_type)),
                ("description"@, JsonData::Str(s.properties@[i as int].1@.description)),
            ]);
        }
        props.push((s.properties[i].0.clone(), JsonVal::Obj(fields)));
        i = i + 1;
    }
    let mut req: Vec<JsonVal> = Vec::new();
    let mut j: usize = 0;
    while j < s.required.len()
        invariant
            j <= s.required@.len(),
            req@.len() == j,
            forall|k: int| 0 <= k < j ==> req@[k]@ == JsonData::Str(s.required@[k]@),
        decreases s.required@.len() - j,
    {
        req.push(JsonVal::Str(s.required[j].clone()));
        j = j + 1;
    }
    let mut top: Vec<(String, JsonVal)> = Vec::new();
    top.push(("type".to_owned(), JsonVal::Str(s.schema_type.clone())));
    proof {
        crate::json::lemma_field_views_elts(props@);
        crate::json::lemma_views_elts(req@);
    }
    let props_val = JsonVal::Obj(props);
    let req_val = JsonVal::Arr(req);
    top.push(("properties".to_owned(), props_val));
    top.push(("required".to_owned(), req_val));
    proof {
        crate::json::lemma_field_views_elts(top@);
        assert(top@[1].1@ matches JsonData::Obj(pf) && pf =~= s@.properties.map_values(
            |pr: (Seq<char>, crate::tool_types::PropertySchemaData)| (pr.0, prop_json_of(pr.1)),
        ));
        assert(top@[2].1@ matches JsonData::Arr(rf) && rf =~= s@.required.map_values(
            |n: Seq<char>| JsonData::Str(n),
        ));
        assert(field_views_of(top@) =~= (match schema_json_of(s@) {
            JsonData::Obj(fs) => fs,
            _ => Seq::empty(),
        }));
    }
    JsonVal::Obj(top)
}

/// A tool definition on the wire.
#[derive(Debug)]
pub struct OpenAIFunction {
    pub name: String,
    pub description: String,
    pub parameters: JsonVal,
}

#[derive(Debug)]
pub struct OpenAITool {
    pub tool_type: String,
    pub function: OpenAIFunction,
}

pub struct OpenAIToolData {
    pub tool_type: Seq<char>,
    pub name: Seq<char>,
    pub description: Seq<char>,
    pub parameters: JsonData,
}

impl View for OpenAITool {
    type V = OpenAIToolData;

    open spec fn view(&self) -> OpenAIToolData {
        OpenAIToolData {
            tool_type: self.tool_type@,
            name: self.function.name@,
            description: self.function.description@,
            parameters: self.function.parameters@,
        }
    }
}

/// A tool definition, put on the wire.
pub open spec fn wire_of_def(d: ToolDefinitionData) -> OpenAIToolData {
    OpenAIToolData {
        tool_type: "function"@,
        name: d.name,
        description: d.description,
        parameters: schema_json_of(d.input_schema),
    }
}

pub fn def_to_wire(d: &ToolDefinition) -> (r: OpenAITool)
    ensures
        r@ == wire_of_def(d@),
{
    OpenAITool {
        tool_type: "function".to_owned(),
        function: OpenAIFunction {
            name: d.name.clone(),
            description: d.description.clone(),
            parameters: schema_to_json(&d.input_schema),
        },
    }
}

/// A whole completion request.
#[derive(Debug)]
pub struct OpenAICompletionRequest {
    pub model: String,
    pub messages: Vec<OpenAIMessage>,
    pub max_tokens: u32,
    pub tools: Option<Vec<OpenAITool>>,
    pub tool_choice: Option<String>,
}

/// Build a completion request: the canonical conversation, then the tool
/// round history, with the tool list and `tool_choice` present exactly when
/// tools are offered.
pub fn build_completion_request(
    model: &String,
    messages: &Vec<Message>,
    tool_history: Vec<OpenAIMessage>,
    tools: &Vec<ToolDefinition>,
) -> (r: OpenAICompletionRequest)
    ensures
        r.model@ == model@,
        r.max_tokens == 4096,
        r.messages@.len() == messages@.len() + tool_history@.len(),
        forall|i: int|
            0 <= i < messages@.len() ==> r.messages@[i]@ == openai_of_message(messages@[i]@),
        forall|i: int|
            0 <= i < tool_history@.len() ==> r.messages@[messages@.len() + i]
                == tool_history@[i],
        tools@.len() == 0 ==> r.tools is None && r.tool_choice is None,
        tools@.len() > 0 ==> ((r.tools matches Some(ts) && ts@.len() == tools@.len() && (forall|
            i: int,
        |
            0 <= i < tools@.len() ==> ts@[i]@ == wire_of_def(tools@[i]@))) && (r.tool_choice
            matches Some(tc) && tc@ == "auto"@)),
{
    let mut api_messages: Vec<OpenAIMessage> = Vec::new();
    let mut i: usize = 0;
    while i < messages.len()
        invariant
            i <= messages@.len(),
            api_messages@.len() == i,
            forall|k: int|
                0 <= k < i ==> api_messages@[k]@ == openai_of_message(messages@[k]@),
        decreases messages@.len() - i,
    {
        let w = message_to_openai(&messages[i]);
        api_messages.push(w);
        i = i + 1;
    }
    let ghost base = api_messages@;
    let ghost hist0 = tool_history@;
    append_all(&mut api_messages, tool_history);
    let use_tools = tools.len() > 0;
    let wire_tools: Option<Vec<OpenAITool>> = if use_tools {
        let mut ts: Vec<OpenAITool> = Vec::new();
        let mut k: usize = 0;
        while k < tools.len()
            invariant
                k <= tools@.len(),
                ts@.len() == k,
                forall|x: int| 0 <= x < k ==> ts@[x]@ == wire_of_def(tools@[x]@),
            decreases tools@.len() - k,
        {
            ts.push(def_to_wire(&tools[k]));
            k = k + 1;
        }
        Some(ts)
    } else {
        None
    };
    OpenAICompletionRequest {
        model: model.clone(),
        messages: api_messages,
        max_tokens: 4096,
        tools: wire_tools,
        tool_choice: if use_tools {
            Some("auto".to_owned())
        } else {
            None
        },
    }
}

/// Move every message of `src` onto the end of `dst`, keeping order.
fn append_all(dst: &mut Vec<OpenAIMessage>, src: Vec<OpenAIMessage>) -> (nothing: ())
    ensures
        final(dst)@ == old(dst)@ + src@,
{
    let ghost src0 = src@;
    let mut src = src;
    let mut rev: Vec<OpenAIMessage> = Vec::new();
    while src.len() > 0
        invariant
            rev@.len() + src@.len() == src0.len(),
            src@ == src0.subrange(0, src@.len() as int),
            forall|k: int| 0 <= k < rev@.len() ==> rev@[k] == src0[src0.len() - 1 - k],
        decreases src@.len(),
    {
        match src.pop() {
            Some(m) => {
                proof {
                    assert(src0.subrange(0, src@.len() as int + 1).last() == src0[src@.len() as int]);
                    assert(src0.subrange(0, src@.len() as int + 1).drop_last() =~= src0.subrange(
                        0,
                        src@.len() as int,
                    ));
                }
                rev.push(m);
            }
            None => {
                proof {
                    assert(false);
                }
            }
        }
    }
    while rev.len() > 0
        invariant
            rev@.len() <= src0.len(),
            dst@ == old(dst)@ + src0.subrange(0, src0.len() - rev@.len()),
            forall|k: int| 0 <= k < rev@.len() ==> rev@[k] == src0[src0.len() - 1 - k],
        decreases rev@.len(),
    {
        match rev.pop() {
            Some(m) => {
                proof {
                    assert(m == src0[src0.len() - rev@.len() - 1]);
                }
                dst.push(m);
                proof {
                    assert(dst@ =~= old(dst)@ + src0.subrange(0, src0.len() - rev@.len()));
                }
            }
            None => {
                proof {
                    assert(false);
                }
            }
        }
    }
    proof {
        assert(src0.subrange(0, src0.len() as int) =~= src0);
    }
}

/// The message of one completion choice, as the provider returns it.
#[derive(Debug)]
pub struct OpenAIResponseMessage {
    pub content: Option<String>,
    pub tool_calls: Option<Vec<OpenAIToolCall>>,
}

#[derive(Debug)]
pub struct OpenAIChoice {
    pub message: OpenAIResponseMessage,
    pub finish_reason: Option<String>,
}

#[derive(Debug)]
pub struct OpenAICompletionResponse {
    pub choices: Vec<OpenAIChoice>,
}

/// Whether a choice asks for tool use: its finish reason says so, or it
/// carries tool calls.
pub open spec fn choice_is_tool_use(ch: &OpenAIChoice) -> bool {
    (ch.finish_reason matches Some(fr) && fr@ == "tool_calls"@) || (ch.message.tool_calls
        matches Some(cs) && cs@.len() > 0)
}

/// Read a completion response into a unified reply: the first choice's text
/// (empty when absent) and its tool calls, each call's argument text parsed
/// with `{}` standing in for unreadable arguments. A response without choices
/// is an error.
pub fn parse_completion(resp: &OpenAICompletionResponse) -> (r: Result<AiResponse, String>)
    ensures
        match r {
            Err(e) => resp.choices@.len() == 0 && e@ == "OpenAI API returned no choices"@,
            Ok(a) => {
                &&& resp.choices@.len() > 0
                &&& a.content@ == (match resp.choices@[0].message.content {
                    Some(c) => c@,
                    None => Seq::<char>::empty(),
                })
                &&& calls_view(a.tool_calls@) == (match resp.choices@[0].message.tool_calls {
                    Some(cs) => calls_of_wire(wire_calls_view(cs@)),
                    None => Seq::<ToolCallData>::empty(),
                })
                &&& choice_is_tool_use(&resp.choices@[0]) ==> stop_is(a.stop_reason, "tool_use"@)
                &&& !choice_is_tool_use(&resp.choices@[0]) ==> stop_is(a.stop_reason, "end_turn"@)
                &&& a.wf()
            },
        },
{
    if resp.choices.len() == 0 {
        return Err("OpenAI API returned no choices".to_owned());
    }
    let choice = &resp.choices[0];
    let content: String = match &choice.message.content {
        Some(c) => c.clone(),
        None => String::new(),
    };
    let tool_calls: Vec<ToolCall> = match &choice.message.tool_calls {
        Some(cs) => {
            let mut out: Vec<ToolCall> = Vec::new();
            let mut i: usize = 0;
            while i < cs.len()
                invariant
                    i <= cs@.len(),
                    out@.len() == i,
                    forall|k: int| 0 <= k < i ==> out@[k]@ == call_of_wire(cs@[k]@),
                decreases cs@.len() - i,
            {
                out.push(parse_wire_call(&cs[i]));
                i = i + 1;
            }
            proof {
                assert(calls_view(out@) =~= calls_of_wire(wire_calls_view(cs@)));
            }
            out
        }
        None => Vec::new(),
    };
    let by_reason = match &choice.finish_reason {
        Some(fr) => str_eq(fr.as_str(), "tool_calls"),
        None => false,
    };
    let is_tool_use = by_reason || tool_calls.len() > 0;
    proof {
        assert(calls_view(tool_calls@).len() == tool_calls@.len());
        assert(is_tool_use == choice_is_tool_use(&resp.choices@[0]));
    }
    Ok(
        AiResponse {
            content,
            tool_calls,
            stop_reason: if is_tool_use {
                Some("tool_use".to_owned())
            } else {
                Some("end_turn".to_owned())
            },
        },
    )
}

/// Tool calls whose arguments are well-formed values.
pub open spec fn calls_wf(calls: Seq<ToolCallData>) -> bool {
    forall|i: int|
        0 <= i < calls.len() ==> crate::json_laws::wf_data(#[trigger] calls[i].arguments)
}

/// Putting a tool call on the wire and reading it back preserves its id, its
/// name, and its arguments: the argument text parses back to the same value.
pub proof fn lemma_wire_call_round_trip(tc: ToolCallData)
    requires
        crate::json_laws::wf_data(tc.arguments),
    ensures
        call_of_wire(wire_of_call(tc)) == tc,
{
    crate::json_laws::lemma_write_parse_round_trip(tc.arguments);
}

/// The canonical turn a wire message stands for, read back.
pub open spec fn message_of_openai(w: OpenAIMessageData) -> MessageData {
    MessageData {
        role: if w.role == "system"@ {
            MsgRole::System
        } else if w.role == "assistant"@ {
            MsgRole::Assistant
        } else if w.role == "tool"@ {
            MsgRole::Tool
        } else {
            MsgRole::User
        },
        content: match w.content {
            Some(c) => c,
            None => Seq::empty(),
        },
        tool_calls: match w.tool_calls {
            Some(cs) => calls_of_wire(cs),
            None => Seq::empty(),
        },
        tool_call_id: w.tool_call_id,
    }
}

/// The wire format round trip for the function-calling variant: a canonical
/// turn put on the wire reads back with its role, content, and tool calls —
/// ids, names, and arguments — intact. An assistant turn that announces tool
/// calls travels with no content slot, so such a turn must carry no content;
/// only tool turns carry a call id, and only assistant turns carry calls.
pub proof fn lemma_openai_message_round_trip(m: MessageData)
    requires
        calls_wf(m.tool_calls),
        m.role == MsgRole::Assistant && m.tool_calls.len() > 0 ==> m.content == Seq::<
            char,
        >::empty(),
        m.role != MsgRole::Assistant ==> m.tool_calls.len() == 0,
        m.role != MsgRole::Tool ==> m.tool_call_id is None,
    ensures
        message_of_openai(openai_of_message(m)) == m,
{
    reveal_strlit("system");
    reveal_strlit("user");
    reveal_strlit("assistant");
    reveal_strlit("tool");
    assert("system"@.len() == 6);
    assert("user"@.len() == 4);
    assert("assistant"@.len() == 9);
    assert("tool"@.len() == 4);
    assert("user"@[0] == 'u');
    assert("tool"@[0] == 't');
    assert("user"@ != "tool"@);
    let w = openai_of_message(m);
    if m.role == MsgRole::Assistant && m.tool_calls.len() > 0 {
        let back = calls_of_wire(wire_calls_of(m.tool_calls));
        assert forall|i: int| 0 <= i < m.tool_calls.len() implies back[i] == m.tool_calls[i] by {
            assert(wire_calls_of(m.tool_calls)[i] == wire_of_call(m.tool_calls[i]));
            lemma_wire_call_round_trip(m.tool_calls[i]);
        }
        assert(back =~= m.tool_calls);
    } else {
        assert(w.tool_calls is None);
        assert(m.tool_calls =~= Seq::<ToolCallData>::empty());
    }
}

/// Every round keeps the provider's correlation contract: one tool turn per
/// tool call, and the tool turns carry the calls' ids in the calls' order,
/// immediately after the assistant turn that announced the calls.
pub proof fn lemma_tool_round_correlation(
    calls: Seq<ToolCallData>,
    resps: Seq<ToolResponseData>,
    msgs: Seq<OpenAIMessageData>,
)
    requires
        resps.len() == calls.len(),
        forall|i: int| 0 <= i < resps.len() ==> resps[i].tool_call_id == calls[i].id,
        msgs == round_messages(calls, resps),
    ensures
        msgs.len() == 1 + calls.len(),
        msgs[0].tool_calls matches Some(ws) && ws.len() == calls.len() && forall|i: int|
            0 <= i < calls.len() ==> ws[i].id == calls[i].id,
        forall|i: int|
            0 <= i < calls.len() ==> msgs[i + 1].role == "tool"@ && msgs[i + 1].tool_call_id
                == Some(calls[i].id),
{
    assert forall|i: int| 0 <= i < calls.len() implies msgs[i + 1].role == "tool"@ && msgs[i
        + 1].tool_call_id == Some(calls[i].id) by {
        assert(msgs[i + 1] == tool_turn_msg(resps[i]));
    }
    let ws = msgs[0].tool_calls->0;
    assert forall|i: int| 0 <= i < calls.len() implies ws[i].id == calls[i].id by {
        assert(ws[i] == wire_of_call(calls[i]));
    }
}

} // verus!
