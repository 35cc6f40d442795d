//! The agent loop's decisions: what one completion or one batch of tool
//! results does to the conversation, which action comes next, and which
//! events are emitted. The waiting itself — provider calls, tool processes —
//! happens outside; this state machine only decides.

use vstd::prelude::*;
use crate::ai_types::{
    ToolCall, ToolCallData, calls_view, ToolResponse, ToolResponseData, responses_view, AiResponse,
    Message, MessageData, MsgRole, messages_view, stop_is,
};
use crate::tool_types::ToolResult;
use crate::broadcast::{BroadcastEvent, BroadcastEventData, events_view, tool_call_event_data};
use crate::json::json_clone;

verus! {

broadcast use vstd::seq::group_seq_axioms, vstd::std_specs::vec::group_vec_axioms;

/// A plain assistant text turn.
pub open spec fn assistant_text_turn(content: Seq<char>) -> MessageData {
    MessageData {
        role: MsgRole::Assistant,
        content: content,
        tool_calls: Seq::empty(),
        tool_call_id: None,
    }
}

/// The assistant turn that announces a round of tool calls.
pub open spec fn assistant_calls_turn(content: Seq<char>, calls: Seq<ToolCallData>) -> MessageData {
    MessageData { role: MsgRole::Assistant, content: content, tool_calls: calls, tool_call_id: None }
}

/// The tool turn that answers one call.
pub open spec fn tool_turn(resp: ToolResponseData) -> MessageData {
    MessageData {
        role: MsgRole::Tool,
        content: resp.content,
        tool_calls: Seq::empty(),
        tool_call_id: Some(resp.tool_call_id),
    }
}

/// The turns appended by one completed tool round: the assistant turn with
/// its calls, then one tool turn per response, in response order.
pub open spec fn round_turns(
    content: Seq<char>,
    calls: Seq<ToolCallData>,
    resps: Seq<ToolResponseData>,
) -> Seq<MessageData> {
    seq![assistant_calls_turn(content, calls)] + resps.map_values(
        |r: ToolResponseData| tool_turn(r),
    )
}

/// In every round with tool calls, the number of tool turns appended equals
/// the number of calls, and the tool turns carry the calls' ids in the calls'
/// order, directly after the assistant turn that announced them.
pub proof fn lemma_round_turn_correlation(
    content: Seq<char>,
    calls: Seq<ToolCallData>,
    resps: Seq<ToolResponseData>,
)
    requires
        resps.len() == calls.len(),
        forall|i: int| 0 <= i < resps.len() ==> resps[i].tool_call_id == calls[i].id,
    ensures
        round_turns(content, calls, resps).len() == 1 + calls.len(),
        round_turns(content, calls, resps)[0] == assistant_calls_turn(content, calls),
        forall|i: int|
            #![trigger calls[i]]
            0 <= i < calls.len() ==> {
                let turn = round_turns(content, calls, resps)[i + 1];
                turn.role == MsgRole::Tool && turn.tool_call_id == Some(calls[i].id)
            },
{
    let turns = round_turns(content, calls, resps);
    assert forall|i: int| #![trigger calls[i]] 0 <= i < calls.len() implies {
        let turn = turns[i + 1];
        turn.role == MsgRole::Tool && turn.tool_call_id == Some(calls[i].id)
    } by {
        assert(turns[i + 1] == tool_turn(resps[i]));
    }
}

/// Pair one round's results with its calls: the response for call `i` carries
/// call `i`'s id, the result's content, and an error mark when it failed.
pub fn pair_results(calls: &Vec<ToolCall>, outcomes: &Vec<ToolResult>) -> (r: Vec<ToolResponse>)
    requires
        calls@.len() == outcomes@.len(),
    ensures
        r@.len() == calls@.len(),
        forall|i: int|
            #![trigger responses_view(r@)[i]]
            0 <= i < calls@.len() ==> {
                let resp = responses_view(r@)[i];
                &&& resp.tool_call_id == calls@[i]@.id
                &&& resp.content == outcomes@[i]@.content
                &&& resp.is_error == !outcomes@[i]@.success
            },
{
    let mut out: Vec<ToolResponse> = Vec::new();
    let mut i: usize = 0;
    while i < calls.len()
        invariant
            i <= calls@.len(),
            calls@.len() == outcomes@.len(),
            out@.len() == i,
            forall|k: int|
                #![trigger out@[k]]
                0 <= k < i ==> out@[k].tool_call_id@ == calls@[k].id@ && out@[k].content@
                    == outcomes@[k].content@ && out@[k].is_error == !outcomes@[k].success,
        decreases calls@.len() - i,
    {
        out.push(
            ToolResponse {
                tool_call_id: calls[i].id.clone(),
                content: outcomes[i].content.clone(),
                is_error: !outcomes[i].success,
            },
        );
        i = i + 1;
    }
    proof {
        assert forall|k: int|
            #![trigger responses_view(out@)[k]]
            0 <= k < calls@.len() implies {
            let resp = responses_view(out@)[k];
            &&& resp.tool_call_id == calls@[k]@.id
            &&& resp.content == outcomes@[k]@.content
            &&& resp.is_error == !outcomes@[k]@.success
        } by {
            assert(out@[k].tool_call_id@ == calls@[k].id@);
        }
    }
    out
}

/// Append the turns of one completed tool round to the conversation.
pub fn append_round(
    conversation: &mut Vec<Message>,
    content: String,
    calls: Vec<ToolCall>,
    responses: &Vec<ToolResponse>,
) -> (nothing: ())
    ensures
        messages_view(final(conversation)@) == messages_view(old(conversation)@) + round_turns(
            content@,
            calls_view(calls@),
            responses_view(responses@),
        ),
{
    let ghost base = messages_view(old(conversation)@);
    let ghost cv = calls_view(calls@);
    let ghost c = content@;
    conversation.push(
        Message { role: MsgRole::Assistant, content, tool_calls: calls, tool_call_id: None },
    );
    let mut i: usize = 0;
    while i < responses.len()
        invariant
            i <= responses@.len(),
            conversation@.len() == base.len() + 1 + i,
            messages_view(conversation@).subrange(0, base.len() as int) == base,
            messages_view(conversation@)[base.len() as int] == assistant_calls_turn(c, cv),
            forall|k: int|
                0 <= k < i ==> messages_view(conversation@)[base.len() + 1 + k] == tool_turn(
                    responses@[k]@,
                ),
        decreases responses@.len() - i,
    {
        let ghost pre = conversation@;
        conversation.push(
            Message {
                role: MsgRole::Tool,
                content: responses[i].content.clone(),
                tool_calls: Vec::new(),
                tool_call_id: Some(responses[i].tool_call_id.clone()),
            },
        );
        i = i + 1;
        proof {
            assert forall|k: int|
                0 <= k < pre.len() implies messages_view(conversation@)[k] == messages_view(
                pre,
            )[k] by {}
            assert(calls_view(Seq::<ToolCall>::empty()) =~= Seq::<ToolCallData>::empty());
            assert(messages_view(conversation@).subrange(0, base.len() as int) =~= base);
        }
    }
    proof {
        assert(messages_view(conversation@) =~= base + round_turns(
            c,
            cv,
            responses_view(responses@),
        ));
    }
}

/// Rebuild a tool call with the same view.
pub fn clone_call(c: &ToolCall) -> (r: ToolCall)
    ensures
        r@ == c@,
{
    ToolCall { id: c.id.clone(), name: c.name.clone(), arguments: json_clone(&c.arguments) }
}

/// The loop's state between suspension points.
#[derive(Debug)]
pub struct AgentLoopState {
    pub conversation: Vec<Message>,
    /// The calls of the round in flight, in provider order.
    pub pending_calls: Vec<ToolCall>,
    pub round: u64,
    pub max_rounds: u64,
    pub cancelled: bool,
    pub channel_id: i64,
}

/// What the outside world reports to the loop.
#[derive(Debug)]
pub enum LoopEvent {
    Completion(AiResponse),
    ToolResults(Vec<ToolResponse>),
    Cancelled,
}

/// What the loop asks the outside world to do next.
#[derive(Debug)]
pub enum LoopAction {
    CallProvider,
    RunTools,
    Done(AiResponse),
}

/// One decision: the next action and the events to publish.
#[derive(Debug)]
pub struct StepOut {
    pub action: LoopAction,
    pub events: Vec<BroadcastEvent>,
}

/// The events announcing a round of tool calls, one per call, in call order.
pub open spec fn call_events(channel_id: i64, calls: Seq<ToolCallData>) -> Seq<BroadcastEventData> {
    calls.map_values(|c: ToolCallData| tool_call_event_data(channel_id, c.name, c.arguments))
}

/// Drive the loop one step. A cancelled loop decides nothing further: it
/// appends nothing, emits nothing, and finishes with an error reply.
pub fn loop_step(st: &mut AgentLoopState, event: LoopEvent) -> (out: StepOut)
    requires
        old(st).round < u64::MAX,
        event matches LoopEvent::ToolResults(rs) ==> rs@.len()
            == old(st).pending_calls@.len() && (forall|i: int|
            0 <= i < rs@.len() ==> rs@[i]@.tool_call_id == old(st).pending_calls@[i]@.id),
    ensures
        final(st).max_rounds == old(st).max_rounds,
        final(st).channel_id == old(st).channel_id,
        (old(st).cancelled || event is Cancelled) ==> {
            &&& out.events@.len() == 0
            &&& out.action matches LoopAction::Done(a) && a.content@ == Seq::<char>::empty()
                && stop_is(a.stop_reason, "error"@)
            &&& final(st).conversation == old(st).conversation
            &&& final(st).cancelled
        },
        !old(st).cancelled ==> (event matches LoopEvent::Completion(a) ==> {
            &&& stop_is(a.stop_reason, "error"@) ==> out.action == LoopAction::Done(a)
                && out.events@.len() == 0 && final(st).conversation == old(st).conversation
            &&& (!stop_is(a.stop_reason, "error"@) && !a.spec_is_tool_use()) ==> out.action
                == LoopAction::Done(a) && out.events@.len() == 0 && messages_view(
                final(st).conversation@,
            ) == messages_view(old(st).conversation@).push(assistant_text_turn(a.content@))
            &&& (!stop_is(a.stop_reason, "error"@) && a.spec_is_tool_use()) ==> {
                &&& out.action is RunTools
                &&& messages_view(final(st).conversation@) == messages_view(
                    old(st).conversation@,
                ).push(assistant_calls_turn(a.content@, calls_view(a.tool_calls@)))
                &&& calls_view(final(st).pending_calls@) == calls_view(a.tool_calls@)
                &&& events_view(out.events@) == call_events(
                    old(st).channel_id,
                    calls_view(a.tool_calls@),
                )
            }
        }),
        !old(st).cancelled ==> (event matches LoopEvent::ToolResults(rs) ==> {
            &&& messages_view(final(st).conversation@) == messages_view(old(st).conversation@)
                + rs@.map_values(|x: ToolResponse| tool_turn(x@))
            &&& out.events@.len() == 0
            &&& final(st).round == old(st).round + 1
            &&& (old(st).round + 1 >= old(st).max_rounds ==> (out.action
                matches LoopAction::Done(a) && a.content@ == "max tool rounds reached"@ && stop_is(
                a.stop_reason,
                "end_turn"@,
            )))
            &&& (old(st).round + 1 < old(st).max_rounds ==> out.action
                == LoopAction::CallProvider)
        }),
{
    if st.cancelled || matches!(event, LoopEvent::Cancelled) {
        st.cancelled = true;
        return StepOut {
            action: LoopAction::Done(
                AiResponse {
                    content: String::new(),
                    tool_calls: Vec::new(),
                    stop_reason: Some("error".to_owned()),
                },
            ),
            events: Vec::new(),
        };
    }
    match event {
        LoopEvent::Cancelled => {
            proof {
                assert(false);
            }
            StepOut { action: LoopAction::CallProvider, events: Vec::new() }
        }
        LoopEvent::Completion(a) => {
            let is_error = match &a.stop_reason {
                Some(s) => crate::text::str_eq(s.as_str(), "error"),
                None => false,
            };
            if is_error {
                return StepOut { action: LoopAction::Done(a), events: Vec::new() };
            }
            if !a.is_tool_use() {
                let ghost pre = messages_view(st.conversation@);
                st.conversation.push(
                    Message {
                        role: MsgRole::Assistant,
                        content: a.content.clone(),
                        tool_calls: Vec::new(),
                        tool_call_id: None,
                    },
                );
                proof {
                    assert(calls_view(Seq::<ToolCall>::empty()) =~= Seq::<ToolCallData>::empty());
                    assert(messages_view(st.conversation@) =~= pre.push(
                        assistant_text_turn(a.content@),
                    ));
                }
                return StepOut { action: LoopAction::Done(a), events: Vec::new() };
            }
            // tool use: record the calls, announce them, and append the turn
            let mut pending: Vec<ToolCall> = Vec::new();
            let mut events: Vec<BroadcastEvent> = Vec::new();
            let mut i: usize = 0;
            while i < a.tool_calls.len()
                invariant
                    i <= a.tool_calls@.len(),
                    pending@.len() == i,
                    events@.len() == i,
                    forall|k: int| 0 <= k < i ==> pending@[k]@ == a.tool_calls@[k]@,
                    forall|k: int|
                        0 <= k < i ==> events@[k]@ == tool_call_event_data(
                            st.channel_id,
                            a.tool_calls@[k]@.name,
                            a.tool_calls@[k]@.arguments,
                        ),
                    st.channel_id == old(st).channel_id,
                decreases a.tool_calls@.len() - i,
            {
                let c = clone_call(&a.tool_calls[i]);
                let params = json_clone(&c.arguments);
                let ev = crate::broadcast::make_tool_call_event(st.channel_id, &c.name, params);
                pending.push(c);
                events.push(ev);
                i = i + 1;
            }
            let ghost pre = messages_view(st.conversation@);
            let content = a.content;
            let tool_calls = a.tool_calls;
            let ghost cv = calls_view(tool_calls@);
            let ghost cc = content@;
            st.conversation.push(
                Message {
                    role: MsgRole::Assistant,
                    content,
                    tool_calls,
                    tool_call_id: None,
                },
            );
            st.pending_calls = pending;
            proof {
                assert(messages_view(st.conversation@) =~= pre.push(assistant_calls_turn(cc, cv)));
                assert(calls_view(st.pending_calls@) =~= cv);
                assert(events_view(events@) =~= call_events(old(st).channel_id, cv));
            }
            StepOut { action: LoopAction::RunTools, events }
        }
        LoopEvent::ToolResults(rs) => {
            let ghost pre = messages_view(st.conversation@);
            let mut i: usize = 0;
            while i < rs.len()
                invariant
                    i <= rs@.len(),
                    st.conversation@.len() == pre.len() + i,
                    messages_view(st.conversation@).subrange(0, pre.len() as int) == pre,
                    forall|k: int|
                        0 <= k < i ==> messages_view(st.conversation@)[pre.len() + k] == tool_turn(
                            rs@[k]@,
                        ),
                    st.round == old(st).round,
                    st.max_rounds == old(st).max_rounds,
                    st.channel_id == old(st).channel_id,
                    st.cancelled == old(st).cancelled,
                decreases rs@.len() - i,
            {
                st.conversation.push(
                    Message {
                        role: MsgRole::Tool,
                        content: rs[i].content.clone(),
                        tool_calls: Vec::new(),
                        tool_call_id: Some(rs[i].tool_call_id.clone()),
                    },
                );
                i = i + 1;
                proof {
                    assert(calls_view(Seq::<ToolCall>::empty()) =~= Seq::<ToolCallData>::empty());
                    assert(messages_view(st.conversation@).subrange(0, pre.len() as int) =~= pre);
                }
            }
            proof {
                assert(messages_view(st.conversation@) =~= pre + rs@.map_values(
                    |x: ToolResponse| tool_turn(x@),
                ));
            }
            st.round = st.round + 1;
            if st.round >= st.max_rounds {
                StepOut {
                    action: LoopAction::Done(
                        AiResponse {
                            content: "max tool rounds reached".to_owned(),
                            tool_calls: Vec::new(),
                            stop_reason: Some("end_turn".to_owned()),
                        },
                    ),
                    events: Vec::new(),
                }
            } else {
                StepOut { action: LoopAction::CallProvider, events: Vec::new() }
            }
        }
    }
}

} // verus!
