//! The dispatcher's decisions: the normalized message it receives, the
//! admission policy that serializes executions per channel, and the
//! conversation it hands the agent loop.

use vstd::prelude::*;
use crate::ai_types::{Message, MessageData, MsgRole, messages_view};
use crate::agent_loop::clone_call;
use crate::ai_types::ToolCall;

verus! {

broadcast use vstd::seq::group_seq_axioms, vstd::std_specs::vec::group_vec_axioms;

/// One channel-agnostic incoming message.
#[derive(Debug)]
pub struct NormalizedMessage {
    pub channel_id: i64,
    pub channel_type: String,
    /// Opaque conversation key on the transport.
    pub chat_id: String,
    pub user_id: String,
    pub user_name: String,
    pub text: String,
    pub message_id: Option<String>,
    pub session_mode: Option<String>,
}

/// What one dispatch returned.
#[derive(Debug)]
pub struct DispatchResult {
    pub response: String,
    pub error: Option<String>,
    /// Set when the execution was cancelled; the response is empty then.
    pub cancelled: bool,
}

/// What the per-channel policy decides for a new request.
#[derive(Debug, PartialEq, Eq, Structural)]
pub enum StartOutcome {
    /// Nothing runs on the channel: start now.
    Start,
    /// One runs and nothing waits: wait for it.
    Queue,
    /// One runs and one waits: refuse.
    Busy,
}

/// One channel's execution state: whether something runs, whether something
/// waits behind it.
#[derive(Debug)]
pub struct ChannelState {
    pub channel_id: i64,
    pub running: bool,
    pub queued: bool,
}

pub open spec fn states_view(s: Seq<ChannelState>) -> Seq<(i64, bool, bool)> {
    Seq::new(s.len(), |i: int| (s[i].channel_id, s[i].running, s[i].queued))
}

/// Tracks in-flight executions per channel. Per channel at most one runs and
/// at most one waits; a third request is refused.
#[derive(Debug)]
pub struct ExecutionTracker {
    pub states: Vec<ChannelState>,
}

impl ExecutionTracker {
    /// One entry per channel, and nothing waits behind an idle channel.
    pub open spec fn wf(&self) -> bool {
        &&& forall|i: int, j: int|
            0 <= i < j < self.states@.len() ==> (#[trigger] self.states@[i]).channel_id != (
            #[trigger] self.states@[j]).channel_id
        &&& forall|i: int|
            0 <= i < self.states@.len() ==> ((#[trigger] self.states@[i]).queued
                ==> self.states@[i].running)
    }

    /// The state of a channel, as the tracker holds it.
    pub open spec fn state_of(&self, channel_id: i64) -> (bool, bool) {
        if exists|i: int|
            0 <= i < self.states@.len() && (#[trigger] self.states@[i]).channel_id == channel_id {
            let i = choose|i: int|
                0 <= i < self.states@.len() && (#[trigger] self.states@[i]).channel_id
                    == channel_id;
            (self.states@[i].running, self.states@[i].queued)
        } else {
            (false, false)
        }
    }

    pub fn new() -> (r: ExecutionTracker)
        ensures
            r.wf(),
            r.states@.len() == 0,
    {
        ExecutionTracker { states: Vec::new() }
    }

    fn position_of(&self, channel_id: i64) -> (r: Option<usize>)
        ensures
            match r {
                Some(i) => i < self.states@.len() && self.states@[i as int].channel_id
                    == channel_id,
                None => forall|i: int|
                    0 <= i < self.states@.len() ==> (#[trigger] self.states@[i]).channel_id
                        != channel_id,
            },
    {
        let mut i: usize = 0;
        while i < self.states.len()
            invariant
                i <= self.states@.len(),
                forall|j: int| 0 <= j < i ==> (#[trigger] self.states@[j]).channel_id != channel_id,
            decreases self.states@.len() - i,
        {
            if self.states[i].channel_id == channel_id {
                return Some(i);
            }
            i = i + 1;
        }
        None
    }

    /// Take in a new request for the channel: start on an idle channel, wait
    /// behind a lone running execution, and refuse when one already waits.
    pub fn try_begin(&mut self, channel_id: i64) -> (r: StartOutcome)
        requires
            old(self).wf(),
        ensures
            final(self).wf(),
            old(self).state_of(channel_id) == (false, false) ==> r == StartOutcome::Start,
            old(self).state_of(channel_id) == (true, false) ==> r == StartOutcome::Queue,
            old(self).state_of(channel_id) == (true, true) ==> r == StartOutcome::Busy,
            final(self).state_of(channel_id) == (match r {
                StartOutcome::Start => (true, false),
                StartOutcome::Queue => (true, true),
                StartOutcome::Busy => (true, true),
            }),
    {
        match self.position_of(channel_id) {
            None => {
                let ghost pre = self.states@;
                self.states.push(ChannelState { channel_id, running: true, queued: false });
                proof {
                    let n = pre.len() as int;
                    assert(self.states@[n].channel_id == channel_id);
                    assert forall|i: int, j: int|
                        0 <= i < j < self.states@.len() implies (
                    #[trigger] self.states@[i]).channel_id != (
                    #[trigger] self.states@[j]).channel_id by {
                        if j < n {
                            assert(pre[i].channel_id != pre[j].channel_id);
                        }
                    }
                    let w = choose|i: int|
                        0 <= i < self.states@.len() && (#[trigger] self.states@[i]).channel_id
                            == channel_id;
                    assert(w == n);
                }
                StartOutcome::Start
            }
            Some(i) => {
                proof {
                    assert(forall|j: int|
                        0 <= j < old(self).states@.len() && (
                        #[trigger] old(self).states@[j]).channel_id == channel_id ==> j
                            == i as int);
                }
                let running = self.states[i].running;
                let queued = self.states[i].queued;
                if !running {
                    let ghost pre = self.states@;
                    self.states.set(
                        i,
                        ChannelState { channel_id, running: true, queued: false },
                    );
                    proof {
                        lemma_tracker_update(pre, self.states@, i as int, channel_id);
                    }
                    StartOutcome::Start
                } else if !queued {
                    let ghost pre = self.states@;
                    self.states.set(i, ChannelState { channel_id, running: true, queued: true });
                    proof {
                        lemma_tracker_update(pre, self.states@, i as int, channel_id);
                    }
                    StartOutcome::Queue
                } else {
                    proof {
                        let w = choose|j: int|
                            0 <= j < self.states@.len() && (#[trigger] self.states@[j]).channel_id
                                == channel_id;
                        assert(w == i as int);
                    }
                    StartOutcome::Busy
                }
            }
        }
    }

    /// Finish the running execution: a waiting one starts, an idle channel
    /// stays idle. True when a waiting execution now runs.
    pub fn finish(&mut self, channel_id: i64) -> (r: bool)
        requires
            old(self).wf(),
        ensures
            final(self).wf(),
            r == (old(self).state_of(channel_id) == (true, true)),
            final(self).state_of(channel_id) == (
            if old(self).state_of(channel_id) == (true, true) {
                (true, false)
            } else {
                (false, false)
            }),
    {
        match self.position_of(channel_id) {
            None => {
                proof {
                    assert(!exists|i: int|
                        0 <= i < self.states@.len() && (#[trigger] self.states@[i]).channel_id
                            == channel_id);
                }
                false
            }
            Some(i) => {
                proof {
                    assert(forall|j: int|
                        0 <= j < old(self).states@.len() && (
                        #[trigger] old(self).states@[j]).channel_id == channel_id ==> j
                            == i as int);
                    let w = choose|j: int|
                        0 <= j < self.states@.len() && (#[trigger] self.states@[j]).channel_id
                            == channel_id;
                    assert(w == i as int);
                }
                let was_running = self.states[i].running;
                let was_queued = self.states[i].queued;
                let starts_next = was_running && was_queued;
                let ghost pre = self.states@;
                self.states.set(
                    i,
                    ChannelState { channel_id, running: starts_next, queued: false },
                );
                proof {
                    lemma_tracker_update(pre, self.states@, i as int, channel_id);
                }
                starts_next
            }
        }
    }
}

proof fn lemma_tracker_update(
    pre: Seq<ChannelState>,
    post: Seq<ChannelState>,
    i: int,
    channel_id: i64,
)
    requires
        0 <= i < pre.len(),
        post.len() == pre.len(),
        pre[i].channel_id == channel_id,
        post[i].channel_id == channel_id,
        post[i].queued ==> post[i].running,
        forall|j: int| 0 <= j < pre.len() && j != i ==> post[j] == pre[j],
        forall|a: int, b: int|
            0 <= a < b < pre.len() ==> (#[trigger] pre[a]).channel_id != (
            #[trigger] pre[b]).channel_id,
        forall|a: int| 0 <= a < pre.len() ==> ((#[trigger] pre[a]).queued ==> pre[a].running),
    ensures
        forall|a: int, b: int|
            0 <= a < b < post.len() ==> (#[trigger] post[a]).channel_id != (
            #[trigger] post[b]).channel_id,
        forall|a: int| 0 <= a < post.len() ==> ((#[trigger] post[a]).queued ==> post[a].running),
        (exists|j: int| 0 <= j < post.len() && (#[trigger] post[j]).channel_id == channel_id)
            && (choose|j: int|
            0 <= j < post.len() && (#[trigger] post[j]).channel_id == channel_id) == i,
{
    assert forall|a: int, b: int|
        0 <= a < b < post.len() implies (#[trigger] post[a]).channel_id != (
    #[trigger] post[b]).channel_id by {
        assert(pre[a].channel_id != pre[b].channel_id);
    }
    assert(post[i].channel_id == channel_id);
    let w = choose|j: int| 0 <= j < post.len() && (#[trigger] post[j]).channel_id == channel_id;
    if w != i {
        assert(post[w].channel_id == post[i].channel_id);
        if w < i {
            assert(pre[w].channel_id != pre[i].channel_id);
        } else {
            assert(pre[i].channel_id != pre[w].channel_id);
        }
        assert(false);
    }
}

/// Rebuild a canonical turn with the same view.
pub fn clone_message(m: &Message) -> (r: Message)
    ensures
        r@ == m@,
{
    let mut calls: Vec<ToolCall> = Vec::new();
    let mut i: usize = 0;
    while i < m.tool_calls.len()
        invariant
            i <= m.tool_calls@.len(),
            calls@.len() == i,
            forall|k: int| #![trigger calls@[k]] 0 <= k < i ==> calls@[k]@ == m.tool_calls@[k]@,
        decreases m.tool_calls@.len() - i,
    {
        let c = clone_call(&m.tool_calls[i]);
        calls.push(c);
        i = i + 1;
    }
    proof {
        assert(crate::ai_types::calls_view(calls@) =~= crate::ai_types::calls_view(
            m.tool_calls@,
        ));
    }
    Message {
        role: m.role,
        content: m.content.clone(),
        tool_calls: calls,
        tool_call_id: match &m.tool_call_id {
            Some(t) => Some(t.clone()),
            None => None,
        },
    }
}

/// The conversation for one dispatch: the system prompt, the newest `window`
/// stored turns in order, and the new user turn.
pub open spec fn conversation_shape(
    system_prompt: Seq<char>,
    history: Seq<MessageData>,
    user_text: Seq<char>,
    window: int,
) -> Seq<MessageData> {
    seq![
        MessageData {
            role: MsgRole::System,
            content: system_prompt,
            tool_calls: Seq::<crate::ai_types::ToolCallData>::empty(),
            tool_call_id: None,
        },
    ] + history.skip(
        if history.len() <= window {
            0
        } else {
            history.len() - window
        },
    ) + seq![
        MessageData {
            role: MsgRole::User,
            content: user_text,
            tool_calls: Seq::<crate::ai_types::ToolCallData>::empty(),
            tool_call_id: None,
        },
    ]
}

/// Build the conversation for one dispatch: the system prompt, the newest
/// `window` stored turns in order, and the new user turn.
pub fn build_conversation(
    system_prompt: String,
    history: &Vec<Message>,
    user_text: String,
    window: usize,
) -> (r: Vec<Message>)
    ensures
        messages_view(r@) == conversation_shape(
            system_prompt@,
            messages_view(history@),
            user_text@,
            window as int,
        ),
{
    let ghost hv = messages_view(history@);
    let mut out: Vec<Message> = Vec::new();
    out.push(
        Message {
            role: MsgRole::System,
            content: system_prompt,
            tool_calls: Vec::new(),
            tool_call_id: None,
        },
    );
    let start: usize = if history.len() <= window {
        0
    } else {
        history.len() - window
    };
    let mut i: usize = start;
    while i < history.len()
        invariant
            start <= i <= history@.len(),
            hv == messages_view(history@),
            out@.len() == 1 + i - start,
            messages_view(out@)[0] == (MessageData {
                role: MsgRole::System,
                content: out@[0].content@,
                tool_calls: crate::ai_types::calls_view(out@[0].tool_calls@),
                tool_call_id: None,
            }),
            out@[0].role == MsgRole::System,
            out@[0].content@ == system_prompt@,
            out@[0].tool_calls@.len() == 0,
            out@[0].tool_call_id is None,
            forall|k: int|
                #![trigger hv[start + k]]
                0 <= k < i - start ==> messages_view(out@)[1 + k] == hv[start + k],
        decreases history@.len() - i,
    {
        let m = clone_message(&history[i]);
        out.push(m);
        i = i + 1;
    }
    let ghost sys_content = out@[0].content@;
    let ghost pre2 = out@;
    out.push(
        Message { role: MsgRole::User, content: user_text, tool_calls: Vec::new(), tool_call_id: None },
    );
    proof {
        assert forall|k: int|
            0 <= k < pre2.len() implies messages_view(out@)[k] == messages_view(pre2)[k] by {}
        assert(messages_view(out@)[pre2.len() as int] == out@[pre2.len() as int]@);
        assert(crate::ai_types::calls_view(pre2[0].tool_calls@) =~= Seq::<
            crate::ai_types::ToolCallData,
        >::empty());
        assert(crate::ai_types::calls_view(out@[pre2.len() as int].tool_calls@) =~= Seq::<
            crate::ai_types::ToolCallData,
        >::empty());
        assert(messages_view(out@).len() == 2 + (hv.len() - start));
        assert(messages_view(out@)[0] == (MessageData {
            role: MsgRole::System,
            content: sys_content,
            tool_calls: Seq::empty(),
            tool_call_id: None,
        }));
        assert(messages_view(out@)[pre2.len() as int] == (MessageData {
            role: MsgRole::User,
            content: user_text@,
            tool_calls: Seq::empty(),
            tool_call_id: None,
        }));
        assert forall|k: int|
            #![trigger hv[start + k]]
            0 <= k < hv.len() - start implies messages_view(out@)[1 + k] == hv[start + k] by {
            assert(messages_view(pre2)[1 + k] == hv[start + k]);
        }
        let ghost target = conversation_shape(sys_content, hv, user_text@, window as int);
        assert(hv.skip(start as int) == hv.skip(
            if hv.len() <= window as int {
                0
            } else {
                hv.len() - window as int
            },
        ));
        assert(messages_view(out@).len() == target.len());
        assert forall|idx: int|
            0 <= idx < target.len() implies messages_view(out@)[idx] == target[idx] by {
            if idx == 0 {
            } else if idx <= hv.len() - start {
                assert(target[idx] == hv.skip(start as int)[idx - 1]);
                assert(hv.skip(start as int)[idx - 1] == hv[start + (idx - 1)]);
                assert(messages_view(out@)[1 + (idx - 1)] == hv[start + (idx - 1)]);
            } else {
                assert(idx == pre2.len());
            }
        }
        assert(messages_view(out@) =~= target);
    }
    out
}

} // verus!
