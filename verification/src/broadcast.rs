//! The event bus: named JSON events fanned out to subscribers, each with a
//! bounded queue that drops its oldest entry under overflow.

use vstd::prelude::*;
use crate::json::{JsonVal, JsonData, lemma_field_views_elts};

verus! {

broadcast use vstd::seq::group_seq_axioms, vstd::std_specs::vec::group_vec_axioms;

/// One event on the bus: a dotted name and a JSON payload.
#[derive(Debug)]
pub struct BroadcastEvent {
    pub event: String,
    pub data: JsonVal,
}

pub struct BroadcastEventData {
    pub event: Seq<char>,
    pub data: JsonData,
}

impl View for BroadcastEvent {
    type V = BroadcastEventData;

    open spec fn view(&self) -> BroadcastEventData {
        BroadcastEventData { event: self.event@, data: self.data@ }
    }
}

pub open spec fn events_view(s: Seq<BroadcastEvent>) -> Seq<BroadcastEventData> {
    Seq::new(s.len(), |i: int| s[i]@)
}

/// One subscriber: an id, a bounded FIFO queue, and a drop counter.
#[derive(Debug)]
pub struct Subscriber {
    pub client_id: u64,
    pub queue: Vec<BroadcastEvent>,
    pub capacity: usize,
    pub dropped: u64,
}

pub struct SubscriberData {
    pub client_id: u64,
    pub queue: Seq<BroadcastEventData>,
    pub capacity: usize,
    pub dropped: u64,
}

impl View for Subscriber {
    type V = SubscriberData;

    open spec fn view(&self) -> SubscriberData {
        SubscriberData {
            client_id: self.client_id,
            queue: events_view(self.queue@),
            capacity: self.capacity,
            dropped: self.dropped,
        }
    }
}

pub open spec fn subs_view(s: Seq<Subscriber>) -> Seq<SubscriberData> {
    Seq::new(s.len(), |i: int| s[i]@)
}

/// A drop counter one higher, held at the ceiling.
pub open spec fn bump(d: u64) -> u64 {
    if d < u64::MAX {
        (d + 1) as u64
    } else {
        d
    }
}

/// What one publication does to one subscriber's queue: enqueue, or drop the
/// oldest entry first when the queue is full.
pub open spec fn publish_one(q: Seq<BroadcastEventData>, capacity: usize, e: BroadcastEventData) -> Seq<
    BroadcastEventData,
> {
    if q.len() < capacity {
        q.push(e)
    } else {
        q.drop_first().push(e)
    }
}

/// The fan-out bus.
#[derive(Debug)]
pub struct Broadcaster {
    pub subscribers: Vec<Subscriber>,
    pub next_client_id: u64,
}

impl Broadcaster {
    /// Queues never exceed their capacity, capacities are positive, ids are
    /// below the next id to hand out, and no id occurs twice.
    pub open spec fn wf(&self) -> bool {
        &&& forall|i: int|
            0 <= i < self.subs().len() ==> (#[trigger] self.subs()[i]).queue.len()
                <= self.subs()[i].capacity && self.subs()[i].capacity >= 1 && self.subs()[
                i
            ].client_id < self.next_client_id
        &&& forall|i: int, j: int|
            0 <= i < j < self.subs().len() ==> self.subs()[i].client_id != self.subs()[
                j
            ].client_id
    }

    pub open spec fn subs(&self) -> Seq<SubscriberData> {
        subs_view(self.subscribers@)
    }

    pub fn new() -> (r: Broadcaster)
        ensures
            r.wf(),
            r.subs().len() == 0,
    {
        Broadcaster { subscribers: Vec::new(), next_client_id: 1 }
    }

    /// Register a subscriber with a bounded queue; its fresh id comes back.
    pub fn subscribe(&mut self, capacity: usize) -> (r: u64)
        requires
            old(self).wf(),
            capacity >= 1,
            old(self).next_client_id < u64::MAX,
        ensures
            final(self).wf(),
            final(self).subs() == old(self).subs().push(
                SubscriberData {
                    client_id: r,
                    queue: Seq::empty(),
                    capacity: capacity,
                    dropped: 0,
                },
            ),
            forall|i: int| 0 <= i < old(self).subs().len() ==> old(self).subs()[i].client_id != r,
    {
        let id = self.next_client_id;
        self.next_client_id = self.next_client_id + 1;
        self.subscribers.push(
            Subscriber { client_id: id, queue: Vec::new(), capacity, dropped: 0 },
        );
        proof {
            assert(events_view(Seq::<BroadcastEvent>::empty()) =~= Seq::<
                BroadcastEventData,
            >::empty());
            assert(self.subs() =~= old(self).subs().push(
                SubscriberData { client_id: id, queue: Seq::empty(), capacity: capacity, dropped: 0 },
            ));
        }
        id
    }

    fn position_of(&self, client_id: u64) -> (r: Option<usize>)
        ensures
            match r {
                Some(i) => i < self.subs().len() && self.subs()[i as int].client_id == client_id,
                None => forall|i: int|
                    0 <= i < self.subs().len() ==> self.subs()[i].client_id != client_id,
            },
    {
        let mut i: usize = 0;
        while i < self.subscribers.len()
            invariant
                i <= self.subscribers@.len(),
                forall|j: int| 0 <= j < i ==> subs_view(self.subscribers@)[j].client_id != client_id,
            decreases self.subscribers@.len() - i,
        {
            if self.subscribers[i].client_id == client_id {
                return Some(i);
            }
            i = i + 1;
        }
        None
    }

    /// Remove a subscriber. True exactly when it was registered.
    pub fn unsubscribe(&mut self, client_id: u64) -> (r: bool)
        requires
            old(self).wf(),
        ensures
            final(self).wf(),
            r == (exists|i: int|
                0 <= i < old(self).subs().len() && old(self).subs()[i].client_id == client_id),
            !r ==> final(self).subs() == old(self).subs(),
            r ==> exists|i: int|
                0 <= i < old(self).subs().len() && old(self).subs()[i].client_id == client_id
                    && final(self).subs() == old(self).subs().remove(i),
    {
        match self.position_of(client_id) {
            None => false,
            Some(i) => {
                let ghost vpre = self.subs();
                self.subscribers.remove(i);
                proof {
                    assert(self.subs() =~= vpre.remove(i as int));
                }
                true
            }
        }
    }

    /// Publish one event: every subscriber's queue takes it, the oldest entry
    /// making room when the queue is full, and only then does that
    /// subscriber's drop counter rise. No subscriber affects another.
    pub fn broadcast(&mut self, e: &BroadcastEvent) -> (nothing: ())
        requires
            old(self).wf(),
        ensures
            final(self).wf(),
            final(self).subs().len() == old(self).subs().len(),
            forall|i: int|
                #![trigger final(self).subs()[i]]
                0 <= i < old(self).subs().len() ==> {
                    let was = old(self).subs()[i];
                    let now = final(self).subs()[i];
                    &&& now.client_id == was.client_id
                    &&& now.capacity == was.capacity
                    &&& now.queue == publish_one(was.queue, was.capacity, e@)
                    &&& now.dropped == (if was.queue.len() < was.capacity {
                        was.dropped
                    } else {
                        bump(was.dropped)
                    })
                },
    {
        let ghost v0 = old(self).subs();
        let n = self.subscribers.len();
        let mut i: usize = 0;
        while i < n
            invariant
                i <= n,
                n == self.subscribers@.len(),
                self.subs().len() == v0.len(),
                self.next_client_id == old(self).next_client_id,
                forall|j: int|
                    0 <= j < v0.len() ==> (#[trigger] v0[j]).capacity >= 1 && v0[j].queue.len()
                        <= v0[j].capacity && v0[j].client_id < old(self).next_client_id,
                forall|a: int, b: int|
                    0 <= a < b < v0.len() ==> v0[a].client_id != v0[b].client_id,
                forall|j: int|
                    #![trigger v0[j]]
                    0 <= j < v0.len() ==> {
                        let was = v0[j];
                        let now = self.subs()[j];
                        &&& now.client_id == was.client_id
                        &&& now.capacity == was.capacity
                        &&& (j < i ==> now.queue == publish_one(was.queue, was.capacity, e@)
                            && now.dropped == (if was.queue.len() < was.capacity {
                            was.dropped
                        } else {
                            bump(was.dropped)
                        }))
                        &&& (j >= i ==> now == was)
                    },
            decreases n - i,
        {
            proof {
                assert(self.subs()[i as int] == v0[i as int]);
            }
            let cap = self.subscribers[i].capacity;
            let qlen = self.subscribers[i].queue.len();
            let ghost waspre = self.subs()[i as int];
            let ghost pre_vec = self.subscribers@;
            let mut sub = self.subscribers.remove(i);
            let event_copy = BroadcastEvent {
                event: e.event.clone(),
                data: crate::json::json_clone(&e.data),
            };
            if qlen < cap {
                sub.queue.push(event_copy);
            } else {
                sub.queue.remove(0);
                sub.queue.push(event_copy);
                sub.dropped = if sub.dropped < u64::MAX {
                    sub.dropped + 1
                } else {
                    sub.dropped
                };
                proof {
                    assert(events_view(sub.queue@) =~= waspre.queue.drop_first().push(e@));
                }
            }
            self.subscribers.insert(i, sub);
            proof {
                assert(self.subscribers@ =~= pre_vec.update(
                    i as int,
                    self.subscribers@[i as int],
                ));
                assert(events_view(self.subscribers@[i as int].queue@) =~= publish_one(
                    waspre.queue,
                    waspre.capacity,
                    e@,
                ));
                assert(self.subs()[i as int].queue == publish_one(
                    v0[i as int].queue,
                    v0[i as int].capacity,
                    e@,
                ));
                assert(self.subs()[i as int].client_id == v0[i as int].client_id);
                assert(self.subs()[i as int].capacity == v0[i as int].capacity);
                assert(self.subs()[i as int].dropped == (if v0[i as int].queue.len() < v0[
                    i as int
                ].capacity {
                    v0[i as int].dropped
                } else {
                    bump(v0[i as int].dropped)
                }));
                assert forall|j: int|
                    0 <= j < v0.len() && j != i as int implies self.subs()[j] == subs_view(
                    pre_vec,
                )[j] by {}
            }
            i = i + 1;
        }
        proof {
            assert forall|a: int|
                0 <= a < self.subs().len() implies ((#[trigger] self.subs()[a]).queue.len()
                <= self.subs()[a].capacity && self.subs()[a].capacity >= 1 && self.subs()[
                a
            ].client_id < self.next_client_id) by {
                assert(self.subs()[a].queue == publish_one(v0[a].queue, v0[a].capacity, e@));
            }
            assert forall|a: int, b: int|
                0 <= a < b < self.subs().len() implies self.subs()[a].client_id != self.subs()[
                b
            ].client_id by {
                assert(v0[a].client_id != v0[b].client_id);
            }
        }
    }

    /// Pop the oldest queued event for a subscriber, in publish order.
    pub fn recv(&mut self, client_id: u64) -> (r: Option<BroadcastEvent>)
        requires
            old(self).wf(),
        ensures
            final(self).wf(),
            final(self).subs().len() == old(self).subs().len(),
            forall|i: int|
                #![trigger final(self).subs()[i]]
                0 <= i < old(self).subs().len() ==> {
                    let was = old(self).subs()[i];
                    let now = final(self).subs()[i];
                    &&& now.client_id == was.client_id
                    &&& now.capacity == was.capacity
                    &&& now.dropped == was.dropped
                    &&& (was.client_id == client_id && was.queue.len() > 0 ==> now.queue
                        == was.queue.drop_first())
                    &&& (!(was.client_id == client_id && was.queue.len() > 0) ==> now.queue
                        == was.queue)
                },
            match r {
                Some(ev) => exists|i: int|
                    0 <= i < old(self).subs().len() && old(self).subs()[i].client_id == client_id
                        && old(self).subs()[i].queue.len() > 0 && ev@ == old(self).subs()[
                        i
                    ].queue[0],
                None => forall|i: int|
                    0 <= i < old(self).subs().len() ==> !(old(self).subs()[i].client_id
                        == client_id && old(self).subs()[i].queue.len() > 0),
            },
    {
        match self.position_of(client_id) {
            None => None,
            Some(i) => {
                if self.subscribers[i].queue.len() == 0 {
                    proof {
                        assert(forall|j: int|
                            0 <= j < old(self).subs().len() && old(self).subs()[j].client_id
                                == client_id ==> j == i as int);
                    }
                    return None;
                }
                let ghost waspre = self.subs()[i as int];
                let ghost pre_vec = self.subscribers@;
                let mut sub = self.subscribers.remove(i);
                let ev = sub.queue.remove(0);
                proof {
                    assert(events_view(sub.queue@) =~= waspre.queue.drop_first());
                }
                self.subscribers.insert(i, sub);
                proof {
                    assert(self.subscribers@ =~= pre_vec.update(
                        i as int,
                        self.subscribers@[i as int],
                    ));
                    assert(forall|j: int|
                        0 <= j < old(self).subs().len() && old(self).subs()[j].client_id
                            == client_id ==> j == i as int);
                    assert(self.subs()[i as int].queue == waspre.queue.drop_first());
                    assert forall|a: int|
                        0 <= a < self.subs().len() implies ((#[trigger] self.subs()[
                        a
                    ]).queue.len() <= self.subs()[a].capacity && self.subs()[a].capacity >= 1
                        && self.subs()[a].client_id < self.next_client_id) by {
                        assert(old(self).wf());
                        assert(old(self).subs()[a].queue.len() <= old(self).subs()[a].capacity);
                    }
                    assert forall|a: int, b: int|
                        0 <= a < b < self.subs().len() implies self.subs()[a].client_id
                        != self.subs()[b].client_id by {
                        assert(old(self).subs()[a].client_id != old(self).subs()[b].client_id);
                    }
                }
                Some(ev)
            }
        }
    }

    /// The drop counter of a subscriber.
    pub fn drop_count(&self, client_id: u64) -> (r: Option<u64>)
        ensures
            match r {
                Some(d) => exists|i: int|
                    0 <= i < self.subs().len() && self.subs()[i].client_id == client_id
                        && self.subs()[i].dropped == d,
                None => forall|i: int|
                    0 <= i < self.subs().len() ==> self.subs()[i].client_id != client_id,
            },
    {
        match self.position_of(client_id) {
            None => None,
            Some(i) => Some(self.subscribers[i].dropped),
        }
    }
}

/// The `agent.tool_call` event for one requested call.
pub open spec fn tool_call_event_data(
    channel_id: i64,
    tool_name: Seq<char>,
    parameters: JsonData,
) -> BroadcastEventData {
    BroadcastEventData {
        event: "agent.tool_call"@,
        data: JsonData::Obj(
            seq![
                ("channel_id"@, JsonData::Int(channel_id as int)),
                ("tool_name"@, JsonData::Str(tool_name)),
                ("parameters"@, parameters),
            ],
        ),
    }
}

pub fn make_tool_call_event(channel_id: i64, tool_name: &String, parameters: JsonVal) -> (r:
    BroadcastEvent)
    ensures
        r@ == tool_call_event_data(channel_id, tool_name@, parameters@),
{
    let mut fields: Vec<(String, JsonVal)> = Vec::new();
    fields.push(("channel_id".to_owned(), JsonVal::Int(channel_id)));
    fields.push(("tool_name".to_owned(), JsonVal::Str(tool_name.clone())));
    fields.push(("parameters".to_owned(), parameters));
    proof {
        lemma_field_views_elts(fields@);
        assert(crate::json::field_views_of(fields@) =~= seq![
            ("channel_id"@, JsonData::Int(channel_id as int)),
            ("tool_name"@, JsonData::Str(tool_name@)),
            ("parameters"@, fields@[2].1@),
        ]);
    }
    BroadcastEvent { event: "agent.tool_call".to_owned(), data: JsonVal::Obj(fields) }
}

/// The `tool.result` event for one finished call.
pub open spec fn tool_result_event_data(
    channel_id: i64,
    tool_name: Seq<char>,
    success: bool,
    duration_ms: i64,
    content: Seq<char>,
) -> BroadcastEventData {
    BroadcastEventData {
        event: "tool.result"@,
        data: JsonData::Obj(
            seq![
                ("channel_id"@, JsonData::Int(channel_id as int)),
                ("tool_name"@, JsonData::Str(tool_name)),
                ("success"@, JsonData::Bool(success)),
                ("duration_ms"@, JsonData::Int(duration_ms as int)),
                ("content"@, JsonData::Str(content)),
            ],
        ),
    }
}

pub fn make_tool_result_event(
    channel_id: i64,
    tool_name: &String,
    success: bool,
    duration_ms: i64,
    content: &String,
) -> (r: BroadcastEvent)
    ensures
        r@ == tool_result_event_data(channel_id, tool_name@, success, duration_ms, content@),
{
    let mut fields: Vec<(String, JsonVal)> = Vec::new();
    fields.push(("channel_id".to_owned(), JsonVal::Int(channel_id)));
    fields.push(("tool_name".to_owned(), JsonVal::Str(tool_name.clone())));
    fields.push(("success".to_owned(), JsonVal::Bool(success)));
    fields.push(("duration_ms".to_owned(), JsonVal::Int(duration_ms)));
    fields.push(("content".to_owned(), JsonVal::Str(content.clone())));
    proof {
        lemma_field_views_elts(fields@);
        assert(crate::json::field_views_of(fields@) =~= seq![
            ("channel_id"@, JsonData::Int(channel_id as int)),
            ("tool_name"@, JsonData::Str(tool_name@)),
            ("success"@, JsonData::Bool(success)),
            ("duration_ms"@, JsonData::Int(duration_ms as int)),
            ("content"@, JsonData::Str(content@)),
        ]);
    }
    BroadcastEvent { event: "tool.result".to_owned(), data: JsonVal::Obj(fields) }
}

/// The `execution.task_completed` event.
pub open spec fn task_completed_event_data(channel_id: i64, status: Seq<char>) -> BroadcastEventData {
    BroadcastEventData {
        event: "execution.task_completed"@,
        data: JsonData::Obj(
            seq![
                ("channel_id"@, JsonData::Int(channel_id as int)),
                ("status"@, JsonData::Str(status)),
            ],
        ),
    }
}

pub fn make_task_completed_event(channel_id: i64, status: &str) -> (r: BroadcastEvent)
    ensures
        r@ == task_completed_event_data(channel_id, status@),
{
    let mut fields: Vec<(String, JsonVal)> = Vec::new();
    fields.push(("channel_id".to_owned(), JsonVal::Int(channel_id)));
    fields.push(("status".to_owned(), JsonVal::Str(status.to_owned())));
    proof {
        lemma_field_views_elts(fields@);
        assert(crate::json::field_views_of(fields@) =~= seq![
            ("channel_id"@, JsonData::Int(channel_id as int)),
            ("status"@, JsonData::Str(status@)),
        ]);
    }
    BroadcastEvent { event: "execution.task_completed".to_owned(), data: JsonVal::Obj(fields) }
}

/// The `execution.task_started` event.
pub open spec fn task_started_event_data(
    channel_id: i64,
    task_type: Seq<char>,
    name: Seq<char>,
) -> BroadcastEventData {
    BroadcastEventData {
        event: "execution.task_started"@,
        data: JsonData::Obj(
            seq![
                ("channel_id"@, JsonData::Int(channel_id as int)),
                ("type"@, JsonData::Str(task_type)),
                ("name"@, JsonData::Str(name)),
            ],
        ),
    }
}

pub fn make_task_started_event(channel_id: i64, task_type: &str, name: &str) -> (r: BroadcastEvent)
    ensures
        r@ == task_started_event_data(channel_id, task_type@, name@),
{
    let mut fields: Vec<(String, JsonVal)> = Vec::new();
    fields.push(("channel_id".to_owned(), JsonVal::Int(channel_id)));
    fields.push(("type".to_owned(), JsonVal::Str(task_type.to_owned())));
    fields.push(("name".to_owned(), JsonVal::Str(name.to_owned())));
    proof {
        lemma_field_views_elts(fields@);
        assert(crate::json::field_views_of(fields@) =~= seq![
            ("channel_id"@, JsonData::Int(channel_id as int)),
            ("type"@, JsonData::Str(task_type@)),
            ("name"@, JsonData::Str(name@)),
        ]);
    }
    BroadcastEvent { event: "execution.task_started".to_owned(), data: JsonVal::Obj(fields) }
}

/// The `agent.mode_change` event; it travels to subscribers exactly as built.
pub open spec fn mode_change_event_data(
    channel_id: i64,
    mode: Seq<char>,
    label: Seq<char>,
    reason: Option<Seq<char>>,
) -> BroadcastEventData {
    BroadcastEventData {
        event: "agent.mode_change"@,
        data: JsonData::Obj(
            seq![
                ("channel_id"@, JsonData::Int(channel_id as int)),
                ("mode"@, JsonData::Str(mode)),
                ("label"@, JsonData::Str(label)),
                (
                    "reason"@,
                    match reason {
                        Some(x) => JsonData::Str(x),
                        None => JsonData::Null,
                    },
                ),
            ],
        ),
    }
}

pub fn make_mode_change_event(
    channel_id: i64,
    mode: &str,
    label: &str,
    reason: Option<&str>,
) -> (r: BroadcastEvent)
    ensures
        r@ == mode_change_event_data(
            channel_id,
            mode@,
            label@,
            match reason {
                Some(x) => Some(x@),
                None => None,
            },
        ),
{
    let mut fields: Vec<(String, JsonVal)> = Vec::new();
    fields.push(("channel_id".to_owned(), JsonVal::Int(channel_id)));
    fields.push(("mode".to_owned(), JsonVal::Str(mode.to_owned())));
    fields.push(("label".to_owned(), JsonVal::Str(label.to_owned())));
    match reason {
        Some(x) => {
            fields.push(("reason".to_owned(), JsonVal::Str(x.to_owned())));
        }
        None => {
            fields.push(("reason".to_owned(), JsonVal::Null));
        }
    }
    proof {
        lemma_field_views_elts(fields@);
        assert(crate::json::field_views_of(fields@) =~= (match mode_change_event_data(
            channel_id,
            mode@,
            label@,
            match reason {
                Some(x) => Some(x@),
                None => None,
            },
        ).data {
            JsonData::Obj(fs) => fs,
            _ => Seq::empty(),
        }));
    }
    BroadcastEvent { event: "agent.mode_change".to_owned(), data: JsonVal::Obj(fields) }
}

/// The queue bound a subscriber gets when the caller names none.
pub fn default_queue_capacity() -> (r: usize)
    ensures
        r == 256,
{
    256
}

/// A `channel.started` or `channel.stopped` event.
pub open spec fn channel_event_data(
    name_tag: Seq<char>,
    channel_id: i64,
    channel_type: Seq<char>,
    name: Seq<char>,
) -> BroadcastEventData {
    BroadcastEventData {
        event: name_tag,
        data: JsonData::Obj(
            seq![
                ("channel_id"@, JsonData::Int(channel_id as int)),
                ("channel_type"@, JsonData::Str(channel_type)),
                ("name"@, JsonData::Str(name)),
            ],
        ),
    }
}

pub fn make_channel_event(started: bool, channel_id: i64, channel_type: &str, name: &str) -> (r:
    BroadcastEvent)
    ensures
        r@ == channel_event_data(
            if started {
                "channel.started"@
            } else {
                "channel.stopped"@
            },
            channel_id,
            channel_type@,
            name@,
        ),
{
    let mut fields: Vec<(String, JsonVal)> = Vec::new();
    fields.push(("channel_id".to_owned(), JsonVal::Int(channel_id)));
    fields.push(("channel_type".to_owned(), JsonVal::Str(channel_type.to_owned())));
    fields.push(("name".to_owned(), JsonVal::Str(name.to_owned())));
    proof {
        lemma_field_views_elts(fields@);
        assert(crate::json::field_views_of(fields@) =~= seq![
            ("channel_id"@, JsonData::Int(channel_id as int)),
            ("channel_type"@, JsonData::Str(channel_type@)),
            ("name"@, JsonData::Str(name@)),
        ]);
    }
    BroadcastEvent {
        event: if started {
            "channel.started".to_owned()
        } else {
            "channel.stopped".to_owned()
        },
        data: JsonVal::Obj(fields),
    }
}

/// A queue after a whole series of publications.
pub open spec fn publish_seq(
    q: Seq<BroadcastEventData>,
    capacity: usize,
    events: Seq<BroadcastEventData>,
) -> Seq<BroadcastEventData>
    decreases events.len(),
{
    if events.len() == 0 {
        q
    } else {
        publish_seq(publish_one(q, capacity, events[0]), capacity, events.drop_first())
    }
}

/// A subscriber whose queue has room for a whole series of publications
/// receives every one of them, in publish order, after what it already held.
pub proof fn lemma_no_drop_delivery(
    q: Seq<BroadcastEventData>,
    capacity: usize,
    events: Seq<BroadcastEventData>,
)
    requires
        q.len() + events.len() <= capacity,
    ensures
        publish_seq(q, capacity, events) == q + events,
    decreases events.len(),
{
    if events.len() == 0 {
        assert(q + events =~= q);
    } else {
        assert(publish_one(q, capacity, events[0]) == q.push(events[0]));
        lemma_no_drop_delivery(q.push(events[0]), capacity, events.drop_first());
        assert(q.push(events[0]) + events.drop_first() =~= q + events);
    }
}

} // verus!
