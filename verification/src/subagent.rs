//! Sub-agent lifecycle: labeled child executions with a strict status machine
//! and cancellation by id or by channel.

use vstd::prelude::*;

verus! {

broadcast use vstd::seq::group_seq_axioms, vstd::std_specs::vec::group_vec_axioms;

/// Where a sub-agent stands in its life.
#[derive(Debug, Clone, Copy, PartialEq, Eq, Structural)]
pub enum SubagentStatus {
    Pending,
    Running,
    Completed,
    Failed,
    Cancelled,
}

/// A status no sub-agent leaves.
pub open spec fn is_terminal(s: SubagentStatus) -> bool {
    s == SubagentStatus::Completed || s == SubagentStatus::Failed || s == SubagentStatus::Cancelled
}

/// The edges of the status machine: Pending starts Running or is Cancelled;
/// Running ends Completed, Failed, or Cancelled.
pub open spec fn allowed_transition(a: SubagentStatus, b: SubagentStatus) -> bool {
    (a == SubagentStatus::Pending && (b == SubagentStatus::Running || b
        == SubagentStatus::Cancelled)) || (a == SubagentStatus::Running && is_terminal(b))
}

/// How far along a status is; transitions only ever raise it.
pub open spec fn stage(s: SubagentStatus) -> int {
    if s == SubagentStatus::Pending {
        0
    } else if s == SubagentStatus::Running {
        1
    } else {
        2
    }
}

/// The status machine never moves backwards: every allowed transition raises
/// the stage, no terminal status has an outgoing edge, and no pair of
/// statuses allows both directions.
pub proof fn lemma_status_machine_forward(a: SubagentStatus, b: SubagentStatus)
    ensures
        allowed_transition(a, b) ==> stage(a) < stage(b),
        is_terminal(a) ==> !allowed_transition(a, b),
        allowed_transition(a, b) ==> !allowed_transition(b, a),
{
}

/// One registered sub-agent.
#[derive(Debug)]
pub struct Subagent {
    pub id: String,
    pub label: String,
    pub task: String,
    pub status: SubagentStatus,
    pub started_at: String,
    pub channel_id: i64,
}

pub struct SubagentData {
    pub id: Seq<char>,
    pub label: Seq<char>,
    pub task: Seq<char>,
    pub status: SubagentStatus,
    pub started_at: Seq<char>,
    pub channel_id: i64,
}

impl View for Subagent {
    type V = SubagentData;

    open spec fn view(&self) -> SubagentData {
        SubagentData {
            id: self.id@,
            label: self.label@,
            task: self.task@,
            status: self.status,
            started_at: self.started_at@,
            channel_id: self.channel_id,
        }
    }
}

pub open spec fn agents_view(s: Seq<Subagent>) -> Seq<SubagentData> {
    Seq::new(s.len(), |i: int| s[i]@)
}

/// The index of the agent with the given id, if one is tracked.
pub open spec fn find_agent(s: Seq<SubagentData>, id: Seq<char>) -> Option<int> {
    if exists|i: int| 0 <= i < s.len() && s[i].id == id {
        Some(choose|i: int| 0 <= i < s.len() && s[i].id == id)
    } else {
        None
    }
}

/// A status still worth cancelling.
pub open spec fn is_live(s: SubagentStatus) -> bool {
    s == SubagentStatus::Pending || s == SubagentStatus::Running
}

/// How many agents of the channel are live.
pub open spec fn live_count(s: Seq<SubagentData>, channel_id: i64) -> int
    decreases s.len(),
{
    if s.len() == 0 {
        0
    } else {
        (if s[0].channel_id == channel_id && is_live(s[0].status) {
            1int
        } else {
            0int
        }) + live_count(s.drop_first(), channel_id)
    }
}

/// The registry of sub-agents, newest last; ids are unique.
#[derive(Debug)]
pub struct SubagentManager {
    pub agents: Vec<Subagent>,
}

impl SubagentManager {
    /// No agent id occurs twice.
    pub open spec fn wf(&self) -> bool {
        forall|i: int, j: int|
            0 <= i < j < self.agents@.len() ==> agents_view(self.agents@)[i].id != agents_view(
                self.agents@,
            )[j].id
    }

    pub open spec fn view_seq(&self) -> Seq<SubagentData> {
        agents_view(self.agents@)
    }

    pub fn new() -> (r: SubagentManager)
        ensures
            r.wf(),
            r.view_seq().len() == 0,
    {
        SubagentManager { agents: Vec::new() }
    }

    fn position_of(&self, id: &str) -> (r: Option<usize>)
        ensures
            match r {
                Some(i) => i < self.view_seq().len() && self.view_seq()[i as int].id == id@,
                None => forall|i: int|
                    0 <= i < self.view_seq().len() ==> self.view_seq()[i].id != id@,
            },
    {
        let mut i: usize = 0;
        while i < self.agents.len()
            invariant
                i <= self.agents@.len(),
                forall|j: int| 0 <= j < i ==> agents_view(self.agents@)[j].id != id@,
            decreases self.agents@.len() - i,
        {
            if crate::text::str_eq(self.agents[i].id.as_str(), id) {
                return Some(i);
            }
            i = i + 1;
        }
        None
    }

    /// Track a new sub-agent in Pending. Refused when the id is taken.
    pub fn spawn(
        &mut self,
        id: String,
        label: String,
        task: String,
        started_at: String,
        channel_id: i64,
    ) -> (r: bool)
        requires
            old(self).wf(),
        ensures
            final(self).wf(),
            r == (forall|i: int|
                0 <= i < old(self).view_seq().len() ==> old(self).view_seq()[i].id != id@),
            r ==> final(self).view_seq() == old(self).view_seq().push(
                SubagentData {
                    id: id@,
                    label: label@,
                    task: task@,
                    status: SubagentStatus::Pending,
                    started_at: started_at@,
                    channel_id: channel_id,
                },
            ),
            !r ==> final(self).view_seq() == old(self).view_seq(),
    {
        if self.position_of(id.as_str()).is_some() {
            return false;
        }
        let agent = Subagent {
            id,
            label,
            task,
            status: SubagentStatus::Pending,
            started_at,
            channel_id,
        };
        self.agents.push(agent);
        proof {
            assert(agents_view(self.agents@) =~= agents_view(old(self).agents@).push(
                agents_view(self.agents@).last(),
            ));
        }
        true
    }

    /// Move one agent along the status machine. Succeeds exactly when the
    /// agent exists and the edge is allowed; everything else is untouched.
    fn transition(&mut self, id: &str, to: SubagentStatus) -> (r: bool)
        requires
            old(self).wf(),
        ensures
            final(self).wf(),
            final(self).view_seq().len() == old(self).view_seq().len(),
            r == (exists|i: int|
                0 <= i < old(self).view_seq().len() && old(self).view_seq()[i].id == id@
                    && allowed_transition(old(self).view_seq()[i].status, to)),
            forall|i: int|
                #![trigger old(self).view_seq()[i]]
                0 <= i < old(self).view_seq().len() ==> {
                    let was = old(self).view_seq()[i];
                    let now = final(self).view_seq()[i];
                    &&& now.id == was.id
                    &&& now.label == was.label
                    &&& now.task == was.task
                    &&& now.started_at == was.started_at
                    &&& now.channel_id == was.channel_id
                    &&& (now.status == was.status || (was.id == id@ && now.status == to
                        && allowed_transition(was.status, to)))
                },
    {
        match self.position_of(id) {
            None => false,
            Some(i) => {
                let ok = match (self.agents[i].status, to) {
                    (SubagentStatus::Pending, SubagentStatus::Running) => true,
                    (SubagentStatus::Pending, SubagentStatus::Cancelled) => true,
                    (SubagentStatus::Running, SubagentStatus::Completed) => true,
                    (SubagentStatus::Running, SubagentStatus::Failed) => true,
                    (SubagentStatus::Running, SubagentStatus::Cancelled) => true,
                    _ => false,
                };
                if !ok {
                    proof {
                        assert(forall|j: int|
                            0 <= j < old(self).view_seq().len() && old(self).view_seq()[j].id
                                == id@ ==> j == i as int);
                    }
                    return false;
                }
                let updated = Subagent {
                    id: self.agents[i].id.clone(),
                    label: self.agents[i].label.clone(),
                    task: self.agents[i].task.clone(),
                    status: to,
                    started_at: self.agents[i].started_at.clone(),
                    channel_id: self.agents[i].channel_id,
                };
                let ghost vpre = agents_view(self.agents@);
                self.agents.set(i, updated);
                proof {
                    assert(forall|j: int|
                        0 <= j < old(self).view_seq().len() && old(self).view_seq()[j].id == id@
                            ==> j == i as int);
                    assert forall|a: int|
                        0 <= a < vpre.len() implies agents_view(self.agents@)[a].id
                        == vpre[a].id by {}
                    assert forall|a: int, b: int|
                        0 <= a < b < agents_view(self.agents@).len() implies agents_view(
                        self.agents@,
                    )[a].id != agents_view(self.agents@)[b].id by {
                        assert(vpre[a].id != vpre[b].id);
                    }
                }
                true
            }
        }
    }

    /// Mark an agent Running once its first completion is issued.
    pub fn set_running(&mut self, id: &str) -> (r: bool)
        requires
            old(self).wf(),
        ensures
            final(self).wf(),
            r == (exists|i: int|
                0 <= i < old(self).view_seq().len() && old(self).view_seq()[i].id == id@ && old(
                    self,
                ).view_seq()[i].status == SubagentStatus::Pending),
            forall|i: int|
                #![trigger old(self).view_seq()[i]]
                0 <= i < old(self).view_seq().len() ==> {
                    let was = old(self).view_seq()[i];
                    let now = final(self).view_seq()[i];
                    &&& now.id == was.id && now.channel_id == was.channel_id && now.label
                        == was.label && now.task == was.task && now.started_at == was.started_at
                    &&& (now.status == was.status || allowed_transition(was.status, now.status))
                },
            final(self).view_seq().len() == old(self).view_seq().len(),
    {
        self.transition(id, SubagentStatus::Running)
    }

    /// Record a terminal outcome for a running agent. True exactly when the
    /// agent exists and is running.
    pub fn finish(&mut self, id: &str, success: bool) -> (r: bool)
        requires
            old(self).wf(),
        ensures
            final(self).wf(),
            final(self).view_seq().len() == old(self).view_seq().len(),
            r == (exists|i: int|
                0 <= i < old(self).view_seq().len() && old(self).view_seq()[i].id == id@ && old(
                    self,
                ).view_seq()[i].status == SubagentStatus::Running),
            forall|i: int|
                #![trigger old(self).view_seq()[i]]
                0 <= i < old(self).view_seq().len() ==> {
                    let was = old(self).view_seq()[i];
                    let now = final(self).view_seq()[i];
                    &&& now.id == was.id && now.channel_id == was.channel_id
                    &&& (now.status == was.status || allowed_transition(was.status, now.status))
                },
    {
        if success {
            self.transition(id, SubagentStatus::Completed)
        } else {
            self.transition(id, SubagentStatus::Failed)
        }
    }

    /// Cancel one agent. True exactly when it exists and is still live; a
    /// second cancel, or one on a finished agent, changes nothing and
    /// reports false.
    pub fn cancel(&mut self, id: &str) -> (r: bool)
        requires
            old(self).wf(),
        ensures
            final(self).wf(),
            final(self).view_seq().len() == old(self).view_seq().len(),
            r == (exists|i: int|
                0 <= i < old(self).view_seq().len() && old(self).view_seq()[i].id == id@
                    && is_live(old(self).view_seq()[i].status)),
            forall|i: int|
                #![trigger old(self).view_seq()[i]]
                0 <= i < old(self).view_seq().len() ==> {
                    let was = old(self).view_seq()[i];
                    let now = final(self).view_seq()[i];
                    &&& now.id == was.id && now.channel_id == was.channel_id && now.label
                        == was.label && now.task == was.task && now.started_at == was.started_at
                    &&& (now.status == was.status || (was.id == id@ && is_live(was.status)
                        && now.status == SubagentStatus::Cancelled))
                },
    {
        self.transition(id, SubagentStatus::Cancelled)
    }

    /// A snapshot of all agents of one channel, in registration order.
    pub fn list_by_channel(&self, channel_id: i64) -> (r: Vec<Subagent>)
        ensures
            agents_view(r@) == channel_snapshot(self.view_seq(), channel_id),
    {
        let ghost v0 = self.view_seq();
        let mut out: Vec<Subagent> = Vec::new();
        let mut i: usize = 0;
        proof {
            lemma_channel_snapshot_skip(v0, channel_id, 0);
            assert(agents_view(out@) + channel_snapshot(v0.skip(0), channel_id)
                =~= channel_snapshot(v0, channel_id));
        }
        while i < self.agents.len()
            invariant
                i <= v0.len(),
                v0 == self.view_seq(),
                v0.len() == self.agents@.len(),
                channel_snapshot(v0, channel_id) == agents_view(out@) + channel_snapshot(
                    v0.skip(i as int),
                    channel_id,
                ),
            decreases v0.len() - i,
        {
            proof {
                lemma_channel_snapshot_skip(v0, channel_id, i as int);
            }
            if self.agents[i].channel_id == channel_id {
                let copy = Subagent {
                    id: self.agents[i].id.clone(),
                    label: self.agents[i].label.clone(),
                    task: self.agents[i].task.clone(),
                    status: self.agents[i].status,
                    started_at: self.agents[i].started_at.clone(),
                    channel_id: self.agents[i].channel_id,
                };
                let ghost before = out@;
                out.push(copy);
                proof {
                    assert(agents_view(out@) =~= agents_view(before).push(v0[i as int]));
                    assert(agents_view(out@) + channel_snapshot(v0.skip(i as int + 1), channel_id)
                        =~= channel_snapshot(v0, channel_id));
                }
            }
            i = i + 1;
        }
        proof {
            lemma_channel_snapshot_skip(v0, channel_id, v0.len() as int);
            assert(agents_view(out@) =~= channel_snapshot(v0, channel_id));
        }
        out
    }

    /// Cancel every live agent of the channel; the count of agents that were
    /// live at the call comes back.
    pub fn cancel_all_for_channel(&mut self, channel_id: i64) -> (r: usize)
        requires
            old(self).wf(),
            old(self).view_seq().len() < usize::MAX,
        ensures
            final(self).wf(),
            final(self).view_seq().len() == old(self).view_seq().len(),
            r == live_count(old(self).view_seq(), channel_id),
            forall|i: int|
                #![trigger old(self).view_seq()[i]]
                0 <= i < old(self).view_seq().len() ==> {
                    let was = old(self).view_seq()[i];
                    let now = final(self).view_seq()[i];
                    &&& now.id == was.id && now.channel_id == was.channel_id && now.label
                        == was.label && now.task == was.task && now.started_at == was.started_at
                    &&& (if was.channel_id == channel_id && is_live(was.status) {
                        now.status == SubagentStatus::Cancelled
                    } else {
                        now.status == was.status
                    })
                },
    {
        let ghost v0 = old(self).view_seq();
        let mut count: usize = 0;
        let mut i: usize = 0;
        proof {
            lemma_live_count_skip(v0, channel_id, 0);
        }
        while i < self.agents.len()
            invariant
                i <= v0.len(),
                v0.len() < usize::MAX,
                self.agents@.len() == v0.len(),
                self.wf(),
                count + live_count(v0.skip(i as int), channel_id) == live_count(v0, channel_id),
                count <= i,
                forall|j: int|
                    #![trigger v0[j]]
                    0 <= j < v0.len() ==> {
                        let was = v0[j];
                        let now = self.view_seq()[j];
                        &&& now.id == was.id && now.channel_id == was.channel_id && now.label
                            == was.label && now.task == was.task && now.started_at
                            == was.started_at
                        &&& (if j < i && was.channel_id == channel_id && is_live(was.status) {
                            now.status == SubagentStatus::Cancelled
                        } else {
                            now.status == was.status
                        })
                    },
            decreases v0.len() - i,
        {
            proof {
                lemma_live_count_skip(v0, channel_id, i as int);
            }
            let live = match self.agents[i].status {
                SubagentStatus::Pending => true,
                SubagentStatus::Running => true,
                _ => false,
            };
            if self.agents[i].channel_id == channel_id && live {
                let updated = Subagent {
                    id: self.agents[i].id.clone(),
                    label: self.agents[i].label.clone(),
                    task: self.agents[i].task.clone(),
                    status: SubagentStatus::Cancelled,
                    started_at: self.agents[i].started_at.clone(),
                    channel_id: self.agents[i].channel_id,
                };
                let ghost vpre = agents_view(self.agents@);
                self.agents.set(i, updated);
                count = count + 1;
                proof {
                    assert forall|a: int|
                        0 <= a < vpre.len() implies agents_view(self.agents@)[a].id
                        == vpre[a].id by {}
                    assert forall|a: int, b: int|
                        0 <= a < b < agents_view(self.agents@).len() implies agents_view(
                        self.agents@,
                    )[a].id != agents_view(self.agents@)[b].id by {
                        assert(vpre[a].id != vpre[b].id);
                    }
                }
            }
            i = i + 1;
        }
        proof {
            lemma_live_count_skip(v0, channel_id, v0.len() as int);
        }
        count
    }
}

/// The agents of one channel, kept in order.
pub open spec fn channel_snapshot(s: Seq<SubagentData>, channel_id: i64) -> Seq<SubagentData>
    decreases s.len(),
{
    if s.len() == 0 {
        Seq::empty()
    } else if s[0].channel_id == channel_id {
        seq![s[0]] + channel_snapshot(s.drop_first(), channel_id)
    } else {
        channel_snapshot(s.drop_first(), channel_id)
    }
}

proof fn lemma_channel_snapshot_skip(s: Seq<SubagentData>, channel_id: i64, i: int)
    requires
        0 <= i <= s.len(),
    ensures
        i < s.len() && s[i].channel_id == channel_id ==> channel_snapshot(s.skip(i), channel_id)
            == seq![s[i]] + channel_snapshot(s.skip(i + 1), channel_id),
        i < s.len() && s[i].channel_id != channel_id ==> channel_snapshot(s.skip(i), channel_id)
            == channel_snapshot(s.skip(i + 1), channel_id),
        i == s.len() ==> channel_snapshot(s.skip(i), channel_id) == Seq::<SubagentData>::empty(),
{
    let t = s.skip(i);
    if i < s.len() {
        assert(t[0] == s[i]);
        assert(t.drop_first() =~= s.skip(i + 1));
    } else {
        assert(t =~= Seq::<SubagentData>::empty());
    }
}

proof fn lemma_live_count_skip(s: Seq<SubagentData>, channel_id: i64, i: int)
    requires
        0 <= i <= s.len(),
    ensures
        i < s.len() ==> live_count(s.skip(i), channel_id) == (if s[i].channel_id == channel_id
            && is_live(s[i].status) {
            1int
        } else {
            0int
        }) + live_count(s.skip(i + 1), channel_id),
        i == s.len() ==> live_count(s.skip(i), channel_id) == 0,
        live_count(s.skip(i), channel_id) >= 0,
        live_count(s.skip(i), channel_id) <= s.len() - i,
    decreases s.len() - i,
{
    let t = s.skip(i);
    if i < s.len() {
        assert(t[0] == s[i]);
        assert(t.drop_first() =~= s.skip(i + 1));
        lemma_live_count_skip(s, channel_id, i + 1);
    } else {
        assert(t =~= Seq::<SubagentData>::empty());
    }
}

} // verus!
