//! The tool registry: named definitions, unique by name, with lookup,
//! enumeration, and permission filtering.

use vstd::prelude::*;
use crate::tool_types::{ToolDefinition, ToolDefinitionData, ToolGroup, clone_definition};
use crate::text::str_eq;

verus! {

broadcast use vstd::seq::group_seq_axioms, vstd::std_specs::vec::group_vec_axioms;

pub open spec fn defs_view(s: Seq<ToolDefinition>) -> Seq<ToolDefinitionData> {
    Seq::new(s.len(), |i: int| s[i]@)
}

/// The definitions whose group the permission set allows, in order.
pub open spec fn permitted(s: Seq<ToolDefinitionData>, perms: Seq<ToolGroup>) -> Seq<
    ToolDefinitionData,
>
    decreases s.len(),
{
    if s.len() == 0 {
        Seq::empty()
    } else if perms.contains(s[0].group) {
        seq![s[0]] + permitted(s.drop_first(), perms)
    } else {
        permitted(s.drop_first(), perms)
    }
}

proof fn lemma_permitted_skip(s: Seq<ToolDefinitionData>, perms: Seq<ToolGroup>, i: int)
    requires
        0 <= i <= s.len(),
    ensures
        i < s.len() && perms.contains(s[i].group) ==> permitted(s.skip(i), perms) == seq![s[i]]
            + permitted(s.skip(i + 1), perms),
        i < s.len() && !perms.contains(s[i].group) ==> permitted(s.skip(i), perms) == permitted(
            s.skip(i + 1),
            perms,
        ),
        i == s.len() ==> permitted(s.skip(i), perms) == Seq::<ToolDefinitionData>::empty(),
{
    let t = s.skip(i);
    if i < s.len() {
        assert(t[0] == s[i]);
        assert(t.drop_first() =~= s.skip(i + 1));
    } else {
        assert(t =~= Seq::<ToolDefinitionData>::empty());
    }
}

/// The catalogue of registered tools. Names are unique; registering a name
/// again replaces its definition.
#[derive(Debug)]
pub struct ToolRegistry {
    pub defs: Vec<ToolDefinition>,
}

impl ToolRegistry {
    pub open spec fn view_seq(&self) -> Seq<ToolDefinitionData> {
        defs_view(self.defs@)
    }

    pub open spec fn wf(&self) -> bool {
        forall|i: int, j: int|
            0 <= i < j < self.view_seq().len() ==> self.view_seq()[i].name
                != self.view_seq()[j].name
    }

    pub fn new() -> (r: ToolRegistry)
        ensures
            r.wf(),
            r.view_seq().len() == 0,
    {
        ToolRegistry { defs: Vec::new() }
    }

    fn position_of(&self, name: &str) -> (r: Option<usize>)
        ensures
            match r {
                Some(i) => i < self.view_seq().len() && self.view_seq()[i as int].name == name@,
                None => forall|i: int|
                    0 <= i < self.view_seq().len() ==> self.view_seq()[i].name != name@,
            },
    {
        let mut i: usize = 0;
        while i < self.defs.len()
            invariant
                i <= self.defs@.len(),
                forall|j: int| 0 <= j < i ==> defs_view(self.defs@)[j].name != name@,
            decreases self.defs@.len() - i,
        {
            if str_eq(self.defs[i].name.as_str(), name) {
                return Some(i);
            }
            i = i + 1;
        }
        None
    }

    /// Register a tool: a new name is appended, a known name is replaced.
    pub fn register(&mut self, def: ToolDefinition) -> (nothing: ())
        requires
            old(self).wf(),
        ensures
            final(self).wf(),
            (exists|i: int|
                0 <= i < old(self).view_seq().len() && old(self).view_seq()[i].name == def@.name)
                ==> exists|i: int|
                0 <= i < old(self).view_seq().len() && old(self).view_seq()[i].name == def@.name
                    && final(self).view_seq() == old(self).view_seq().update(i, def@),
            (forall|i: int|
                0 <= i < old(self).view_seq().len() ==> old(self).view_seq()[i].name != def@.name)
                ==> final(self).view_seq() == old(self).view_seq().push(def@),
    {
        let ghost v0 = self.view_seq();
        match self.position_of(def.name.as_str()) {
            Some(i) => {
                let ghost dv = def@;
                self.defs.set(i, def);
                proof {
                    assert(self.view_seq() =~= v0.update(i as int, dv));
                    assert forall|a: int, b: int|
                        0 <= a < b < self.view_seq().len() implies self.view_seq()[a].name
                        != self.view_seq()[b].name by {
                        assert(v0[a].name != v0[b].name);
                    }
                }
            }
            None => {
                let ghost dv = def@;
                self.defs.push(def);
                proof {
                    assert(self.view_seq() =~= v0.push(dv));
                    assert forall|a: int, b: int|
                        0 <= a < b < self.view_seq().len() implies self.view_seq()[a].name
                        != self.view_seq()[b].name by {
                        if b < v0.len() {
                            assert(v0[a].name != v0[b].name);
                        }
                    }
                }
            }
        }
    }

    /// The definition registered under `name`, when there is one.
    pub fn get(&self, name: &str) -> (r: Option<&ToolDefinition>)
        ensures
            match r {
                Some(d) => exists|i: int|
                    0 <= i < self.view_seq().len() && self.view_seq()[i] == d@ && d@.name == name@,
                None => forall|i: int|
                    0 <= i < self.view_seq().len() ==> self.view_seq()[i].name != name@,
            },
    {
        match self.position_of(name) {
            Some(i) => Some(&self.defs[i]),
            None => None,
        }
    }

    /// Every registered definition, in registration order.
    pub fn list(&self) -> (r: Vec<ToolDefinition>)
        ensures
            defs_view(r@) == self.view_seq(),
    {
        let mut out: Vec<ToolDefinition> = Vec::new();
        let mut i: usize = 0;
        while i < self.defs.len()
            invariant
                i <= self.defs@.len(),
                out@.len() == i,
                forall|k: int| #![trigger out@[k]] 0 <= k < i ==> out@[k]@ == self.defs@[k]@,
            decreases self.defs@.len() - i,
        {
            let d = clone_definition(&self.defs[i]);
            out.push(d);
            i = i + 1;
        }
        proof {
            assert(defs_view(out@) =~= self.view_seq());
        }
        out
    }

    /// The definitions whose group the permission set allows, in order.
    pub fn list_for_permissions(&self, perms: &Vec<ToolGroup>) -> (r: Vec<ToolDefinition>)
        ensures
            defs_view(r@) == permitted(self.view_seq(), perms@),
    {
        let ghost v0 = self.view_seq();
        let mut out: Vec<ToolDefinition> = Vec::new();
        let mut i: usize = 0;
        proof {
            lemma_permitted_skip(v0, perms@, 0);
            assert(defs_view(out@) + permitted(v0.skip(0), perms@) =~= permitted(v0, perms@));
        }
        while i < self.defs.len()
            invariant
                i <= v0.len(),
                v0 == self.view_seq(),
                v0.len() == self.defs@.len(),
                permitted(v0, perms@) == defs_view(out@) + permitted(v0.skip(i as int), perms@),
            decreases v0.len() - i,
        {
            proof {
                lemma_permitted_skip(v0, perms@, i as int);
            }
            let mut in_perms = false;
            let mut k: usize = 0;
            while k < perms.len()
                invariant
                    k <= perms@.len(),
                    i < v0.len(),
                    v0 == self.view_seq(),
                    v0.len() == self.defs@.len(),
                    in_perms == (exists|m: int| 0 <= m < k && perms@[m] == v0[i as int].group),
                decreases perms@.len() - k,
            {
                if perms[k] == self.defs[i].group {
                    in_perms = true;
                }
                k = k + 1;
            }
            proof {
                assert(in_perms == perms@.contains(v0[i as int].group));
            }
            if in_perms {
                let d = clone_definition(&self.defs[i]);
                let ghost before = out@;
                out.push(d);
                proof {
                    assert(defs_view(out@) =~= defs_view(before).push(v0[i as int]));
                    assert(defs_view(out@) + permitted(v0.skip(i as int + 1), perms@)
                        =~= permitted(v0, perms@));
                }
            }
            i = i + 1;
        }
        proof {
            lemma_permitted_skip(v0, perms@, v0.len() as int);
            assert(defs_view(out@) =~= permitted(v0, perms@));
        }
        out
    }
}

} // verus!
