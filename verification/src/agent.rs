//! The agents the runtime can start: their descriptors, by normalized id.
//! Starting an agent (its task) is the application's; the registry decides
//! which agents exist and how they are described.

use vstd::prelude::*;
use crate::table::Table;
use crate::text::{
    owned, join2, lower, trim, lower_seq, trim_seq, str_lt, seq_lt, lemma_seq_lt_total, lemma_seq_lt_transitive,
};

verus! {

pub const AGENT_ID_GRAPH_SUMMARISER: &'static str = "agent:graph_summariser";
pub const AGENT_ID_TAG_SUGGESTER: &'static str = "agent:tag_suggester";

#[derive(Debug, Clone, Copy, PartialEq, Eq, Structural)]
pub enum AgentCapability {
    ReadNavigationSignals,
    SuggestNodeTags,
    SummarizeGraph,
}

/// The signal topics an agent can be woken by.
#[derive(Debug, Clone, Copy, PartialEq, Eq, Structural)]
pub enum SignalTopic {
    Navigation,
    Lifecycle,
    RegistryEvent,
    InputEvent,
}

#[derive(Debug, Clone, Copy, PartialEq, Eq, Structural)]
pub enum AgentSchedule {
    OnDemand,
    Triggered(SignalTopic),
}

#[derive(Debug)]
pub struct AgentDescriptor {
    pub id: String,
    pub display_name: String,
    pub capabilities: Vec<AgentCapability>,
    pub schedule: AgentSchedule,
}

impl View for AgentDescriptor {
    type V = (Seq<char>, Seq<char>, Seq<AgentCapability>, AgentSchedule);

    open spec fn view(&self) -> Self::V {
        (self.id@, self.display_name@, self.capabilities@, self.schedule)
    }
}

impl AgentDescriptor {
    /// A copy with the same id, name, capabilities and schedule.
    pub fn duplicate(&self) -> (r: AgentDescriptor)
        ensures
            r@ == self@,
    {
        let mut capabilities: Vec<AgentCapability> = Vec::new();
        let mut i: usize = 0;
        while i < self.capabilities.len()
            invariant
                i <= self.capabilities@.len(),
                capabilities@ == self.capabilities@.subrange(0, i as int),
            decreases self.capabilities@.len() - i,
        {
            capabilities.push(self.capabilities[i]);
            i = i + 1;
        }
        assert(self.capabilities@.subrange(0, self.capabilities@.len() as int) == self.capabilities@);
        AgentDescriptor {
            id: owned(self.id.as_str()),
            display_name: owned(self.display_name.as_str()),
            capabilities,
            schedule: self.schedule,
        }
    }
}

/// The form an agent id is registered and looked up in.
pub open spec fn agent_key(id: Seq<char>) -> Seq<char> {
    lower_seq(trim_seq(id))
}

/// Descriptor ids in strictly ascending order.
pub open spec fn ids_ascending(s: Seq<AgentDescriptor>) -> bool {
    forall|i: int, j: int| 0 <= i < j < s.len() ==> seq_lt(#[trigger] s[i].id@, #[trigger] s[j].id@)
}

pub struct AgentRegistry {
    registered: Table<AgentDescriptor>,
}

impl AgentRegistry {
    #[verifier::type_invariant]
    spec fn inv(self) -> bool {
        forall|k: Seq<char>| self.registered@.dom().contains(k) ==> agent_key(#[trigger] self.registered@[k].id@) == k
    }

    /// The descriptors, by normalized id.
    pub closed spec fn agents(&self) -> Map<Seq<char>, AgentDescriptor> {
        self.registered@
    }

    pub fn new() -> (r: Self)
        ensures
            r.agents() == Map::<Seq<char>, AgentDescriptor>::empty(),
    {
        AgentRegistry { registered: Table::new() }
    }

    /// Registers a descriptor under its normalized id; refuses an id that is
    /// taken, changing nothing.
    pub fn register(&mut self, descriptor: AgentDescriptor) -> (r: Result<(), String>)
        ensures
            old(self).agents().dom().contains(agent_key(descriptor.id@)) ==> (r matches Err(m)
                && m@ == "agent already registered: "@ + agent_key(descriptor.id@)
                && final(self).agents() == old(self).agents()),
            !old(self).agents().dom().contains(agent_key(descriptor.id@)) ==> (r is Ok
                && final(self).agents() == old(self).agents().insert(agent_key(descriptor.id@), descriptor)),
    {
        proof {
            use_type_invariant(&*self);
        }
        let key = lower(trim(descriptor.id.as_str()).as_str());
        if self.registered.contains(key.as_str()) {
            return Err(join2("agent already registered: ", key.as_str()));
        }
        let mut registered: Table<AgentDescriptor> = Table::new();
        std::mem::swap(&mut registered, &mut self.registered);
        registered.insert(key, descriptor);
        self.registered = registered;
        Ok(())
    }

    /// The descriptor of an agent, looked up by normalized id.
    pub fn describe(&self, agent_id: &str) -> (r: Option<AgentDescriptor>)
        ensures
            r is Some <==> self.agents().dom().contains(agent_key(agent_id@)),
            r matches Some(d) ==> d@ == self.agents()[agent_key(agent_id@)]@,
    {
        let key = lower(trim(agent_id).as_str());
        match self.registered.get(key.as_str()) {
            Some(d) => Some(d.duplicate()),
            None => None,
        }
    }

    /// The normalized id of a registered agent, for starting it.
    pub fn instantiate(&self, agent_id: &str) -> (r: Option<String>)
        ensures
            r is Some <==> self.agents().dom().contains(agent_key(agent_id@)),
            r matches Some(k) ==> k@ == agent_key(agent_id@),
    {
        let key = lower(trim(agent_id).as_str());
        if self.registered.contains(key.as_str()) {
            Some(key)
        } else {
            None
        }
    }

    /// Every descriptor, by ascending id.
    pub fn descriptors(&self) -> (r: Vec<AgentDescriptor>)
        ensures
            r@.len() == self.agents().len(),
            ids_ascending(r@),
            forall|i: int| 0 <= i < r@.len() ==> self.agents().dom().contains(agent_key(#[trigger] r@[i].id@))
                && r@[i]@ == self.agents()[agent_key(r@[i].id@)]@,
    {
        proof {
            use_type_invariant(self);
        }
        self.registered.reveal_shape();
        let entries = self.registered.entries();
        let ghost es = self.registered.entry_seq();
        let mut out: Vec<AgentDescriptor> = Vec::new();
        let mut i: usize = 0;
        while i < entries.len()
            invariant
                i <= es.len(),
                entries@ == es,
                es == self.registered.entry_seq(),
                self.registered@ == crate::table::seq_map(es),
                crate::table::keys_unique(es),
                forall|k: Seq<char>| self.registered@.dom().contains(k) ==> agent_key(#[trigger] self.registered@[k].id@) == k,
                out@.len() == i,
                ids_ascending(out@),
                forall|a: int| 0 <= a < out@.len() ==> exists|b: int| 0 <= b < i && #[trigger] out@[a]@ == es[b].value@,
                forall|b: int| 0 <= b < i ==> exists|a: int| 0 <= a < out@.len() && #[trigger] es[b].value@ == out@[a]@,
            decreases es.len() - i,
        {
            proof {
                crate::table::lemma_value_at(es, i as int);
            }
            let d = entries[i].value.duplicate();
            let ghost before = out@;
            let n = out.len();
            let mut p: usize = 0;
            while p < n && str_lt(out[p].id.as_str(), d.id.as_str())
                invariant
                    n == out@.len(),
                    p <= n,
                    forall|k: int| 0 <= k < p ==> seq_lt(#[trigger] out@[k].id@, d.id@),
                decreases n - p,
            {
                p = p + 1;
            }
            proof {
                // the new id differs from every id already placed
                assert forall|a: int| 0 <= a < n implies out@[a].id@ != d.id@ by {
                    let b = choose|b: int| 0 <= b < i && #[trigger] out@[a]@ == es[b].value@;
                    crate::table::lemma_value_at(es, b);
                    assert(es[b].key@ != es[i as int].key@);
                }
                if p < n {
                    lemma_seq_lt_total(out@[p as int].id@, d.id@);
                    assert forall|k: int| p < k < n implies seq_lt(d.id@, #[trigger] out@[k].id@) by {
                        assert(seq_lt(out@[p as int].id@, out@[k].id@));
                        lemma_seq_lt_transitive(d.id@, out@[p as int].id@, out@[k].id@);
                    }
                }
            }
            let ghost dv = d@;
            out.insert(p, d);
            proof {
                assert(out@ =~= before.insert(p as int, out@[p as int]));
                assert forall|a: int, b: int| 0 <= a < b < out@.len() implies seq_lt(#[trigger] out@[a].id@, #[trigger] out@[b].id@) by {
                    if b < p {
                        assert(out@[a] == before[a] && out@[b] == before[b]);
                    } else if b == p {
                        assert(out@[a] == before[a]);
                    } else if a == p {
                        assert(out@[b] == before[b - 1]);
                    } else if a < p {
                        assert(out@[a] == before[a] && out@[b] == before[b - 1]);
                    } else {
                        assert(out@[a] == before[a - 1] && out@[b] == before[b - 1]);
                    }
                }
                assert forall|a: int| 0 <= a < out@.len() implies exists|b: int| 0 <= b < i + 1 && #[trigger] out@[a]@ == es[b].value@ by {
                    if a < p {
                        assert(out@[a] == before[a]);
                        let b = choose|b: int| 0 <= b < i && #[trigger] before[a]@ == es[b].value@;
                        assert(out@[a]@ == es[b].value@);
                    } else if a == p {
                        assert(out@[a]@ == es[i as int].value@);
                    } else {
                        assert(out@[a] == before[a - 1]);
                        let b = choose|b: int| 0 <= b < i && #[trigger] before[a - 1]@ == es[b].value@;
                        assert(out@[a]@ == es[b].value@);
                    }
                }
                assert forall|b: int| 0 <= b < i + 1 implies exists|a: int| 0 <= a < out@.len() && #[trigger] es[b].value@ == out@[a]@ by {
                    if b == i {
                        assert(es[b].value@ == out@[p as int]@);
                    } else {
                        let a = choose|a: int| 0 <= a < before.len() && #[trigger] es[b].value@ == before[a]@;
                        if a < p {
                            assert(out@[a] == before[a]);
                        } else {
                            assert(out@[a + 1] == before[a]);
                        }
                    }
                }
            }
            i = i + 1;
        }
        proof {
            assert forall|a: int| 0 <= a < out@.len() implies self.agents().dom().contains(agent_key(#[trigger] out@[a].id@))
                && out@[a]@ == self.agents()[agent_key(out@[a].id@)]@ by {
                let b = choose|b: int| 0 <= b < es.len() && #[trigger] out@[a]@ == es[b].value@;
                crate::table::lemma_value_at(es, b);
            }
        }
        out
    }
}

fn builtin(id: &str, name: &str, capabilities: Vec<AgentCapability>, schedule: AgentSchedule) -> (r: AgentDescriptor)
    ensures
        r@ == (id@, name@, capabilities@, schedule),
{
    AgentDescriptor { id: owned(id), display_name: owned(name), capabilities, schedule }
}

impl Default for AgentRegistry {
    /// The built-in agents: the graph summariser, started on demand, and the
    /// tag suggester, woken by navigation signals.
    fn default() -> (r: Self)
        ensures
            r.agents().dom() == set![AGENT_ID_GRAPH_SUMMARISER@, AGENT_ID_TAG_SUGGESTER@],
            r.agents()[AGENT_ID_GRAPH_SUMMARISER@]@ == (
                AGENT_ID_GRAPH_SUMMARISER@,
                "Graph summariser"@,
                seq![AgentCapability::SummarizeGraph],
                AgentSchedule::OnDemand,
            ),
            r.agents()[AGENT_ID_TAG_SUGGESTER@]@ == (
                AGENT_ID_TAG_SUGGESTER@,
                "Tag suggester"@,
                seq![AgentCapability::ReadNavigationSignals, AgentCapability::SuggestNodeTags],
                AgentSchedule::Triggered(SignalTopic::Navigation),
            ),
    {
        proof {
            reveal_strlit("agent:graph_summariser");
            reveal_strlit("agent:tag_suggester");
            assert(AGENT_ID_GRAPH_SUMMARISER@[6] == 'g' && AGENT_ID_TAG_SUGGESTER@[6] == 't');
            assert(trim_seq(AGENT_ID_GRAPH_SUMMARISER@) == AGENT_ID_GRAPH_SUMMARISER@) by {
                crate::text::lemma_trim_noop(AGENT_ID_GRAPH_SUMMARISER@);
            }
            assert(trim_seq(AGENT_ID_TAG_SUGGESTER@) == AGENT_ID_TAG_SUGGESTER@) by {
                crate::text::lemma_trim_noop(AGENT_ID_TAG_SUGGESTER@);
            }
            assert(lower_seq(AGENT_ID_GRAPH_SUMMARISER@) =~= AGENT_ID_GRAPH_SUMMARISER@);
            assert(lower_seq(AGENT_ID_TAG_SUGGESTER@) =~= AGENT_ID_TAG_SUGGESTER@);
        }
        let mut registry = AgentRegistry::new();
        let mut summariser_caps: Vec<AgentCapability> = Vec::new();
        summariser_caps.push(AgentCapability::SummarizeGraph);
        let summariser = builtin(AGENT_ID_GRAPH_SUMMARISER, "Graph summariser", summariser_caps, AgentSchedule::OnDemand);
        let _ = registry.register(summariser);
        let mut suggester_caps: Vec<AgentCapability> = Vec::new();
        suggester_caps.push(AgentCapability::ReadNavigationSignals);
        suggester_caps.push(AgentCapability::SuggestNodeTags);
        let suggester = builtin(
            AGENT_ID_TAG_SUGGESTER,
            "Tag suggester",
            suggester_caps,
            AgentSchedule::Triggered(SignalTopic::Navigation),
        );
        let _ = registry.register(suggester);
        assert(registry.agents().dom() =~= set![AGENT_ID_GRAPH_SUMMARISER@, AGENT_ID_TAG_SUGGESTER@]);
        registry
    }
}

} // verus!
