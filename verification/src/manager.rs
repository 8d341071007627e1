//! The manager: the sessions that connected, in configuration order, and
//! the aggregated tool catalog. A server that failed to come up is skipped;
//! the ones that connected are kept, so one bad server cannot poison the
//! rest.

use vstd::prelude::*;

use crate::session::{McpServer, McpToolInfo, ServerModel, SessionPhase, ToolModel};

verus! {

/// The sessions that survive a round of connection attempts: the connected
/// ones among the first `i` outcomes, in order.
pub open spec fn kept(outcomes: Seq<Option<ServerModel>>, i: int) -> Seq<ServerModel>
    decreases i,
{
    if i <= 0 || i > outcomes.len() {
        Seq::<ServerModel>::empty()
    } else {
        let prev = kept(outcomes, i - 1);
        match outcomes[i - 1] {
            Some(s) => prev.push(s),
            None => prev,
        }
    }
}

/// The model of one connection outcome.
pub open spec fn outcome_models(s: Seq<Option<McpServer>>) -> Seq<Option<ServerModel>> {
    Seq::new(
        s.len(),
        |i: int|
            match s[i] {
                Some(server) => Some(server@),
                None => None,
            },
    )
}

/// The first `j` tools of session `i`, each tagged with `i`.
pub open spec fn tools_prefix(servers: Seq<ServerModel>, i: int, j: nat) -> Seq<(int, ToolModel)> {
    Seq::new(j, |k: int| (i, servers[i].tools[k]))
}

/// The aggregated catalog of the first `i` sessions: each session's tools
/// after those of the sessions before it, each tagged with its session's
/// position.
pub open spec fn all_tools_model(servers: Seq<ServerModel>, i: int) -> Seq<(int, ToolModel)>
    decreases i,
{
    if i <= 0 || i > servers.len() {
        Seq::<(int, ToolModel)>::empty()
    } else {
        all_tools_model(servers, i - 1) + tools_prefix(servers, i - 1, servers[i - 1].tools.len())
    }
}

/// The set of connected servers.
pub struct McpManager {
    pub servers: Vec<McpServer>,
}

/// The model of a manager.
pub struct ManagerModel {
    pub servers: Seq<ServerModel>,
}

impl View for McpManager {
    type V = ManagerModel;

    open spec fn view(&self) -> ManagerModel {
        ManagerModel { servers: Seq::new(self.servers@.len(), |i: int| self.servers@[i]@) }
    }
}

impl ManagerModel {
    /// Every held session is well formed and past its handshake.
    pub open spec fn wf(self) -> bool {
        forall|k: int|
            0 <= k < self.servers.len() ==> (#[trigger] self.servers[k]).wf()
                && self.servers[k].phase is Ready
    }
}

impl McpManager {
    /// A manager with no servers: what a missing or refused configuration
    /// yields.
    pub fn new() -> (m: Self)
        ensures
            m@.servers.len() == 0,
            m@.wf(),
    {
        McpManager { servers: Vec::new() }
    }

    /// Keeps the sessions that connected, in order, and drops the rest:
    /// one failed server never unseats another.
    pub fn from_outcomes(outcomes: Vec<Option<McpServer>>) -> (m: Self)
        requires
            forall|k: int|
                0 <= k < outcomes@.len() && outcomes@[k] is Some ==> (
                #[trigger] outcomes@[k])->0@.wf() && outcomes@[k]->0@.phase is Ready,
        ensures
            m@.wf(),
            m@.servers == kept(outcome_models(outcomes@), outcomes@.len() as int),
    {
        let ghost oms = outcome_models(outcomes@);
        let mut rest = outcomes;
        let mut servers: Vec<McpServer> = Vec::new();
        let ghost n = oms.len() as int;
        let ghost i: int = 0;
        while rest.len() > 0
            invariant
                0 <= i <= n,
                oms.len() == n,
                rest@.len() == n - i,
                forall|k: int| 0 <= k < rest@.len() ==> oms[i + k] == (match #[trigger] rest@[k] {
                    Some(server) => Some(server@),
                    None => None::<ServerModel>,
                }),
                forall|k: int|
                    0 <= k < rest@.len() && rest@[k] is Some ==> (#[trigger] rest@[k])->0@.wf()
                        && rest@[k]->0@.phase is Ready,
                Seq::new(servers@.len(), |k: int| servers@[k]@) =~= kept(oms, i),
                forall|k: int|
                    0 <= k < servers@.len() ==> (#[trigger] servers@[k])@.wf()
                        && servers@[k]@.phase is Ready,
            decreases rest@.len(),
        {
            let o = rest.remove(0);
            proof {
                assert(oms[i] == (match o {
                    Some(ref server) => Some(server@),
                    None => None::<ServerModel>,
                }));
            }
            match o {
                Some(server) => {
                    servers.push(server);
                },
                None => {},
            }
            proof {
                i = i + 1;
                assert(Seq::new(servers@.len(), |k: int| servers@[k]@) =~= kept(oms, i));
            }
        }
        let m = McpManager { servers };
        proof {
            assert(m@.servers =~= kept(oms, n));
        }
        m
    }

    /// The connected sessions, in configuration order.
    pub fn servers(&self) -> (r: &Vec<McpServer>)
        ensures
            r@ == self.servers@,
    {
        &self.servers
    }

    /// Every tool of every session, each pair naming the session by its
    /// position and carrying the tool, in (session order, tool order).
    pub fn all_tools(&self) -> (r: Vec<(usize, McpToolInfo)>)
        ensures
            tagged_tools_view(r@) == all_tools_model(self@.servers, self@.servers.len() as int),
    {
        let ghost ms = self@.servers;
        let mut out: Vec<(usize, McpToolInfo)> = Vec::new();
        let n = self.servers.len();
        for i in 0..n
            invariant
                n == self.servers@.len(),
                ms == self@.servers,
                ms.len() == n,
                tagged_tools_view(out@) =~= all_tools_model(ms, i as int),
        {
            let tools = &self.servers[i].tools;
            proof {
                assert(ms[i as int] == self.servers@[i as int]@);
            }
            let tn = tools.len();
            for j in 0..tn
                invariant
                    n == self.servers@.len(),
                    ms == self@.servers,
                    ms.len() == n,
                    i < n,
                    tn == tools@.len(),
                    ms[i as int].tools =~= Seq::new(tools@.len(), |k: int| tools@[k]@),
                    tagged_tools_view(out@) =~= all_tools_model(ms, i as int) + tools_prefix(
                        ms,
                        i as int,
                        j as nat,
                    ),
            {
                proof {
                    // Materialize the invariant's lengths before the push.
                    assert(tagged_tools_view(out@) =~= all_tools_model(ms, i as int)
                        + tools_prefix(ms, i as int, j as nat));
                    assert(tagged_tools_view(out@).len() == out@.len());
                    assert(out@.len() == all_tools_model(ms, i as int).len() + j);
                }
                let t = tools[j].dup();
                proof {
                    assert(t@ == ms[i as int].tools[j as int]);
                }
                let ghost out0 = out@;
                out.push((i, t));
                proof {
                    let ghost target = all_tools_model(ms, i as int) + tools_prefix(
                        ms,
                        i as int,
                        (j + 1) as nat,
                    );
                    let ghost prev = all_tools_model(ms, i as int);
                    assert(out0.len() == prev.len() + j);
                    assert(target.len() == prev.len() + j + 1);
                    assert forall|k: int|
                        0 <= k < out@.len() implies tagged_tools_view(out@)[k] == target[k] by {
                        assert(tagged_tools_view(out@)[k] == (out@[k].0 as int, out@[k].1@));
                        if k < out0.len() {
                            assert(out@[k] == out0[k]);
                            assert(tagged_tools_view(out0)[k] == (out0[k].0 as int, out0[k].1@));
                            if k < prev.len() {
                                assert(tagged_tools_view(out0)[k] == prev[k]);
                                assert(target[k] == prev[k]);
                            } else {
                                assert(tagged_tools_view(out0)[k] == (i as int,
                                    ms[i as int].tools[k - prev.len()]));
                                assert(target[k] == (i as int, ms[i as int].tools[k - prev.len()]));
                            }
                        } else {
                            assert(k == out0.len());
                            assert(out@[k] == (i, t));
                            assert(target[k] == (i as int, ms[i as int].tools[j as int]));
                        }
                    }
                    assert(tagged_tools_view(out@) =~= target);
                }
            }
            proof {
                assert(all_tools_model(ms, i as int + 1) == all_tools_model(ms, i as int)
                    + tools_prefix(ms, i as int, ms[i as int].tools.len()));
                assert(tagged_tools_view(out@) =~= all_tools_model(ms, i as int + 1));
            }
        }
        out
    }
}

/// The model of an aggregated catalog: each pair's position and tool.
pub open spec fn tagged_tools_view(s: Seq<(usize, McpToolInfo)>) -> Seq<(int, ToolModel)> {
    Seq::new(s.len(), |k: int| (s[k].0 as int, s[k].1@))
}

} // verus!
