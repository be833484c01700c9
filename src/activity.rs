//! The active-node finder: the nodes that took part in a call within a
//! window, with the last time they did, joined with their current metadata.

use vstd::prelude::*;
use crate::graph::{add_id, contains_id};
use crate::payloads::{
    admits, in_window, ActiveNodes, Node, NodeActivity, NodeType, NodeTypeSet, Window,
};
use crate::prefix::{lemma_take_all, lemma_take_push};

verus! {

/// One end of an observed call: node `node_id` took part in it at time `ts`.
#[derive(Debug, Copy, Clone, PartialEq, Eq, Structural)]
pub struct ActivityRow {
    pub node_id: u128,
    pub ts: i64,
}

/// One recorded version of a node's metadata, written at time `ts`.
#[derive(Debug)]
pub struct NodeObservation {
    pub node: Node,
    pub ts: i64,
}

/// The last time within `w` that node `id` took part in a call, if it did.
pub open spec fn last_activity(rows: Seq<ActivityRow>, w: Window, id: u128) -> Option<i64>
    decreases rows.len(),
{
    if rows.len() == 0 {
        None
    } else {
        let prev = last_activity(rows.drop_last(), w, id);
        let r = rows.last();
        if r.node_id == id && in_window(w, r.ts) {
            match prev {
                Some(t) if t > r.ts => Some(t),
                _ => Some(r.ts),
            }
        } else {
            prev
        }
    }
}

/// The current version of node `id`: the observation with the latest
/// timestamp; among equally late ones, the last recorded.
pub open spec fn current_observation(obs: Seq<NodeObservation>, id: u128) -> Option<NodeObservation>
    decreases obs.len(),
{
    if obs.len() == 0 {
        None
    } else {
        let prev = current_observation(obs.drop_last(), id);
        let o = obs.last();
        if o.node.node_id == id && (prev is None || o.ts >= prev->0.ts) {
            Some(o)
        } else {
            prev
        }
    }
}

/// Whether node `id` is to be listed: it was active within the window, its
/// metadata is known, and its current type passes the type filter.
pub open spec fn is_listed(
    activity: Seq<ActivityRow>,
    obs: Seq<NodeObservation>,
    w: Window,
    types: Set<NodeType>,
    id: u128,
) -> bool {
    &&& last_activity(activity, w, id) is Some
    &&& current_observation(obs, id) is Some
    &&& admits(types, current_observation(obs, id)->0.node.node_type)
}

/// Whether `a` lists node `a.node.node_id` correctly.
pub open spec fn is_activity_entry(
    activity: Seq<ActivityRow>,
    obs: Seq<NodeObservation>,
    w: Window,
    types: Set<NodeType>,
    a: NodeActivity,
) -> bool {
    let id = a.node.node_id;
    &&& is_listed(activity, obs, w, types, id)
    &&& last_activity(activity, w, id) == Some(a.last_activity)
    &&& current_observation(obs, id)->0.node == a.node
}

proof fn lemma_activity_push(rows: Seq<ActivityRow>, r: ActivityRow, w: Window, id: u128)
    ensures
        last_activity(rows.push(r), w, id) == if r.node_id == id && in_window(w, r.ts) {
            match last_activity(rows, w, id) {
                Some(t) if t > r.ts => Some(t),
                _ => Some(r.ts),
            }
        } else {
            last_activity(rows, w, id)
        },
{
    assert(rows.push(r).drop_last() =~= rows);
}

proof fn lemma_observation_push(obs: Seq<NodeObservation>, o: NodeObservation, id: u128)
    ensures
        current_observation(obs.push(o), id) == {
            let prev = current_observation(obs, id);
            if o.node.node_id == id && (prev is None || o.ts >= prev->0.ts) {
                Some(o)
            } else {
                prev
            }
        },
{
    assert(obs.push(o).drop_last() =~= obs);
}

proof fn lemma_observation_id(obs: Seq<NodeObservation>, id: u128)
    ensures
        current_observation(obs, id) is Some ==> current_observation(obs, id)->0.node.node_id == id,
    decreases obs.len(),
{
    if obs.len() > 0 {
        lemma_observation_id(obs.drop_last(), id);
    }
}

/// The ids of the nodes active within the window, once each.
fn active_ids(w: &Window, activity: &Vec<ActivityRow>) -> (ids: Vec<u128>)
    ensures
        forall|j: int, k: int| 0 <= j < k < ids.len() ==> ids@[j] != ids@[k],
        forall|id: u128| ids@.contains(id) <==> (#[trigger] last_activity(activity@, *w, id)) is Some,
{
    let mut ids: Vec<u128> = Vec::new();
    let mut i: usize = 0;
    while i < activity.len()
        invariant
            i <= activity.len(),
            forall|j: int, k: int| 0 <= j < k < ids.len() ==> ids@[j] != ids@[k],
            forall|id: u128|
                ids@.contains(id) <==> (#[trigger] last_activity(activity@.take(i as int), *w, id)) is Some,
        decreases activity.len() - i,
    {
        let ghost prev = activity@.take(i as int);
        let r = activity[i];
        proof {
            lemma_take_push(activity@, i as int);
        }
        if w.start <= r.ts && r.ts <= w.end {
            add_id(&mut ids, r.node_id);
        }
        assert forall|id: u128|
            ids@.contains(id) <==> (#[trigger] last_activity(prev.push(r), *w, id)) is Some by {
            lemma_activity_push(prev, r, *w, id);
        }
        i = i + 1;
    }
    proof {
        lemma_take_all(activity@);
    }
    ids
}

fn latest_activity(w: &Window, activity: &Vec<ActivityRow>, id: u128) -> (r: Option<i64>)
    ensures
        r == last_activity(activity@, *w, id),
{
    let mut last: Option<i64> = None;
    let mut i: usize = 0;
    while i < activity.len()
        invariant
            i <= activity.len(),
            last == last_activity(activity@.take(i as int), *w, id),
        decreases activity.len() - i,
    {
        let r = activity[i];
        proof {
            lemma_take_push(activity@, i as int);
            lemma_activity_push(activity@.take(i as int), r, *w, id);
        }
        if r.node_id == id && w.start <= r.ts && r.ts <= w.end {
            last = match last {
                Some(t) if t > r.ts => Some(t),
                _ => Some(r.ts),
            };
        }
        i = i + 1;
    }
    proof {
        lemma_take_all(activity@);
    }
    last
}

/// The index of the current observation of node `id`, if any.
fn current_index(obs: &Vec<NodeObservation>, id: u128) -> (r: Option<usize>)
    ensures
        match r {
            Some(k) => k < obs.len() && current_observation(obs@, id) == Some(obs@[k as int]),
            None => current_observation(obs@, id) is None,
        },
{
    let mut best: Option<usize> = None;
    let mut i: usize = 0;
    while i < obs.len()
        invariant
            i <= obs.len(),
            match best {
                Some(k) => k < i && current_observation(obs@.take(i as int), id) == Some(obs@[k as int]),
                None => current_observation(obs@.take(i as int), id) is None,
            },
        decreases obs.len() - i,
    {
        proof {
            lemma_take_push(obs@, i as int);
            lemma_observation_push(obs@.take(i as int), obs@[i as int], id);
        }
        if obs[i].node.node_id == id {
            match best {
                Some(k) => {
                    if obs[i].ts >= obs[k].ts {
                        best = Some(i);
                    }
                },
                None => {
                    best = Some(i);
                },
            }
        }
        i = i + 1;
    }
    proof {
        lemma_take_all(obs@);
    }
    best
}

/// Lists the nodes active within a window.
///
/// A node is active if it is an end of a call recorded within the window; its
/// last activity is the latest such time. It is listed, once, with its current
/// metadata (the latest observation, the last recorded among equally late
/// ones), if it has any and if its current type passes the type filter.
pub fn find_active_nodes(
    window: &Window,
    activity: &Vec<ActivityRow>,
    observations: &Vec<NodeObservation>,
    types: &NodeTypeSet,
) -> (r: ActiveNodes)
    ensures
        forall|k: int|
            0 <= k < r.nodes.len() ==> is_activity_entry(
                activity@,
                observations@,
                *window,
                types@,
                #[trigger] r.nodes@[k],
            ),
        forall|j: int, k: int|
            0 <= j < k < r.nodes.len() ==> (#[trigger] r.nodes@[j]).node.node_id
                != (#[trigger] r.nodes@[k]).node.node_id,
        forall|id: u128|
            #[trigger] is_listed(activity@, observations@, *window, types@, id) ==> exists|k: int|
                0 <= k < r.nodes.len() && r.nodes@[k].node.node_id == id,
{
    let ids = active_ids(window, activity);
    let mut nodes: Vec<NodeActivity> = Vec::new();
    let mut i: usize = 0;
    while i < ids.len()
        invariant
            i <= ids.len(),
            forall|j: int, k: int| 0 <= j < k < ids.len() ==> ids@[j] != ids@[k],
            forall|id: u128| ids@.contains(id) <==> (#[trigger] last_activity(activity@, *window, id)) is Some,
            forall|k: int|
                0 <= k < nodes.len() ==> is_activity_entry(
                    activity@,
                    observations@,
                    *window,
                    types@,
                    #[trigger] nodes@[k],
                ) && exists|j: int| 0 <= j < i && ids@[j] == nodes@[k].node.node_id,
            forall|j: int, k: int|
                0 <= j < k < nodes.len() ==> (#[trigger] nodes@[j]).node.node_id
                    != (#[trigger] nodes@[k]).node.node_id,
            forall|j: int|
                0 <= j < i && is_listed(activity@, observations@, *window, types@, #[trigger] ids@[j])
                    ==> exists|k: int| 0 <= k < nodes.len() && nodes@[k].node.node_id == ids@[j],
        decreases ids.len() - i,
    {
        let id = ids[i];
        assert(ids@.contains(id));
        let last = latest_activity(window, activity, id);
        proof {
            lemma_observation_id(observations@, id);
        }
        match (last, current_index(observations, id)) {
            (Some(t), Some(k)) => {
                if types.admits(observations[k].node.node_type) {
                    let ghost before = nodes@;
                    nodes.push(NodeActivity { node: observations[k].node.clone(), last_activity: t });
                    assert forall|m: int| 0 <= m < nodes.len() - 1 implies (#[trigger] nodes@[m]).node.node_id != id by {
                        let j = choose|j: int| 0 <= j < i && ids@[j] == before[m].node.node_id;
                        assert(ids@[j] != ids@[i as int]);
                    }
                    assert forall|j: int|
                        0 <= j <= i && is_listed(activity@, observations@, *window, types@, #[trigger] ids@[j])
                            implies exists|m: int| 0 <= m < nodes.len() && nodes@[m].node.node_id == ids@[j] by {
                        if j < i {
                            let m = choose|m: int| 0 <= m < before.len() && before[m].node.node_id == ids@[j];
                            assert(nodes@[m] == before[m]);
                        } else {
                            assert(nodes@[before.len() as int].node.node_id == ids@[j]);
                        }
                    }
                }
            },
            _ => {},
        }
        i = i + 1;
    }
    proof {
        assert forall|id: u128|
            #[trigger] is_listed(activity@, observations@, *window, types@, id) implies exists|k: int|
                0 <= k < nodes.len() && nodes@[k].node.node_id == id by {
            assert(ids@.contains(id));
            let j = choose|j: int| 0 <= j < ids.len() && ids@[j] == id;
            assert(is_listed(activity@, observations@, *window, types@, ids@[j]));
        }
    }
    ActiveNodes { nodes }
}

} // verus!
