//! The graph of processing nodes and the connections between their ports.
use vstd::prelude::*;
use std::collections::HashMap;
use crate::processor::AudioNode;
use crate::schedule::{has_cycle, is_schedule, is_topological_order, GraphScheduler, ScheduleError};

verus! {

/// The name of a node within one graph. A graph hands out rising numbers
/// and never hands one out twice.
#[derive(Debug, Clone, Copy, PartialEq, Eq, Structural, Hash)]
pub struct NodeId(pub u64);

/// A connection from an output port of one node to an input port of another.
#[derive(Debug, Clone, Copy, PartialEq, Eq, Structural)]
pub struct Connection {
    pub source: NodeId,
    pub source_port: u32,
    pub target: NodeId,
    pub target_port: u32,
}

impl Connection {
    /// Whether the connection starts or ends at `id`.
    pub open spec fn touches(self, id: NodeId) -> bool {
        self.source == id || self.target == id
    }

    /// Whether the connection leads from `source` to `target`.
    pub open spec fn joins(self, source: NodeId, target: NodeId) -> bool {
        self.source == source && self.target == target
    }
}

/// The connections as pairs of source and target node, without the ports.
pub open spec fn pairs(connections: Seq<Connection>) -> Seq<(NodeId, NodeId)> {
    connections.map_values(|c: Connection| (c.source, c.target))
}

/// The node that `nodes` holds under `id`, open to change. `HashMap::get_mut`
/// gives the value under a key where the map has the key, and nothing
/// where it has not. What is written through the reference is what the map
/// holds under the key afterwards; the keys stay, and no other value
/// changes.
#[verifier::external_body]
fn held_mut<N>(nodes: &mut HashMap<u64, N>, id: u64) -> (r: Option<&mut N>)
    ensures
        r is Some <==> old(nodes)@.contains_key(id),
        final(nodes)@.dom() == old(nodes)@.dom(),
        r is None ==> final(nodes)@ == old(nodes)@,
        r matches Some(node) ==> *node == old(nodes)@[id] && final(nodes)@ == old(nodes)@.insert(id, *final(node)),
{
    nodes.get_mut(&id)
}

/// A graph of nodes of type `N`, which owns its nodes. Where `N` is left
/// out the nodes are boxed `AudioNode`s of any kind.
pub struct AudioGraph<N = Box<dyn AudioNode>> {
    nodes: HashMap<u64, N>,
    connections: Vec<Connection>,
    next_id: u64,
}

impl<N> AudioGraph<N> {
    /// The nodes in the graph, each under its id.
    pub closed spec fn nodes(&self) -> Map<u64, N> {
        self.nodes@
    }

    /// The ids of the nodes in the graph.
    pub open spec fn node_ids(&self) -> Set<u64> {
        self.nodes().dom()
    }

    /// The connections, in the order in which they were made.
    pub closed spec fn connections(&self) -> Seq<Connection> {
        self.connections@
    }

    /// The id that the next node gets.
    pub closed spec fn next_free(&self) -> u64 {
        self.next_id
    }

    /// Whether the graph holds a node named `id`.
    pub open spec fn has_node(&self, id: NodeId) -> bool {
        self.node_ids().contains(id.0)
    }

    /// Every id in the graph is below the next free id: no id comes back
    /// after its node has left, and no two nodes ever share one.
    pub open spec fn wf(&self) -> bool {
        forall|id: u64| #[trigger] self.node_ids().contains(id) ==> id < self.next_free()
    }

    /// An empty graph.
    pub fn new() -> (r: Self)
        ensures
            r.wf(),
            r.nodes() == Map::<u64, N>::empty(),
            r.connections() == Seq::<Connection>::empty(),
            r.next_free() == 0,
    {
        AudioGraph { nodes: HashMap::new(), connections: Vec::new(), next_id: 0 }
    }

    /// Whether the graph has an id left for another node.
    pub fn has_free_id(&self) -> (r: bool)
        ensures
            r == (self.next_free() < u64::MAX),
    {
        self.next_id < u64::MAX
    }

    /// Add a node to the graph, which owns it from now on. The result is
    /// the node's id, which no node of this graph has had before.
    pub fn add_node(&mut self, node: N) -> (id: NodeId)
        requires
            old(self).wf(),
            old(self).next_free() < u64::MAX,
        ensures
            final(self).wf(),
            id.0 == old(self).next_free(),
            !old(self).has_node(id),
            final(self).next_free() == old(self).next_free() + 1,
            final(self).nodes() == old(self).nodes().insert(id.0, node),
            final(self).connections() == old(self).connections(),
    {
        let id = NodeId(self.next_id);
        self.next_id = self.next_id + 1;
        let _ = self.nodes.insert(id.0, node);
        proof {
            assert forall|other: u64| #[trigger] self.node_ids().contains(other) implies other < self.next_free() by {
                if other != id.0 {
                    assert(old(self).node_ids().contains(other));
                }
            }
        }
        id
    }

    /// Remove the node named `id` and every connection that starts or ends
    /// at it. Where the graph holds no such node, only the connections are
    /// looked through.
    pub fn remove_node(&mut self, id: NodeId)
        requires
            old(self).wf(),
        ensures
            final(self).wf(),
            final(self).next_free() == old(self).next_free(),
            !final(self).has_node(id),
            final(self).nodes() == old(self).nodes().remove(id.0),
            final(self).connections() == old(self).connections().filter(|c: Connection| !c.touches(id)),
    {
        let _ = self.nodes.remove(&id.0);
        let ghost all = self.connections@;
        let ghost keep = |c: Connection| !c.touches(id);
        let mut kept: Vec<Connection> = Vec::new();
        let mut i: usize = 0;
        while i < self.connections.len()
            invariant
                i <= self.connections.len(),
                all == self.connections@,
                keep == (|c: Connection| !c.touches(id)),
                kept@ == all.take(i as int).filter(keep),
            decreases self.connections.len() - i,
        {
            let c: Connection = self.connections[i];
            proof {
                reveal(Seq::filter);
                assert(all.take(i + 1).drop_last() =~= all.take(i as int));
            }
            if c.source != id && c.target != id {
                kept.push(c);
            }
            i += 1;
        }
        proof {
            assert(all.take(all.len() as int) =~= all);
        }
        self.connections = kept;
        proof {
            assert forall|other: u64| #[trigger] self.node_ids().contains(other) implies other < self.next_free() by {
                assert(old(self).node_ids().contains(other));
            }
        }
    }

    /// Add a connection. The ports and nodes that it names are not looked
    /// at here.
    pub fn connect(&mut self, connection: Connection)
        ensures
            final(self).connections() == old(self).connections().push(connection),
            final(self).node_ids() == old(self).node_ids(),
            final(self).nodes() == old(self).nodes(),
            final(self).next_free() == old(self).next_free(),
    {
        self.connections.push(connection);
    }

    /// Remove every connection that leads from `source` to `target`.
    pub fn disconnect(&mut self, source: NodeId, target: NodeId)
        ensures
            final(self).connections() == old(self).connections().filter(|c: Connection| !c.joins(source, target)),
            final(self).node_ids() == old(self).node_ids(),
            final(self).nodes() == old(self).nodes(),
            final(self).next_free() == old(self).next_free(),
    {
        let ghost all = self.connections@;
        let ghost keep = |c: Connection| !c.joins(source, target);
        let mut kept: Vec<Connection> = Vec::new();
        let mut i: usize = 0;
        while i < self.connections.len()
            invariant
                i <= self.connections.len(),
                all == self.connections@,
                keep == (|c: Connection| !c.joins(source, target)),
                kept@ == all.take(i as int).filter(keep),
            decreases self.connections.len() - i,
        {
            let c: Connection = self.connections[i];
            proof {
                reveal(Seq::filter);
                assert(all.take(i + 1).drop_last() =~= all.take(i as int));
            }
            if c.source != source || c.target != target {
                kept.push(c);
            }
            i += 1;
        }
        proof {
            assert(all.take(all.len() as int) =~= all);
        }
        self.connections = kept;
    }

    /// The node named `id`, if the graph holds it.
    pub fn get_node(&self, id: NodeId) -> (r: Option<&N>)
        ensures
            r is Some <==> self.has_node(id),
            r matches Some(node) ==> *node == self.nodes()[id.0],
    {
        self.nodes.get(&id.0)
    }

    /// The node named `id`, open to change, if the graph holds it. Nothing
    /// else in the graph changes.
    pub fn get_node_mut(&mut self, id: NodeId) -> (r: Option<&mut N>)
        ensures
            r is Some <==> old(self).has_node(id),
            final(self).node_ids() == old(self).node_ids(),
            final(self).connections() == old(self).connections(),
            final(self).next_free() == old(self).next_free(),
            r is None ==> final(self).nodes() == old(self).nodes(),
            r matches Some(node) ==> *node == old(self).nodes()[id.0] && final(self).nodes() == old(
                self,
            ).nodes().insert(id.0, *final(node)),
    {
        held_mut(&mut self.nodes, id.0)
    }

    /// The connections, in the order in which they were made.
    pub fn connection_list(&self) -> (r: &Vec<Connection>)
        ensures
            r@ == self.connections(),
    {
        &self.connections
    }

    /// The order in which to process the nodes that the graph's
    /// connections mention, or `GraphCycle` where the connections close a
    /// cycle.
    pub fn schedule(&self) -> (r: Result<Vec<NodeId>, ScheduleError>)
        ensures
            r is Ok <==> !has_cycle(pairs(self.connections())),
            r matches Ok(order) ==> is_topological_order(pairs(self.connections()), order@) && is_schedule(
                pairs(self.connections()),
                order@,
            ),
            r matches Err(e) ==> e == ScheduleError::GraphCycle,
    {
        let edges = self.edges();
        GraphScheduler::order_of(edges.as_slice())
    }

    /// The connections as pairs of source and target, which is what the
    /// scheduler orders nodes by.
    pub fn edges(&self) -> (r: Vec<(NodeId, NodeId)>)
        ensures
            r@ == pairs(self.connections()),
    {
        let mut edges: Vec<(NodeId, NodeId)> = Vec::new();
        let mut i: usize = 0;
        while i < self.connections.len()
            invariant
                i <= self.connections.len(),
                edges@.len() == i,
                forall|j: int| 0 <= j < i ==> edges@[j] == (self.connections@[j].source, self.connections@[j].target),
            decreases self.connections.len() - i,
        {
            let c: Connection = self.connections[i];
            edges.push((c.source, c.target));
            i += 1;
        }
        assert(edges@ =~= pairs(self.connections()));
        edges
    }
}

impl<N> Default for AudioGraph<N> {
    fn default() -> (r: Self)
        ensures
            r.wf(),
            r.nodes() == Map::<u64, N>::empty(),
            r.connections() == Seq::<Connection>::empty(),
            r.next_free() == 0,
    {
        AudioGraph::new()
    }
}

} // verus!
