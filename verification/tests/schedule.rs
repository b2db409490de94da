use koto_audio::graph::{AudioGraph, Connection, NodeId};
use koto_audio::node::{MasterNode, PassthroughNode};
use koto_audio::processor::AudioNode;
use koto_audio::schedule::{GraphScheduler, ScheduleError};

fn position(order: &[NodeId], id: u64) -> usize {
    for (i, node) in order.iter().enumerate() {
        if node.0 == id {
            return i;
        }
    }
    panic!("node {} is not in the order", id)
}

fn edges(pairs: &[(u64, u64)]) -> Vec<(NodeId, NodeId)> {
    pairs.iter().map(|(a, b)| (NodeId(*a), NodeId(*b))).collect()
}

#[test]
fn test_simple_chain() {
    let connections = vec![(NodeId(0), NodeId(1)), (NodeId(1), NodeId(2))];

    let order = GraphScheduler::compute_order(&AudioGraph::new(), &connections).unwrap();
    assert_eq!(order, vec![NodeId(0), NodeId(1), NodeId(2)]);
}

#[test]
fn test_parallel_paths() {
    let connections = vec![(NodeId(0), NodeId(2)), (NodeId(1), NodeId(2))];

    let order = GraphScheduler::compute_order(&AudioGraph::new(), &connections).unwrap();
    assert!(order.len() == 3);
    // Node 2 should be last
    assert_eq!(order[2], NodeId(2));
}

#[test]
fn two_node_cycle_is_reported() {
    let connections = edges(&[(0, 1), (1, 0)]);
    let result = GraphScheduler::compute_order(&AudioGraph::new(), &connections);
    assert_eq!(result, Err(ScheduleError::GraphCycle));
}

#[test]
fn self_loop_is_a_cycle() {
    let connections = edges(&[(0, 1), (1, 1)]);
    let result = GraphScheduler::compute_order(&AudioGraph::new(), &connections);
    assert_eq!(result, Err(ScheduleError::GraphCycle));
}

#[test]
fn cycle_behind_a_chain_is_reported() {
    let connections = edges(&[(0, 1), (1, 2), (2, 3), (3, 1)]);
    let result = GraphScheduler::compute_order(&AudioGraph::new(), &connections);
    assert_eq!(result, Err(ScheduleError::GraphCycle));
}

#[test]
fn no_connections_give_an_empty_order() {
    let connections: Vec<(NodeId, NodeId)> = Vec::new();
    let order = GraphScheduler::compute_order(&AudioGraph::new(), &connections).unwrap();
    assert!(order.is_empty());
}

#[test]
fn every_edge_leads_forward_and_every_node_stands_once() {
    let pairs = [(7, 3), (3, 1), (7, 1), (5, 3), (9, 5), (1, 0), (4, 0), (9, 4), (2, 8)];
    let connections = edges(&pairs);
    let order = GraphScheduler::compute_order(&AudioGraph::new(), &connections).unwrap();
    assert_eq!(order.len(), 9);
    for id in [0u64, 1, 2, 3, 4, 5, 7, 8, 9] {
        assert_eq!(order.iter().filter(|n| n.0 == id).count(), 1);
    }
    for (a, b) in pairs.iter() {
        assert!(position(&order, *a) < position(&order, *b));
    }
}

#[test]
fn smallest_ready_id_goes_first() {
    // 2 and 1 are ready at the start; 0 only after 2.
    let connections = edges(&[(2, 0), (1, 3)]);
    let order = GraphScheduler::compute_order(&AudioGraph::new(), &connections).unwrap();
    assert_eq!(order, vec![NodeId(1), NodeId(2), NodeId(0), NodeId(3)]);
}

#[test]
fn diamond_is_ordered_by_id_within_a_level() {
    let connections = edges(&[(0, 2), (0, 1), (2, 3), (1, 3)]);
    let order = GraphScheduler::compute_order(&AudioGraph::new(), &connections).unwrap();
    assert_eq!(order, vec![NodeId(0), NodeId(1), NodeId(2), NodeId(3)]);
}

#[test]
fn the_order_does_not_depend_on_how_the_connections_are_listed() {
    let first = edges(&[(0, 2), (1, 2), (2, 4), (3, 4)]);
    let second = edges(&[(3, 4), (2, 4), (1, 2), (0, 2)]);
    let a = GraphScheduler::compute_order(&AudioGraph::new(), &first).unwrap();
    let b = GraphScheduler::compute_order(&AudioGraph::new(), &second).unwrap();
    assert_eq!(a, b);
    assert_eq!(a, GraphScheduler::compute_order(&AudioGraph::new(), &first).unwrap());
}

#[test]
fn a_connection_given_twice_counts_twice_and_is_released_twice() {
    let connections = edges(&[(0, 1), (0, 1), (1, 2)]);
    let order = GraphScheduler::compute_order(&AudioGraph::new(), &connections).unwrap();
    assert_eq!(order, vec![NodeId(0), NodeId(1), NodeId(2)]);
}

#[test]
fn schedule_of_a_graphs_own_connections() {
    let mut graph: AudioGraph = AudioGraph::new();
    let a = graph.add_node(Box::new(PassthroughNode::new(2)) as Box<dyn AudioNode>);
    let b = graph.add_node(Box::new(PassthroughNode::new(2)) as Box<dyn AudioNode>);
    let master = graph.add_node(Box::new(MasterNode) as Box<dyn AudioNode>);
    graph.connect(Connection { source: b, source_port: 0, target: master, target_port: 0 });
    graph.connect(Connection { source: a, source_port: 0, target: b, target_port: 0 });
    let order = GraphScheduler::compute_order(&graph, &graph.edges()).unwrap();
    assert_eq!(order, vec![a, b, master]);
    assert_eq!(graph.schedule(), Ok(vec![a, b, master]));
    assert_eq!(GraphScheduler::order_of(&graph.edges()), Ok(vec![a, b, master]));
    graph.connect(Connection { source: master, source_port: 0, target: a, target_port: 0 });
    assert_eq!(graph.schedule(), Err(ScheduleError::GraphCycle));
}
