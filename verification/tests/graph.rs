use koto_audio::audio::{AudioBuffer, ChannelCount, SampleRate};
use koto_audio::graph::{AudioGraph, Connection, NodeId};
use koto_audio::node::{MasterNode, PassthroughNode};
use koto_audio::processor::{AudioNode, ProcessContext};
use koto_audio::time::{SamplePosition, Tempo, TimeSignature};

fn wire(source: NodeId, target: NodeId) -> Connection {
    Connection { source, source_port: 0, target, target_port: 0 }
}

fn boxed(channels: usize) -> Box<dyn AudioNode> {
    Box::new(PassthroughNode::new(channels))
}

fn context(frames: usize) -> ProcessContext<'static> {
    ProcessContext {
        sample_rate: SampleRate(48000),
        tempo: Tempo::default(),
        time_signature: TimeSignature::common_time(),
        playhead: SamplePosition(0),
        frames,
        midi_events: &[],
        is_playing: true,
        is_recording: false,
    }
}

#[test]
fn ids_rise_from_zero() {
    let mut graph: AudioGraph = AudioGraph::new();
    assert!(graph.has_free_id());
    assert_eq!(graph.add_node(boxed(1)), NodeId(0));
    assert_eq!(graph.add_node(boxed(2)), NodeId(1));
    assert_eq!(graph.add_node(Box::new(MasterNode)), NodeId(2));
}

#[test]
fn an_id_is_not_reused_after_removal() {
    let mut graph: AudioGraph = AudioGraph::new();
    let a = graph.add_node(boxed(1));
    let b = graph.add_node(boxed(2));
    graph.remove_node(b);
    graph.remove_node(a);
    let c = graph.add_node(boxed(3));
    assert_eq!(c, NodeId(2));
    assert!(graph.get_node(a).is_none());
    assert!(graph.get_node(b).is_none());
    assert_eq!(graph.get_node(c).unwrap().input_count(), 3);
}

#[test]
fn get_node_finds_the_node_by_id() {
    let mut graph: AudioGraph = AudioGraph::new();
    let a = graph.add_node(boxed(1));
    let b = graph.add_node(Box::new(MasterNode));
    let c = graph.add_node(boxed(5));
    assert_eq!(graph.get_node(a).unwrap().name(), "Passthrough");
    assert_eq!(graph.get_node(a).unwrap().input_count(), 1);
    assert_eq!(graph.get_node(b).unwrap().name(), "Master");
    assert_eq!(graph.get_node(c).unwrap().output_count(), 5);
    assert!(graph.get_node(NodeId(3)).is_none());
    assert!(graph.get_node_mut(NodeId(3)).is_none());
    graph.remove_node(b);
    assert!(graph.get_node(b).is_none());
    assert_eq!(graph.get_node(c).unwrap().output_count(), 5);
    assert_eq!(graph.get_node(a).unwrap().input_count(), 1);
}

#[test]
fn get_node_mut_changes_the_node_in_the_graph() {
    let mut graph: AudioGraph<PassthroughNode> = AudioGraph::new();
    let a = graph.add_node(PassthroughNode::new(1));
    let b = graph.add_node(PassthroughNode::new(2));
    *graph.get_node_mut(a).unwrap() = PassthroughNode::new(7);
    assert_eq!(graph.get_node(a).unwrap().input_count(), 7);
    assert_eq!(graph.get_node(b).unwrap().input_count(), 2);
}

#[test]
fn removing_a_node_drops_its_connections() {
    let mut graph: AudioGraph = AudioGraph::new();
    let a = graph.add_node(boxed(2));
    let b = graph.add_node(boxed(2));
    let c = graph.add_node(boxed(2));
    graph.connect(wire(a, b));
    graph.connect(wire(b, c));
    graph.connect(wire(a, c));
    graph.connect(wire(c, b));
    graph.remove_node(b);
    assert_eq!(graph.edges(), vec![(a, c)]);
    // An unknown id changes nothing.
    graph.remove_node(NodeId(77));
    assert_eq!(graph.edges(), vec![(a, c)]);
    assert!(graph.get_node(a).is_some());
    assert!(graph.get_node(c).is_some());
}

#[test]
fn disconnect_removes_every_connection_between_the_two() {
    let mut graph: AudioGraph = AudioGraph::new();
    let a = graph.add_node(boxed(2));
    let b = graph.add_node(boxed(2));
    graph.connect(Connection { source: a, source_port: 0, target: b, target_port: 0 });
    graph.connect(Connection { source: a, source_port: 1, target: b, target_port: 1 });
    graph.connect(wire(b, a));
    graph.disconnect(a, b);
    assert_eq!(graph.edges(), vec![(b, a)]);
    graph.disconnect(a, b);
    assert_eq!(graph.edges(), vec![(b, a)]);
}

#[test]
fn connections_are_not_checked_against_the_nodes() {
    let mut graph: AudioGraph = AudioGraph::default();
    graph.connect(wire(NodeId(5), NodeId(6)));
    graph.connect(wire(NodeId(5), NodeId(6)));
    assert_eq!(graph.edges(), vec![(NodeId(5), NodeId(6)), (NodeId(5), NodeId(6))]);
}

#[test]
fn nodes_have_defaults_for_what_they_need_not_say() {
    let mut node = PassthroughNode::new(2);
    assert_eq!(node.latency(), 0);
    node.reset();
    node.set_sample_rate(SampleRate(96000));
    assert_eq!(node.input_count(), 2);
    assert_eq!(node.output_count(), 2);
    let master = MasterNode;
    assert_eq!(master.input_count(), 2);
    assert_eq!(master.output_count(), 0);
    assert_eq!(master.latency(), 0);
}

#[test]
fn a_passthrough_copies_input_to_output() {
    let mut node = PassthroughNode::new(2);
    let left = AudioBuffer::from_samples(vec![1, 2, 3], ChannelCount(1)).unwrap();
    let right = AudioBuffer::from_samples(vec![4, 5], ChannelCount(1)).unwrap();
    let inputs = vec![left, right];
    let mut outputs = vec![
        AudioBuffer::new(ChannelCount(1), 3),
        AudioBuffer::new(ChannelCount(1), 3),
        AudioBuffer::from_samples(vec![9, 9, 9], ChannelCount(1)).unwrap(),
    ];
    node.process(&inputs, &mut outputs, &context(3));
    assert_eq!(outputs[0].samples(), &[1, 2, 3]);
    assert_eq!(outputs[1].samples(), &[4, 5, 0]);
    assert_eq!(outputs[2].samples(), &[9, 9, 9]);
}

#[test]
fn the_master_leaves_its_outputs_alone() {
    let mut node = MasterNode;
    let inputs = vec![AudioBuffer::from_samples(vec![1, 2], ChannelCount(1)).unwrap()];
    let mut outputs = vec![AudioBuffer::from_samples(vec![7, 8], ChannelCount(1)).unwrap()];
    node.process(&inputs, &mut outputs, &context(2));
    assert_eq!(outputs[0].samples(), &[7, 8]);
}
