use koto_audio::audio::{AudioBuffer, ChannelCount, SampleRate};
use koto_audio::buffer_pool::BufferPool;
use koto_audio::drive::{drive, DriveError, DriveReport, DriveScratch};
use koto_audio::graph::{AudioGraph, Connection, NodeId};
use koto_audio::node::{MasterNode, PassthroughNode};
use koto_audio::processor::{AudioNode, ProcessContext};
use koto_audio::schedule::GraphScheduler;
use koto_audio::stage::Stage;
use koto_audio::time::{SamplePosition, Tempo, TimeSignature};

const FRAMES: usize = 4;

/// A node without inputs that writes a constant into its one output.
struct Source {
    level: f32,
}

impl AudioNode for Source {
    fn input_count(&self) -> usize {
        0
    }

    fn output_count(&self) -> usize {
        1
    }

    fn name(&self) -> &str {
        "Source"
    }

    fn process(&mut self, _inputs: &[AudioBuffer], outputs: &mut Vec<AudioBuffer>, _context: &ProcessContext) {
        for output in outputs.iter_mut() {
            for frame in 0..output.frames() {
                output.set(frame, 0, (self.level * (frame + 1) as f32).to_bits());
            }
        }
    }
}

fn plus(a: u32, b: u32) -> u32 {
    (f32::from_bits(a) + f32::from_bits(b)).to_bits()
}

fn context() -> ProcessContext<'static> {
    ProcessContext {
        sample_rate: SampleRate(48000),
        tempo: Tempo::default(),
        time_signature: TimeSignature::common_time(),
        playhead: SamplePosition(0),
        frames: FRAMES,
        midi_events: &[],
        is_playing: true,
        is_recording: false,
    }
}

fn floats(buffer: &AudioBuffer) -> Vec<f32> {
    buffer.samples().iter().map(|s| f32::from_bits(*s)).collect()
}

fn wire(source: NodeId, source_port: u32, target: NodeId, target_port: u32) -> Connection {
    Connection { source, source_port, target, target_port }
}

struct Rig {
    graph: AudioGraph,
    a: NodeId,
    b: NodeId,
    through: NodeId,
    master: NodeId,
}

/// Two sources into one passthrough port, the passthrough and one source
/// into the master.
fn rig() -> Rig {
    let mut graph: AudioGraph = AudioGraph::new();
    let a = graph.add_node(Box::new(Source { level: 1.0 }));
    let b = graph.add_node(Box::new(Source { level: 10.0 }));
    let through = graph.add_node(Box::new(PassthroughNode::new(1)));
    let master = graph.add_node(Box::new(MasterNode));
    graph.connect(wire(a, 0, through, 0));
    graph.connect(wire(b, 0, through, 0));
    graph.connect(wire(through, 0, master, 0));
    graph.connect(wire(b, 0, master, 1));
    Rig { graph, a, b, through, master }
}

fn outputs(count: usize) -> Vec<AudioBuffer> {
    (0..count).map(|_| AudioBuffer::new(ChannelCount(1), FRAMES)).collect()
}

#[test]
fn a_period_runs_through_the_graph_in_scheduled_order() {
    let mut rig = rig();
    let order = GraphScheduler::compute_order(&rig.graph, &rig.graph.edges()).unwrap();
    assert_eq!(order, vec![rig.a, rig.b, rig.through, rig.master]);
    let mut pool = BufferPool::new(8, ChannelCount(1), FRAMES);
    let mut scratch = DriveScratch::with_capacity(4, 8);
    let mut out = outputs(2);
    let report =
        drive(&mut rig.graph, &order, &mut pool, &mut scratch, &context(), &plus, rig.master, &mut out).unwrap();
    assert_eq!(report, DriveReport { processed: 4, missing: 0, unrouted: 0 });
    // Port 0 of the master hears both sources mixed, port 1 the second alone.
    assert_eq!(floats(&out[0]), vec![11.0, 22.0, 33.0, 44.0]);
    assert_eq!(floats(&out[1]), vec![10.0, 20.0, 30.0, 40.0]);
    assert_eq!(pool.available(), 8);
}

#[test]
fn the_pool_has_every_buffer_back_after_each_drive() {
    let mut rig = rig();
    let order = GraphScheduler::compute_order(&rig.graph, &rig.graph.edges()).unwrap();
    let mut pool = BufferPool::new(5, ChannelCount(1), FRAMES);
    let mut scratch = DriveScratch::with_capacity(4, 8);
    let mut out = outputs(2);
    for _ in 0..3 {
        let result = drive(&mut rig.graph, &order, &mut pool, &mut scratch, &context(), &plus, rig.master, &mut out);
        assert!(result.is_ok());
        assert_eq!(pool.available(), 5);
        assert_eq!(floats(&out[0]), vec![11.0, 22.0, 33.0, 44.0]);
    }
}

#[test]
fn a_pool_too_small_ends_the_drive_and_keeps_its_buffers() {
    let mut rig = rig();
    let order = GraphScheduler::compute_order(&rig.graph, &rig.graph.edges()).unwrap();
    for capacity in 0..5 {
        let mut pool = BufferPool::new(capacity, ChannelCount(1), FRAMES);
        let mut scratch = DriveScratch::with_capacity(4, 8);
        let mut out = outputs(2);
        let result = drive(&mut rig.graph, &order, &mut pool, &mut scratch, &context(), &plus, rig.master, &mut out);
        assert_eq!(result, Err(DriveError::PoolExhausted));
        assert_eq!(pool.available(), capacity);
    }
}

#[test]
fn an_unknown_node_in_the_order_is_passed_over() {
    let mut rig = rig();
    let order = vec![rig.a, NodeId(99), rig.b, rig.through, rig.master];
    let mut pool = BufferPool::new(8, ChannelCount(1), FRAMES);
    let mut scratch = DriveScratch::with_capacity(4, 8);
    let mut out = outputs(2);
    let report =
        drive(&mut rig.graph, &order, &mut pool, &mut scratch, &context(), &plus, rig.master, &mut out).unwrap();
    assert_eq!(report, DriveReport { processed: 4, missing: 1, unrouted: 0 });
    assert_eq!(floats(&out[0]), vec![11.0, 22.0, 33.0, 44.0]);
}

#[test]
fn connections_to_ports_that_do_not_exist_bring_nothing() {
    let mut rig = rig();
    rig.graph.connect(wire(rig.a, 3, rig.master, 0));
    rig.graph.connect(wire(rig.a, 0, rig.master, 7));
    rig.graph.connect(wire(NodeId(50), 0, rig.master, 0));
    let order = vec![rig.a, rig.b, rig.through, rig.master];
    let mut pool = BufferPool::new(8, ChannelCount(1), FRAMES);
    let mut scratch = DriveScratch::with_capacity(4, 8);
    let mut out = outputs(2);
    let report =
        drive(&mut rig.graph, &order, &mut pool, &mut scratch, &context(), &plus, rig.master, &mut out).unwrap();
    assert_eq!(report, DriveReport { processed: 4, missing: 0, unrouted: 3 });
    assert_eq!(floats(&out[0]), vec![11.0, 22.0, 33.0, 44.0]);
    assert_eq!(pool.available(), 8);
}

#[test]
fn a_source_that_has_not_processed_brings_nothing() {
    let mut rig = rig();
    // The master before its sources: nothing arrives yet.
    let order = vec![rig.master, rig.a, rig.b, rig.through];
    let mut pool = BufferPool::new(8, ChannelCount(1), FRAMES);
    let mut scratch = DriveScratch::with_capacity(4, 8);
    let mut out = outputs(2);
    let report =
        drive(&mut rig.graph, &order, &mut pool, &mut scratch, &context(), &plus, rig.master, &mut out).unwrap();
    assert_eq!(report, DriveReport { processed: 4, missing: 0, unrouted: 2 });
    assert_eq!(floats(&out[0]), vec![0.0, 0.0, 0.0, 0.0]);
    assert_eq!(floats(&out[1]), vec![0.0, 0.0, 0.0, 0.0]);
}

#[test]
fn an_empty_order_drives_nothing() {
    let mut rig = rig();
    let mut pool = BufferPool::new(0, ChannelCount(1), FRAMES);
    let mut scratch = DriveScratch::with_capacity(0, 0);
    let mut out = outputs(1);
    out[0].set(0, 0, 5);
    let report = drive(&mut rig.graph, &[], &mut pool, &mut scratch, &context(), &plus, rig.master, &mut out).unwrap();
    assert_eq!(report, DriveReport { processed: 0, missing: 0, unrouted: 0 });
    assert_eq!(out[0].get(0, 0), Some(5));
}

#[test]
fn a_stage_plays_the_graph_it_was_given() {
    let rig = rig();
    let master = rig.master;
    let pool = BufferPool::new(8, ChannelCount(1), FRAMES);
    let mut stage = match Stage::new(rig.graph, master, pool, 2) {
        Ok(stage) => stage,
        Err(_) => panic!("the graph has no cycle"),
    };
    assert_eq!(stage.schedule(), &vec![rig.a, rig.b, rig.through, master]);
    assert_eq!(stage.listen().len(), 2);
    let report = stage.play(&context(), &plus).unwrap();
    assert_eq!(report, DriveReport { processed: 4, missing: 0, unrouted: 0 });
    assert_eq!(floats(&stage.listen()[0]), vec![11.0, 22.0, 33.0, 44.0]);
    assert_eq!(floats(&stage.listen()[1]), vec![10.0, 20.0, 30.0, 40.0]);
}

#[test]
fn a_stage_refuses_a_graph_with_a_cycle_and_keeps_its_own() {
    let rig = rig();
    let master = rig.master;
    let pool = BufferPool::new(8, ChannelCount(1), FRAMES);
    let mut stage = match Stage::new(rig.graph, master, pool, 2) {
        Ok(stage) => stage,
        Err(_) => panic!("the graph has no cycle"),
    };
    let before = stage.schedule().clone();

    let mut looped: AudioGraph = AudioGraph::new();
    let x = looped.add_node(Box::new(PassthroughNode::new(1)));
    let y = looped.add_node(Box::new(PassthroughNode::new(1)));
    looped.connect(wire(x, 0, y, 0));
    looped.connect(wire(y, 0, x, 0));
    match stage.install(looped, y) {
        Err((error, back)) => {
            assert_eq!(error, koto_audio::schedule::ScheduleError::GraphCycle);
            assert_eq!(back.edges(), vec![(x, y), (y, x)]);
        }
        Ok(_) => panic!("a graph with a cycle was taken"),
    }
    assert_eq!(stage.schedule(), &before);
    assert!(stage.play(&context(), &plus).is_ok());
    assert_eq!(floats(&stage.listen()[0]), vec![11.0, 22.0, 33.0, 44.0]);
}

#[test]
fn a_stage_takes_another_graph_and_hands_the_old_one_back() {
    let rig = rig();
    let master = rig.master;
    let pool = BufferPool::new(8, ChannelCount(1), FRAMES);
    let mut stage = match Stage::new(rig.graph, master, pool, 2) {
        Ok(stage) => stage,
        Err(_) => panic!("the graph has no cycle"),
    };
    let mut next: AudioGraph = AudioGraph::new();
    let source = next.add_node(Box::new(Source { level: 2.0 }));
    let sink = next.add_node(Box::new(MasterNode));
    next.connect(wire(source, 0, sink, 1));
    let old = match stage.install(next, sink) {
        Ok(old) => old,
        Err(_) => panic!("the graph has no cycle"),
    };
    assert_eq!(old.edges().len(), 4);
    assert_eq!(stage.schedule(), &vec![source, sink]);
    stage.play(&context(), &plus).unwrap();
    assert_eq!(floats(&stage.listen()[0]), vec![0.0, 0.0, 0.0, 0.0]);
    assert_eq!(floats(&stage.listen()[1]), vec![2.0, 4.0, 6.0, 8.0]);
    assert!(stage.node_mut(source).is_some());
    assert!(stage.node_mut(NodeId(9)).is_none());
}

#[test]
fn no_stage_for_a_graph_with_a_cycle() {
    let mut looped: AudioGraph = AudioGraph::new();
    let x = looped.add_node(Box::new(PassthroughNode::new(1)));
    looped.connect(wire(x, 0, x, 0));
    let pool = BufferPool::new(2, ChannelCount(1), FRAMES);
    assert!(Stage::new(looped, x, pool, 1).is_err());
}

#[test]
fn an_order_that_names_no_node_goes_through_without_buffers() {
    let mut rig = rig();
    let order = vec![NodeId(40), NodeId(41), NodeId(40)];
    let mut pool = BufferPool::new(0, ChannelCount(1), FRAMES);
    let mut scratch = DriveScratch::with_capacity(0, 0);
    let mut out = outputs(1);
    out[0].set(1, 0, 7);
    let report =
        drive(&mut rig.graph, &order, &mut pool, &mut scratch, &context(), &plus, rig.master, &mut out).unwrap();
    assert_eq!(report, DriveReport { processed: 0, missing: 3, unrouted: 0 });
    assert_eq!(out[0].get(1, 0), Some(7));
    assert_eq!(pool.available(), 0);
}

#[test]
fn what_is_heard_stays_where_the_sink_does_not_process() {
    let mut rig = rig();
    let order = vec![rig.a, rig.b, rig.through];
    let mut pool = BufferPool::new(8, ChannelCount(1), FRAMES);
    let mut scratch = DriveScratch::with_capacity(4, 8);
    let mut out = outputs(2);
    out[1].set(0, 0, 3);
    let report =
        drive(&mut rig.graph, &order, &mut pool, &mut scratch, &context(), &plus, rig.master, &mut out).unwrap();
    assert_eq!(report, DriveReport { processed: 3, missing: 0, unrouted: 0 });
    assert_eq!(out[0].samples(), &[0, 0, 0, 0]);
    assert_eq!(out[1].samples(), &[3, 0, 0, 0]);
}

#[test]
fn a_boxed_node_answers_as_the_node_in_the_box() {
    let boxed: Box<dyn AudioNode> = Box::new(PassthroughNode::new(3));
    assert_eq!(AudioNode::input_count(&boxed), 3);
    assert_eq!(AudioNode::output_count(&boxed), 3);
    assert_eq!(AudioNode::name(&boxed), "Passthrough");
    assert_eq!(AudioNode::latency(&boxed), 0);
    let mut boxed = boxed;
    let inputs = vec![AudioBuffer::from_samples(vec![1, 2], ChannelCount(1)).unwrap()];
    let mut outs = vec![AudioBuffer::new(ChannelCount(1), 2)];
    AudioNode::process(&mut boxed, &inputs, &mut outs, &context());
    assert_eq!(outs[0].samples(), &[1, 2]);
}
