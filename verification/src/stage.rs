//! The graph that plays, with its schedule and its buffers.
//!
//! Graphs are edited away from the audio thread. A stage takes a finished
//! graph, schedules it, and from then on drives it once per period. A
//! graph whose connections close a cycle is not taken: the stage keeps the
//! graph that it has, and goes on playing it.
use vstd::prelude::*;
use crate::audio::{AudioBuffer, Sample};
use crate::buffer_pool::BufferPool;
use crate::drive::{drive, heard_after, named, stuck, went, DriveError, DriveReport, DriveScratch, Turn};
use crate::graph::{pairs, AudioGraph, NodeId};
use crate::processor::{all_wf, AudioNode, ProcessContext};
use crate::schedule::{has_cycle, is_schedule, is_topological_order, ScheduleError};

verus! {

/// A graph with its schedule, the pool that lends its buffers, and the
/// buffers in which the inputs of its sink node are heard.
pub struct Stage<N: AudioNode = Box<dyn AudioNode>> {
    graph: AudioGraph<N>,
    order: Vec<NodeId>,
    sink: NodeId,
    pool: BufferPool,
    scratch: DriveScratch,
    heard: Vec<AudioBuffer>,
}

impl<N: AudioNode> Stage<N> {
    /// The graph on the stage.
    pub closed spec fn graph(&self) -> AudioGraph<N> {
        self.graph
    }

    /// The order in which the nodes of the graph are driven.
    pub closed spec fn order(&self) -> Seq<NodeId> {
        self.order@
    }

    /// The node whose inputs are heard.
    pub closed spec fn sink(&self) -> NodeId {
        self.sink
    }

    /// The pool that lends the buffers.
    pub closed spec fn pool(&self) -> BufferPool {
        self.pool
    }

    /// What was heard at the sink in the last period.
    pub closed spec fn heard(&self) -> Seq<AudioBuffer> {
        self.heard@
    }

    /// The graph, the pool and the buffers are well formed, and the order
    /// is the schedule of the graph's connections.
    pub closed spec fn wf(&self) -> bool {
        &&& self.graph.wf()
        &&& self.pool.wf()
        &&& self.scratch.is_empty()
        &&& all_wf(self.heard@)
        &&& is_topological_order(pairs(self.graph.connections()), self.order@)
        &&& is_schedule(pairs(self.graph.connections()), self.order@)
    }

    /// On a well-formed stage the order is the schedule of the graph.
    pub proof fn lemma_order_is_schedule(&self)
        requires
            self.wf(),
        ensures
            is_topological_order(pairs(self.graph().connections()), self.order()),
            is_schedule(pairs(self.graph().connections()), self.order()),
            !has_cycle(pairs(self.graph().connections())),
    {
        if has_cycle(pairs(self.graph().connections())) {
            crate::schedule::lemma_cycle_excludes_order(pairs(self.graph().connections()), self.order());
        }
    }

    /// A stage for `graph`, with `sink` as the node whose inputs are heard
    /// in `outputs` buffers of the pool's shape. A graph with a cycle is
    /// handed back.
    pub fn new(graph: AudioGraph<N>, sink: NodeId, pool: BufferPool, outputs: usize) -> (r: Result<
        Self,
        (ScheduleError, AudioGraph<N>),
    >)
        requires
            graph.wf(),
            pool.wf(),
        ensures
            r is Ok <==> !has_cycle(pairs(graph.connections())),
            r matches Ok(stage) ==> {
                &&& stage.wf()
                &&& stage.graph() == graph
                &&& stage.sink() == sink
                &&& stage.pool() == pool
                &&& stage.heard().len() == outputs
            },
            r matches Err(refused) ==> refused.0 == ScheduleError::GraphCycle && refused.1 == graph,
    {
        match graph.schedule() {
            Ok(order) => {
                let mut heard: Vec<AudioBuffer> = Vec::new();
                while heard.len() < outputs
                    invariant
                        heard@.len() <= outputs,
                        pool.wf(),
                        all_wf(heard@),
                    decreases outputs - heard@.len(),
                {
                    heard.push(pool.spare());
                }
                let scratch = DriveScratch::with_capacity(order.len(), pool.capacity());
                Ok(Stage { graph, order, sink, pool, scratch, heard })
            },
            Err(error) => Err((error, graph)),
        }
    }

    /// Put another graph on the stage. The result is the graph that leaves
    /// the stage: the one that was there, or, where `graph` has a cycle,
    /// `graph` itself, in which case the stage stays as it was.
    pub fn install(&mut self, graph: AudioGraph<N>, sink: NodeId) -> (r: Result<
        AudioGraph<N>,
        (ScheduleError, AudioGraph<N>),
    >)
        requires
            old(self).wf(),
            graph.wf(),
        ensures
            final(self).wf(),
            final(self).pool() == old(self).pool(),
            final(self).heard() == old(self).heard(),
            r is Ok <==> !has_cycle(pairs(graph.connections())),
            r matches Ok(previous) ==> {
                &&& previous == old(self).graph()
                &&& final(self).graph() == graph
                &&& final(self).sink() == sink
            },
            r matches Err(refused) ==> {
                &&& refused.0 == ScheduleError::GraphCycle
                &&& refused.1 == graph
                &&& final(self).graph() == old(self).graph()
                &&& final(self).order() == old(self).order()
                &&& final(self).sink() == old(self).sink()
            },
    {
        match graph.schedule() {
            Ok(order) => {
                let mut incoming = graph;
                std::mem::swap(&mut self.graph, &mut incoming);
                self.scratch = DriveScratch::with_capacity(order.len(), self.pool.capacity());
                self.order = order;
                self.sink = sink;
                Ok(incoming)
            },
            Err(error) => Err((error, graph)),
        }
    }

    /// Drive the graph through one period, with `sum` as the addition that
    /// mixes what several connections bring to one port. Afterwards
    /// `listen` gives what arrived at the sink: the drive went turn by turn
    /// as `went` says, and what is heard is what the last turn left. The
    /// drive ends early only where the pool has fewer buffers left than the
    /// node next in turn has ports.
    pub fn play<F: Fn(Sample, Sample) -> Sample>(&mut self, context: &ProcessContext, sum: &F) -> (r: Result<
        DriveReport,
        DriveError,
    >)
        requires
            old(self).wf(),
            forall|a: Sample, b: Sample| call_requires(sum, (a, b)),
        ensures
            final(self).wf(),
            final(self).order() == old(self).order(),
            final(self).sink() == old(self).sink(),
            final(self).graph().node_ids() == old(self).graph().node_ids(),
            final(self).graph().connections() == old(self).graph().connections(),
            final(self).pool().spec_available() == old(self).pool().spec_available(),
            final(self).pool().spec_capacity() == old(self).pool().spec_capacity(),
            final(self).heard().len() == old(self).heard().len(),
            !(old(self).order().contains(old(self).sink()) && old(self).graph().has_node(old(self).sink()))
                ==> final(self).heard() == old(self).heard(),
            named(old(self).graph().node_ids(), old(self).order(), old(self).order().len() as int) == 0 ==> r
                == Ok::<DriveReport, DriveError>(
                DriveReport { processed: 0, missing: old(self).order().len() as usize, unrouted: 0 },
            ),
            r matches Ok(report) ==> {
                &&& report.processed == named(
                    old(self).graph().node_ids(),
                    old(self).order(),
                    old(self).order().len() as int,
                )
                &&& report.processed + report.missing == old(self).order().len()
            },
            r matches Err(error) ==> error == DriveError::PoolExhausted,
            exists|turns: Seq<Turn<N>>|
                {
                    &&& #[trigger] went(
                        turns,
                        old(self).order(),
                        old(self).graph().node_ids(),
                        old(self).graph().connections(),
                        context,
                        sum,
                        &old(self).pool(),
                        old(self).sink(),
                        old(self).heard(),
                    )
                    &&& final(self).heard() == heard_after(turns, old(self).heard())
                    &&& r matches Ok(report) ==> turns.len() == report.processed
                },
            r is Err ==> exists|turns: Seq<Turn<N>>, at: int, ins: usize, outs: usize|
                {
                    &&& went(
                        turns,
                        old(self).order(),
                        old(self).graph().node_ids(),
                        old(self).graph().connections(),
                        context,
                        sum,
                        &old(self).pool(),
                        old(self).sink(),
                        old(self).heard(),
                    )
                    &&& #[trigger] stuck(
                        turns,
                        old(self).order(),
                        old(self).graph().node_ids(),
                        final(self).graph().nodes(),
                        old(self).pool().spec_available(),
                        at,
                        ins,
                        outs,
                    )
                },
    {
        let ghost order = self.order@;
        let ghost ids = self.graph.node_ids();
        let ghost wires = self.graph.connections();
        let ghost lender = self.pool;
        let ghost heard = self.heard@;
        let sink: NodeId = self.sink;
        let r = drive(
            &mut self.graph,
            self.order.as_slice(),
            &mut self.pool,
            &mut self.scratch,
            context,
            sum,
            sink,
            &mut self.heard,
        );
        proof {
            let turns = choose|turns: Seq<Turn<N>>|
                {
                    &&& #[trigger] went(turns, order, ids, wires, context, sum, &lender, sink, heard)
                    &&& self.heard@ == heard_after(turns, heard)
                    &&& r matches Ok(report) ==> turns.len() == report.processed
                };
            assert(went(
                turns,
                old(self).order(),
                old(self).graph().node_ids(),
                old(self).graph().connections(),
                context,
                sum,
                &old(self).pool(),
                old(self).sink(),
                old(self).heard(),
            ));
            if r is Err {
                let (stopped, at, ins, outs) = choose|stopped: Seq<Turn<N>>, at: int, ins: usize, outs: usize|
                    {
                        &&& went(stopped, order, ids, wires, context, sum, &lender, sink, heard)
                        &&& #[trigger] stuck(
                            stopped,
                            order,
                            ids,
                            self.graph.nodes(),
                            lender.spec_available(),
                            at,
                            ins,
                            outs,
                        )
                    };
                assert(stuck(
                    stopped,
                    old(self).order(),
                    old(self).graph().node_ids(),
                    self.graph().nodes(),
                    old(self).pool().spec_available(),
                    at,
                    ins,
                    outs,
                ));
            }
        }
        r
    }

    /// What arrived at the inputs of the sink in the last period.
    pub fn listen(&self) -> (r: &Vec<AudioBuffer>)
        ensures
            r@ == self.heard(),
    {
        &self.heard
    }

    /// The order in which the nodes are driven.
    pub fn schedule(&self) -> (r: &Vec<NodeId>)
        ensures
            r@ == self.order(),
    {
        &self.order
    }

    /// The node named `id`, open to change, for setting its parameters.
    pub fn node_mut(&mut self, id: NodeId) -> (r: Option<&mut N>)
        requires
            old(self).wf(),
        ensures
            r is Some <==> old(self).graph().has_node(id),
            final(self).wf(),
            final(self).order() == old(self).order(),
            final(self).sink() == old(self).sink(),
            final(self).pool() == old(self).pool(),
            final(self).heard() == old(self).heard(),
            final(self).graph().node_ids() == old(self).graph().node_ids(),
            final(self).graph().connections() == old(self).graph().connections(),
    {
        self.graph.get_node_mut(id)
    }
}

} // verus!
