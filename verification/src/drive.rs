//! Driving the graph: one period through every node, in scheduled order.
//!
//! Each node gets its input buffers and its output buffers from the pool.
//! What the connections bring to an input port is mixed into its buffer;
//! the node processes; its outputs stay at hand for the nodes after it. At
//! the end every buffer is back in the pool, whichever way the drive ends.
use vstd::prelude::*;
use crate::audio::{silence, AudioBuffer, Sample};
use crate::buffer_pool::BufferPool;
use crate::graph::{AudioGraph, Connection, NodeId};
use crate::node::passed_through;
use crate::processor::{all_wf, shapes_kept, AudioNode, ProcessContext};

verus! {

/// Why a drive ended early.
#[derive(Debug, Clone, Copy, PartialEq, Eq, Structural)]
pub enum DriveError {
    /// The pool had no buffer left for a port.
    PoolExhausted,
}

/// What a drive did.
#[derive(Debug, Clone, Copy, PartialEq, Eq, Structural)]
pub struct DriveReport {
    /// The nodes that processed.
    pub processed: usize,
    /// The entries of the order that name no node of the graph.
    pub missing: usize,
    /// The connections into processed nodes that brought nothing, because
    /// their source had not processed or a port does not exist.
    pub unrouted: usize,
}

/// Every buffer of `buffers` is well formed and of the pool's shape.
pub open spec fn all_fit(pool: &BufferPool, buffers: Seq<AudioBuffer>) -> bool {
    forall|i: int| 0 <= i < buffers.len() ==> pool.fits(&#[trigger] buffers[i])
}

/// The working space of a drive. It is empty between drives and keeps its
/// room, so that a drive does not allocate once the graph has been driven.
pub struct DriveScratch {
    made: Vec<AudioBuffer>,
    owners: Vec<NodeId>,
    starts: Vec<usize>,
    inputs: Vec<AudioBuffer>,
    outputs: Vec<AudioBuffer>,
}

impl DriveScratch {
    /// Whether the working space holds nothing.
    pub closed spec fn is_empty(&self) -> bool {
        &&& self.made@.len() == 0
        &&& self.owners@.len() == 0
        &&& self.starts@.len() == 0
        &&& self.inputs@.len() == 0
        &&& self.outputs@.len() == 0
    }

    /// Working space with room for `nodes` nodes and `buffers` buffers.
    pub fn with_capacity(nodes: usize, buffers: usize) -> (r: Self)
        ensures
            r.is_empty(),
    {
        DriveScratch {
            made: Vec::with_capacity(buffers),
            owners: Vec::with_capacity(nodes),
            starts: Vec::with_capacity(nodes),
            inputs: Vec::with_capacity(buffers),
            outputs: Vec::with_capacity(buffers),
        }
    }
}

/// Take `count` buffers from the pool into `held`. The result says whether
/// the pool had as many; if not, `held` has all that the pool had. The
/// buffers taken are silent and stand behind those that `held` had.
fn acquire_into(pool: &mut BufferPool, count: usize, held: &mut Vec<AudioBuffer>) -> (complete: bool)
    requires
        old(pool).wf(),
        all_fit(old(pool), old(held)@),
    ensures
        final(pool).wf(),
        final(pool).spec_capacity() == old(pool).spec_capacity(),
        final(pool).spec_channels() == old(pool).spec_channels(),
        final(pool).spec_frames() == old(pool).spec_frames(),
        all_fit(final(pool), final(held)@),
        complete <==> old(pool).spec_available() >= count,
        final(held)@.len() == old(held)@.len() + if complete {
            count as int
        } else {
            old(pool).spec_available() as int
        },
        final(pool).spec_available() + final(held)@.len() == old(pool).spec_available() + old(held)@.len(),
        forall|i: int| 0 <= i < old(held)@.len() ==> final(held)@[i] == old(held)@[i],
        forall|i: int|
            old(held)@.len() <= i < final(held)@.len() ==> (#[trigger] final(held)@[i])@ == silence(final(held)@[i]@.len()),
{
    let mut taken: usize = 0;
    while taken < count
        invariant
            taken <= count,
            pool.wf(),
            pool.spec_capacity() == old(pool).spec_capacity(),
            pool.spec_channels() == old(pool).spec_channels(),
            pool.spec_frames() == old(pool).spec_frames(),
            all_fit(pool, held@),
            held@.len() == old(held)@.len() + taken,
            pool.spec_available() + taken == old(pool).spec_available(),
            forall|i: int| 0 <= i < old(held)@.len() ==> held@[i] == old(held)@[i],
            forall|i: int| old(held)@.len() <= i < held@.len() ==> (#[trigger] held@[i])@ == silence(held@[i]@.len()),
        decreases count - taken,
    {
        let ghost before = held@;
        match pool.acquire() {
            Some(buffer) => {
                held.push(buffer);
                assert forall|i: int| old(held)@.len() <= i < held@.len() implies (#[trigger] held@[i])@ == silence(
                    held@[i]@.len(),
                ) by {
                    if i < before.len() {
                        assert(held@[i] == before[i]);
                    }
                }
                taken += 1;
            },
            None => {
                return false;
            },
        }
    }
    true
}

/// Give every buffer of `held` back to the pool.
fn release_all(pool: &mut BufferPool, held: &mut Vec<AudioBuffer>)
    requires
        old(pool).wf(),
        all_fit(old(pool), old(held)@),
        old(pool).spec_available() + old(held)@.len() <= old(pool).spec_capacity(),
    ensures
        final(pool).wf(),
        final(pool).spec_capacity() == old(pool).spec_capacity(),
        final(pool).spec_channels() == old(pool).spec_channels(),
        final(pool).spec_frames() == old(pool).spec_frames(),
        final(held)@.len() == 0,
        final(pool).spec_available() == old(pool).spec_available() + old(held)@.len(),
{
    while held.len() > 0
        invariant
            pool.wf(),
            pool.spec_capacity() == old(pool).spec_capacity(),
            pool.spec_channels() == old(pool).spec_channels(),
            pool.spec_frames() == old(pool).spec_frames(),
            all_fit(pool, held@),
            pool.spec_available() + held@.len() == old(pool).spec_available() + old(held)@.len(),
            pool.spec_available() + held@.len() <= pool.spec_capacity(),
        decreases held@.len(),
    {
        let ghost before = held@;
        match held.pop() {
            Some(buffer) => {
                assert(buffer == before[before.len() - 1]);
                assert(pool.fits(&buffer));
                pool.release(buffer);
                assert(all_fit(pool, held@)) by {
                    assert forall|i: int| 0 <= i < held@.len() implies pool.fits(&#[trigger] held@[i]) by {
                        assert(held@[i] == before[i]);
                    }
                }
            },
            None => {},
        }
    }
}

/// The outputs of the nodes that have processed lie in one row, those of
/// each node together, and `starts` says where each node's begin.
pub open spec fn laid_out(owners: Seq<NodeId>, starts: Seq<usize>, made: int) -> bool {
    &&& owners.len() == starts.len()
    &&& forall|j: int| 0 <= j < starts.len() ==> #[trigger] starts[j] <= made
    &&& forall|i: int, j: int| 0 <= i < j < starts.len() ==> #[trigger] starts[i] <= #[trigger] starts[j]
}

/// The place of the first `id` in `owners`, or the length of `owners` if
/// there is none.
pub open spec fn first_of(owners: Seq<NodeId>, id: NodeId) -> int
    decreases owners.len(),
{
    if owners.len() == 0 {
        0
    } else if owners[0] == id {
        0
    } else {
        1 + first_of(owners.drop_first(), id)
    }
}

/// `first_of` is a place in `owners` exactly if `id` is there, and `id` is
/// at no place before it.
proof fn lemma_first_of(owners: Seq<NodeId>, id: NodeId)
    ensures
        0 <= first_of(owners, id) <= owners.len(),
        first_of(owners, id) < owners.len() ==> owners[first_of(owners, id)] == id,
        forall|i: int| 0 <= i < first_of(owners, id) ==> #[trigger] owners[i] != id,
    decreases owners.len(),
{
    if owners.len() > 0 && owners[0] != id {
        let rest = owners.drop_first();
        lemma_first_of(rest, id);
        assert forall|i: int| 0 <= i < first_of(owners, id) implies #[trigger] owners[i] != id by {
            if i > 0 {
                assert(owners[i] == rest[i - 1]);
            }
        }
    }
}

/// The number of output buffers of the node at place `j` of the row.
pub open spec fn span_of(starts: Seq<usize>, made: int, j: int) -> int {
    (if j + 1 < starts.len() {
        starts[j + 1] as int
    } else {
        made
    }) - starts[j]
}

/// Where the buffer of output port `port` of node `source` lies in the row:
/// behind the start of the node's outputs, where `source` has processed and
/// has that many ports. A node that has processed twice is found at its
/// first time.
pub open spec fn slot_of(owners: Seq<NodeId>, starts: Seq<usize>, made: int, source: NodeId, port: int) -> Option<
    int,
> {
    let j = first_of(owners, source);
    if j < owners.len() && port < span_of(starts, made, j) {
        Some(starts[j] + port)
    } else {
        None
    }
}

/// Where the buffer of output port `port` of node `source` lies in the row,
/// if that node has processed and has such a port.
fn output_slot(owners: &Vec<NodeId>, starts: &Vec<usize>, made: usize, source: NodeId, port: u32) -> (r: Option<
    usize,
>)
    requires
        laid_out(owners@, starts@, made as int),
    ensures
        r is Some <==> slot_of(owners@, starts@, made as int, source, port as int) is Some,
        r matches Some(slot) ==> slot < made && slot_of(owners@, starts@, made as int, source, port as int)
            == Some(slot as int),
{
    proof {
        lemma_first_of(owners@, source);
    }
    let mut j: usize = 0;
    while j < owners.len()
        invariant
            j <= owners.len(),
            j <= first_of(owners@, source),
            first_of(owners@, source) <= owners@.len(),
            first_of(owners@, source) < owners@.len() ==> owners@[first_of(owners@, source)] == source,
            forall|i: int| 0 <= i < first_of(owners@, source) ==> #[trigger] owners@[i] != source,
            laid_out(owners@, starts@, made as int),
        decreases owners.len() - j,
    {
        if owners[j] == source {
            let start: usize = starts[j];
            let end: usize = if j + 1 < starts.len() {
                starts[j + 1]
            } else {
                made
            };
            let wanted: usize = port as usize;
            if wanted < end - start {
                return Some(start + wanted);
            } else {
                return None;
            }
        }
        j += 1;
    }
    None
}

/// Whether connection `c` brings an output buffer to an input port of node
/// `id`, which has `ports` input ports: it ends at `id`, its source has
/// processed and has the output port, and `id` has the input port.
pub open spec fn routes(
    c: Connection,
    id: NodeId,
    owners: Seq<NodeId>,
    starts: Seq<usize>,
    made: int,
    ports: int,
) -> bool {
    &&& c.target == id
    &&& slot_of(owners, starts, made, c.source, c.source_port as int) is Some
    &&& c.target_port < ports
}

/// The connections among the first `n` that end at `id` and bring nothing.
pub open spec fn stranded(
    connections: Seq<Connection>,
    n: int,
    id: NodeId,
    owners: Seq<NodeId>,
    starts: Seq<usize>,
    made: int,
    ports: int,
) -> nat
    decreases n,
{
    if n <= 0 {
        0
    } else {
        stranded(connections, n - 1, id, owners, starts, made, ports) + if connections[n - 1].target == id && !routes(
            connections[n - 1],
            id,
            owners,
            starts,
            made,
            ports,
        ) {
            1nat
        } else {
            0nat
        }
    }
}

/// `count`, or the largest number that a counter holds.
pub open spec fn clipped(count: int) -> int {
    if count <= usize::MAX {
        count
    } else {
        usize::MAX as int
    }
}

/// `after` is `before` with `other` mixed in: each sample that has a
/// partner in `other` is what `sum` makes of the two, and the rest stay.
pub open spec fn mixed<F: Fn(Sample, Sample) -> Sample>(
    before: Seq<Sample>,
    other: Seq<Sample>,
    after: Seq<Sample>,
    sum: &F,
) -> bool {
    &&& after.len() == before.len()
    &&& forall|i: int|
        0 <= i < before.len() && i < other.len() ==> call_ensures(sum, (before[i], other[i]), #[trigger] after[i])
    &&& forall|i: int| other.len() <= i < before.len() ==> #[trigger] after[i] == before[i]
}

/// What connection `c` does to the input buffers of node `id`: where it
/// brings a buffer, that buffer is mixed into the buffer of its target
/// port; every other buffer keeps its samples.
pub open spec fn brought<F: Fn(Sample, Sample) -> Sample>(
    c: Connection,
    id: NodeId,
    owners: Seq<NodeId>,
    starts: Seq<usize>,
    made: Seq<AudioBuffer>,
    before: Seq<AudioBuffer>,
    after: Seq<AudioBuffer>,
    sum: &F,
) -> bool {
    &&& after.len() == before.len()
    &&& forall|p: int|
        0 <= p < before.len() ==> if routes(c, id, owners, starts, made.len() as int, before.len() as int) && p
            == c.target_port {
            mixed(
                before[p]@,
                made[slot_of(owners, starts, made.len() as int, c.source, c.source_port as int)->Some_0]@,
                (#[trigger] after[p])@,
                sum,
            )
        } else {
            after[p]@ == before[p]@
        }
}

/// What the first `n` connections, one after the other, make of the input
/// buffers `start` of node `id`.
pub open spec fn gathered<F: Fn(Sample, Sample) -> Sample>(
    connections: Seq<Connection>,
    n: int,
    id: NodeId,
    owners: Seq<NodeId>,
    starts: Seq<usize>,
    made: Seq<AudioBuffer>,
    start: Seq<AudioBuffer>,
    end: Seq<AudioBuffer>,
    sum: &F,
) -> bool
    decreases n,
{
    if n <= 0 {
        end.len() == start.len() && forall|p: int| 0 <= p < start.len() ==> (#[trigger] end[p])@ == start[p]@
    } else {
        exists|mid: Seq<AudioBuffer>|
            gathered(connections, n - 1, id, owners, starts, made, start, mid, sum) && #[trigger] brought(
                connections[n - 1],
                id,
                owners,
                starts,
                made,
                mid,
                end,
                sum,
            )
    }
}

/// Mix into the input buffers of node `id` what the connections bring to
/// its ports, connection by connection. The result is `unrouted` raised by
/// the number of connections to `id` that bring nothing, as far as a
/// counter holds it.
fn gather<F: Fn(Sample, Sample) -> Sample>(
    connections: &Vec<Connection>,
    id: NodeId,
    owners: &Vec<NodeId>,
    starts: &Vec<usize>,
    made: &Vec<AudioBuffer>,
    inputs: &mut Vec<AudioBuffer>,
    sum: &F,
    unrouted: usize,
) -> (r: usize)
    requires
        laid_out(owners@, starts@, made@.len() as int),
        all_wf(old(inputs)@),
        forall|a: Sample, b: Sample| call_requires(sum, (a, b)),
    ensures
        shapes_kept(old(inputs)@, final(inputs)@),
        gathered(
            connections@,
            connections@.len() as int,
            id,
            owners@,
            starts@,
            made@,
            old(inputs)@,
            final(inputs)@,
            sum,
        ),
        r == clipped(
            unrouted + stranded(
                connections@,
                connections@.len() as int,
                id,
                owners@,
                starts@,
                made@.len() as int,
                old(inputs)@.len() as int,
            ),
        ),
{
    let ghost floor = unrouted;
    let ghost ports = inputs@.len() as int;
    let mut unrouted: usize = unrouted;
    let mut i: usize = 0;
    while i < connections.len()
        invariant
            i <= connections.len(),
            ports == old(inputs)@.len(),
            unrouted == clipped(floor + stranded(connections@, i as int, id, owners@, starts@, made@.len() as int, ports)),
            laid_out(owners@, starts@, made@.len() as int),
            shapes_kept(old(inputs)@, inputs@),
            gathered(connections@, i as int, id, owners@, starts@, made@, old(inputs)@, inputs@, sum),
            forall|a: Sample, b: Sample| call_requires(sum, (a, b)),
        decreases connections.len() - i,
    {
        let c: Connection = connections[i];
        let ghost before = inputs@;
        if c.target == id {
            let port: usize = c.target_port as usize;
            let routed: bool = match output_slot(owners, starts, made.len(), c.source, c.source_port) {
                Some(slot) => {
                    if port < inputs.len() {
                        inputs[port].mix(&made[slot], sum);
                        assert(shapes_kept(old(inputs)@, inputs@)) by {
                            assert forall|p: int| 0 <= p < inputs@.len() implies {
                                &&& (#[trigger] inputs@[p]).wf()
                                &&& inputs@[p].spec_channels() == old(inputs)@[p].spec_channels()
                                &&& inputs@[p].spec_frames() == old(inputs)@[p].spec_frames()
                            } by {
                                if p != port {
                                    assert(inputs@[p] == before[p]);
                                }
                            }
                        }
                        true
                    } else {
                        false
                    }
                },
                None => false,
            };
            assert(routed == routes(c, id, owners@, starts@, made@.len() as int, ports));
            if !routed && unrouted < usize::MAX {
                unrouted += 1;
            }
        }
        proof {
            assert(brought(c, id, owners@, starts@, made@, before, inputs@, sum)) by {
                assert forall|p: int| 0 <= p < before.len() implies if routes(
                    c,
                    id,
                    owners@,
                    starts@,
                    made@.len() as int,
                    before.len() as int,
                ) && p == c.target_port {
                    mixed(
                        before[p]@,
                        made@[slot_of(owners@, starts@, made@.len() as int, c.source, c.source_port as int)->Some_0]@,
                        (#[trigger] inputs@[p])@,
                        sum,
                    )
                } else {
                    inputs@[p]@ == before[p]@
                } by {
                    if !(routes(c, id, owners@, starts@, made@.len() as int, before.len() as int) && p
                        == c.target_port) {
                        assert(inputs@[p] == before[p]);
                    }
                }
            }
            let n = i + 1;
            assert(gathered(connections@, n - 1, id, owners@, starts@, made@, old(inputs)@, before, sum));
            assert(brought(connections@[n - 1], id, owners@, starts@, made@, before, inputs@, sum));
            assert(gathered(connections@, n, id, owners@, starts@, made@, old(inputs)@, inputs@, sum));
        }
        i += 1;
    }
    unrouted
}

/// Copy the buffers of `from` over those of `to`, pair by pair, each as
/// far as both buffers reach. Buffers of `to` without a partner stay.
fn copy_out(from: &Vec<AudioBuffer>, to: &mut Vec<AudioBuffer>)
    requires
        all_wf(old(to)@),
    ensures
        shapes_kept(old(to)@, final(to)@),
        passed_through(from@, old(to)@, final(to)@),
{
    let mut p: usize = 0;
    while p < to.len() && p < from.len()
        invariant
            p <= to@.len(),
            p <= from@.len(),
            to@.len() == old(to)@.len(),
            shapes_kept(old(to)@, to@),
            forall|q: int| p <= q < to@.len() ==> to@[q] == old(to)@[q],
            forall|q: int|
                0 <= q < p ==> (#[trigger] to@[q])@ == crate::audio::overlaid(
                    old(to)@[q]@,
                    from@[q]@,
                    if old(to)@[q]@.len() <= from@[q]@.len() {
                        old(to)@[q]@.len() as int
                    } else {
                        from@[q]@.len() as int
                    },
                ),
        decreases to.len() - p,
    {
        let ghost before = to@;
        to[p].copy_from(&from[p]);
        assert(shapes_kept(old(to)@, to@)) by {
            assert forall|q: int| 0 <= q < to@.len() implies {
                &&& (#[trigger] to@[q]).wf()
                &&& to@[q].spec_channels() == old(to)@[q].spec_channels()
                &&& to@[q].spec_frames() == old(to)@[q].spec_frames()
            } by {
                if q != p {
                    assert(to@[q] == before[q]);
                }
            }
        }
        assert forall|q: int| 0 <= q < p implies to@[q] == before[q] by {}
        p += 1;
    }
}

impl DriveScratch {
    /// What a drive needs of its working space while it runs.
    spec fn holds(&self, pool: &BufferPool) -> bool {
        &&& all_fit(pool, self.made@)
        &&& all_fit(pool, self.inputs@)
        &&& all_fit(pool, self.outputs@)
        &&& laid_out(self.owners@, self.starts@, self.made@.len() as int)
    }

    /// The number of buffers in the working space.
    spec fn lent(&self) -> int {
        (self.made@.len() + self.inputs@.len() + self.outputs@.len()) as int
    }

    /// Give every buffer back to the pool and forget the nodes.
    fn abandon(&mut self, pool: &mut BufferPool)
        requires
            old(pool).wf(),
            old(self).holds(old(pool)),
            old(pool).spec_available() + old(self).lent() <= old(pool).spec_capacity(),
        ensures
            final(self).is_empty(),
            final(pool).wf(),
            final(pool).spec_capacity() == old(pool).spec_capacity(),
            final(pool).spec_channels() == old(pool).spec_channels(),
            final(pool).spec_frames() == old(pool).spec_frames(),
            final(pool).spec_available() == old(pool).spec_available() + old(self).lent(),
    {
        release_all(pool, &mut self.inputs);
        release_all(pool, &mut self.outputs);
        release_all(pool, &mut self.made);
        self.owners.clear();
        self.starts.clear();
    }
}

/// The entries among the first `n` of `order` that name a node with an id
/// of `ids`.
pub open spec fn named(ids: Set<u64>, order: Seq<NodeId>, n: int) -> nat
    decreases n,
{
    if n <= 0 {
        0
    } else {
        named(ids, order, n - 1) + if ids.contains(order[n - 1].0) {
            1nat
        } else {
            0nat
        }
    }
}

/// The longer the stretch of `order`, the more of its entries name nodes.
proof fn lemma_named_grows(ids: Set<u64>, order: Seq<NodeId>, a: int, b: int)
    requires
        a <= b,
    ensures
        named(ids, order, a) <= named(ids, order, b),
        named(ids, order, b) <= if b <= 0 {
            0
        } else {
            b
        },
    decreases b,
{
    if b > 0 {
        if a < b {
            lemma_named_grows(ids, order, a, b - 1);
        } else {
            lemma_named_grows(ids, order, b - 1, b - 1);
        }
    }
}

/// Every buffer of `buffers` is silent.
pub open spec fn all_silent(buffers: Seq<AudioBuffer>) -> bool {
    forall|i: int| 0 <= i < buffers.len() ==> (#[trigger] buffers[i])@ == silence(buffers[i]@.len())
}

/// The turn of one node in a drive, as it went.
pub struct Turn<N> {
    /// The place in the order that named the node.
    pub at: int,
    /// The id of the node.
    pub id: NodeId,
    /// The node as it was when its turn came.
    pub node: N,
    /// The nodes that had their turn before, in their order.
    pub owners: Seq<NodeId>,
    /// Where the outputs of each of them begin in the row.
    pub starts: Seq<usize>,
    /// The row of the outputs made before this turn.
    pub made: Seq<AudioBuffer>,
    /// The silent buffers that the pool lent for the input ports.
    pub blank: Seq<AudioBuffer>,
    /// The input buffers as the node received them.
    pub inputs: Seq<AudioBuffer>,
    /// The silent buffers that the pool lent for the output ports.
    pub fresh: Seq<AudioBuffer>,
    /// The output buffers as the node left them.
    pub written: Seq<AudioBuffer>,
    /// What was heard before this turn.
    pub heard_before: Seq<AudioBuffer>,
    /// What is heard after this turn.
    pub heard: Seq<AudioBuffer>,
}

/// The turn `t` went as a turn goes. The node is in the graph and was
/// named at its place in the order. The pool lent silent buffers, one for
/// each input port and one for each output port that the node says it has,
/// and had that many left. The node received in its input buffers what the
/// connections bring from the row, processed, and left the output buffers
/// as its own account says. Where the node is the sink, its input buffers
/// were copied over what is heard.
pub open spec fn turn_went<N: AudioNode, F: Fn(Sample, Sample) -> Sample>(
    t: Turn<N>,
    order: Seq<NodeId>,
    ids: Set<u64>,
    connections: Seq<Connection>,
    context: &ProcessContext,
    sum: &F,
    pool: &BufferPool,
    sink: NodeId,
) -> bool {
    &&& 0 <= t.at < order.len()
    &&& order[t.at] == t.id
    &&& ids.contains(t.id.0)
    &&& laid_out(t.owners, t.starts, t.made.len() as int)
    &&& call_ensures(N::input_count, (&t.node,), t.blank.len() as usize)
    &&& call_ensures(N::output_count, (&t.node,), t.fresh.len() as usize)
    &&& all_fit(pool, t.blank)
    &&& all_silent(t.blank)
    &&& all_fit(pool, t.fresh)
    &&& all_silent(t.fresh)
    &&& t.made.len() + t.blank.len() + t.fresh.len() <= pool.spec_available()
    &&& gathered(connections, connections.len() as int, t.id, t.owners, t.starts, t.made, t.blank, t.inputs, sum)
    &&& t.node.processes(t.inputs, t.fresh, context, t.written)
    &&& shapes_kept(t.fresh, t.written)
    &&& if t.id == sink {
        passed_through(t.inputs, t.heard_before, t.heard)
    } else {
        t.heard == t.heard_before
    }
}

/// The turn `next` came right after the turn `prev`: later in the order,
/// with the outputs of `prev` at the end of the row, and hearing at first
/// what was heard after `prev`.
pub open spec fn follows<N>(prev: Turn<N>, next: Turn<N>) -> bool {
    &&& prev.at < next.at
    &&& next.owners == prev.owners.push(prev.id)
    &&& next.starts == prev.starts.push(prev.made.len() as usize)
    &&& next.made == prev.made + prev.written
    &&& next.heard_before == prev.heard
}

/// The turns `turns` are a drive as far as it went: the first turn began
/// with an empty row and heard `heard`, each turn came right after the one
/// before, and each went as a turn goes.
#[verifier::opaque]
pub open spec fn went<N: AudioNode, F: Fn(Sample, Sample) -> Sample>(
    turns: Seq<Turn<N>>,
    order: Seq<NodeId>,
    ids: Set<u64>,
    connections: Seq<Connection>,
    context: &ProcessContext,
    sum: &F,
    pool: &BufferPool,
    sink: NodeId,
    heard: Seq<AudioBuffer>,
) -> bool {
    &&& forall|j: int|
        0 <= j < turns.len() ==> turn_went(#[trigger] turns[j], order, ids, connections, context, sum, pool, sink)
    &&& forall|j: int| 0 <= j < turns.len() - 1 ==> follows(#[trigger] turns[j], turns[j + 1])
    &&& turns.len() > 0 ==> {
        &&& turns[0].owners.len() == 0
        &&& turns[0].starts.len() == 0
        &&& turns[0].made.len() == 0
        &&& turns[0].heard_before == heard
    }
}

/// No turns are a drive that has not begun.
proof fn lemma_went_nowhere<N: AudioNode, F: Fn(Sample, Sample) -> Sample>(
    order: Seq<NodeId>,
    ids: Set<u64>,
    connections: Seq<Connection>,
    context: &ProcessContext,
    sum: &F,
    pool: &BufferPool,
    sink: NodeId,
    heard: Seq<AudioBuffer>,
)
    ensures
        went(Seq::<Turn<N>>::empty(), order, ids, connections, context, sum, pool, sink, heard),
{
    reveal(went);
}

/// A drive that went on by one turn is a drive.
proof fn lemma_went_on<N: AudioNode, F: Fn(Sample, Sample) -> Sample>(
    turns: Seq<Turn<N>>,
    turn: Turn<N>,
    order: Seq<NodeId>,
    ids: Set<u64>,
    connections: Seq<Connection>,
    context: &ProcessContext,
    sum: &F,
    pool: &BufferPool,
    sink: NodeId,
    heard: Seq<AudioBuffer>,
)
    requires
        went(turns, order, ids, connections, context, sum, pool, sink, heard),
        turn_went(turn, order, ids, connections, context, sum, pool, sink),
        turns.len() > 0 ==> follows(turns.last(), turn),
        turns.len() == 0 ==> turn.owners.len() == 0 && turn.starts.len() == 0 && turn.made.len() == 0
            && turn.heard_before == heard,
    ensures
        went(turns.push(turn), order, ids, connections, context, sum, pool, sink, heard),
{
    reveal(went);
    let longer = turns.push(turn);
    assert forall|j: int| 0 <= j < longer.len() implies turn_went(
        #[trigger] longer[j],
        order,
        ids,
        connections,
        context,
        sum,
        pool,
        sink,
    ) by {
        if j < turns.len() {
            assert(longer[j] == turns[j]);
        }
    }
    assert forall|j: int| 0 <= j < longer.len() - 1 implies follows(#[trigger] longer[j], longer[j + 1]) by {
        if j + 1 < turns.len() {
            assert(longer[j] == turns[j]);
            assert(longer[j + 1] == turns[j + 1]);
        } else {
            assert(longer[j] == turns.last());
            assert(longer[j + 1] == turn);
        }
    }
    if turns.len() > 0 {
        assert(longer[0] == turns[0]);
    }
}

/// The row of outputs after the turns `turns`.
pub open spec fn row_after<N>(turns: Seq<Turn<N>>) -> Seq<AudioBuffer> {
    if turns.len() == 0 {
        Seq::<AudioBuffer>::empty()
    } else {
        turns.last().made + turns.last().written
    }
}

/// What is heard after the turns `turns`, where `heard` was heard before
/// them.
pub open spec fn heard_after<N>(turns: Seq<Turn<N>>, heard: Seq<AudioBuffer>) -> Seq<AudioBuffer> {
    if turns.len() == 0 {
        heard
    } else {
        turns.last().heard
    }
}

/// After the turns `turns` the drive was stuck at place `at` of the order:
/// the entry there names the node next in turn, which says that it has
/// `ins` input ports and `outs` output ports, and the pool, with the row
/// on loan, has fewer buffers left than that.
pub open spec fn stuck<N: AudioNode>(
    turns: Seq<Turn<N>>,
    order: Seq<NodeId>,
    ids: Set<u64>,
    nodes: Map<u64, N>,
    available: nat,
    at: int,
    ins: usize,
    outs: usize,
) -> bool {
    &&& 0 <= at < order.len()
    &&& ids.contains(order[at].0)
    &&& turns.len() == named(ids, order, at)
    &&& turns.len() > 0 ==> turns.last().at < at
    &&& call_ensures(N::input_count, (&nodes[order[at].0],), ins)
    &&& call_ensures(N::output_count, (&nodes[order[at].0],), outs)
    &&& row_after(turns).len() + ins + outs > available
}

/// Drive one period through the nodes named in `order`, one after the
/// other.
///
/// For each node the pool lends one buffer per input port and one per
/// output port. Every connection into the node mixes the output buffer it
/// names into the input buffer it names, with `sum` as the addition; then
/// the node processes. The input buffers of node `sink` are copied over
/// `out`, buffer by buffer, as far as both reach. An entry of `order` that
/// names no node is passed over.
///
/// The drive ends early only where the pool has fewer buffers left than
/// the node next in turn has ports; how many ports a node has is the
/// node's to say. However the drive ends, the pool has every buffer back,
/// the working space is empty, and the graph has the nodes and connections
/// that it had.
#[verifier::rlimit(60)]
pub fn drive<N: AudioNode, F: Fn(Sample, Sample) -> Sample>(
    graph: &mut AudioGraph<N>,
    order: &[NodeId],
    pool: &mut BufferPool,
    scratch: &mut DriveScratch,
    context: &ProcessContext,
    sum: &F,
    sink: NodeId,
    out: &mut Vec<AudioBuffer>,
) -> (r: Result<DriveReport, DriveError>)
    requires
        old(graph).wf(),
        old(pool).wf(),
        old(scratch).is_empty(),
        all_wf(old(out)@),
        forall|a: Sample, b: Sample| call_requires(sum, (a, b)),
    ensures
        final(graph).wf(),
        final(graph).node_ids() == old(graph).node_ids(),
        final(graph).connections() == old(graph).connections(),
        final(graph).next_free() == old(graph).next_free(),
        final(pool).wf(),
        final(pool).spec_capacity() == old(pool).spec_capacity(),
        final(pool).spec_channels() == old(pool).spec_channels(),
        final(pool).spec_frames() == old(pool).spec_frames(),
        final(pool).spec_available() == old(pool).spec_available(),
        final(scratch).is_empty(),
        shapes_kept(old(out)@, final(out)@),
        !(order@.contains(sink) && old(graph).has_node(sink)) ==> final(out)@ == old(out)@,
        named(old(graph).node_ids(), order@, order@.len() as int) == 0 ==> r == Ok::<DriveReport, DriveError>(
            DriveReport { processed: 0, missing: order@.len() as usize, unrouted: 0 },
        ),
        r matches Ok(report) ==> {
            &&& report.processed == named(old(graph).node_ids(), order@, order@.len() as int)
            &&& report.processed + report.missing == order@.len()
        },
        r matches Err(error) ==> error == DriveError::PoolExhausted,
        exists|turns: Seq<Turn<N>>|
            {
                &&& #[trigger] went(
                    turns,
                    order@,
                    old(graph).node_ids(),
                    old(graph).connections(),
                    context,
                    sum,
                    &*old(pool),
                    sink,
                    old(out)@,
                )
                &&& final(out)@ == heard_after(turns, old(out)@)
                &&& r matches Ok(report) ==> turns.len() == report.processed
            },
        r is Err ==> exists|turns: Seq<Turn<N>>, at: int, ins: usize, outs: usize|
            {
                &&& went(
                    turns,
                    order@,
                    old(graph).node_ids(),
                    old(graph).connections(),
                    context,
                    sum,
                    &*old(pool),
                    sink,
                    old(out)@,
                )
                &&& #[trigger] stuck(
                    turns,
                    order@,
                    old(graph).node_ids(),
                    final(graph).nodes(),
                    old(pool).spec_available(),
                    at,
                    ins,
                    outs,
                )
            },
{
    proof {
        old(pool).lemma_outstanding_bounded();
    }
    let ghost ids = graph.node_ids();
    let ghost wires = graph.connections();
    let ghost lender = *old(pool);
    let ghost turns: Seq<Turn<N>> = Seq::empty();
    proof {
        lemma_went_nowhere::<N, F>(order@, ids, wires, context, sum, &lender, sink, old(out)@);
    }
    let mut processed: usize = 0;
    let mut missing: usize = 0;
    let mut unrouted: usize = 0;
    let mut k: usize = 0;
    while k < order.len()
        invariant
            k <= order.len(),
            processed + missing == k,
            graph.wf(),
            graph.node_ids() == old(graph).node_ids(),
            graph.connections() == old(graph).connections(),
            graph.next_free() == old(graph).next_free(),
            pool.wf(),
            pool.spec_capacity() == old(pool).spec_capacity(),
            pool.spec_channels() == old(pool).spec_channels(),
            pool.spec_frames() == old(pool).spec_frames(),
            scratch.holds(pool),
            scratch.inputs@.len() == 0,
            scratch.outputs@.len() == 0,
            pool.spec_available() + scratch.made@.len() == old(pool).spec_available(),
            old(pool).spec_available() <= old(pool).spec_capacity(),
            shapes_kept(old(out)@, out@),
            ids == old(graph).node_ids(),
            wires == old(graph).connections(),
            lender == *old(pool),
            processed == named(ids, order@, k as int),
            processed == 0 ==> unrouted == 0,
            (forall|j: int| 0 <= j < k ==> !(#[trigger] order@[j] == sink && ids.contains(sink.0))) ==> out@ == old(
                out,
            )@,
            went(turns, order@, ids, wires, context, sum, &lender, sink, old(out)@),
            turns.len() == processed,
            out@ == heard_after(turns, old(out)@),
            scratch.made@ == row_after(turns),
            turns.len() == 0 ==> scratch.owners@.len() == 0 && scratch.starts@.len() == 0,
            turns.len() > 0 ==> {
                &&& scratch.owners@ == turns.last().owners.push(turns.last().id)
                &&& scratch.starts@ == turns.last().starts.push(turns.last().made.len() as usize)
                &&& turns.last().at < k
            },
            forall|a: Sample, b: Sample| call_requires(sum, (a, b)),
        decreases order.len() - k,
    {
        let id: NodeId = order[k];
        let ghost heard = out@;
        let ghost node = graph.nodes()[id.0];
        let ports: Option<(usize, usize)> = match graph.get_node(id) {
            Some(found) => {
                let ins: usize = found.input_count();
                let outs: usize = found.output_count();
                proof {
                    assert(*found == node);
                    assert(call_ensures(N::input_count, (&node,), ins));
                    assert(call_ensures(N::output_count, (&node,), outs));
                }
                Some((ins, outs))
            },
            None => None,
        };
        match ports {
            None => {
                missing += 1;
            },
            Some((input_count, output_count)) => {
                let ghost owners = scratch.owners@;
                let ghost starts = scratch.starts@;
                let ghost row = scratch.made@;
                let mut complete: bool = acquire_into(pool, input_count, &mut scratch.inputs);
                if complete {
                    complete = acquire_into(pool, output_count, &mut scratch.outputs);
                }
                if !complete {
                    scratch.abandon(pool);
                    proof {
                        lemma_named_grows(ids, order@, k + 1, order@.len() as int);
                        assert(graph.nodes()[order@[k as int].0] == node);
                        assert(stuck(
                            turns,
                            order@,
                            ids,
                            graph.nodes(),
                            lender.spec_available(),
                            k as int,
                            input_count,
                            output_count,
                        ));
                    }
                    return Err(DriveError::PoolExhausted);
                }
                let ghost blank = scratch.inputs@;
                let ghost fresh = scratch.outputs@;
                unrouted =
                gather(
                    graph.connection_list(),
                    id,
                    &scratch.owners,
                    &scratch.starts,
                    &scratch.made,
                    &mut scratch.inputs,
                    sum,
                    unrouted,
                );
                let ghost inputs = scratch.inputs@;
                match graph.get_node_mut(id) {
                    Some(node) => {
                        node.process(scratch.inputs.as_slice(), &mut scratch.outputs, context);
                    },
                    None => {},
                }
                let ghost written = scratch.outputs@;
                if id == sink {
                    copy_out(&scratch.inputs, out);
                }
                release_all(pool, &mut scratch.inputs);
                scratch.owners.push(id);
                scratch.starts.push(scratch.made.len());
                scratch.made.append(&mut scratch.outputs);
                proof {
                    assert forall|i: int| 0 <= i < scratch.made@.len() implies pool.fits(&#[trigger] scratch.made@[i]) by {
                        if i < row.len() {
                            assert(scratch.made@[i] == row[i]);
                        } else {
                            assert(scratch.made@[i] == written[i - row.len()]);
                        }
                    }
                    let turn = Turn {
                        at: k as int,
                        id,
                        node,
                        owners,
                        starts,
                        made: row,
                        blank,
                        inputs,
                        fresh,
                        written,
                        heard_before: heard,
                        heard: out@,
                    };
                    assert(all_fit(&lender, blank)) by {
                        assert forall|i: int| 0 <= i < blank.len() implies lender.fits(&#[trigger] blank[i]) by {
                            assert(pool.fits(&blank[i]));
                        }
                    }
                    assert(all_fit(&lender, fresh)) by {
                        assert forall|i: int| 0 <= i < fresh.len() implies lender.fits(&#[trigger] fresh[i]) by {
                            assert(pool.fits(&fresh[i]));
                        }
                    }
                    assert(turn_went(turn, order@, ids, wires, context, sum, &lender, sink));
                    lemma_went_on(turns, turn, order@, ids, wires, context, sum, &lender, sink, old(out)@);
                    turns = turns.push(turn);
                }
                processed += 1;
            },
        }
        proof {
            if forall|j: int| 0 <= j < k + 1 ==> !(#[trigger] order@[j] == sink && ids.contains(sink.0)) {
                assert(!(order@[k as int] == sink && ids.contains(sink.0)));
                assert(out@ == heard);
                assert forall|j: int| 0 <= j < k implies !(#[trigger] order@[j] == sink && ids.contains(sink.0)) by {}
            }
        }
        k += 1;
    }
    scratch.abandon(pool);
    proof {
        if !(order@.contains(sink) && old(graph).has_node(sink)) {
            assert forall|j: int| 0 <= j < order@.len() implies !(#[trigger] order@[j] == sink && ids.contains(
                sink.0,
            )) by {
                if order@[j] == sink {
                    assert(order@.contains(sink));
                }
            }
        }
    }
    Ok(DriveReport { processed, missing, unrouted })
}

} // verus!
