//! The executing graph and its scheduler.
//!
//! A pipeline is flattened into an [`ExecutingGraph`]: a table of processors,
//! a table of single-slot ports they hand batches through, and the shared
//! join states. The scheduler repeatedly picks a `Ready` processor, executes
//! one bounded step, and stops when every processor is finished, when a step
//! fails (after cancelling the rest of the graph), or when nothing can run.
//!
//! Two global facts are proved about stepping. Progress: every `Ready` step
//! strictly decreases a potential over the graph, so a run always terminates.
//! Conservation: a step of a source, transform, sink or resize processor
//! neither loses nor duplicates a row — the multiset of rows still to be
//! emitted, in flight on ports, and collected in sinks is unchanged.

use vstd::prelude::*;
use vstd::multiset::Multiset;
use vstd::seq_lib::lemma_multiset_commutative;
use vstd::arithmetic::mul::lemma_mul_nonnegative;
use crate::row::{Row, DataBlock, rows_of_blocks};
use crate::port::{Port, PortState};
use crate::processor::{Event, Processor, ProcessorKind, JoinState};

verus! {

/// The flattened, runnable form of a pipeline.
pub struct ExecutingGraph {
    /// The processors, indexed by processor id.
    pub processors: Vec<Processor>,
    /// The ports, indexed by the ids the processors carry.
    pub ports: Vec<Port>,
    /// The shared join build states.
    pub joins: Vec<JoinState>,
}

/// Whether a producer may push onto a port in this state.
pub open spec fn spec_pushable(s: PortState) -> bool {
    !(s is HasData) && !(s is Finished)
}

/// Whether two operator states are the same operator (the internal fields
/// may differ, the variant and the wiring-relevant indices may not).
pub open spec fn same_variant(a: ProcessorKind, b: ProcessorKind) -> bool {
    match (a, b) {
        (ProcessorKind::ConstantSource { .. }, ProcessorKind::ConstantSource { .. }) => true,
        (ProcessorKind::Transform, ProcessorKind::Transform) => true,
        (ProcessorKind::CollectSink { .. }, ProcessorKind::CollectSink { .. }) => true,
        (ProcessorKind::Resize { .. }, ProcessorKind::Resize { .. }) => true,
        (ProcessorKind::JoinBuild { join: j1 }, ProcessorKind::JoinBuild { join: j2 }) => j1 == j2,
        (ProcessorKind::JoinProbe { join: j1 }, ProcessorKind::JoinProbe { join: j2 }) => j1 == j2,
        (ProcessorKind::Fault { .. }, ProcessorKind::Fault { .. }) => true,
        _ => false,
    }
}

impl ExecutingGraph {
    /// A valid port index.
    pub open spec fn port_in_range(self, i: int) -> bool {
        0 <= i < self.ports@.len()
    }

    /// The arity and wiring conditions of one processor: its ports exist,
    /// and every output port sits strictly closer to the sinks than every
    /// input port, which is what makes a step of work progress.
    pub open spec fn proc_shape_wf(self, i: int) -> bool {
        let p = self.processors@[i];
        match p.kind {
            ProcessorKind::ConstantSource { .. } => {
                &&& p.inputs@.len() == 0
                &&& p.outputs@.len() == 1
                &&& self.port_in_range(p.outputs@[0] as int)
            }
            ProcessorKind::Transform => {
                &&& p.inputs@.len() == 1
                &&& p.outputs@.len() == 1
                &&& self.port_in_range(p.inputs@[0] as int)
                &&& self.port_in_range(p.outputs@[0] as int)
                &&& self.ports@[p.outputs@[0] as int].depth < self.ports@[p.inputs@[0] as int].depth
            }
            ProcessorKind::CollectSink { .. } => {
                &&& p.inputs@.len() == 1
                &&& p.outputs@.len() == 0
                &&& self.port_in_range(p.inputs@[0] as int)
            }
            ProcessorKind::Resize { .. } => {
                &&& p.inputs@.len() >= 1
                &&& p.outputs@.len() >= 1
                &&& (forall|k: int|
                    0 <= k < p.inputs@.len() ==> self.port_in_range(#[trigger] p.inputs@[k] as int))
                &&& (forall|k: int|
                    0 <= k < p.outputs@.len() ==> self.port_in_range(
                        #[trigger] p.outputs@[k] as int,
                    ))
                &&& (forall|a: int, b: int|
                    0 <= a < p.inputs@.len() && 0 <= b < p.outputs@.len()
                        ==> self.ports@[#[trigger] p.outputs@[b] as int].depth < self.ports@[
                        #[trigger] p.inputs@[a] as int
                    ].depth)
            }
            ProcessorKind::JoinBuild { join } => {
                &&& p.inputs@.len() == 1
                &&& p.outputs@.len() == 0
                &&& self.port_in_range(p.inputs@[0] as int)
                &&& join < self.joins@.len()
            }
            ProcessorKind::JoinProbe { join } => {
                &&& p.inputs@.len() == 1
                &&& p.outputs@.len() == 1
                &&& self.port_in_range(p.inputs@[0] as int)
                &&& self.port_in_range(p.outputs@[0] as int)
                &&& self.ports@[p.outputs@[0] as int].depth < self.ports@[p.inputs@[0] as int].depth
                &&& join < self.joins@.len()
            }
            ProcessorKind::Fault { .. } => {
                &&& (forall|k: int|
                    0 <= k < p.inputs@.len() ==> self.port_in_range(#[trigger] p.inputs@[k] as int))
                &&& (forall|k: int|
                    0 <= k < p.outputs@.len() ==> self.port_in_range(
                        #[trigger] p.outputs@[k] as int,
                    ))
            }
        }
    }

    /// The internal-state conditions of one processor.
    pub open spec fn proc_state_wf(p: Processor) -> bool {
        match p.kind {
            ProcessorKind::ConstantSource { blocks, next } => next <= blocks@.len(),
            ProcessorKind::Resize { next_out } => next_out < p.outputs@.len(),
            _ => true,
        }
    }

    /// The graph invariant: every processor well shaped and well stated,
    /// every port structurally sound.
    pub open spec fn wf(self) -> bool {
        &&& forall|i: int| 0 <= i < self.processors@.len() ==> #[trigger] self.proc_shape_wf(i)
        &&& forall|i: int|
            0 <= i < self.processors@.len() ==> Self::proc_state_wf(
                #[trigger] self.processors@[i],
            )
        &&& forall|i: int| 0 <= i < self.ports@.len() ==> (#[trigger] self.ports@[i]).wf()
    }

    /// No processor's output port is finished while the processor itself is
    /// not: ports finish from the source end downwards, or all at once on
    /// cancellation.
    pub open spec fn no_early_finish(self) -> bool {
        forall|i: int, k: int|
            0 <= i < self.processors@.len() && 0 <= k < self.processors@[i].outputs@.len()
                && !self.processors@[i].finished ==> !(self.ports@[
                #[trigger] self.processors@[i].outputs@[k] as int
            ].state is Finished)
    }

    /// Every finished processor has finished all its output ports.
    pub open spec fn outputs_done(self) -> bool {
        forall|i: int, k: int|
            0 <= i < self.processors@.len() && 0 <= k < self.processors@[i].outputs@.len()
                && self.processors@[i].finished ==> self.ports@[
                #[trigger] self.processors@[i].outputs@[k] as int
            ].state is Finished
    }

    /// Every finished processor has finished input ports too: a processor
    /// only finishes once its upstream is done (or the whole graph was
    /// cancelled).
    pub open spec fn inputs_done(self) -> bool {
        forall|i: int, k: int|
            0 <= i < self.processors@.len() && 0 <= k < self.processors@[i].inputs@.len()
                && self.processors@[i].finished ==> self.ports@[
                #[trigger] self.processors@[i].inputs@[k] as int
            ].state is Finished
    }

    /// No two processors drive the same port: every port has at most one
    /// producer slot.
    pub open spec fn producer_unique(self) -> bool {
        forall|i1: int, k1: int, i2: int, k2: int|
            0 <= i1 < self.processors@.len() && 0 <= k1 < self.processors@[i1].outputs@.len()
                && 0 <= i2 < self.processors@.len() && 0 <= k2 < self.processors@[
                i2
            ].outputs@.len() && (i1 != i2 || k1 != k2) ==> (#[trigger] self.processors@[
                i1
            ].outputs@[k1]) != (#[trigger] self.processors@[i2].outputs@[k2])
    }

    /// Every output port index is in range (also derivable kind by kind
    /// from the shape conditions; kept as one plain statement).
    pub open spec fn outputs_in_range(self) -> bool {
        forall|i: int, k: int|
            0 <= i < self.processors@.len() && 0 <= k < self.processors@[i].outputs@.len()
                ==> (#[trigger] self.processors@[i].outputs@[k]) < self.ports@.len()
    }

    /// Every finished source has emitted everything it had.
    pub open spec fn sources_exhausted(self) -> bool {
        forall|i: int|
            0 <= i < self.processors@.len() && (#[trigger] self.processors@[i]).finished
                ==> match self.processors@[i].kind {
                ProcessorKind::ConstantSource { blocks, next } => next == blocks@.len(),
                _ => true,
            }
    }

    /// Whether some processor's output drives this port.
    pub open spec fn has_producer(self, q: int) -> bool {
        exists|i: int, k: int|
            0 <= i < self.processors@.len() && 0 <= k < self.processors@[i].outputs@.len()
                && #[trigger] self.processors@[i].outputs@[k] as int == q
    }

    /// Every port is driven by some processor's output.
    pub open spec fn covered(self) -> bool {
        forall|q: int| 0 <= q < self.ports@.len() ==> #[trigger] self.has_producer(q)
    }

    /// Every processor has reached its terminal state.
    pub open spec fn all_finished(self) -> bool {
        forall|i: int|
            0 <= i < self.processors@.len() ==> (#[trigger] self.processors@[i]).finished
    }

    /// Every port has reached its terminal state.
    pub open spec fn all_ports_finished(self) -> bool {
        forall|i: int| 0 <= i < self.ports@.len() ==> (#[trigger] self.ports@[i]).state is Finished
    }

    /// Whether every processor is deterministic and non-lossy: a source, an
    /// identity transform, a collecting sink, or a resize stage.
    pub open spec fn all_conservative(self) -> bool {
        forall|i: int|
            0 <= i < self.processors@.len() ==> match (#[trigger] self.processors@[i]).kind {
                ProcessorKind::ConstantSource { .. } => true,
                ProcessorKind::Transform => true,
                ProcessorKind::CollectSink { .. } => true,
                ProcessorKind::Resize { .. } => true,
                _ => false,
            }
    }
}

/// Whether two graphs have the same wiring: same table sizes, same port
/// depths, and processors of the same operator on the same ports. Steps of
/// the scheduler never change the wiring, only states and slots.
pub open spec fn same_shape(g1: ExecutingGraph, g2: ExecutingGraph) -> bool {
    &&& g1.processors@.len() == g2.processors@.len()
    &&& g1.ports@.len() == g2.ports@.len()
    &&& g1.joins@.len() == g2.joins@.len()
    &&& forall|i: int|
        0 <= i < g1.ports@.len() ==> (#[trigger] g2.ports@[i]).depth == g1.ports@[i].depth
    &&& forall|i: int|
        0 <= i < g1.processors@.len() ==> {
            &&& (#[trigger] g2.processors@[i]).inputs@ == g1.processors@[i].inputs@
            &&& g2.processors@[i].outputs@ == g1.processors@[i].outputs@
            &&& same_variant(g2.processors@[i].kind, g1.processors@[i].kind)
        }
}

/// Wiring conditions carry over between graphs of the same shape.
pub proof fn lemma_shape_wf_stable(g1: ExecutingGraph, g2: ExecutingGraph, i: int)
    requires
        same_shape(g1, g2),
        0 <= i < g1.processors@.len(),
        g1.proc_shape_wf(i),
    ensures
        g2.proc_shape_wf(i),
{
    let p1 = g1.processors@[i];
    let p2 = g2.processors@[i];
    assert(p2.inputs@ == p1.inputs@);
    assert(p2.outputs@ == p1.outputs@);
    match p2.kind {
        ProcessorKind::Resize { .. } => {
            assert forall|a: int, b: int|
                0 <= a < p2.inputs@.len() && 0 <= b < p2.outputs@.len() implies g2.ports@[
                #[trigger] p2.outputs@[b] as int
            ].depth < g2.ports@[#[trigger] p2.inputs@[a] as int].depth by {
                assert(g1.ports@[p1.outputs@[b] as int].depth < g1.ports@[
                    p1.inputs@[a] as int
                ].depth);
            }
        }
        _ => {}
    }
}

// ---------------------------------------------------------------------------
// The progress measure.
// ---------------------------------------------------------------------------

/// The potential of one port: the depth of its slot if a batch is pending.
/// A batch in flight contributes the number of hops it still has to travel.
pub open spec fn port_pot(p: Port) -> int {
    if p.slot is Some {
        p.depth as int
    } else {
        0
    }
}

/// The summed potential of the ports.
pub open spec fn ports_pot(s: Seq<Port>) -> int
    decreases s.len(),
{
    if s.len() == 0 {
        0
    } else {
        port_pot(s[0]) + ports_pot(s.drop_first())
    }
}

/// Updating one port moves the sum by the difference at that port.
pub proof fn lemma_ports_pot_update(s: Seq<Port>, i: int, v: Port)
    requires
        0 <= i < s.len(),
    ensures
        ports_pot(s.update(i, v)) == ports_pot(s) - port_pot(s[i]) + port_pot(v),
    decreases s.len(),
{
    if i == 0 {
        assert(s.update(0, v).drop_first() =~= s.drop_first());
        assert(s.update(0, v)[0] == v);
    } else {
        assert(s.update(i, v).drop_first() =~= s.drop_first().update(i - 1, v));
        assert(s.update(i, v)[0] == s[0]);
        lemma_ports_pot_update(s.drop_first(), i - 1, v);
    }
}

/// The port potentials never sum below zero.
pub proof fn lemma_ports_pot_nonneg(s: Seq<Port>)
    ensures
        ports_pot(s) >= 0,
    decreases s.len(),
{
    if s.len() > 0 {
        lemma_ports_pot_nonneg(s.drop_first());
    }
}

impl ExecutingGraph {
    /// The potential of one processor: one unit for not yet having finished,
    /// and, for a source, one full trip per batch still to be emitted.
    pub open spec fn proc_pot(self, i: int) -> int {
        let p = self.processors@[i];
        let base: int = if p.finished {
            0
        } else {
            1
        };
        match p.kind {
            ProcessorKind::ConstantSource { blocks, next } => base + (blocks@.len() - next) * (
            self.ports@[p.outputs@[0] as int].depth + 1),
            _ => base,
        }
    }

    /// The summed potential of the first `n` processors.
    pub open spec fn procs_pot(self, n: int) -> int
        decreases n,
    {
        if n <= 0 {
            0
        } else {
            self.procs_pot(n - 1) + self.proc_pot(n - 1)
        }
    }

    /// The progress measure of the graph: every `Ready` step strictly
    /// decreases it.
    pub open spec fn potential(self) -> int {
        ports_pot(self.ports@) + self.procs_pot(self.processors@.len() as int)
    }
}

/// Graphs agreeing on every processor's potential below `n` agree on the sum.
pub proof fn lemma_procs_pot_congruent(g1: ExecutingGraph, g2: ExecutingGraph, n: int)
    requires
        forall|j: int| 0 <= j < n ==> g1.proc_pot(j) == g2.proc_pot(j),
    ensures
        g1.procs_pot(n) == g2.procs_pot(n),
    decreases n,
{
    if n > 0 {
        lemma_procs_pot_congruent(g1, g2, n - 1);
    }
}

/// Changing one processor moves the sum by the difference at that processor.
pub proof fn lemma_procs_pot_change(g1: ExecutingGraph, g2: ExecutingGraph, n: int, k: int)
    requires
        0 <= k < n,
        forall|j: int| 0 <= j < n && j != k ==> g1.proc_pot(j) == g2.proc_pot(j),
    ensures
        g2.procs_pot(n) == g1.procs_pot(n) - g1.proc_pot(k) + g2.proc_pot(k),
    decreases n,
{
    if k == n - 1 {
        lemma_procs_pot_congruent(g1, g2, n - 1);
    } else {
        lemma_procs_pot_change(g1, g2, n - 1, k);
    }
}

/// One processor's potential is never negative in a well-formed graph.
pub proof fn lemma_proc_pot_nonneg(g: ExecutingGraph, i: int)
    requires
        0 <= i < g.processors@.len(),
        ExecutingGraph::proc_state_wf(g.processors@[i]),
    ensures
        g.proc_pot(i) >= 0,
{
    let p = g.processors@[i];
    match p.kind {
        ProcessorKind::ConstantSource { blocks, next } => {
            lemma_mul_nonnegative(
                blocks@.len() - next,
                g.ports@[p.outputs@[0] as int].depth + 1,
            );
        }
        _ => {}
    }
}

/// The processor potentials never sum below zero in a well-formed graph.
pub proof fn lemma_procs_pot_nonneg(g: ExecutingGraph, n: int)
    requires
        n <= g.processors@.len(),
        forall|i: int|
            0 <= i < g.processors@.len() ==> ExecutingGraph::proc_state_wf(
                #[trigger] g.processors@[i],
            ),
    ensures
        g.procs_pot(n) >= 0,
    decreases n,
{
    if n > 0 {
        lemma_procs_pot_nonneg(g, n - 1);
        lemma_proc_pot_nonneg(g, n - 1);
    }
}

/// The potential of a well-formed graph is never negative.
pub proof fn lemma_potential_nonneg(g: ExecutingGraph)
    requires
        g.wf(),
    ensures
        g.potential() >= 0,
{
    lemma_ports_pot_nonneg(g.ports@);
    lemma_procs_pot_nonneg(g, g.processors@.len() as int);
}

// ---------------------------------------------------------------------------
// The conserved rows.
// ---------------------------------------------------------------------------

/// The rows pending on one port.
pub open spec fn port_ms(p: Port) -> Multiset<Row> {
    p.spec_rows().to_multiset()
}

/// The rows pending on all ports.
pub open spec fn ports_ms(s: Seq<Port>) -> Multiset<Row>
    decreases s.len(),
{
    if s.len() == 0 {
        Multiset::<Row>::empty()
    } else {
        port_ms(s[0]).add(ports_ms(s.drop_first()))
    }
}

/// The rows one processor still holds: what a source has yet to emit, what a
/// sink has collected.
pub open spec fn proc_ms(p: Processor) -> Multiset<Row> {
    match p.kind {
        ProcessorKind::ConstantSource { blocks, next } => rows_of_blocks(
            blocks@.skip(next as int),
        ).to_multiset(),
        ProcessorKind::CollectSink { collected } => rows_of_blocks(collected@).to_multiset(),
        _ => Multiset::<Row>::empty(),
    }
}

/// The rows held by all processors.
pub open spec fn procs_ms(s: Seq<Processor>) -> Multiset<Row>
    decreases s.len(),
{
    if s.len() == 0 {
        Multiset::<Row>::empty()
    } else {
        proc_ms(s[0]).add(procs_ms(s.drop_first()))
    }
}

impl ExecutingGraph {
    /// Every row the conservative operators account for: still to be
    /// emitted, in flight on a port, or collected in a sink.
    pub open spec fn live_ms(self) -> Multiset<Row> {
        ports_ms(self.ports@).add(procs_ms(self.processors@))
    }
}

/// Adding the same multiset on both sides preserves equality backwards.
pub proof fn lemma_multiset_add_cancel<T>(a: Multiset<T>, b: Multiset<T>, c: Multiset<T>)
    requires
        a.add(c) == b.add(c),
    ensures
        a == b,
{
    broadcast use vstd::multiset::group_multiset_axioms;

    assert forall|x: T| a.count(x) == b.count(x) by {
        assert(a.add(c).count(x) == a.count(x) + c.count(x));
        assert(b.add(c).count(x) == b.count(x) + c.count(x));
        assert(a.add(c).count(x) == b.add(c).count(x));
    }
    assert(a =~= b);
}

/// Updating one port: the sums with the exchanged contributions agree.
pub proof fn lemma_ports_ms_update(s: Seq<Port>, i: int, v: Port)
    requires
        0 <= i < s.len(),
    ensures
        ports_ms(s.update(i, v)).add(port_ms(s[i])) == ports_ms(s).add(port_ms(v)),
    decreases s.len(),
{
    broadcast use vstd::multiset::group_multiset_axioms;

    if i == 0 {
        assert(s.update(0, v).drop_first() =~= s.drop_first());
        assert(s.update(0, v)[0] == v);
        assert(ports_ms(s.update(0, v)).add(port_ms(s[0])) =~= ports_ms(s).add(port_ms(v)));
    } else {
        assert(s.update(i, v).drop_first() =~= s.drop_first().update(i - 1, v));
        assert(s.update(i, v)[0] == s[0]);
        assert(s.drop_first()[i - 1] == s[i]);
        lemma_ports_ms_update(s.drop_first(), i - 1, v);
        let t = s.drop_first().update(i - 1, v);
        assert forall|x: Row|
            ports_ms(s.update(i, v)).add(port_ms(s[i])).count(x) == ports_ms(s).add(
                port_ms(v),
            ).count(x) by {
            assert(ports_ms(s.update(i, v)).add(port_ms(s[i])).count(x) == ports_ms(
                s.update(i, v),
            ).count(x) + port_ms(s[i]).count(x));
            assert(ports_ms(s.update(i, v)).count(x) == port_ms(s[0]).count(x) + ports_ms(
                t,
            ).count(x));
            assert(ports_ms(t).add(port_ms(s[i])).count(x) == ports_ms(s.drop_first()).add(
                port_ms(v),
            ).count(x));
            assert(ports_ms(t).add(port_ms(s[i])).count(x) == ports_ms(t).count(x) + port_ms(
                s[i],
            ).count(x));
            assert(ports_ms(s.drop_first()).add(port_ms(v)).count(x) == ports_ms(
                s.drop_first(),
            ).count(x) + port_ms(v).count(x));
            assert(ports_ms(s).add(port_ms(v)).count(x) == ports_ms(s).count(x) + port_ms(
                v,
            ).count(x));
            assert(ports_ms(s).count(x) == port_ms(s[0]).count(x) + ports_ms(
                s.drop_first(),
            ).count(x));
        }
        assert(ports_ms(s.update(i, v)).add(port_ms(s[i])) =~= ports_ms(s).add(port_ms(v)));
    }
}

/// Updating one processor: the sums with the exchanged contributions agree.
pub proof fn lemma_procs_ms_update(s: Seq<Processor>, i: int, v: Processor)
    requires
        0 <= i < s.len(),
    ensures
        procs_ms(s.update(i, v)).add(proc_ms(s[i])) == procs_ms(s).add(proc_ms(v)),
    decreases s.len(),
{
    broadcast use vstd::multiset::group_multiset_axioms;

    if i == 0 {
        assert(s.update(0, v).drop_first() =~= s.drop_first());
        assert(s.update(0, v)[0] == v);
        assert(procs_ms(s.update(0, v)).add(proc_ms(s[0])) =~= procs_ms(s).add(proc_ms(v)));
    } else {
        assert(s.update(i, v).drop_first() =~= s.drop_first().update(i - 1, v));
        assert(s.update(i, v)[0] == s[0]);
        assert(s.drop_first()[i - 1] == s[i]);
        lemma_procs_ms_update(s.drop_first(), i - 1, v);
        let t = s.drop_first().update(i - 1, v);
        assert forall|x: Row|
            procs_ms(s.update(i, v)).add(proc_ms(s[i])).count(x) == procs_ms(s).add(
                proc_ms(v),
            ).count(x) by {
            assert(procs_ms(s.update(i, v)).add(proc_ms(s[i])).count(x) == procs_ms(
                s.update(i, v),
            ).count(x) + proc_ms(s[i]).count(x));
            assert(procs_ms(s.update(i, v)).count(x) == proc_ms(s[0]).count(x) + procs_ms(
                t,
            ).count(x));
            assert(procs_ms(t).add(proc_ms(s[i])).count(x) == procs_ms(s.drop_first()).add(
                proc_ms(v),
            ).count(x));
            assert(procs_ms(t).add(proc_ms(s[i])).count(x) == procs_ms(t).count(x) + proc_ms(
                s[i],
            ).count(x));
            assert(procs_ms(s.drop_first()).add(proc_ms(v)).count(x) == procs_ms(
                s.drop_first(),
            ).count(x) + proc_ms(v).count(x));
            assert(procs_ms(s).add(proc_ms(v)).count(x) == procs_ms(s).count(x) + proc_ms(
                v,
            ).count(x));
            assert(procs_ms(s).count(x) == proc_ms(s[0]).count(x) + procs_ms(
                s.drop_first(),
            ).count(x));
        }
        assert(procs_ms(s.update(i, v)).add(proc_ms(s[i])) =~= procs_ms(s).add(proc_ms(v)));
    }
}

// ---------------------------------------------------------------------------
// The processor state machine, as the scheduler sees it.
// ---------------------------------------------------------------------------

impl ExecutingGraph {
    /// The scheduler-visible state of one processor, computed from its own
    /// ports and internal state alone. The processor is the sole authority
    /// on this state; the scheduler only queries it and invokes a matching
    /// step.
    pub open spec fn spec_event(self, i: int) -> Event {
        let p = self.processors@[i];
        if p.finished {
            Event::Finished
        } else {
            match p.kind {
                ProcessorKind::ConstantSource { .. } => {
                    let out = self.ports@[p.outputs@[0] as int];
                    if spec_pushable(out.state) {
                        Event::Ready
                    } else {
                        Event::NeedConsume
                    }
                }
                ProcessorKind::Transform => {
                    let inp = self.ports@[p.inputs@[0] as int];
                    let out = self.ports@[p.outputs@[0] as int];
                    if inp.state is HasData {
                        if spec_pushable(out.state) {
                            Event::Ready
                        } else {
                            Event::NeedConsume
                        }
                    } else if inp.state is Finished {
                        if out.state is HasData {
                            Event::NeedConsume
                        } else {
                            Event::Ready
                        }
                    } else {
                        Event::NeedData
                    }
                }
                ProcessorKind::CollectSink { .. } => {
                    let inp = self.ports@[p.inputs@[0] as int];
                    if inp.state is HasData {
                        Event::Ready
                    } else if inp.state is Finished {
                        Event::Ready
                    } else {
                        Event::NeedData
                    }
                }
                ProcessorKind::Resize { next_out } => {
                    if exists|k: int|
                        0 <= k < p.inputs@.len() && self.ports@[
                            #[trigger] p.inputs@[k] as int
                        ].state is HasData {
                        let out = self.ports@[p.outputs@[next_out as int] as int];
                        if spec_pushable(out.state) {
                            Event::Ready
                        } else {
                            Event::NeedConsume
                        }
                    } else if forall|k: int|
                        0 <= k < p.inputs@.len() ==> self.ports@[
                            #[trigger] p.inputs@[k] as int
                        ].state is Finished {
                        if exists|k: int|
                            0 <= k < p.outputs@.len() && self.ports@[
                                #[trigger] p.outputs@[k] as int
                            ].state is HasData {
                            Event::NeedConsume
                        } else {
                            Event::Ready
                        }
                    } else {
                        Event::NeedData
                    }
                }
                ProcessorKind::JoinBuild { .. } => {
                    let inp = self.ports@[p.inputs@[0] as int];
                    if inp.state is HasData {
                        Event::Ready
                    } else if inp.state is Finished {
                        Event::Ready
                    } else {
                        Event::NeedData
                    }
                }
                ProcessorKind::JoinProbe { join } => {
                    let inp = self.ports@[p.inputs@[0] as int];
                    let out = self.ports@[p.outputs@[0] as int];
                    if !self.joins@[join as int].published {
                        if inp.state is Finished {
                            if out.state is HasData {
                                Event::NeedConsume
                            } else {
                                Event::Ready
                            }
                        } else {
                            Event::Async
                        }
                    } else if inp.state is HasData {
                        if spec_pushable(out.state) {
                            Event::Ready
                        } else {
                            Event::NeedConsume
                        }
                    } else if inp.state is Finished {
                        if out.state is HasData {
                            Event::NeedConsume
                        } else {
                            Event::Ready
                        }
                    } else {
                        Event::NeedData
                    }
                }
                ProcessorKind::Fault { .. } => Event::Ready,
            }
        }
    }
}

/// An unpublished build side keeps every probe waiting: while the join state
/// is not published and the probe's input is still open, the probe reports
/// `Async`, so the scheduler never steps it and it can observe nothing of
/// the build side before publication.
pub proof fn lemma_probe_waits_for_publish(g: ExecutingGraph, i: int)
    requires
        g.wf(),
        0 <= i < g.processors@.len(),
        g.processors@[i].kind matches ProcessorKind::JoinProbe { join } && !g.joins@[
            join as int
        ].published,
        !(g.ports@[g.processors@[i].inputs@[0] as int].state is Finished),
        !g.processors@[i].finished,
    ensures
        g.spec_event(i) == Event::Async,
{
}

/// Computes the scheduler-visible state of one processor.
pub fn event(g: &ExecutingGraph, pid: usize) -> (r: Event)
    requires
        g.wf(),
        pid < g.processors@.len(),
    ensures
        r == g.spec_event(pid as int),
{
    let p = &g.processors[pid];
    proof {
        assert(g.proc_shape_wf(pid as int));
    }
    if p.finished {
        return Event::Finished;
    }
    match &p.kind {
        ProcessorKind::ConstantSource { .. } => {
            let out = &g.ports[p.outputs[0]];
            if out.has_data() || out.is_finished() {
                Event::NeedConsume
            } else {
                Event::Ready
            }
        }
        ProcessorKind::Transform => {
            let inp = &g.ports[p.inputs[0]];
            let out = &g.ports[p.outputs[0]];
            if inp.has_data() {
                if out.has_data() || out.is_finished() {
                    Event::NeedConsume
                } else {
                    Event::Ready
                }
            } else if inp.is_finished() {
                if out.has_data() {
                    Event::NeedConsume
                } else {
                    Event::Ready
                }
            } else {
                Event::NeedData
            }
        }
        ProcessorKind::CollectSink { .. } => {
            let inp = &g.ports[p.inputs[0]];
            if inp.has_data() || inp.is_finished() {
                Event::Ready
            } else {
                Event::NeedData
            }
        }
        ProcessorKind::Resize { next_out } => {
            let n_in = p.inputs.len();
            let mut any_in_data = false;
            let mut all_in_finished = true;
            let mut k: usize = 0;
            while k < n_in
                invariant
                    k <= n_in,
                    n_in == p.inputs@.len(),
                    g.wf(),
                    pid < g.processors@.len(),
                    p == g.processors@[pid as int],
                    g.proc_shape_wf(pid as int),
                    p.kind is Resize,
                    any_in_data == exists|j: int|
                        0 <= j < k && g.ports@[#[trigger] p.inputs@[j] as int].state is HasData,
                    all_in_finished == forall|j: int|
                        0 <= j < k ==> g.ports@[#[trigger] p.inputs@[j] as int].state is Finished,
                decreases n_in - k,
            {
                let q = &g.ports[p.inputs[k]];
                if q.has_data() {
                    any_in_data = true;
                }
                if !q.is_finished() {
                    all_in_finished = false;
                }
                k = k + 1;
            }
            if any_in_data {
                let out = &g.ports[p.outputs[*next_out]];
                if out.has_data() || out.is_finished() {
                    Event::NeedConsume
                } else {
                    Event::Ready
                }
            } else if all_in_finished {
                let n_out = p.outputs.len();
                let mut any_out_data = false;
                let mut k2: usize = 0;
                while k2 < n_out
                    invariant
                        k2 <= n_out,
                        n_out == p.outputs@.len(),
                        g.wf(),
                        pid < g.processors@.len(),
                        p == g.processors@[pid as int],
                        g.proc_shape_wf(pid as int),
                        p.kind is Resize,
                        any_out_data == exists|j: int|
                            0 <= j < k2 && g.ports@[
                                #[trigger] p.outputs@[j] as int
                            ].state is HasData,
                    decreases n_out - k2,
                {
                    let q = &g.ports[p.outputs[k2]];
                    if q.has_data() {
                        any_out_data = true;
                    }
                    k2 = k2 + 1;
                }
                if any_out_data {
                    Event::NeedConsume
                } else {
                    Event::Ready
                }
            } else {
                Event::NeedData
            }
        }
        ProcessorKind::JoinBuild { .. } => {
            let inp = &g.ports[p.inputs[0]];
            if inp.has_data() || inp.is_finished() {
                Event::Ready
            } else {
                Event::NeedData
            }
        }
        ProcessorKind::JoinProbe { join } => {
            let inp = &g.ports[p.inputs[0]];
            let out = &g.ports[p.outputs[0]];
            if !g.joins[*join].published {
                if inp.is_finished() {
                    if out.has_data() {
                        Event::NeedConsume
                    } else {
                        Event::Ready
                    }
                } else {
                    Event::Async
                }
            } else if inp.has_data() {
                if out.has_data() || out.is_finished() {
                    Event::NeedConsume
                } else {
                    Event::Ready
                }
            } else if inp.is_finished() {
                if out.has_data() {
                    Event::NeedConsume
                } else {
                    Event::Ready
                }
            } else {
                Event::NeedData
            }
        }
        ProcessorKind::Fault { .. } => Event::Ready,
    }
}

/// Same shape is transitive.
pub proof fn lemma_same_shape_trans(g1: ExecutingGraph, g2: ExecutingGraph, g3: ExecutingGraph)
    requires
        same_shape(g1, g2),
        same_shape(g2, g3),
    ensures
        same_shape(g1, g3),
{
    assert forall|i: int| 0 <= i < g1.processors@.len() implies {
        &&& (#[trigger] g3.processors@[i]).inputs@ == g1.processors@[i].inputs@
        &&& g3.processors@[i].outputs@ == g1.processors@[i].outputs@
        &&& same_variant(g3.processors@[i].kind, g1.processors@[i].kind)
    } by {
        assert(g2.processors@[i].inputs@ == g1.processors@[i].inputs@);
        assert(g3.processors@[i].inputs@ == g2.processors@[i].inputs@);
    }
}

/// Same shape keeps a graph conservative.
pub proof fn lemma_same_shape_conservative(g1: ExecutingGraph, g2: ExecutingGraph)
    requires
        same_shape(g1, g2),
        g1.all_conservative(),
    ensures
        g2.all_conservative(),
{
    assert forall|i: int| 0 <= i < g2.processors@.len() implies match (
        #[trigger] g2.processors@[i]
    ).kind {
        ProcessorKind::ConstantSource { .. } => true,
        ProcessorKind::Transform => true,
        ProcessorKind::CollectSink { .. } => true,
        ProcessorKind::Resize { .. } => true,
        _ => false,
    } by {
        assert(same_variant(g2.processors@[i].kind, g1.processors@[i].kind));
        assert(match g1.processors@[i].kind {
            ProcessorKind::ConstantSource { .. } => true,
            ProcessorKind::Transform => true,
            ProcessorKind::CollectSink { .. } => true,
            ProcessorKind::Resize { .. } => true,
            _ => false,
        });
    }
}

/// All ports finished means no rows in flight.
pub proof fn lemma_ports_ms_empty(s: Seq<Port>)
    requires
        forall|i: int| 0 <= i < s.len() ==> (#[trigger] s[i]).state is Finished,
        forall|i: int| 0 <= i < s.len() ==> (#[trigger] s[i]).wf(),
    ensures
        ports_ms(s) == Multiset::<Row>::empty(),
    decreases s.len(),
{
    broadcast use vstd::multiset::group_multiset_axioms;
    broadcast use vstd::seq_lib::group_to_multiset_ensures;

    if s.len() > 0 {
        assert(s[0].slot is None);
        assert(s[0].spec_rows().len() == 0);
        assert(port_ms(s[0]) =~= Multiset::<Row>::empty());
        lemma_ports_ms_empty(s.drop_first());
        assert(ports_ms(s) =~= Multiset::<Row>::empty());
    }
}

/// A state in which the scheduler is rightly stuck: the wiring of `g0`,
/// all step invariants intact, yet nothing is finished-and-everything-else,
/// and no processor reports `Ready`. A deadlock report always carries such
/// a state as evidence; for graphs whose shape admits none, a run can only
/// end in completion or a processor error.
pub open spec fn stuck_state(g0: ExecutingGraph, gw: ExecutingGraph) -> bool {
    &&& same_shape(g0, gw)
    &&& gw.wf()
    &&& gw.covered()
    &&& gw.outputs_done()
    &&& gw.inputs_done()
    &&& gw.no_early_finish()
    &&& !gw.all_finished()
    &&& forall|p: int| 0 <= p < gw.processors@.len() ==> gw.spec_event(p) != Event::Ready
}

/// Whether `x` occurs among the first `n` entries of a list of port ids.
pub open spec fn spec_in_prefix(s: Seq<usize>, n: int, x: int) -> bool {
    exists|t: int| 0 <= t < n && s[t] == x
}

/// Wiring-only facts carry over between graphs of the same shape.
pub proof fn lemma_static_preserved(g0: ExecutingGraph, g1: ExecutingGraph)
    requires
        same_shape(g0, g1),
    ensures
        g0.producer_unique() ==> g1.producer_unique(),
        g0.outputs_in_range() ==> g1.outputs_in_range(),
{
    if g0.producer_unique() {
        assert forall|i1: int, k1: int, i2: int, k2: int|
            0 <= i1 < g1.processors@.len() && 0 <= k1 < g1.processors@[i1].outputs@.len() && 0
                <= i2 < g1.processors@.len() && 0 <= k2 < g1.processors@[i2].outputs@.len() && (
            i1 != i2 || k1 != k2) implies (#[trigger] g1.processors@[i1].outputs@[k1]) != (
        #[trigger] g1.processors@[i2].outputs@[k2]) by {
            assert(g1.processors@[i1].outputs@ == g0.processors@[i1].outputs@);
            assert(g1.processors@[i2].outputs@ == g0.processors@[i2].outputs@);
            assert(g0.processors@[i1].outputs@[k1] != g0.processors@[i2].outputs@[k2]);
        }
    }
    if g0.outputs_in_range() {
        assert forall|i: int, k: int|
            0 <= i < g1.processors@.len() && 0 <= k < g1.processors@[i].outputs@.len() implies (
        #[trigger] g1.processors@[i].outputs@[k]) < g1.ports@.len() by {
            assert(g1.processors@[i].outputs@ == g0.processors@[i].outputs@);
            assert(g0.processors@[i].outputs@[k] < g0.ports@.len());
        }
    }
}

/// After a step that touched only processor `pid`, never un-finished a
/// port, and finished `pid` only with already-finished inputs, every
/// finished processor still has finished input ports.
pub proof fn lemma_inputs_done_step(g0: ExecutingGraph, g1: ExecutingGraph, pid: int)
    requires
        same_shape(g0, g1),
        g0.wf(),
        g0.inputs_done(),
        0 <= pid < g0.processors@.len(),
        forall|j: int|
            0 <= j < g0.processors@.len() && j != pid ==> g1.processors@[j] == g0.processors@[j],
        g1.processors@[pid].finished ==> forall|k: int|
            0 <= k < g0.processors@[pid].inputs@.len() ==> g0.ports@[
                #[trigger] g0.processors@[pid].inputs@[k] as int
            ].state is Finished,
        forall|q: int|
            0 <= q < g0.ports@.len() && (#[trigger] g0.ports@[q]).state is Finished
                ==> g1.ports@[q].state is Finished,
    ensures
        g1.inputs_done(),
{
    assert forall|i: int, k: int|
        0 <= i < g1.processors@.len() && 0 <= k < g1.processors@[i].inputs@.len()
            && g1.processors@[i].finished implies g1.ports@[
        #[trigger] g1.processors@[i].inputs@[k] as int
    ].state is Finished by {
        assert(g1.processors@[i].inputs@ == g0.processors@[i].inputs@);
        let q = g0.processors@[i].inputs@[k] as int;
        assert(g0.proc_shape_wf(i));
        assert(0 <= q < g0.ports@.len());
        if i != pid {
            assert(g1.processors@[i] == g0.processors@[i]);
            assert(g0.ports@[q].state is Finished);
        } else {
            assert(g0.ports@[q].state is Finished);
        }
        assert(g1.ports@[q].state is Finished);
    }
}

/// After a step that touched only processor `pid` (unfinished before the
/// step) and finished no ports but `pid`'s own outputs, and only together
/// with `pid` itself, no unfinished processor has a finished output port.
pub proof fn lemma_no_early_step(g0: ExecutingGraph, g1: ExecutingGraph, pid: int)
    requires
        same_shape(g0, g1),
        g0.wf(),
        g0.no_early_finish(),
        g0.producer_unique(),
        0 <= pid < g0.processors@.len(),
        !g0.processors@[pid].finished,
        forall|j: int|
            0 <= j < g0.processors@.len() && j != pid ==> g1.processors@[j] == g0.processors@[j],
        forall|q: int|
            0 <= q < g0.ports@.len() && (#[trigger] g1.ports@[q]).state is Finished && !(
            g0.ports@[q].state is Finished) ==> g1.processors@[pid].finished && (exists|k: int|
                0 <= k < g0.processors@[pid].outputs@.len() && (
                #[trigger] g0.processors@[pid].outputs@[k]) as int == q),
    ensures
        g1.no_early_finish(),
{
    assert forall|i: int, k: int|
        0 <= i < g1.processors@.len() && 0 <= k < g1.processors@[i].outputs@.len()
            && !g1.processors@[i].finished implies !(g1.ports@[
        #[trigger] g1.processors@[i].outputs@[k] as int
    ].state is Finished) by {
        assert(g1.processors@[i].outputs@ == g0.processors@[i].outputs@);
        let q = g0.processors@[i].outputs@[k] as int;
        assert(g0.proc_shape_wf(i));
        assert(0 <= q < g0.ports@.len());
        if g1.ports@[q].state is Finished {
            if g0.ports@[q].state is Finished {
                if i != pid {
                    assert(g1.processors@[i] == g0.processors@[i]);
                }
                assert(!g0.processors@[i].finished);
                assert(!(g0.ports@[q].state is Finished));
            } else {
                assert(g1.processors@[pid].finished);
                let k2 = choose|k2: int|
                    0 <= k2 < g0.processors@[pid].outputs@.len() && (
                    #[trigger] g0.processors@[pid].outputs@[k2]) as int == q;
                assert(i != pid);
                assert(g0.processors@[i].outputs@[k] != g0.processors@[pid].outputs@[k2]);
            }
        }
    }
}

/// Whether an operator is deterministic and non-lossy.
pub open spec fn conservative_kind(k: ProcessorKind) -> bool {
    match k {
        ProcessorKind::ConstantSource { .. } => true,
        ProcessorKind::Transform => true,
        ProcessorKind::CollectSink { .. } => true,
        ProcessorKind::Resize { .. } => true,
        _ => false,
    }
}

/// What every successful step guarantees: the wiring is untouched, the
/// invariants hold again, the progress measure went strictly down, a step of
/// a conservative operator moved rows without losing or duplicating any,
/// and a published join state was not touched.
pub open spec fn step_ok_post(g0: ExecutingGraph, g1: ExecutingGraph, pid: int) -> bool {
    &&& same_shape(g0, g1)
    &&& g1.wf()
    &&& (g0.outputs_done() ==> g1.outputs_done())
    &&& (g0.sources_exhausted() ==> g1.sources_exhausted())
    &&& g1.potential() < g0.potential()
    &&& (conservative_kind(g0.processors@[pid].kind) ==> g1.live_ms() == g0.live_ms())
    &&& (g0.inputs_done() ==> g1.inputs_done())
    &&& (g0.no_early_finish() && g0.producer_unique() ==> g1.no_early_finish())
    &&& (g0.producer_unique() ==> g1.producer_unique())
    &&& (g0.outputs_in_range() ==> g1.outputs_in_range())
    &&& (forall|j: int|
        0 <= j < g0.joins@.len() && (#[trigger] g0.joins@[j]).published ==> g1.joins@[j]
            == g0.joins@[j])
}

/// Adding no rows changes nothing.
pub proof fn lemma_ms_add_empty<T>(m: Multiset<T>)
    ensures
        m.add(Multiset::<T>::empty()) == m,
{
    broadcast use vstd::multiset::group_multiset_axioms;

    assert(m.add(Multiset::<T>::empty()) =~= m);
}

/// After a step that touched only processor `pid`, never un-finished a port,
/// and finished all of `pid`'s outputs if it finished `pid`, every finished
/// processor still has finished output ports.
pub proof fn lemma_outputs_done_step(g0: ExecutingGraph, g1: ExecutingGraph, pid: int)
    requires
        same_shape(g0, g1),
        g0.wf(),
        g0.outputs_done(),
        0 <= pid < g0.processors@.len(),
        forall|j: int|
            0 <= j < g0.processors@.len() && j != pid ==> g1.processors@[j] == g0.processors@[j],
        g1.processors@[pid].finished ==> forall|k: int|
            0 <= k < g1.processors@[pid].outputs@.len() ==> g1.ports@[
                #[trigger] g1.processors@[pid].outputs@[k] as int
            ].state is Finished,
        forall|q: int|
            0 <= q < g0.ports@.len() && (#[trigger] g0.ports@[q]).state is Finished
                ==> g1.ports@[q].state is Finished,
    ensures
        g1.outputs_done(),
{
    assert forall|i: int, k: int|
        0 <= i < g1.processors@.len() && 0 <= k < g1.processors@[i].outputs@.len()
            && g1.processors@[i].finished implies g1.ports@[
        #[trigger] g1.processors@[i].outputs@[k] as int
    ].state is Finished by {
        if i != pid {
            assert(g1.processors@[i] == g0.processors@[i]);
            let q = g0.processors@[i].outputs@[k] as int;
            assert(g0.ports@[q].state is Finished);
            assert(g0.proc_shape_wf(i));
            assert(0 <= q < g0.ports@.len());
        }
    }
}

/// A processor whose record did not change keeps its potential between
/// graphs of the same shape.
pub proof fn lemma_proc_pot_stable(g0: ExecutingGraph, g1: ExecutingGraph, j: int)
    requires
        same_shape(g0, g1),
        g0.wf(),
        0 <= j < g0.processors@.len(),
        g1.processors@[j] == g0.processors@[j],
    ensures
        g0.proc_pot(j) == g1.proc_pot(j),
{
    assert(g0.proc_shape_wf(j));
    match g0.processors@[j].kind {
        ProcessorKind::ConstantSource { .. } => {
            let oj = g0.processors@[j].outputs@[0] as int;
            assert(0 <= oj < g0.ports@.len());
            assert(g1.ports@[oj].depth == g0.ports@[oj].depth);
        }
        _ => {}
    }
}

/// One step of a constant source: emit the next batch, or finish.
fn step_source(g: &mut ExecutingGraph, pid: usize) -> (r: Result<(), crate::error::EngineError>)
    requires
        old(g).wf(),
        pid < old(g).processors@.len(),
        old(g).processors@[pid as int].kind is ConstantSource,
        old(g).spec_event(pid as int) == Event::Ready,
    ensures
        r is Ok,
        step_ok_post(*old(g), *final(g), pid as int),
{
    let ghost g0 = *g;
    proof {
        assert(g.proc_shape_wf(pid as int));
    }
    let p = &g.processors[pid];
    let out_id = p.outputs[0];
    let emit: Option<crate::row::DataBlock> = match &p.kind {
        ProcessorKind::ConstantSource { blocks, next } => {
            if *next < blocks.len() {
                Some(blocks[*next].clone())
            } else {
                None
            }
        }
        _ => None,
    };
    let ghost d = g0.ports@[out_id as int].depth as int;
    match emit {
        Some(block) => {
            let ghost block_rows = block.spec_rows();
            let port = &mut g.ports[out_id];
            let res = port.push(block);
            proof {
                assert(res is Ok);
            }
            let pr = &mut g.processors[pid];
            match &mut pr.kind {
                ProcessorKind::ConstantSource { next, .. } => {
                    *next = *next + 1;
                }
                _ => {
                    proof {
                        assert(false);
                    }
                }
            }
            proof {
                broadcast use vstd::seq_lib::group_to_multiset_ensures;

                let g1 = *g;
                let n = g0.processors@.len() as int;
                let ghost blocks0 = g0.processors@[pid as int].kind->ConstantSource_blocks@;
                let ghost next0 = g0.processors@[pid as int].kind->ConstantSource_next as int;
                // Shape.
                assert(g1.ports@ == g0.ports@.update(out_id as int, g1.ports@[out_id as int]));
                assert(g1.processors@ == g0.processors@.update(
                    pid as int,
                    g1.processors@[pid as int],
                ));
                assert(same_shape(g0, g1));
                // Well-formedness.
                assert forall|i: int| 0 <= i < n implies #[trigger] g1.proc_shape_wf(i) by {
                    lemma_shape_wf_stable(g0, g1, i);
                }
                assert(g1.wf());
                // Finished processors and their ports are untouched.
                assert(g0.outputs_done() ==> g1.outputs_done()) by {
                    if g0.outputs_done() {
                        assert forall|i: int, k: int|
                            0 <= i < n && 0 <= k < g1.processors@[i].outputs@.len()
                                && g1.processors@[i].finished implies g1.ports@[
                            #[trigger] g1.processors@[i].outputs@[k] as int
                        ].state is Finished by {
                            if i == pid as int {
                                assert(!g1.processors@[i].finished);
                            } else {
                                assert(g1.processors@[i] == g0.processors@[i]);
                                let q = g0.processors@[i].outputs@[k] as int;
                                assert(g0.proc_shape_wf(i));
                                assert(g0.ports@[q].state is Finished);
                                if q == out_id as int {
                                    assert(spec_pushable(g0.ports@[q].state));
                                    assert(false);
                                }
                                assert(0 <= q < g0.ports@.len());
                                assert(g1.ports@[q] == g0.ports@[q]);
                            }
                        }
                    }
                }
                // The progress measure went down by one.
                lemma_ports_pot_update(g0.ports@, out_id as int, g1.ports@[out_id as int]);
                assert(port_pot(g0.ports@[out_id as int]) == 0);
                assert(port_pot(g1.ports@[out_id as int]) == d);
                assert forall|j: int| 0 <= j < n && j != pid as int implies g0.proc_pot(j)
                    == g1.proc_pot(j) by {
                    assert(g1.processors@[j] == g0.processors@[j]);
                    assert(g0.proc_shape_wf(j));
                    match g0.processors@[j].kind {
                        ProcessorKind::ConstantSource { .. } => {
                            let oj = g0.processors@[j].outputs@[0] as int;
                            assert(0 <= oj < g0.ports@.len());
                            assert(g1.ports@[oj].depth == g0.ports@[oj].depth);
                        }
                        _ => {}
                    }
                }
                lemma_procs_pot_change(g0, g1, n, pid as int);
                assert((blocks0.len() - (next0 + 1)) * (d + 1) == (blocks0.len() - next0) * (d
                    + 1) - (d + 1)) by (nonlinear_arith);
                assert(g1.proc_pot(pid as int) == g0.proc_pot(pid as int) - (d + 1));
                assert(g1.potential() == g0.potential() - 1);
                // Conservation: the emitted batch moved from the source to the port.
                let bm = block_rows.to_multiset();
                lemma_ports_ms_update(g0.ports@, out_id as int, g1.ports@[out_id as int]);
                assert(port_ms(g0.ports@[out_id as int]) =~= Multiset::<Row>::empty());
                lemma_ms_add_empty(ports_ms(g1.ports@));
                assert(port_ms(g1.ports@[out_id as int]) == bm);
                assert(ports_ms(g1.ports@) == ports_ms(g0.ports@).add(bm));
                lemma_procs_ms_update(
                    g0.processors@,
                    pid as int,
                    g1.processors@[pid as int],
                );
                assert(blocks0.skip(next0)[0] == blocks0[next0]);
                assert(blocks0.skip(next0).drop_first() =~= blocks0.skip(next0 + 1));
                crate::row::lemma_rows_of_blocks_first(blocks0.skip(next0));
                lemma_multiset_commutative(
                    blocks0[next0].spec_rows(),
                    rows_of_blocks(blocks0.skip(next0 + 1)),
                );
                assert(blocks0[next0].spec_rows() == block_rows);
                assert(proc_ms(g0.processors@[pid as int]) == bm.add(
                    proc_ms(g1.processors@[pid as int]),
                ));
                broadcast use vstd::multiset::group_multiset_axioms;

                let proc1 = proc_ms(g1.processors@[pid as int]);
                assert(procs_ms(g1.processors@).add(bm).add(proc1) =~= procs_ms(
                    g1.processors@,
                ).add(bm.add(proc1)));
                lemma_multiset_add_cancel(
                    procs_ms(g1.processors@).add(bm),
                    procs_ms(g0.processors@),
                    proc1,
                );
                assert(g1.live_ms() =~= g0.live_ms());
                // The step finished nothing; the finish-discipline
                // invariants carry over.
                assert(!g0.processors@[pid as int].finished);
                assert(!g1.processors@[pid as int].finished);
                assert(spec_pushable(g0.ports@[out_id as int].state));
                assert forall|q: int|
                    0 <= q < g0.ports@.len() && (#[trigger] g0.ports@[q]).state is Finished
                        implies g1.ports@[q].state is Finished by {
                    if q != out_id as int {
                        assert(g1.ports@[q] == g0.ports@[q]);
                    }
                }
                assert forall|q: int|
                    0 <= q < g0.ports@.len() && (#[trigger] g1.ports@[q]).state is Finished && !(
                    g0.ports@[q].state is Finished) implies g1.processors@[pid as int].finished
                    && (exists|k: int|
                    0 <= k < g0.processors@[pid as int].outputs@.len() && (
                    #[trigger] g0.processors@[pid as int].outputs@[k]) as int == q) by {
                    if q == out_id as int {
                        assert(g1.ports@[q].state is HasData);
                    } else {
                        assert(g1.ports@[q] == g0.ports@[q]);
                    }
                }
                if g0.inputs_done() {
                    lemma_inputs_done_step(g0, g1, pid as int);
                }
                if g0.no_early_finish() && g0.producer_unique() {
                    lemma_no_early_step(g0, g1, pid as int);
                }
                lemma_static_preserved(g0, g1);
                assert(step_ok_post(g0, g1, pid as int));
            }
            Ok(())
        }
        None => {
            let port = &mut g.ports[out_id];
            port.finish();
            let pr = &mut g.processors[pid];
            pr.finished = true;
            proof {
                broadcast use vstd::seq_lib::group_to_multiset_ensures;

                let g1 = *g;
                let n = g0.processors@.len() as int;
                let ghost blocks0 = g0.processors@[pid as int].kind->ConstantSource_blocks@;
                let ghost next0 = g0.processors@[pid as int].kind->ConstantSource_next as int;
                assert(next0 == blocks0.len());
                assert(g1.ports@ == g0.ports@.update(out_id as int, g1.ports@[out_id as int]));
                assert(g1.processors@ == g0.processors@.update(
                    pid as int,
                    g1.processors@[pid as int],
                ));
                assert(same_shape(g0, g1));
                assert forall|i: int| 0 <= i < n implies #[trigger] g1.proc_shape_wf(i) by {
                    lemma_shape_wf_stable(g0, g1, i);
                }
                assert(g1.wf());
                assert(g0.outputs_done() ==> g1.outputs_done()) by {
                    if g0.outputs_done() {
                        assert forall|i: int, k: int|
                            0 <= i < n && 0 <= k < g1.processors@[i].outputs@.len()
                                && g1.processors@[i].finished implies g1.ports@[
                            #[trigger] g1.processors@[i].outputs@[k] as int
                        ].state is Finished by {
                            if i == pid as int {
                                assert(k == 0);
                                assert(g1.ports@[out_id as int].state is Finished);
                            } else {
                                assert(g1.processors@[i] == g0.processors@[i]);
                                let q = g0.processors@[i].outputs@[k] as int;
                                assert(g0.proc_shape_wf(i));
                                assert(g0.ports@[q].state is Finished);
                                if q == out_id as int {
                                    assert(spec_pushable(g0.ports@[q].state));
                                    assert(false);
                                }
                                assert(0 <= q < g0.ports@.len());
                                assert(g1.ports@[q] == g0.ports@[q]);
                            }
                        }
                    }
                }
                lemma_ports_pot_update(g0.ports@, out_id as int, g1.ports@[out_id as int]);
                assert(port_pot(g0.ports@[out_id as int]) == 0);
                assert(port_pot(g1.ports@[out_id as int]) == 0);
                assert forall|j: int| 0 <= j < n && j != pid as int implies g0.proc_pot(j)
                    == g1.proc_pot(j) by {
                    assert(g1.processors@[j] == g0.processors@[j]);
                    assert(g0.proc_shape_wf(j));
                    match g0.processors@[j].kind {
                        ProcessorKind::ConstantSource { .. } => {
                            let oj = g0.processors@[j].outputs@[0] as int;
                            assert(0 <= oj < g0.ports@.len());
                            assert(g1.ports@[oj].depth == g0.ports@[oj].depth);
                        }
                        _ => {}
                    }
                }
                lemma_procs_pot_change(g0, g1, n, pid as int);
                assert((blocks0.len() - next0) * (d + 1) == 0) by (nonlinear_arith)
                    requires next0 == blocks0.len();
                assert(g1.proc_pot(pid as int) == 0);
                assert(g0.proc_pot(pid as int) == 1);
                assert(g1.potential() == g0.potential() - 1);
                // Conservation: nothing moved.
                lemma_ports_ms_update(g0.ports@, out_id as int, g1.ports@[out_id as int]);
                assert(port_ms(g0.ports@[out_id as int]) =~= Multiset::<Row>::empty());
                assert(port_ms(g1.ports@[out_id as int]) =~= Multiset::<Row>::empty());
                lemma_ms_add_empty(ports_ms(g1.ports@));
                lemma_ms_add_empty(ports_ms(g0.ports@));
                assert(ports_ms(g1.ports@) == ports_ms(g0.ports@));
                lemma_procs_ms_update(
                    g0.processors@,
                    pid as int,
                    g1.processors@[pid as int],
                );
                assert(proc_ms(g1.processors@[pid as int]) == proc_ms(
                    g0.processors@[pid as int],
                ));
                lemma_multiset_add_cancel(
                    procs_ms(g1.processors@),
                    procs_ms(g0.processors@),
                    proc_ms(g0.processors@[pid as int]),
                );
                assert(g1.live_ms() == g0.live_ms());
                // The step finished the one output together with the
                // processor itself, whose inputs are none.
                assert(!g0.processors@[pid as int].finished);
                assert(g1.processors@[pid as int].finished);
                assert(g0.processors@[pid as int].outputs@[0] as int == out_id as int);
                assert forall|q: int|
                    0 <= q < g0.ports@.len() && (#[trigger] g0.ports@[q]).state is Finished
                        implies g1.ports@[q].state is Finished by {
                    if q != out_id as int {
                        assert(g1.ports@[q] == g0.ports@[q]);
                    }
                }
                assert forall|q: int|
                    0 <= q < g0.ports@.len() && (#[trigger] g1.ports@[q]).state is Finished && !(
                    g0.ports@[q].state is Finished) implies g1.processors@[pid as int].finished
                    && (exists|k: int|
                    0 <= k < g0.processors@[pid as int].outputs@.len() && (
                    #[trigger] g0.processors@[pid as int].outputs@[k]) as int == q) by {
                    if q == out_id as int {
                        assert(g0.processors@[pid as int].outputs@[0] as int == q);
                    } else {
                        assert(g1.ports@[q] == g0.ports@[q]);
                    }
                }
                if g0.inputs_done() {
                    assert(g0.processors@[pid as int].inputs@.len() == 0);
                    lemma_inputs_done_step(g0, g1, pid as int);
                }
                if g0.no_early_finish() && g0.producer_unique() {
                    lemma_no_early_step(g0, g1, pid as int);
                }
                lemma_static_preserved(g0, g1);
                assert(step_ok_post(g0, g1, pid as int));
            }
            Ok(())
        }
    }
}


/// One step of the identity transform: move a batch from input to output,
/// or, when the input is exhausted, finish the output and itself.
fn step_transform(g: &mut ExecutingGraph, pid: usize) -> (r: Result<
    (),
    crate::error::EngineError,
>)
    requires
        old(g).wf(),
        pid < old(g).processors@.len(),
        old(g).processors@[pid as int].kind is Transform,
        old(g).spec_event(pid as int) == Event::Ready,
    ensures
        r is Ok,
        step_ok_post(*old(g), *final(g), pid as int),
{
    let ghost g0 = *g;
    proof {
        assert(g.proc_shape_wf(pid as int));
    }
    let p = &g.processors[pid];
    let in_id = p.inputs[0];
    let out_id = p.outputs[0];
    proof {
        assert(in_id != out_id);
    }
    let moving = g.ports[in_id].has_data();
    if moving {
        let port_in = &mut g.ports[in_id];
        let pulled = port_in.pull();
        let ghost gmid = *g;
        let block = match pulled {
            Some(block) => block,
            None => {
                proof {
                    assert(false);
                }
                crate::row::DataBlock::empty()
            }
        };
        let ghost bm = block.spec_rows().to_multiset();
        let port_out = &mut g.ports[out_id];
        let res = port_out.push(block);
        proof {
            assert(gmid.ports@[out_id as int] == g0.ports@[out_id as int]);
            assert(res is Ok);
        }
        proof {
            broadcast use vstd::seq_lib::group_to_multiset_ensures;
            broadcast use vstd::multiset::group_multiset_axioms;

            let g1 = *g;
            let n = g0.processors@.len() as int;
            let din = g0.ports@[in_id as int].depth as int;
            let dout = g0.ports@[out_id as int].depth as int;
            assert(gmid.ports@ == g0.ports@.update(in_id as int, gmid.ports@[in_id as int]));
            assert(g1.ports@ == gmid.ports@.update(out_id as int, g1.ports@[out_id as int]));
            assert(g1.processors@ == g0.processors@);
            assert(same_shape(g0, g1));
            assert forall|i: int| 0 <= i < n implies #[trigger] g1.proc_shape_wf(i) by {
                lemma_shape_wf_stable(g0, g1, i);
            }
            assert(g1.wf());
            assert(g0.outputs_done() ==> g1.outputs_done()) by {
                if g0.outputs_done() {
                    assert forall|q: int|
                        0 <= q < g0.ports@.len() && (#[trigger] g0.ports@[q]).state is Finished
                            implies g1.ports@[q].state is Finished by {
                        assert(q != in_id as int && q != out_id as int);
                    }
                    lemma_outputs_done_step(g0, g1, pid as int);
                }
            }
            // Potential: the batch moved one hop closer to the sinks.
            lemma_ports_pot_update(g0.ports@, in_id as int, gmid.ports@[in_id as int]);
            lemma_ports_pot_update(gmid.ports@, out_id as int, g1.ports@[out_id as int]);
            assert(port_pot(g0.ports@[in_id as int]) == din);
            assert(port_pot(gmid.ports@[in_id as int]) == 0);
            assert(port_pot(gmid.ports@[out_id as int]) == 0);
            assert(port_pot(g1.ports@[out_id as int]) == dout);
            assert forall|j: int| 0 <= j < n implies g0.proc_pot(j) == g1.proc_pot(j) by {
                lemma_proc_pot_stable(g0, g1, j);
            }
            lemma_procs_pot_congruent(g0, g1, n);
            assert(g1.potential() == g0.potential() - din + dout);
            assert(g1.potential() < g0.potential());
            // Conservation: the same rows, one port further on.
            lemma_ports_ms_update(g0.ports@, in_id as int, gmid.ports@[in_id as int]);
            lemma_ports_ms_update(gmid.ports@, out_id as int, g1.ports@[out_id as int]);
            assert(port_ms(g0.ports@[in_id as int]) == bm);
            assert(port_ms(gmid.ports@[in_id as int]) =~= Multiset::<Row>::empty());
            assert(port_ms(gmid.ports@[out_id as int]) =~= Multiset::<Row>::empty());
            assert(port_ms(g1.ports@[out_id as int]) == bm);
            lemma_ms_add_empty(ports_ms(gmid.ports@));
            lemma_ms_add_empty(ports_ms(g1.ports@));
            assert(ports_ms(gmid.ports@).add(bm) == ports_ms(g0.ports@));
            assert(ports_ms(g1.ports@) == ports_ms(gmid.ports@).add(bm));
            assert(ports_ms(g1.ports@) == ports_ms(g0.ports@));
            assert(g1.live_ms() == g0.live_ms());
            // The step finished nothing; the finish-discipline
            // invariants carry over.
            assert(!g0.processors@[pid as int].finished);
            assert(!g1.processors@[pid as int].finished);
            assert(g0.ports@[in_id as int].state is HasData);
            assert(spec_pushable(g0.ports@[out_id as int].state));
            assert forall|q: int|
                0 <= q < g0.ports@.len() && (#[trigger] g0.ports@[q]).state is Finished
                    implies g1.ports@[q].state is Finished by {
                if q != in_id as int && q != out_id as int {
                    assert(g1.ports@[q] == g0.ports@[q]);
                }
            }
            assert forall|q: int|
                0 <= q < g0.ports@.len() && (#[trigger] g1.ports@[q]).state is Finished && !(
                g0.ports@[q].state is Finished) implies g1.processors@[pid as int].finished
                && (exists|k: int|
                0 <= k < g0.processors@[pid as int].outputs@.len() && (
                #[trigger] g0.processors@[pid as int].outputs@[k]) as int == q) by {
                if q == in_id as int {
                    assert(g1.ports@[q].state is Empty);
                } else if q == out_id as int {
                    assert(g1.ports@[q].state is HasData);
                } else {
                    assert(g1.ports@[q] == g0.ports@[q]);
                }
            }
            if g0.inputs_done() {
                lemma_inputs_done_step(g0, g1, pid as int);
            }
            if g0.no_early_finish() && g0.producer_unique() {
                lemma_no_early_step(g0, g1, pid as int);
            }
            lemma_static_preserved(g0, g1);
            assert(step_ok_post(g0, g1, pid as int));
        }
        Ok(())
    } else {
        let port_out = &mut g.ports[out_id];
        port_out.finish();
        let pr = &mut g.processors[pid];
        pr.finished = true;
        proof {
            broadcast use vstd::seq_lib::group_to_multiset_ensures;
            broadcast use vstd::multiset::group_multiset_axioms;

            let g1 = *g;
            let n = g0.processors@.len() as int;
            assert(g1.ports@ == g0.ports@.update(out_id as int, g1.ports@[out_id as int]));
            assert(g1.processors@ == g0.processors@.update(
                pid as int,
                g1.processors@[pid as int],
            ));
            assert(same_shape(g0, g1));
            assert forall|i: int| 0 <= i < n implies #[trigger] g1.proc_shape_wf(i) by {
                lemma_shape_wf_stable(g0, g1, i);
            }
            assert(g1.wf());
            assert(g0.outputs_done() ==> g1.outputs_done()) by {
                if g0.outputs_done() {
                    assert forall|q: int|
                        0 <= q < g0.ports@.len() && (#[trigger] g0.ports@[q]).state is Finished
                            implies g1.ports@[q].state is Finished by {}
                    lemma_outputs_done_step(g0, g1, pid as int);
                }
            }
            lemma_ports_pot_update(g0.ports@, out_id as int, g1.ports@[out_id as int]);
            assert(port_pot(g0.ports@[out_id as int]) == 0);
            assert(port_pot(g1.ports@[out_id as int]) == 0);
            assert forall|j: int| 0 <= j < n && j != pid as int implies g0.proc_pot(j)
                == g1.proc_pot(j) by {
                lemma_proc_pot_stable(g0, g1, j);
            }
            lemma_procs_pot_change(g0, g1, n, pid as int);
            assert(g1.proc_pot(pid as int) == 0);
            assert(g0.proc_pot(pid as int) == 1);
            assert(g1.potential() == g0.potential() - 1);
            // Conservation: nothing moved.
            lemma_ports_ms_update(g0.ports@, out_id as int, g1.ports@[out_id as int]);
            assert(port_ms(g0.ports@[out_id as int]) =~= Multiset::<Row>::empty());
            assert(port_ms(g1.ports@[out_id as int]) =~= Multiset::<Row>::empty());
            lemma_ms_add_empty(ports_ms(g1.ports@));
            lemma_ms_add_empty(ports_ms(g0.ports@));
            assert(ports_ms(g1.ports@) == ports_ms(g0.ports@));
            lemma_procs_ms_update(g0.processors@, pid as int, g1.processors@[pid as int]);
            assert(proc_ms(g1.processors@[pid as int]) == proc_ms(g0.processors@[pid as int]));
            lemma_multiset_add_cancel(
                procs_ms(g1.processors@),
                procs_ms(g0.processors@),
                proc_ms(g0.processors@[pid as int]),
            );
            assert(g1.live_ms() == g0.live_ms());
            // The step finished the one output together with the
            // processor itself, whose input was already finished.
            assert(!g0.processors@[pid as int].finished);
            assert(g1.processors@[pid as int].finished);
            assert(g0.processors@[pid as int].outputs@[0] as int == out_id as int);
            assert forall|q: int|
                0 <= q < g0.ports@.len() && (#[trigger] g0.ports@[q]).state is Finished
                    implies g1.ports@[q].state is Finished by {
                if q != out_id as int {
                    assert(g1.ports@[q] == g0.ports@[q]);
                }
            }
            assert forall|q: int|
                0 <= q < g0.ports@.len() && (#[trigger] g1.ports@[q]).state is Finished && !(
                g0.ports@[q].state is Finished) implies g1.processors@[pid as int].finished
                && (exists|k: int|
                0 <= k < g0.processors@[pid as int].outputs@.len() && (
                #[trigger] g0.processors@[pid as int].outputs@[k]) as int == q) by {
                if q == out_id as int {
                    assert(g0.processors@[pid as int].outputs@[0] as int == q);
                } else {
                    assert(g1.ports@[q] == g0.ports@[q]);
                }
            }
            if g0.inputs_done() {
                assert(g0.ports@[in_id as int].state is Finished);
                assert(g0.processors@[pid as int].inputs@[0] as int == in_id as int);
                assert forall|k: int|
                    0 <= k < g0.processors@[pid as int].inputs@.len() implies g0.ports@[
                    #[trigger] g0.processors@[pid as int].inputs@[k] as int
                ].state is Finished by {
                    assert(k == 0);
                }
                lemma_inputs_done_step(g0, g1, pid as int);
            }
            if g0.no_early_finish() && g0.producer_unique() {
                lemma_no_early_step(g0, g1, pid as int);
            }
            lemma_static_preserved(g0, g1);
            assert(step_ok_post(g0, g1, pid as int));
        }
        Ok(())
    }
}

/// One step of a collecting sink: collect a batch, or finish.
fn step_sink(g: &mut ExecutingGraph, pid: usize) -> (r: Result<(), crate::error::EngineError>)
    requires
        old(g).wf(),
        pid < old(g).processors@.len(),
        old(g).processors@[pid as int].kind is CollectSink,
        old(g).spec_event(pid as int) == Event::Ready,
    ensures
        r is Ok,
        step_ok_post(*old(g), *final(g), pid as int),
{
    let ghost g0 = *g;
    proof {
        assert(g.proc_shape_wf(pid as int));
    }
    let p = &g.processors[pid];
    let in_id = p.inputs[0];
    let collecting = g.ports[in_id].has_data();
    if collecting {
        let port_in = &mut g.ports[in_id];
        let pulled = port_in.pull();
        let block = match pulled {
            Some(block) => block,
            None => {
                proof {
                    assert(false);
                }
                crate::row::DataBlock::empty()
            }
        };
        let ghost bm = block.spec_rows().to_multiset();
        let ghost block_rows = block.spec_rows();
        let pr = &mut g.processors[pid];
        match &mut pr.kind {
            ProcessorKind::CollectSink { collected } => {
                collected.push(block);
            }
            _ => {
                proof {
                    assert(false);
                }
            }
        }
        proof {
            broadcast use vstd::seq_lib::group_to_multiset_ensures;
            broadcast use vstd::multiset::group_multiset_axioms;

            let g1 = *g;
            let n = g0.processors@.len() as int;
            let din = g0.ports@[in_id as int].depth as int;
            let ghost coll0 = g0.processors@[pid as int].kind->CollectSink_collected@;
            assert(g1.ports@ == g0.ports@.update(in_id as int, g1.ports@[in_id as int]));
            assert(g1.processors@ == g0.processors@.update(
                pid as int,
                g1.processors@[pid as int],
            ));
            assert(same_shape(g0, g1));
            assert forall|i: int| 0 <= i < n implies #[trigger] g1.proc_shape_wf(i) by {
                lemma_shape_wf_stable(g0, g1, i);
            }
            assert(g1.wf());
            assert(g0.outputs_done() ==> g1.outputs_done()) by {
                if g0.outputs_done() {
                    assert forall|q: int|
                        0 <= q < g0.ports@.len() && (#[trigger] g0.ports@[q]).state is Finished
                            implies g1.ports@[q].state is Finished by {
                        assert(q != in_id as int);
                    }
                    lemma_outputs_done_step(g0, g1, pid as int);
                }
            }
            lemma_ports_pot_update(g0.ports@, in_id as int, g1.ports@[in_id as int]);
            assert(port_pot(g0.ports@[in_id as int]) == din);
            assert(port_pot(g1.ports@[in_id as int]) == 0);
            assert(din >= 1);
            assert forall|j: int| 0 <= j < n && j != pid as int implies g0.proc_pot(j)
                == g1.proc_pot(j) by {
                lemma_proc_pot_stable(g0, g1, j);
            }
            lemma_procs_pot_change(g0, g1, n, pid as int);
            assert(g1.proc_pot(pid as int) == g0.proc_pot(pid as int));
            assert(g1.potential() == g0.potential() - din);
            assert(g1.potential() < g0.potential());
            // Conservation: the batch moved from the port into the sink.
            lemma_ports_ms_update(g0.ports@, in_id as int, g1.ports@[in_id as int]);
            assert(port_ms(g0.ports@[in_id as int]) == bm);
            assert(port_ms(g1.ports@[in_id as int]) =~= Multiset::<Row>::empty());
            lemma_ms_add_empty(ports_ms(g1.ports@));
            assert(ports_ms(g1.ports@).add(bm) == ports_ms(g0.ports@));
            lemma_procs_ms_update(g0.processors@, pid as int, g1.processors@[pid as int]);
            crate::row::lemma_rows_of_blocks_push(
                coll0,
                g1.processors@[pid as int].kind->CollectSink_collected@[coll0.len() as int],
            );
            assert(g1.processors@[pid as int].kind->CollectSink_collected@ == coll0.push(
                g1.processors@[pid as int].kind->CollectSink_collected@[coll0.len() as int],
            ));
            assert(g1.processors@[pid as int].kind->CollectSink_collected@[coll0.len() as int].spec_rows()
                == block_rows);
            lemma_multiset_commutative(rows_of_blocks(coll0), block_rows);
            assert(proc_ms(g1.processors@[pid as int]) == proc_ms(
                g0.processors@[pid as int],
            ).add(bm));
            // procs_ms(g1).add(proc0) == procs_ms(g0).add(proc0.add(bm))
            let proc0 = proc_ms(g0.processors@[pid as int]);
            assert(procs_ms(g0.processors@).add(proc0.add(bm)) =~= procs_ms(
                g0.processors@,
            ).add(bm).add(proc0));
            lemma_multiset_add_cancel(
                procs_ms(g1.processors@),
                procs_ms(g0.processors@).add(bm),
                proc0,
            );
            assert(procs_ms(g1.processors@) == procs_ms(g0.processors@).add(bm));
            assert(g1.live_ms() =~= g0.live_ms());
            // The step finished nothing; the finish-discipline
            // invariants carry over.
            assert(!g0.processors@[pid as int].finished);
            assert(!g1.processors@[pid as int].finished);
            assert(g0.ports@[in_id as int].state is HasData);
            assert forall|q: int|
                0 <= q < g0.ports@.len() && (#[trigger] g0.ports@[q]).state is Finished
                    implies g1.ports@[q].state is Finished by {
                if q != in_id as int {
                    assert(g1.ports@[q] == g0.ports@[q]);
                }
            }
            assert forall|q: int|
                0 <= q < g0.ports@.len() && (#[trigger] g1.ports@[q]).state is Finished && !(
                g0.ports@[q].state is Finished) implies g1.processors@[pid as int].finished
                && (exists|k: int|
                0 <= k < g0.processors@[pid as int].outputs@.len() && (
                #[trigger] g0.processors@[pid as int].outputs@[k]) as int == q) by {
                if q == in_id as int {
                    assert(g1.ports@[q].state is Empty);
                } else {
                    assert(g1.ports@[q] == g0.ports@[q]);
                }
            }
            if g0.inputs_done() {
                lemma_inputs_done_step(g0, g1, pid as int);
            }
            if g0.no_early_finish() && g0.producer_unique() {
                lemma_no_early_step(g0, g1, pid as int);
            }
            lemma_static_preserved(g0, g1);
            assert(step_ok_post(g0, g1, pid as int));
        }
        Ok(())
    } else {
        let pr = &mut g.processors[pid];
        pr.finished = true;
        proof {
            broadcast use vstd::seq_lib::group_to_multiset_ensures;
            broadcast use vstd::multiset::group_multiset_axioms;

            let g1 = *g;
            let n = g0.processors@.len() as int;
            assert(g1.ports@ == g0.ports@);
            assert(g1.processors@ == g0.processors@.update(
                pid as int,
                g1.processors@[pid as int],
            ));
            assert(same_shape(g0, g1));
            assert forall|i: int| 0 <= i < n implies #[trigger] g1.proc_shape_wf(i) by {
                lemma_shape_wf_stable(g0, g1, i);
            }
            assert(g1.wf());
            assert(g0.outputs_done() ==> g1.outputs_done()) by {
                if g0.outputs_done() {
                    assert(g1.processors@[pid as int].outputs@.len() == 0);
                    lemma_outputs_done_step(g0, g1, pid as int);
                }
            }
            assert forall|j: int| 0 <= j < n && j != pid as int implies g0.proc_pot(j)
                == g1.proc_pot(j) by {
                lemma_proc_pot_stable(g0, g1, j);
            }
            lemma_procs_pot_change(g0, g1, n, pid as int);
            assert(g1.proc_pot(pid as int) == 0);
            assert(g0.proc_pot(pid as int) == 1);
            assert(g1.potential() == g0.potential() - 1);
            lemma_procs_ms_update(g0.processors@, pid as int, g1.processors@[pid as int]);
            assert(proc_ms(g1.processors@[pid as int]) == proc_ms(g0.processors@[pid as int]));
            lemma_multiset_add_cancel(
                procs_ms(g1.processors@),
                procs_ms(g0.processors@),
                proc_ms(g0.processors@[pid as int]),
            );
            assert(g1.live_ms() == g0.live_ms());
            // The step finished the processor itself; it has no output
            // ports and its input was already finished.
            assert(!g0.processors@[pid as int].finished);
            assert(g1.processors@[pid as int].finished);
            assert(g1.ports@ == g0.ports@);
            assert forall|q: int|
                0 <= q < g0.ports@.len() && (#[trigger] g0.ports@[q]).state is Finished
                    implies g1.ports@[q].state is Finished by {
                assert(g1.ports@[q] == g0.ports@[q]);
            }
            assert forall|q: int|
                0 <= q < g0.ports@.len() && (#[trigger] g1.ports@[q]).state is Finished && !(
                g0.ports@[q].state is Finished) implies g1.processors@[pid as int].finished
                && (exists|k: int|
                0 <= k < g0.processors@[pid as int].outputs@.len() && (
                #[trigger] g0.processors@[pid as int].outputs@[k]) as int == q) by {
                assert(g1.ports@[q] == g0.ports@[q]);
            }
            if g0.inputs_done() {
                assert(g0.ports@[in_id as int].state is Finished);
                assert(g0.processors@[pid as int].inputs@[0] as int == in_id as int);
                assert forall|k: int|
                    0 <= k < g0.processors@[pid as int].inputs@.len() implies g0.ports@[
                    #[trigger] g0.processors@[pid as int].inputs@[k] as int
                ].state is Finished by {
                    assert(k == 0);
                }
                lemma_inputs_done_step(g0, g1, pid as int);
            }
            if g0.no_early_finish() && g0.producer_unique() {
                lemma_no_early_step(g0, g1, pid as int);
            }
            lemma_static_preserved(g0, g1);
            assert(step_ok_post(g0, g1, pid as int));
        }
        Ok(())
    }
}


/// One step of the join build side: absorb a batch into the shared state,
/// or publish it and finish. Once the state is published nothing mutates it.
fn step_build(g: &mut ExecutingGraph, pid: usize) -> (r: Result<(), crate::error::EngineError>)
    requires
        old(g).wf(),
        pid < old(g).processors@.len(),
        old(g).processors@[pid as int].kind is JoinBuild,
        old(g).spec_event(pid as int) == Event::Ready,
    ensures
        r is Ok,
        step_ok_post(*old(g), *final(g), pid as int),
{
    let ghost g0 = *g;
    proof {
        assert(g.proc_shape_wf(pid as int));
    }
    let p = &g.processors[pid];
    let in_id = p.inputs[0];
    let j = match &p.kind {
        ProcessorKind::JoinBuild { join } => *join,
        _ => 0,
    };
    let absorbing = g.ports[in_id].has_data();
    if absorbing {
        let port_in = &mut g.ports[in_id];
        let pulled = port_in.pull();
        let block = match pulled {
            Some(block) => block,
            None => {
                proof {
                    assert(false);
                }
                crate::row::DataBlock::empty()
            }
        };
        let js = &mut g.joins[j];
        if !js.published {
            let m = block.rows.len();
            let mut t: usize = 0;
            while t < m
                invariant
                    t <= m,
                    m == block.rows@.len(),
                decreases m - t,
            {
                js.entries.push(block.rows[t]);
                t = t + 1;
            }
        }
        proof {
            let g1 = *g;
            let n = g0.processors@.len() as int;
            let din = g0.ports@[in_id as int].depth as int;
            assert(g1.ports@ == g0.ports@.update(in_id as int, g1.ports@[in_id as int]));
            assert(g1.processors@ == g0.processors@);
            assert(g1.joins@ == g0.joins@.update(j as int, g1.joins@[j as int]));
            assert(same_shape(g0, g1));
            assert forall|i: int| 0 <= i < n implies #[trigger] g1.proc_shape_wf(i) by {
                lemma_shape_wf_stable(g0, g1, i);
            }
            assert(g1.wf());
            assert(g0.outputs_done() ==> g1.outputs_done()) by {
                if g0.outputs_done() {
                    assert forall|q: int|
                        0 <= q < g0.ports@.len() && (#[trigger] g0.ports@[q]).state is Finished
                            implies g1.ports@[q].state is Finished by {
                        assert(q != in_id as int);
                    }
                    lemma_outputs_done_step(g0, g1, pid as int);
                }
            }
            lemma_ports_pot_update(g0.ports@, in_id as int, g1.ports@[in_id as int]);
            assert(port_pot(g0.ports@[in_id as int]) == din);
            assert(port_pot(g1.ports@[in_id as int]) == 0);
            assert forall|j2: int| 0 <= j2 < n implies g0.proc_pot(j2) == g1.proc_pot(j2) by {
                lemma_proc_pot_stable(g0, g1, j2);
            }
            lemma_procs_pot_congruent(g0, g1, n);
            assert(g1.potential() == g0.potential() - din);
            assert(g1.potential() < g0.potential());
            assert(forall|x: int|
                0 <= x < g0.joins@.len() && (#[trigger] g0.joins@[x]).published ==> g1.joins@[x]
                    == g0.joins@[x]);
            // The step finished nothing; the finish-discipline
            // invariants carry over.
            assert(!g0.processors@[pid as int].finished);
            assert(!g1.processors@[pid as int].finished);
            assert(g0.ports@[in_id as int].state is HasData);
            assert forall|q: int|
                0 <= q < g0.ports@.len() && (#[trigger] g0.ports@[q]).state is Finished
                    implies g1.ports@[q].state is Finished by {
                if q != in_id as int {
                    assert(g1.ports@[q] == g0.ports@[q]);
                }
            }
            assert forall|q: int|
                0 <= q < g0.ports@.len() && (#[trigger] g1.ports@[q]).state is Finished && !(
                g0.ports@[q].state is Finished) implies g1.processors@[pid as int].finished
                && (exists|k: int|
                0 <= k < g0.processors@[pid as int].outputs@.len() && (
                #[trigger] g0.processors@[pid as int].outputs@[k]) as int == q) by {
                if q == in_id as int {
                    assert(g1.ports@[q].state is Empty);
                } else {
                    assert(g1.ports@[q] == g0.ports@[q]);
                }
            }
            if g0.inputs_done() {
                lemma_inputs_done_step(g0, g1, pid as int);
            }
            if g0.no_early_finish() && g0.producer_unique() {
                lemma_no_early_step(g0, g1, pid as int);
            }
            lemma_static_preserved(g0, g1);
            assert(step_ok_post(g0, g1, pid as int));
        }
        Ok(())
    } else {
        let js = &mut g.joins[j];
        if !js.published {
            js.published = true;
        }
        let pr = &mut g.processors[pid];
        pr.finished = true;
        proof {
            let g1 = *g;
            let n = g0.processors@.len() as int;
            assert(g1.ports@ == g0.ports@);
            assert(g1.processors@ == g0.processors@.update(
                pid as int,
                g1.processors@[pid as int],
            ));
            assert(g1.joins@ == g0.joins@.update(j as int, g1.joins@[j as int]));
            assert(same_shape(g0, g1));
            assert forall|i: int| 0 <= i < n implies #[trigger] g1.proc_shape_wf(i) by {
                lemma_shape_wf_stable(g0, g1, i);
            }
            assert(g1.wf());
            assert(g0.outputs_done() ==> g1.outputs_done()) by {
                if g0.outputs_done() {
                    assert(g1.processors@[pid as int].outputs@.len() == 0);
                    lemma_outputs_done_step(g0, g1, pid as int);
                }
            }
            assert forall|j2: int| 0 <= j2 < n && j2 != pid as int implies g0.proc_pot(j2)
                == g1.proc_pot(j2) by {
                lemma_proc_pot_stable(g0, g1, j2);
            }
            lemma_procs_pot_change(g0, g1, n, pid as int);
            assert(g1.proc_pot(pid as int) == 0);
            assert(g0.proc_pot(pid as int) == 1);
            assert(g1.potential() == g0.potential() - 1);
            // The step finished the processor itself; it has no output
            // ports and its input was already finished.
            assert(!g0.processors@[pid as int].finished);
            assert(g1.processors@[pid as int].finished);
            assert(g1.ports@ == g0.ports@);
            assert forall|q: int|
                0 <= q < g0.ports@.len() && (#[trigger] g0.ports@[q]).state is Finished
                    implies g1.ports@[q].state is Finished by {
                assert(g1.ports@[q] == g0.ports@[q]);
            }
            assert forall|q: int|
                0 <= q < g0.ports@.len() && (#[trigger] g1.ports@[q]).state is Finished && !(
                g0.ports@[q].state is Finished) implies g1.processors@[pid as int].finished
                && (exists|k: int|
                0 <= k < g0.processors@[pid as int].outputs@.len() && (
                #[trigger] g0.processors@[pid as int].outputs@[k]) as int == q) by {
                assert(g1.ports@[q] == g0.ports@[q]);
            }
            if g0.inputs_done() {
                assert(g0.ports@[in_id as int].state is Finished);
                assert(g0.processors@[pid as int].inputs@[0] as int == in_id as int);
                assert forall|k: int|
                    0 <= k < g0.processors@[pid as int].inputs@.len() implies g0.ports@[
                    #[trigger] g0.processors@[pid as int].inputs@[k] as int
                ].state is Finished by {
                    assert(k == 0);
                }
                lemma_inputs_done_step(g0, g1, pid as int);
            }
            if g0.no_early_finish() && g0.producer_unique() {
                lemma_no_early_step(g0, g1, pid as int);
            }
            lemma_static_preserved(g0, g1);
            assert(step_ok_post(g0, g1, pid as int));
        }
        Ok(())
    }
}

/// One step of the join probe side, only reachable once the build side is
/// published (or its input is already exhausted): map a batch to its
/// matches, or finish.
fn step_probe(g: &mut ExecutingGraph, pid: usize) -> (r: Result<(), crate::error::EngineError>)
    requires
        old(g).wf(),
        pid < old(g).processors@.len(),
        old(g).processors@[pid as int].kind is JoinProbe,
        old(g).spec_event(pid as int) == Event::Ready,
    ensures
        r is Ok,
        step_ok_post(*old(g), *final(g), pid as int),
{
    let ghost g0 = *g;
    proof {
        assert(g.proc_shape_wf(pid as int));
    }
    let p = &g.processors[pid];
    let in_id = p.inputs[0];
    let out_id = p.outputs[0];
    let j = match &p.kind {
        ProcessorKind::JoinProbe { join } => *join,
        _ => 0,
    };
    proof {
        assert(in_id != out_id);
    }
    let moving = g.joins[j].published && g.ports[in_id].has_data();
    if moving {
        let port_in = &mut g.ports[in_id];
        let pulled = port_in.pull();
        let ghost gmid = *g;
        let block = match pulled {
            Some(block) => block,
            None => {
                proof {
                    assert(false);
                }
                crate::row::DataBlock::empty()
            }
        };
        let matched = crate::processor::probe_block(&g.joins[j].entries, &block);
        let port_out = &mut g.ports[out_id];
        let res = port_out.push(matched);
        proof {
            assert(gmid.ports@[out_id as int] == g0.ports@[out_id as int]);
            assert(res is Ok);
        }
        proof {
            let g1 = *g;
            let n = g0.processors@.len() as int;
            let din = g0.ports@[in_id as int].depth as int;
            let dout = g0.ports@[out_id as int].depth as int;
            assert(gmid.ports@ == g0.ports@.update(in_id as int, gmid.ports@[in_id as int]));
            assert(g1.ports@ == gmid.ports@.update(out_id as int, g1.ports@[out_id as int]));
            assert(g1.processors@ == g0.processors@);
            assert(g1.joins@ == g0.joins@);
            assert(same_shape(g0, g1));
            assert forall|i: int| 0 <= i < n implies #[trigger] g1.proc_shape_wf(i) by {
                lemma_shape_wf_stable(g0, g1, i);
            }
            assert(g1.wf());
            assert(g0.outputs_done() ==> g1.outputs_done()) by {
                if g0.outputs_done() {
                    assert forall|q: int|
                        0 <= q < g0.ports@.len() && (#[trigger] g0.ports@[q]).state is Finished
                            implies g1.ports@[q].state is Finished by {
                        assert(q != in_id as int && q != out_id as int);
                    }
                    lemma_outputs_done_step(g0, g1, pid as int);
                }
            }
            lemma_ports_pot_update(g0.ports@, in_id as int, gmid.ports@[in_id as int]);
            lemma_ports_pot_update(gmid.ports@, out_id as int, g1.ports@[out_id as int]);
            assert(port_pot(g0.ports@[in_id as int]) == din);
            assert(port_pot(gmid.ports@[in_id as int]) == 0);
            assert(port_pot(gmid.ports@[out_id as int]) == 0);
            assert(port_pot(g1.ports@[out_id as int]) == dout);
            assert forall|j2: int| 0 <= j2 < n implies g0.proc_pot(j2) == g1.proc_pot(j2) by {
                lemma_proc_pot_stable(g0, g1, j2);
            }
            lemma_procs_pot_congruent(g0, g1, n);
            assert(g1.potential() == g0.potential() - din + dout);
            assert(g1.potential() < g0.potential());
            // The step finished nothing; the finish-discipline
            // invariants carry over.
            assert(!g0.processors@[pid as int].finished);
            assert(!g1.processors@[pid as int].finished);
            assert(g0.ports@[in_id as int].state is HasData);
            assert forall|q: int|
                0 <= q < g0.ports@.len() && (#[trigger] g0.ports@[q]).state is Finished
                    implies g1.ports@[q].state is Finished by {
                if q != in_id as int && q != out_id as int {
                    assert(g1.ports@[q] == g0.ports@[q]);
                }
            }
            assert forall|q: int|
                0 <= q < g0.ports@.len() && (#[trigger] g1.ports@[q]).state is Finished && !(
                g0.ports@[q].state is Finished) implies g1.processors@[pid as int].finished
                && (exists|k: int|
                0 <= k < g0.processors@[pid as int].outputs@.len() && (
                #[trigger] g0.processors@[pid as int].outputs@[k]) as int == q) by {
                if q == in_id as int {
                    assert(g1.ports@[q].state is Empty);
                } else if q == out_id as int {
                    assert(g1.ports@[q].state is HasData);
                } else {
                    assert(g1.ports@[q] == g0.ports@[q]);
                }
            }
            if g0.inputs_done() {
                lemma_inputs_done_step(g0, g1, pid as int);
            }
            if g0.no_early_finish() && g0.producer_unique() {
                lemma_no_early_step(g0, g1, pid as int);
            }
            lemma_static_preserved(g0, g1);
            assert(step_ok_post(g0, g1, pid as int));
        }
        Ok(())
    } else {
        let port_out = &mut g.ports[out_id];
        port_out.finish();
        let pr = &mut g.processors[pid];
        pr.finished = true;
        proof {
            let g1 = *g;
            let n = g0.processors@.len() as int;
            assert(g1.ports@ == g0.ports@.update(out_id as int, g1.ports@[out_id as int]));
            assert(g1.processors@ == g0.processors@.update(
                pid as int,
                g1.processors@[pid as int],
            ));
            assert(g1.joins@ == g0.joins@);
            assert(same_shape(g0, g1));
            assert forall|i: int| 0 <= i < n implies #[trigger] g1.proc_shape_wf(i) by {
                lemma_shape_wf_stable(g0, g1, i);
            }
            assert(g1.wf());
            assert(g0.outputs_done() ==> g1.outputs_done()) by {
                if g0.outputs_done() {
                    assert forall|q: int|
                        0 <= q < g0.ports@.len() && (#[trigger] g0.ports@[q]).state is Finished
                            implies g1.ports@[q].state is Finished by {}
                    lemma_outputs_done_step(g0, g1, pid as int);
                }
            }
            lemma_ports_pot_update(g0.ports@, out_id as int, g1.ports@[out_id as int]);
            assert(port_pot(g0.ports@[out_id as int]) == 0);
            assert(port_pot(g1.ports@[out_id as int]) == 0);
            assert forall|j2: int| 0 <= j2 < n && j2 != pid as int implies g0.proc_pot(j2)
                == g1.proc_pot(j2) by {
                lemma_proc_pot_stable(g0, g1, j2);
            }
            lemma_procs_pot_change(g0, g1, n, pid as int);
            assert(g1.proc_pot(pid as int) == 0);
            assert(g0.proc_pot(pid as int) == 1);
            assert(g1.potential() == g0.potential() - 1);
            // The step finished the one output together with the
            // processor itself, whose input was already finished.
            assert(!g0.processors@[pid as int].finished);
            assert(g1.processors@[pid as int].finished);
            assert(g0.processors@[pid as int].outputs@[0] as int == out_id as int);
            assert forall|q: int|
                0 <= q < g0.ports@.len() && (#[trigger] g0.ports@[q]).state is Finished
                    implies g1.ports@[q].state is Finished by {
                if q != out_id as int {
                    assert(g1.ports@[q] == g0.ports@[q]);
                }
            }
            assert forall|q: int|
                0 <= q < g0.ports@.len() && (#[trigger] g1.ports@[q]).state is Finished && !(
                g0.ports@[q].state is Finished) implies g1.processors@[pid as int].finished
                && (exists|k: int|
                0 <= k < g0.processors@[pid as int].outputs@.len() && (
                #[trigger] g0.processors@[pid as int].outputs@[k]) as int == q) by {
                if q == out_id as int {
                    assert(g0.processors@[pid as int].outputs@[0] as int == q);
                } else {
                    assert(g1.ports@[q] == g0.ports@[q]);
                }
            }
            if g0.inputs_done() {
                assert(g0.ports@[in_id as int].state is Finished);
                assert(g0.processors@[pid as int].inputs@[0] as int == in_id as int);
                assert forall|k: int|
                    0 <= k < g0.processors@[pid as int].inputs@.len() implies g0.ports@[
                    #[trigger] g0.processors@[pid as int].inputs@[k] as int
                ].state is Finished by {
                    assert(k == 0);
                }
                lemma_inputs_done_step(g0, g1, pid as int);
            }
            if g0.no_early_finish() && g0.producer_unique() {
                lemma_no_early_step(g0, g1, pid as int);
            }
            lemma_static_preserved(g0, g1);
            assert(step_ok_post(g0, g1, pid as int));
        }
        Ok(())
    }
}


/// Copies a list of port ids.
fn copy_ids(v: &Vec<usize>) -> (r: Vec<usize>)
    ensures
        r@ == v@,
{
    let n = v.len();
    let mut out: Vec<usize> = Vec::new();
    let mut i: usize = 0;
    while i < n
        invariant
            i <= n,
            n == v@.len(),
            out@ == v@.take(i as int),
        decreases n - i,
    {
        out.push(v[i]);
        proof {
            assert(out@ =~= v@.take(i + 1));
        }
        i = i + 1;
    }
    proof {
        assert(out@ =~= v@);
    }
    out
}

/// One step of a resize stage: move one batch from any input that has one
/// to the next output round-robin, or, when every input is exhausted and
/// every output drained, finish all outputs and itself.
fn step_resize(g: &mut ExecutingGraph, pid: usize) -> (r: Result<(), crate::error::EngineError>)
    requires
        old(g).wf(),
        pid < old(g).processors@.len(),
        old(g).processors@[pid as int].kind is Resize,
        old(g).spec_event(pid as int) == Event::Ready,
    ensures
        r is Ok,
        step_ok_post(*old(g), *final(g), pid as int),
{
    let ghost g0 = *g;
    proof {
        assert(g.proc_shape_wf(pid as int));
    }
    let p = &g.processors[pid];
    let n_in = p.inputs.len();
    let mut found: usize = 0;
    let mut got = false;
    let mut k: usize = 0;
    while k < n_in
        invariant
            k <= n_in,
            n_in == p.inputs@.len(),
            g.wf(),
            pid < g.processors@.len(),
            p == g.processors@[pid as int],
            g.proc_shape_wf(pid as int),
            p.kind is Resize,
            !got ==> forall|t: int|
                0 <= t < k ==> !(g.ports@[#[trigger] p.inputs@[t] as int].state is HasData),
            got ==> found < n_in && g.ports@[p.inputs@[found as int] as int].state is HasData,
        decreases n_in - k,
    {
        if !got {
            let q = &g.ports[p.inputs[k]];
            if q.has_data() {
                found = k;
                got = true;
            }
        }
        k = k + 1;
    }
    if got {
        let in_id = p.inputs[found];
        let cur = match &p.kind {
            ProcessorKind::Resize { next_out } => *next_out,
            _ => 0,
        };
        proof {
            assert(ExecutingGraph::proc_state_wf(g.processors@[pid as int]));
            assert(g.processors@[pid as int].kind->Resize_next_out == cur);
            assert(cur < p.outputs@.len());
        }
        let out_id = p.outputs[cur];
        let n_out_total = p.outputs.len();
        let new_next = if cur + 1 < n_out_total {
            cur + 1
        } else {
            0
        };
        proof {
            assert(g0.ports@[out_id as int].depth < g0.ports@[in_id as int].depth);
            assert(in_id != out_id);
        }
        let port_in = &mut g.ports[in_id];
        let pulled = port_in.pull();
        let ghost gmid = *g;
        let block = match pulled {
            Some(block) => block,
            None => {
                proof {
                    assert(false);
                }
                crate::row::DataBlock::empty()
            }
        };
        let ghost bm = block.spec_rows().to_multiset();
        let port_out = &mut g.ports[out_id];
        let res = port_out.push(block);
        proof {
            assert(gmid.ports@[out_id as int] == g0.ports@[out_id as int]);
            assert(res is Ok);
        }
        let pr = &mut g.processors[pid];
        match &mut pr.kind {
            ProcessorKind::Resize { next_out } => {
                *next_out = new_next;
            }
            _ => {
                proof {
                    assert(false);
                }
            }
        }
        proof {
            broadcast use vstd::seq_lib::group_to_multiset_ensures;
            broadcast use vstd::multiset::group_multiset_axioms;

            let g1 = *g;
            let n = g0.processors@.len() as int;
            let din = g0.ports@[in_id as int].depth as int;
            let dout = g0.ports@[out_id as int].depth as int;
            assert(gmid.ports@ == g0.ports@.update(in_id as int, gmid.ports@[in_id as int]));
            assert(g1.ports@ == gmid.ports@.update(out_id as int, g1.ports@[out_id as int]));
            assert(g1.processors@ == g0.processors@.update(
                pid as int,
                g1.processors@[pid as int],
            ));
            assert(same_shape(g0, g1));
            assert forall|i: int| 0 <= i < n implies #[trigger] g1.proc_shape_wf(i) by {
                lemma_shape_wf_stable(g0, g1, i);
            }
            assert(g1.wf());
            assert(g0.outputs_done() ==> g1.outputs_done()) by {
                if g0.outputs_done() {
                    assert forall|q: int|
                        0 <= q < g0.ports@.len() && (#[trigger] g0.ports@[q]).state is Finished
                            implies g1.ports@[q].state is Finished by {
                        assert(q != in_id as int && q != out_id as int);
                    }
                    lemma_outputs_done_step(g0, g1, pid as int);
                }
            }
            lemma_ports_pot_update(g0.ports@, in_id as int, gmid.ports@[in_id as int]);
            lemma_ports_pot_update(gmid.ports@, out_id as int, g1.ports@[out_id as int]);
            assert(port_pot(g0.ports@[in_id as int]) == din);
            assert(port_pot(gmid.ports@[in_id as int]) == 0);
            assert(port_pot(gmid.ports@[out_id as int]) == 0);
            assert(port_pot(g1.ports@[out_id as int]) == dout);
            assert forall|j: int| 0 <= j < n && j != pid as int implies g0.proc_pot(j)
                == g1.proc_pot(j) by {
                lemma_proc_pot_stable(g0, g1, j);
            }
            lemma_procs_pot_change(g0, g1, n, pid as int);
            assert(g1.proc_pot(pid as int) == g0.proc_pot(pid as int));
            assert(g1.potential() == g0.potential() - din + dout);
            assert(g1.potential() < g0.potential());
            // Conservation: the same rows, one port further on.
            lemma_ports_ms_update(g0.ports@, in_id as int, gmid.ports@[in_id as int]);
            lemma_ports_ms_update(gmid.ports@, out_id as int, g1.ports@[out_id as int]);
            assert(port_ms(g0.ports@[in_id as int]) == bm);
            assert(port_ms(gmid.ports@[in_id as int]) =~= Multiset::<Row>::empty());
            assert(port_ms(gmid.ports@[out_id as int]) =~= Multiset::<Row>::empty());
            assert(port_ms(g1.ports@[out_id as int]) == bm);
            lemma_ms_add_empty(ports_ms(gmid.ports@));
            lemma_ms_add_empty(ports_ms(g1.ports@));
            assert(ports_ms(gmid.ports@).add(bm) == ports_ms(g0.ports@));
            assert(ports_ms(g1.ports@) == ports_ms(gmid.ports@).add(bm));
            assert(ports_ms(g1.ports@) == ports_ms(g0.ports@));
            lemma_procs_ms_update(g0.processors@, pid as int, g1.processors@[pid as int]);
            assert(proc_ms(g1.processors@[pid as int]) == proc_ms(g0.processors@[pid as int]));
            lemma_multiset_add_cancel(
                procs_ms(g1.processors@),
                procs_ms(g0.processors@),
                proc_ms(g0.processors@[pid as int]),
            );
            assert(g1.live_ms() == g0.live_ms());
            // The step finished nothing; the finish-discipline
            // invariants carry over.
            assert(!g0.processors@[pid as int].finished);
            assert(!g1.processors@[pid as int].finished);
            assert(g0.ports@[in_id as int].state is HasData);
            assert forall|q: int|
                0 <= q < g0.ports@.len() && (#[trigger] g0.ports@[q]).state is Finished
                    implies g1.ports@[q].state is Finished by {
                if q != in_id as int && q != out_id as int {
                    assert(g1.ports@[q] == g0.ports@[q]);
                }
            }
            assert forall|q: int|
                0 <= q < g0.ports@.len() && (#[trigger] g1.ports@[q]).state is Finished && !(
                g0.ports@[q].state is Finished) implies g1.processors@[pid as int].finished
                && (exists|k: int|
                0 <= k < g0.processors@[pid as int].outputs@.len() && (
                #[trigger] g0.processors@[pid as int].outputs@[k]) as int == q) by {
                if q == in_id as int {
                    assert(g1.ports@[q].state is Empty);
                } else if q == out_id as int {
                    assert(g1.ports@[q].state is HasData);
                } else {
                    assert(g1.ports@[q] == g0.ports@[q]);
                }
            }
            if g0.inputs_done() {
                lemma_inputs_done_step(g0, g1, pid as int);
            }
            if g0.no_early_finish() && g0.producer_unique() {
                lemma_no_early_step(g0, g1, pid as int);
            }
            lemma_static_preserved(g0, g1);
            assert(step_ok_post(g0, g1, pid as int));
        }
        Ok(())
    } else {
        let outs = copy_ids(&p.outputs);
        let n_out = outs.len();
        let mut k2: usize = 0;
        proof {
            assert(forall|t: int|
                0 <= t < n_out ==> !(g0.ports@[#[trigger] outs@[t] as int].state is HasData));
        }
        while k2 < n_out
            invariant
                k2 <= n_out,
                n_out == outs@.len(),
                outs@ == g0.processors@[pid as int].outputs@,
                pid < g0.processors@.len(),
                g0.wf(),
                g0.proc_shape_wf(pid as int),
                g0.processors@[pid as int].kind is Resize,
                g.processors@ == g0.processors@,
                g.joins@ == g0.joins@,
                g.ports@.len() == g0.ports@.len(),
                forall|t: int|
                    0 <= t < n_out ==> !(g0.ports@[#[trigger] outs@[t] as int].state is HasData),
                forall|x: int|
                    0 <= x < g0.ports@.len() ==> (#[trigger] g.ports@[x]) == g0.ports@[x] || (
                    g.ports@[x].state is Finished && g.ports@[x].slot is None && g.ports@[x].depth
                        == g0.ports@[x].depth && spec_in_prefix(outs@, k2 as int, x)),
                forall|t: int|
                    0 <= t < k2 ==> g.ports@[#[trigger] outs@[t] as int].state is Finished,
                ports_pot(g.ports@) == ports_pot(g0.ports@),
                ports_ms(g.ports@) == ports_ms(g0.ports@),
            decreases n_out - k2,
        {
            let q = outs[k2];
            proof {
                assert(g0.port_in_range(g0.processors@[pid as int].outputs@[k2 as int] as int));
                assert(q < g.ports@.len());
                assert(g.ports@[q as int].wf() || g0.ports@[q as int].wf());
                assert(g.ports@[q as int].wf());
            }
            let ghost gprev = *g;
            let port = &mut g.ports[q];
            port.finish();
            proof {
                broadcast use vstd::seq_lib::group_to_multiset_ensures;
                broadcast use vstd::multiset::group_multiset_axioms;

                assert(g.ports@ == gprev.ports@.update(q as int, g.ports@[q as int]));
                lemma_ports_pot_update(gprev.ports@, q as int, g.ports@[q as int]);
                assert(gprev.ports@[q as int].slot is None);
                assert(port_pot(gprev.ports@[q as int]) == 0);
                assert(port_pot(g.ports@[q as int]) == 0);
                lemma_ports_ms_update(gprev.ports@, q as int, g.ports@[q as int]);
                assert(port_ms(gprev.ports@[q as int]) =~= Multiset::<Row>::empty());
                assert(port_ms(g.ports@[q as int]) =~= Multiset::<Row>::empty());
                lemma_ms_add_empty(ports_ms(g.ports@));
                lemma_ms_add_empty(ports_ms(gprev.ports@));
                assert(ports_ms(g.ports@) == ports_ms(gprev.ports@));
                assert forall|x: int|
                    0 <= x < g0.ports@.len() implies (#[trigger] g.ports@[x]) == g0.ports@[x]
                    || (g.ports@[x].state is Finished && g.ports@[x].slot is None
                        && g.ports@[x].depth == g0.ports@[x].depth && spec_in_prefix(
                        outs@,
                        k2 + 1,
                        x,
                    )) by {
                    if x == q as int {
                        assert(outs@[k2 as int] as int == x);
                        assert(spec_in_prefix(outs@, k2 + 1, x));
                    } else {
                        assert(g.ports@[x] == gprev.ports@[x]);
                        if !(gprev.ports@[x] == g0.ports@[x]) {
                            let t = choose|t: int| 0 <= t < k2 && outs@[t] as int == x;
                            assert(spec_in_prefix(outs@, k2 + 1, x));
                        }
                    }
                }
            }
            k2 = k2 + 1;
        }
        let pr = &mut g.processors[pid];
        pr.finished = true;
        proof {
            broadcast use vstd::multiset::group_multiset_axioms;

            let g1 = *g;
            let n = g0.processors@.len() as int;
            assert(g1.processors@ == g0.processors@.update(
                pid as int,
                g1.processors@[pid as int],
            ));
            assert(same_shape(g0, g1)) by {
                assert forall|x: int| 0 <= x < g0.ports@.len() implies (
                #[trigger] g1.ports@[x]).depth == g0.ports@[x].depth by {}
            }
            assert forall|i: int| 0 <= i < n implies #[trigger] g1.proc_shape_wf(i) by {
                lemma_shape_wf_stable(g0, g1, i);
            }
            assert forall|x: int| 0 <= x < g1.ports@.len() implies (
            #[trigger] g1.ports@[x]).wf() by {}
            assert(g1.wf());
            assert(g0.outputs_done() ==> g1.outputs_done()) by {
                if g0.outputs_done() {
                    assert forall|q: int|
                        0 <= q < g0.ports@.len() && (#[trigger] g0.ports@[q]).state is Finished
                            implies g1.ports@[q].state is Finished by {}
                    lemma_outputs_done_step(g0, g1, pid as int);
                }
            }
            assert forall|j: int| 0 <= j < n && j != pid as int implies g0.proc_pot(j)
                == g1.proc_pot(j) by {
                lemma_proc_pot_stable(g0, g1, j);
            }
            lemma_procs_pot_change(g0, g1, n, pid as int);
            assert(g1.proc_pot(pid as int) == 0);
            assert(g0.proc_pot(pid as int) == 1);
            assert(g1.potential() == g0.potential() - 1);
            lemma_procs_ms_update(g0.processors@, pid as int, g1.processors@[pid as int]);
            assert(proc_ms(g1.processors@[pid as int]) == proc_ms(g0.processors@[pid as int]));
            lemma_multiset_add_cancel(
                procs_ms(g1.processors@),
                procs_ms(g0.processors@),
                proc_ms(g0.processors@[pid as int]),
            );
            assert(g1.live_ms() == g0.live_ms());
            // Every port the step finished is one of this processor's
            // outputs, its inputs were already finished, and it
            // finished itself.
            assert(!g0.processors@[pid as int].finished);
            assert(g1.processors@[pid as int].finished);
            assert forall|q: int|
                0 <= q < g0.ports@.len() && (#[trigger] g0.ports@[q]).state is Finished
                    implies g1.ports@[q].state is Finished by {
                if !(g1.ports@[q] == g0.ports@[q]) {
                    assert(g1.ports@[q].state is Finished);
                }
            }
            assert forall|q: int|
                0 <= q < g0.ports@.len() && (#[trigger] g1.ports@[q]).state is Finished && !(
                g0.ports@[q].state is Finished) implies g1.processors@[pid as int].finished
                && (exists|k: int|
                0 <= k < g0.processors@[pid as int].outputs@.len() && (
                #[trigger] g0.processors@[pid as int].outputs@[k]) as int == q) by {
                assert(!(g1.ports@[q] == g0.ports@[q]));
                assert(spec_in_prefix(outs@, n_out as int, q));
                let t = choose|t: int| 0 <= t < n_out && outs@[t] as int == q;
                assert(g0.processors@[pid as int].outputs@[t] as int == q);
            }
            if g0.inputs_done() {
                assert forall|k: int|
                    0 <= k < g0.processors@[pid as int].inputs@.len() implies g0.ports@[
                    #[trigger] g0.processors@[pid as int].inputs@[k] as int
                ].state is Finished by {
                    assert(g0.ports@[g0.processors@[pid as int].inputs@[k] as int].state
                        is Finished);
                }
                lemma_inputs_done_step(g0, g1, pid as int);
            }
            if g0.no_early_finish() && g0.producer_unique() {
                lemma_no_early_step(g0, g1, pid as int);
            }
            lemma_static_preserved(g0, g1);
            assert(step_ok_post(g0, g1, pid as int));
        }
        Ok(())
    }
}


/// Forces the whole graph to its terminal state: every port and every
/// processor finished. This is the cancellation path; it releases whatever
/// the in-flight processors still held (pending batches are dropped), and
/// it never touches the shared join states.
pub fn cancel_graph(g: &mut ExecutingGraph)
    requires
        old(g).wf(),
    ensures
        final(g).wf(),
        same_shape(*old(g), *final(g)),
        final(g).all_finished(),
        final(g).all_ports_finished(),
        final(g).joins@ == old(g).joins@,
        forall|i: int|
            0 <= i < old(g).processors@.len() ==> (#[trigger] final(g).processors@[i]).kind
                == old(g).processors@[i].kind && final(g).processors@[i].name@ == old(
                g,
            ).processors@[i].name@,
{
    let ghost g0 = *g;
    let np = g.ports.len();
    let mut i: usize = 0;
    while i < np
        invariant
            i <= np,
            np == g.ports@.len(),
            np == g0.ports@.len(),
            g.processors@ == g0.processors@,
            g.joins@ == g0.joins@,
            forall|x: int| 0 <= x < i ==> (#[trigger] g.ports@[x]).state is Finished,
            forall|x: int| i <= x < np ==> g.ports@[x] == g0.ports@[x],
            forall|x: int|
                0 <= x < np ==> (#[trigger] g.ports@[x]).depth == g0.ports@[x].depth
                    && g.ports@[x].wf(),
        decreases np - i,
    {
        let port = &mut g.ports[i];
        port.finish();
        i = i + 1;
    }
    let n = g.processors.len();
    let mut k: usize = 0;
    while k < n
        invariant
            k <= n,
            n == g.processors@.len(),
            n == g0.processors@.len(),
            g.ports@.len() == g0.ports@.len(),
            g.joins@ == g0.joins@,
            forall|x: int| 0 <= x < g.ports@.len() ==> (#[trigger] g.ports@[x]).state is Finished,
            forall|x: int|
                0 <= x < g.ports@.len() ==> (#[trigger] g.ports@[x]).depth == g0.ports@[x].depth
                    && g.ports@[x].wf(),
            forall|x: int| 0 <= x < k ==> (#[trigger] g.processors@[x]).finished,
            forall|x: int| k <= x < n ==> g.processors@[x] == g0.processors@[x],
            forall|x: int|
                0 <= x < n ==> {
                    &&& (#[trigger] g.processors@[x]).kind == g0.processors@[x].kind
                    &&& g.processors@[x].inputs@ == g0.processors@[x].inputs@
                    &&& g.processors@[x].outputs@ == g0.processors@[x].outputs@
                    &&& g.processors@[x].name@ == g0.processors@[x].name@
                },
        decreases n - k,
    {
        let pr = &mut g.processors[k];
        pr.finished = true;
        k = k + 1;
    }
    proof {
        let g1 = *g;
        assert(same_shape(g0, g1)) by {
            assert forall|x: int| 0 <= x < g0.processors@.len() implies {
                &&& (#[trigger] g1.processors@[x]).inputs@ == g0.processors@[x].inputs@
                &&& g1.processors@[x].outputs@ == g0.processors@[x].outputs@
                &&& same_variant(g1.processors@[x].kind, g0.processors@[x].kind)
            } by {
                assert(g1.processors@[x].kind == g0.processors@[x].kind);
                lemma_same_variant_refl(g1.processors@[x].kind);
            }
        }
        assert forall|x: int| 0 <= x < g1.processors@.len() implies #[trigger] g1.proc_shape_wf(
            x,
        ) by {
            lemma_shape_wf_stable(g0, g1, x);
        }
        assert forall|x: int| 0 <= x < g1.processors@.len() implies
            ExecutingGraph::proc_state_wf(#[trigger] g1.processors@[x]) by {
            assert(ExecutingGraph::proc_state_wf(g0.processors@[x]));
        }
        assert(g1.wf());
    }
}

/// Identical operator states are the same operator.
pub proof fn lemma_same_variant_refl(k: ProcessorKind)
    ensures
        same_variant(k, k),
{
}

/// A graph of the same shape keeps every port covered by a producer.
pub proof fn lemma_covered_stable(g0: ExecutingGraph, g1: ExecutingGraph)
    requires
        same_shape(g0, g1),
        g0.covered(),
    ensures
        g1.covered(),
{
    assert forall|q: int| 0 <= q < g1.ports@.len() implies #[trigger] g1.has_producer(q) by {
        assert(g0.has_producer(q));
        let (i, k): (int, int) = choose|i: int, k: int|
            0 <= i < g0.processors@.len() && 0 <= k < g0.processors@[i].outputs@.len() && (
            #[trigger] g0.processors@[i].outputs@[k]) as int == q;
        assert(g1.processors@[i].outputs@ == g0.processors@[i].outputs@);
        assert(g1.processors@[i].outputs@[k] as int == q);
    }
}

/// When every processor of a covered graph has finished and finished
/// processors have finished their outputs, every port is finished.
pub proof fn lemma_all_ports_finished(g: ExecutingGraph)
    requires
        g.wf(),
        g.covered(),
        g.all_finished(),
        g.outputs_done(),
    ensures
        g.all_ports_finished(),
{
    assert forall|q: int| 0 <= q < g.ports@.len() implies (
    #[trigger] g.ports@[q]).state is Finished by {
        assert(g.has_producer(q));
        let (i, k): (int, int) = choose|i: int, k: int|
            0 <= i < g.processors@.len() && 0 <= k < g.processors@[i].outputs@.len() && (
            #[trigger] g.processors@[i].outputs@[k]) as int == q;
        assert(g.processors@[i].finished);
        assert(g.ports@[g.processors@[i].outputs@[k] as int].state is Finished);
    }
}

/// Executes one bounded step of the given `Ready` processor. A failing step
/// (only the fault stub fails) leaves the graph untouched and names the
/// offending processor.
pub fn step_processor(g: &mut ExecutingGraph, pid: usize) -> (r: Result<
    (),
    crate::error::EngineError,
>)
    requires
        old(g).wf(),
        pid < old(g).processors@.len(),
        old(g).spec_event(pid as int) == Event::Ready,
    ensures
        r is Ok ==> step_ok_post(*old(g), *final(g), pid as int),
        r is Err ==> *final(g) == *old(g),
        r matches Err(e) ==> e matches crate::error::EngineError::Processor { pid: ep, .. }
            && ep == pid && old(g).processors@[pid as int].kind is Fault,
{
    if matches!(&g.processors[pid].kind, ProcessorKind::ConstantSource { .. }) {
        step_source(g, pid)
    } else if matches!(&g.processors[pid].kind, ProcessorKind::Transform) {
        step_transform(g, pid)
    } else if matches!(&g.processors[pid].kind, ProcessorKind::CollectSink { .. }) {
        step_sink(g, pid)
    } else if matches!(&g.processors[pid].kind, ProcessorKind::Resize { .. }) {
        step_resize(g, pid)
    } else if matches!(&g.processors[pid].kind, ProcessorKind::JoinBuild { .. }) {
        step_build(g, pid)
    } else if matches!(&g.processors[pid].kind, ProcessorKind::JoinProbe { .. }) {
        step_probe(g, pid)
    } else {
        let p = &g.processors[pid];
        let message = match &p.kind {
            ProcessorKind::Fault { message } => message.clone(),
            _ => String::new(),
        };
        Err(crate::error::EngineError::Processor { pid, name: p.name.clone(), message })
    }
}

/// Drives the graph until every processor is finished, a step fails, or
/// nothing can run. Scheduling is cooperative and deterministic: among the
/// `Ready` processors the one with the lowest id runs first. On a failing
/// step the rest of the graph is cancelled before the error is returned. A
/// graph whose unfinished processors can none of them run is reported as a
/// deadlock, also after cancellation — and only with evidence: the deadlock
/// ensures exhibits a [`stuck_state`] of the same wiring, so on a graph
/// whose shape admits no stuck state the scheduler can only complete or
/// surface a processor error. The elapsed time of every step is recorded in
/// that processor's profile.
pub fn run_graph(
    g: &mut ExecutingGraph,
    profiles: &mut crate::profile::SharedProcessorProfiles,
) -> (r: Result<(), crate::error::EngineError>)
    requires
        old(g).wf(),
        old(g).covered(),
        old(g).outputs_done(),
        old(g).inputs_done(),
        old(g).no_early_finish(),
        old(g).producer_unique(),
        old(g).sources_exhausted(),
        old(profiles).profiles@.len() == old(g).processors@.len(),
    ensures
        final(g).wf(),
        same_shape(*old(g), *final(g)),
        final(g).all_finished(),
        final(g).all_ports_finished(),
        r is Ok ==> final(g).sources_exhausted() && final(g).outputs_done(),
        r is Ok && old(g).all_conservative() ==> final(g).live_ms() == old(g).live_ms(),
        forall|j: int|
            0 <= j < old(g).joins@.len() && (#[trigger] old(g).joins@[j]).published
                ==> final(g).joins@[j] == old(g).joins@[j],
        r matches Err(e) ==> (e is Deadlock || (e matches crate::error::EngineError::Processor {
            pid: ep,
            ..
        } && ep < final(g).processors@.len() && final(g).processors@[ep as int].kind is Fault)),
        r matches Err(e) && e is Deadlock ==> exists|gw: ExecutingGraph|
            #[trigger] stuck_state(*old(g), gw),
        final(profiles).profiles@.len() == old(profiles).profiles@.len(),
{
    let ghost g_init = *old(g);
    proof {
        lemma_same_shape_refl(g_init);
    }
    loop
        invariant
            g.wf(),
            g.covered(),
            g.outputs_done(),
            g.inputs_done(),
            g.no_early_finish(),
            g.producer_unique(),
            g.sources_exhausted(),
            g_init == *old(g),
            same_shape(g_init, *g),
            g_init.all_conservative() ==> g.live_ms() == g_init.live_ms(),
            forall|j: int|
                0 <= j < g_init.joins@.len() && (#[trigger] g_init.joins@[j]).published
                    ==> g.joins@[j] == g_init.joins@[j],
            profiles.profiles@.len() == g_init.processors@.len(),
            profiles.profiles@.len() == old(profiles).profiles@.len(),
        decreases g.potential(),
    {
        proof {
            lemma_potential_nonneg(*g);
        }
        let n = g.processors.len();
        let mut pid: usize = 0;
        let mut ready: Option<usize> = None;
        let mut unfinished = false;
        while pid < n
            invariant
                pid <= n,
                n == g.processors@.len(),
                g.wf(),
                ready matches Some(x) ==> x < n && g.spec_event(x as int) == Event::Ready,
                ready is None ==> forall|t: int| 0 <= t < pid ==> g.spec_event(t) != Event::Ready,
                !unfinished ==> forall|t: int|
                    0 <= t < pid ==> (#[trigger] g.processors@[t]).finished,
                unfinished ==> exists|t: int|
                    0 <= t < pid && !(#[trigger] g.processors@[t]).finished,
            decreases n - pid,
        {
            if ready.is_none() {
                let e = event(g, pid);
                if matches!(e, Event::Ready) {
                    ready = Some(pid);
                }
            }
            if !g.processors[pid].finished {
                unfinished = true;
            }
            pid = pid + 1;
        }
        match ready {
            Some(rp) => {
                let ghost gprev = *g;
                let t0 = crate::profile::clock_nanos();
                let res = step_processor(g, rp);
                let t1 = crate::profile::clock_nanos();
                let el = crate::profile::elapsed_nanos(t0, t1);
                let prof = &mut profiles.profiles[rp];
                prof.add_cpu_time(el);
                match res {
                    Ok(()) => {
                        proof {
                            lemma_same_shape_trans(g_init, gprev, *g);
                            lemma_covered_stable(gprev, *g);
                            if g_init.all_conservative() {
                                lemma_same_shape_conservative(g_init, gprev);
                                assert(conservative_kind(gprev.processors@[rp as int].kind));
                                assert(g.live_ms() == g_init.live_ms());
                            }
                            assert forall|j: int|
                                0 <= j < g_init.joins@.len() && (
                                #[trigger] g_init.joins@[j]).published implies g.joins@[j]
                                == g_init.joins@[j] by {
                                assert(gprev.joins@[j] == g_init.joins@[j]);
                                assert(gprev.joins@[j].published);
                            }
                            lemma_potential_nonneg(*g);
                        }
                    }
                    Err(e) => {
                        let ghost gerr = *g;
                        cancel_graph(g);
                        proof {
                            lemma_same_shape_trans(g_init, gerr, *g);
                            assert(g.joins@ == gerr.joins@);
                            assert forall|j: int|
                                0 <= j < g_init.joins@.len() && (
                                #[trigger] g_init.joins@[j]).published implies g.joins@[j]
                                == g_init.joins@[j] by {
                                assert(gerr.joins@[j] == g_init.joins@[j]);
                            }
                            assert(g.processors@[rp as int].kind == gerr.processors@[
                                rp as int
                            ].kind);
                        }
                        return Err(e);
                    }
                }
            }
            None => {
                if !unfinished {
                    proof {
                        assert(g.all_finished());
                        lemma_all_ports_finished(*g);
                    }
                    return Ok(());
                } else {
                    let ghost gd = *g;
                    cancel_graph(g);
                    proof {
                        assert(stuck_state(g_init, gd));
                        assert(exists|gw: ExecutingGraph| #[trigger] stuck_state(g_init, gw));
                        lemma_same_shape_trans(g_init, gd, *g);
                        assert(g.joins@ == gd.joins@);
                        assert forall|j: int|
                            0 <= j < g_init.joins@.len() && (
                            #[trigger] g_init.joins@[j]).published implies g.joins@[j]
                            == g_init.joins@[j] by {
                            assert(gd.joins@[j] == g_init.joins@[j]);
                        }
                    }
                    return Err(crate::error::EngineError::Deadlock);
                }
            }
        }
    }
}

/// Same shape is reflexive.
pub proof fn lemma_same_shape_refl(g: ExecutingGraph)
    ensures
        same_shape(g, g),
{
    assert forall|i: int| 0 <= i < g.processors@.len() implies {
        &&& (#[trigger] g.processors@[i]).inputs@ == g.processors@[i].inputs@
        &&& g.processors@[i].outputs@ == g.processors@[i].outputs@
        &&& same_variant(g.processors@[i].kind, g.processors@[i].kind)
    } by {
        lemma_same_variant_refl(g.processors@[i].kind);
    }
}


/// Appending ports, processors or join states to a graph leaves an existing
/// processor well shaped.
pub proof fn lemma_shape_wf_append(g1: ExecutingGraph, g2: ExecutingGraph, i: int)
    requires
        0 <= i < g1.processors@.len(),
        g2.processors@.len() >= g1.processors@.len(),
        g2.processors@[i] == g1.processors@[i],
        g2.ports@.len() >= g1.ports@.len(),
        forall|x: int| 0 <= x < g1.ports@.len() ==> g2.ports@[x] == g1.ports@[x],
        g2.joins@.len() >= g1.joins@.len(),
        g1.proc_shape_wf(i),
    ensures
        g2.proc_shape_wf(i),
{
    let p = g1.processors@[i];
    match p.kind {
        ProcessorKind::Resize { .. } => {
            assert forall|k: int| 0 <= k < p.inputs@.len() implies g2.port_in_range(
                #[trigger] p.inputs@[k] as int,
            ) by {
                assert(g1.port_in_range(p.inputs@[k] as int));
            }
            assert forall|k: int| 0 <= k < p.outputs@.len() implies g2.port_in_range(
                #[trigger] p.outputs@[k] as int,
            ) by {
                assert(g1.port_in_range(p.outputs@[k] as int));
            }
            assert forall|a: int, b: int|
                0 <= a < p.inputs@.len() && 0 <= b < p.outputs@.len() implies g2.ports@[
                #[trigger] p.outputs@[b] as int
            ].depth < g2.ports@[#[trigger] p.inputs@[a] as int].depth by {
                assert(g1.ports@[p.outputs@[b] as int].depth < g1.ports@[
                    p.inputs@[a] as int
                ].depth);
            }
        }
        ProcessorKind::Fault { .. } => {
            assert forall|k: int| 0 <= k < p.inputs@.len() implies g2.port_in_range(
                #[trigger] p.inputs@[k] as int,
            ) by {
                assert(g1.port_in_range(p.inputs@[k] as int));
            }
            assert forall|k: int| 0 <= k < p.outputs@.len() implies g2.port_in_range(
                #[trigger] p.outputs@[k] as int,
            ) by {
                assert(g1.port_in_range(p.outputs@[k] as int));
            }
        }
        _ => {}
    }
}


/// The rows a source still has to emit.
pub open spec fn source_ms(p: Processor) -> Multiset<Row> {
    match p.kind {
        ProcessorKind::ConstantSource { blocks, next } => rows_of_blocks(
            blocks@.skip(next as int),
        ).to_multiset(),
        _ => Multiset::<Row>::empty(),
    }
}

/// The rows a sink has collected.
pub open spec fn sink_ms(p: Processor) -> Multiset<Row> {
    match p.kind {
        ProcessorKind::CollectSink { collected } => rows_of_blocks(collected@).to_multiset(),
        _ => Multiset::<Row>::empty(),
    }
}

/// The rows still to be emitted, over all processors.
pub open spec fn sources_ms(s: Seq<Processor>) -> Multiset<Row>
    decreases s.len(),
{
    if s.len() == 0 {
        Multiset::<Row>::empty()
    } else {
        source_ms(s[0]).add(sources_ms(s.drop_first()))
    }
}

/// The rows collected, over all processors.
pub open spec fn collected_ms(s: Seq<Processor>) -> Multiset<Row>
    decreases s.len(),
{
    if s.len() == 0 {
        Multiset::<Row>::empty()
    } else {
        sink_ms(s[0]).add(collected_ms(s.drop_first()))
    }
}

/// What a processor holds is what it has to emit plus what it collected.
pub proof fn lemma_procs_ms_split(s: Seq<Processor>)
    ensures
        procs_ms(s) == sources_ms(s).add(collected_ms(s)),
    decreases s.len(),
{
    broadcast use vstd::multiset::group_multiset_axioms;

    if s.len() == 0 {
        assert(procs_ms(s) =~= sources_ms(s).add(collected_ms(s)));
    } else {
        lemma_procs_ms_split(s.drop_first());
        assert(proc_ms(s[0]) =~= source_ms(s[0]).add(sink_ms(s[0])));
        assert(procs_ms(s) =~= sources_ms(s).add(collected_ms(s)));
    }
}

/// Exhausted, finished sources have nothing left to emit.
pub proof fn lemma_sources_ms_empty(s: Seq<Processor>)
    requires
        forall|i: int|
            0 <= i < s.len() ==> (#[trigger] s[i]).finished && match s[i].kind {
                ProcessorKind::ConstantSource { blocks, next } => next == blocks@.len(),
                _ => true,
            },
    ensures
        sources_ms(s) == Multiset::<Row>::empty(),
    decreases s.len(),
{
    broadcast use vstd::multiset::group_multiset_axioms;
    broadcast use vstd::seq_lib::group_to_multiset_ensures;

    if s.len() > 0 {
        assert(source_ms(s[0]) =~= Multiset::<Row>::empty()) by {
            match s[0].kind {
                ProcessorKind::ConstantSource { blocks, next } => {
                    assert(blocks@.skip(next as int) =~= Seq::<DataBlock>::empty());
                    assert(rows_of_blocks(Seq::<DataBlock>::empty()) =~= Seq::<Row>::empty());
                }
                _ => {}
            }
        }
        lemma_sources_ms_empty(s.drop_first());
        assert(sources_ms(s) =~= Multiset::<Row>::empty());
    }
}

/// No data loss, no duplication: when a pipeline of only deterministic,
/// non-lossy operators (sources, identity transforms, resize stages and
/// collecting sinks) runs to successful completion, the multiset of rows its
/// sinks collected is exactly the multiset the run began with: everything
/// its sources still had to emit, everything in flight on its ports, and
/// everything already collected — independent of how the scheduler
/// interleaved the processors.
pub proof fn theorem_no_data_loss(g0: ExecutingGraph, g1: ExecutingGraph)
    requires
        g0.all_conservative(),
        g1.wf(),
        g1.live_ms() == g0.live_ms(),
        g1.all_finished(),
        g1.all_ports_finished(),
        g1.sources_exhausted(),
    ensures
        collected_ms(g1.processors@) == collected_ms(g0.processors@).add(
            sources_ms(g0.processors@),
        ).add(ports_ms(g0.ports@)),
{
    broadcast use vstd::multiset::group_multiset_axioms;

    lemma_ports_ms_empty(g1.ports@);
    lemma_procs_ms_split(g1.processors@);
    lemma_procs_ms_split(g0.processors@);
    lemma_sources_ms_empty(g1.processors@);
    assert(g1.live_ms() =~= collected_ms(g1.processors@));
    assert(g0.live_ms() =~= collected_ms(g0.processors@).add(sources_ms(g0.processors@)).add(
        ports_ms(g0.ports@),
    ));
}

/// The rows of each collected batch, over all processors, in processor and
/// batch order.
pub open spec fn collected_rows_of(s: Seq<Processor>) -> Seq<Seq<Row>>
    decreases s.len(),
{
    if s.len() == 0 {
        Seq::<Seq<Row>>::empty()
    } else {
        (match s[0].kind {
            ProcessorKind::CollectSink { collected } => collected@.map(
                |x: int, b: DataBlock| b.spec_rows(),
            ),
            _ => Seq::<Seq<Row>>::empty(),
        }) + collected_rows_of(s.drop_first())
    }
}


/// Resize correctness: two runs over the same rows collect the same rows,
/// whatever their lane widths. In particular, a pipeline that fans out to
/// `n` lanes and back in to one yields the same multiset of rows as the
/// same pipeline run with one lane throughout: both runs collect exactly
/// what their sources emitted, so equal inputs give equal outputs.
pub proof fn theorem_resize_round_trip(
    ga0: ExecutingGraph,
    ga1: ExecutingGraph,
    gb0: ExecutingGraph,
    gb1: ExecutingGraph,
)
    requires
        ga0.all_conservative(),
        gb0.all_conservative(),
        ga1.wf(),
        gb1.wf(),
        ga1.live_ms() == ga0.live_ms(),
        gb1.live_ms() == gb0.live_ms(),
        ga1.all_finished(),
        gb1.all_finished(),
        ga1.all_ports_finished(),
        gb1.all_ports_finished(),
        ga1.sources_exhausted(),
        gb1.sources_exhausted(),
        collected_ms(ga0.processors@).add(sources_ms(ga0.processors@)).add(ports_ms(ga0.ports@))
            == collected_ms(gb0.processors@).add(sources_ms(gb0.processors@)).add(
            ports_ms(gb0.ports@),
        ),
    ensures
        collected_ms(ga1.processors@) == collected_ms(gb1.processors@),
{
    theorem_no_data_loss(ga0, ga1);
    theorem_no_data_loss(gb0, gb1);
}

} // verus!
