//! Pipelines: ordered compositions of pipes, and their flattening into an
//! executable graph.
//!
//! `add_pipe` checks at build time that a new stage's input arity equals the
//! pipeline's current sink arity; `resize` joins stages of different widths
//! through an explicit resize processor, keeping every pipe's internal arity
//! uniform. `build_into` wires the pipeline into an [`ExecutingGraph`],
//! creating one port per producer/consumer pair; a pipeline with dangling
//! ports fails to build, it never fails at run time.

use vstd::prelude::*;
use crate::error::EngineError;
use crate::executor::ExecutingGraph;
use crate::pipe::{Pipe, PipeNode, pipe_wf, node_ok, node_joins, sum_inputs, sum_outputs,
    lemma_sums_push, lemma_sums_nonneg, lemma_sums_prefix_le};
use crate::port::Port;
use crate::processor::{Processor, ProcessorKind};

verus! {

/// A full pipeline: pipes from sources to sinks, plus its thread cap.
pub struct Pipeline {
    /// The stages, in dataflow order.
    pub pipes: Vec<Pipe>,
    /// The resource cap applied at scheduling time; any idle worker may run
    /// any ready processor, so the cap does not partition the work.
    pub max_threads: usize,
}

/// A structurally sound pipeline: sound pipes, and each stage's input arity
/// equal to the previous stage's output arity.
pub open spec fn pipeline_wf(p: Pipeline) -> bool {
    &&& forall|i: int| 0 <= i < p.pipes@.len() ==> pipe_wf(#[trigger] p.pipes@[i])
    &&& forall|i: int|
        1 <= i < p.pipes@.len() ==> (#[trigger] p.pipes@[i]).input_arity == p.pipes@[i
            - 1].output_arity
}

/// The current sink arity of a pipeline.
pub open spec fn spec_output_arity(p: Pipeline) -> int {
    if p.pipes@.len() == 0 {
        0
    } else {
        p.pipes@[p.pipes@.len() - 1].output_arity as int
    }
}

/// Checks that a pipe's recorded arities are really the sums over its
/// nodes and that every node is sound.
pub fn check_pipe(p: &Pipe) -> (r: bool)
    ensures
        r == pipe_wf(*p),
{
    let n = p.nodes.len();
    if n == 0 {
        proof {
            assert(sum_inputs(p.nodes@) == 0);
            assert(sum_outputs(p.nodes@) == 0);
        }
        return p.input_arity == 0 && p.output_arity == 0;
    }
    let first_in = p.nodes[0].n_inputs;
    let first_out = p.nodes[0].n_outputs;
    let mut in_sum: usize = 0;
    let mut out_sum: usize = 0;
    let mut i: usize = 0;
    while i < n
        invariant
            i <= n,
            n == p.nodes@.len(),
            n > 0,
            first_in == p.nodes@[0].n_inputs,
            first_out == p.nodes@[0].n_outputs,
            forall|j: int| 0 <= j < i ==> node_ok(#[trigger] p.nodes@[j]),
            forall|j: int|
                0 <= j < i ==> (#[trigger] p.nodes@[j]).n_inputs == first_in
                    && p.nodes@[j].n_outputs == first_out,
            in_sum == sum_inputs(p.nodes@.take(i as int)),
            out_sum == sum_outputs(p.nodes@.take(i as int)),
        decreases n - i,
    {
        let nd = &p.nodes[i];
        if !crate::pipe::check_node(nd) {
            return false;
        }
        if nd.n_inputs != first_in || nd.n_outputs != first_out {
            return false;
        }
        proof {
            assert(p.nodes@.take(i + 1) =~= p.nodes@.take(i as int).push(p.nodes@[i as int]));
            lemma_sums_push(p.nodes@.take(i as int), p.nodes@[i as int]);
        }
        if in_sum > usize::MAX - nd.n_inputs || out_sum > usize::MAX - nd.n_outputs {
            proof {
                lemma_sums_prefix_le(p.nodes@, i + 1);
            }
            return false;
        }
        in_sum = in_sum + nd.n_inputs;
        out_sum = out_sum + nd.n_outputs;
        i = i + 1;
    }
    proof {
        assert(p.nodes@.take(n as int) =~= p.nodes@);
    }
    in_sum == p.input_arity && out_sum == p.output_arity
}

impl Pipeline {
    /// An empty pipeline with no thread cap set.
    pub fn create() -> (r: Pipeline)
        ensures
            r.pipes@.len() == 0,
            r.max_threads == 0,
            pipeline_wf(r),
    {
        Pipeline { pipes: Vec::new(), max_threads: 0 }
    }

    /// Sets the maximum number of worker threads the scheduler may use.
    pub fn set_max_threads(&mut self, max_threads: usize)
        ensures
            final(self).pipes == old(self).pipes,
            final(self).max_threads == max_threads,
    {
        self.max_threads = max_threads;
    }

    /// The current sink arity.
    pub fn output_arity(&self) -> (r: usize)
        ensures
            r == spec_output_arity(*self),
    {
        if self.pipes.len() == 0 {
            0
        } else {
            self.pipes[self.pipes.len() - 1].output_arity
        }
    }

    /// Appends a stage. The new stage's input arity must equal the current
    /// sink arity (or the stage is the first); a mismatch or an unsound
    /// pipe fails fast with a construction error, and the pipeline is left
    /// as it was.
    pub fn add_pipe(&mut self, pipe: Pipe) -> (r: Result<(), EngineError>)
        requires
            pipeline_wf(*old(self)),
        ensures
            pipeline_wf(*final(self)),
            final(self).max_threads == old(self).max_threads,
            r is Ok <==> pipe_wf(pipe) && (old(self).pipes@.len() == 0 || pipe.input_arity
                == spec_output_arity(*old(self))),
            r is Ok ==> final(self).pipes@ == old(self).pipes@.push(pipe),
            r is Err ==> *final(self) == *old(self),
            r matches Err(e) ==> e is Construction,
    {
        if !check_pipe(&pipe) {
            return Err(EngineError::Construction {
                message: String::from_str("the pipe is not well formed"),
            });
        }
        if self.pipes.len() > 0 && pipe.input_arity != self.output_arity() {
            return Err(EngineError::Construction {
                message: String::from_str(
                    "the pipe's input arity must equal the pipeline's current output arity",
                ),
            });
        }
        self.pipes.push(pipe);
        Ok(())
    }

    /// Changes the number of parallel lanes by inserting an explicit resize
    /// processor owning all current sink ports and the new lanes. Fails on
    /// an empty pipeline, on a pipeline whose sinks are already closed, and
    /// on a zero target width.
    pub fn resize(&mut self, new_size: usize) -> (r: Result<(), EngineError>)
        requires
            pipeline_wf(*old(self)),
        ensures
            pipeline_wf(*final(self)),
            final(self).max_threads == old(self).max_threads,
            r is Ok <==> old(self).pipes@.len() > 0 && spec_output_arity(*old(self)) >= 1
                && new_size >= 1,
            r is Ok ==> final(self).pipes@.len() == old(self).pipes@.len() + 1
                && spec_output_arity(*final(self)) == new_size,
            r is Ok ==> forall|x: int|
                0 <= x < old(self).pipes@.len() ==> final(self).pipes@[x] == old(self).pipes@[x],
            r is Ok ==> {
                let inserted = final(self).pipes@.last();
                &&& inserted.nodes@.len() == 1
                &&& inserted.nodes@[0].kind == (ProcessorKind::Resize { next_out: 0 })
                &&& inserted.nodes@[0].n_inputs == spec_output_arity(*old(self))
                &&& inserted.nodes@[0].n_outputs == new_size
                &&& inserted.input_arity == spec_output_arity(*old(self))
                &&& inserted.output_arity == new_size
            },
            r is Err ==> *final(self) == *old(self),
            r matches Err(e) ==> e is Construction,
    {
        if self.pipes.len() == 0 {
            return Err(EngineError::Construction {
                message: String::from_str("an empty pipeline cannot be resized"),
            });
        }
        let width = self.output_arity();
        if width == 0 {
            return Err(EngineError::Construction {
                message: String::from_str("a completed pipeline cannot be resized"),
            });
        }
        if new_size == 0 {
            return Err(EngineError::Construction {
                message: String::from_str("a pipeline cannot be resized to zero lanes"),
            });
        }
        let node = PipeNode {
            name: String::from_str("Resize"),
            kind: ProcessorKind::Resize { next_out: 0 },
            n_inputs: width,
            n_outputs: new_size,
        };
        let mut nodes: Vec<PipeNode> = Vec::new();
        nodes.push(node);
        proof {
            assert(nodes@.drop_first() =~= Seq::<PipeNode>::empty());
            assert(sum_inputs(nodes@) == nodes@[0].n_inputs + sum_inputs(nodes@.drop_first()));
            assert(sum_outputs(nodes@) == nodes@[0].n_outputs + sum_outputs(
                nodes@.drop_first(),
            ));
            assert(sum_inputs(Seq::<PipeNode>::empty()) == 0);
            assert(sum_outputs(Seq::<PipeNode>::empty()) == 0);
            assert(sum_inputs(nodes@) == width);
            assert(sum_outputs(nodes@) == new_size);
        }
        let pipe = Pipe { nodes, input_arity: width, output_arity: new_size };
        match self.add_pipe(pipe) {
            Ok(()) => Ok(()),
            Err(e) => {
                proof {
                    assert(false);
                }
                Err(e)
            }
        }
    }
}


/// The nodes of a list of pipes, flattened in pipe order.
pub open spec fn flat_nodes(pipes: Seq<Pipe>) -> Seq<PipeNode>
    decreases pipes.len(),
{
    if pipes.len() == 0 {
        Seq::<PipeNode>::empty()
    } else {
        pipes[0].nodes@ + flat_nodes(pipes.drop_first())
    }
}

/// Appending a pipe appends its nodes.
pub proof fn lemma_flat_nodes_take(pipes: Seq<Pipe>, i: int)
    requires
        0 <= i < pipes.len(),
    ensures
        flat_nodes(pipes.take(i + 1)) == flat_nodes(pipes.take(i)) + pipes[i].nodes@,
    decreases i,
{
    if i == 0 {
        assert(pipes.take(1).drop_first() =~= Seq::<Pipe>::empty());
        assert(pipes.take(1)[0] == pipes[0]);
        assert(flat_nodes(Seq::<Pipe>::empty()) =~= Seq::<PipeNode>::empty());
        assert(pipes.take(0) =~= Seq::<Pipe>::empty());
        assert(flat_nodes(pipes.take(1)) =~= flat_nodes(pipes.take(0)) + pipes[0].nodes@);
    } else {
        assert(pipes.take(i + 1).drop_first() =~= pipes.drop_first().take(i));
        assert(pipes.take(i).drop_first() =~= pipes.drop_first().take(i - 1));
        assert(pipes.take(i + 1)[0] == pipes[0]);
        assert(pipes.take(i)[0] == pipes[0]);
        lemma_flat_nodes_take(pipes.drop_first(), i - 1);
        assert(pipes.drop_first()[i - 1] == pipes[i]);
        assert(flat_nodes(pipes.take(i + 1)) =~= flat_nodes(pipes.take(i)) + pipes[i].nodes@);
    }
}

/// Whether a wired processor is the given node: same operator and internal
/// state, same name, the declared number of ports, and not yet finished.
pub open spec fn proc_matches_node(p: Processor, nd: PipeNode) -> bool {
    &&& p.kind == nd.kind
    &&& p.name@ == nd.name@
    &&& p.inputs@.len() == nd.n_inputs
    &&& p.outputs@.len() == nd.n_outputs
    &&& !p.finished
}

/// The condition under which a pipeline can be wired into a graph holding
/// `njoins` join states: well formed, complete (no dangling source or sink
/// ports), and naming only join states that exist.
pub open spec fn buildable(p: Pipeline, njoins: int) -> bool {
    &&& p.pipes@.len() > 0
    &&& pipeline_wf(p)
    &&& p.pipes@[0].input_arity == 0
    &&& p.pipes@[p.pipes@.len() - 1].output_arity == 0
    &&& forall|i: int, j: int|
        0 <= i < p.pipes@.len() && 0 <= j < p.pipes@[i].nodes@.len() ==> node_joins(
            #[trigger] p.pipes@[i].nodes@[j],
        ) <= njoins
}

impl Pipeline {
    /// Wires the pipeline into the graph, appending its processors and
    /// creating one port per producer/consumer pair. Fails, leaving the
    /// graph untouched, exactly when the pipeline is empty, malformed,
    /// incomplete at either end, or names a missing join state.
    pub fn build_into(self, g: &mut ExecutingGraph) -> (r: Result<(), EngineError>)
        requires
            old(g).wf(),
            old(g).covered(),
            old(g).outputs_done(),
            old(g).sources_exhausted(),
        ensures
            r is Ok <==> buildable(self, old(g).joins@.len() as int),
            r is Err ==> *final(g) == *old(g),
            r matches Err(e) ==> e is Construction,
            final(g).joins@ == old(g).joins@,
            final(g).wf(),
            final(g).covered(),
            final(g).outputs_done(),
            final(g).sources_exhausted(),
            old(g).inputs_done() ==> final(g).inputs_done(),
            old(g).no_early_finish() ==> final(g).no_early_finish(),
            old(g).producer_unique() && old(g).outputs_in_range() ==> final(g).producer_unique()
                && final(g).outputs_in_range(),
            r is Ok ==> final(g).processors@.len() == old(g).processors@.len() + flat_nodes(
                self.pipes@,
            ).len(),
            r is Ok ==> forall|t: int|
                0 <= t < flat_nodes(self.pipes@).len() ==> proc_matches_node(
                    #[trigger] final(g).processors@[old(g).processors@.len() + t],
                    flat_nodes(self.pipes@)[t],
                ),
            final(g).processors@.len() >= old(g).processors@.len(),
            forall|x: int|
                0 <= x < old(g).processors@.len() ==> final(g).processors@[x] == old(
                    g,
                ).processors@[x],
            forall|x: int| 0 <= x < old(g).ports@.len() ==> final(g).ports@[x] == old(g).ports@[x],
            final(g).ports@.len() >= old(g).ports@.len(),
    {
        let np = self.pipes.len();
        let njoins = g.joins.len();
        if np == 0 {
            return Err(EngineError::Construction {
                message: String::from_str("an empty pipeline cannot be built"),
            });
        }
        // Validate every pipe, the arity chain, and the join indices.
        let mut v: usize = 0;
        while v < np
            invariant
                v <= np,
                np == self.pipes@.len(),
                njoins == g.joins@.len(),
                *g == *old(g),
                old(g).wf(),
                old(g).covered(),
                old(g).outputs_done(),
                old(g).sources_exhausted(),
                forall|x: int| 0 <= x < v ==> pipe_wf(#[trigger] self.pipes@[x]),
                forall|x: int|
                    1 <= x < v ==> (#[trigger] self.pipes@[x]).input_arity == self.pipes@[x
                        - 1].output_arity,
                forall|x: int, y: int|
                    0 <= x < v && 0 <= y < self.pipes@[x].nodes@.len() ==> node_joins(
                        #[trigger] self.pipes@[x].nodes@[y],
                    ) <= njoins,
            decreases np - v,
        {
            let pipe = &self.pipes[v];
            if !check_pipe(pipe) {
                return Err(EngineError::Construction {
                    message: String::from_str("a pipe of the pipeline is not well formed"),
                });
            }
            if v > 0 && pipe.input_arity != self.pipes[v - 1].output_arity {
                return Err(EngineError::Construction {
                    message: String::from_str(
                        "a pipe's input arity must equal the previous pipe's output arity",
                    ),
                });
            }
            let nn = pipe.nodes.len();
            let mut w: usize = 0;
            while w < nn
                invariant
                    w <= nn,
                    nn == pipe.nodes@.len(),
                    njoins == g.joins@.len(),
                    *g == *old(g),
                    old(g).wf(),
                    old(g).covered(),
                    old(g).outputs_done(),
                    old(g).sources_exhausted(),
                    v < np,
                    np == self.pipes@.len(),
                    pipe == self.pipes@[v as int],
                    forall|y: int|
                        0 <= y < w ==> node_joins(#[trigger] pipe.nodes@[y]) <= njoins,
                decreases nn - w,
            {
                if !crate::pipe::check_node_joins(&pipe.nodes[w], njoins) {
                    return Err(EngineError::Construction {
                        message: String::from_str("a processor names a missing join state"),
                    });
                }
                w = w + 1;
            }
            v = v + 1;
        }
        if self.pipes[0].input_arity != 0 {
            return Err(EngineError::Construction {
                message: String::from_str("the first pipe of a pipeline must have no inputs"),
            });
        }
        if self.pipes[np - 1].output_arity != 0 {
            return Err(EngineError::Construction {
                message: String::from_str(
                    "the last pipe of a pipeline must have no dangling outputs",
                ),
            });
        }
        // Construct: walk the pipes, creating the ports of each boundary as
        // the outputs of the pipe before it.
        let ghost gstart = *g;
        let ghost pls = self.pipes@;
        let nb = np - 1;
        let mut pipes = self.pipes;
        let mut prev_ports: Vec<usize> = Vec::new();
        let mut i: usize = 0;
        while i < np
            invariant
                i <= np,
                np == pls.len(),
                np >= 1,
                nb == np - 1,
                pipes@ == pls.skip(i as int),
                forall|x: int| 0 <= x < np ==> pipe_wf(#[trigger] pls[x]),
                forall|x: int|
                    1 <= x < np ==> (#[trigger] pls[x]).input_arity == pls[x - 1].output_arity,
                forall|x: int, y: int|
                    0 <= x < np && 0 <= y < pls[x].nodes@.len() ==> node_joins(
                        #[trigger] pls[x].nodes@[y],
                    ) <= g.joins@.len(),
                pls[0].input_arity == 0,
                pls[np - 1].output_arity == 0,
                g.joins@ == gstart.joins@,
                g.processors@.len() >= gstart.processors@.len(),
                g.ports@.len() >= gstart.ports@.len(),
                forall|x: int|
                    0 <= x < gstart.processors@.len() ==> g.processors@[x]
                        == gstart.processors@[x],
                forall|x: int| 0 <= x < gstart.ports@.len() ==> g.ports@[x] == gstart.ports@[x],
                g.wf(),
                g.covered(),
                g.outputs_done(),
                g.sources_exhausted(),
                gstart.inputs_done() ==> g.inputs_done(),
                gstart.no_early_finish() ==> g.no_early_finish(),
                gstart.producer_unique() && gstart.outputs_in_range() ==> g.producer_unique()
                    && g.outputs_in_range(),
                g.processors@.len() == gstart.processors@.len() + flat_nodes(
                    pls.take(i as int),
                ).len(),
                forall|t: int|
                    0 <= t < flat_nodes(pls.take(i as int)).len() ==> proc_matches_node(
                        #[trigger] g.processors@[gstart.processors@.len() + t],
                        flat_nodes(pls.take(i as int))[t],
                    ),
                prev_ports@.len() as int == (if i == 0 {
                    0int
                } else {
                    pls[i - 1].output_arity as int
                }),
                forall|t: int|
                    0 <= t < prev_ports@.len() ==> (#[trigger] prev_ports@[t]) < g.ports@.len(),
                forall|t: int|
                    0 <= t < prev_ports@.len() ==> g.ports@[
                        #[trigger] prev_ports@[t] as int
                    ].depth as int == nb + 1 - i,
            decreases np - i,
        {
            let pipe = pipes.remove(0);
            proof {
                assert(pipe == pls[i as int]);
                assert(pipes@ =~= pls.skip(i + 1));
                assert(pipe_wf(pls[i as int]));
            }
            let depth_out = nb - i;
            let nn = pipe.nodes.len();
            let ghost pnodes = pipe.nodes@;
            let mut nodes = pipe.nodes;
            let mut next_ports: Vec<usize> = Vec::new();
            let mut cursor: usize = 0;
            proof {
                assert(pnodes.take(0) =~= Seq::<PipeNode>::empty());
                if i >= 1 {
                    assert(prev_ports@.len() == pls[i as int].input_arity);
                }
                if i == 0 {
                    assert(prev_ports@.len() == 0);
                    assert(pls[0].input_arity == 0);
                }
                assert(prev_ports@.len() == sum_inputs(pnodes));
            }
            let mut j: usize = 0;
            while j < nn
                invariant
                    j <= nn,
                    nn == pnodes.len(),
                    i < np,
                    np == pls.len(),
                    nb == np - 1,
                    depth_out == nb - i,
                    pnodes == pls[i as int].nodes@,
                    nodes@ == pnodes.skip(j as int),
                    pipe_wf(pls[i as int]),
                    forall|y: int|
                        0 <= y < pnodes.len() ==> node_joins(#[trigger] pnodes[y])
                            <= g.joins@.len(),
                    i == np - 1 ==> sum_outputs(pnodes) == 0,
                    g.joins@ == gstart.joins@,
                    g.processors@.len() >= gstart.processors@.len(),
                    g.ports@.len() >= gstart.ports@.len(),
                    forall|x: int|
                        0 <= x < gstart.processors@.len() ==> g.processors@[x]
                            == gstart.processors@[x],
                    forall|x: int|
                        0 <= x < gstart.ports@.len() ==> g.ports@[x] == gstart.ports@[x],
                    g.wf(),
                    g.covered(),
                    g.outputs_done(),
                    g.sources_exhausted(),
                    gstart.inputs_done() ==> g.inputs_done(),
                    gstart.no_early_finish() ==> g.no_early_finish(),
                    gstart.producer_unique() && gstart.outputs_in_range() ==> g.producer_unique()
                        && g.outputs_in_range(),
                    g.processors@.len() == gstart.processors@.len() + flat_nodes(
                        pls.take(i as int),
                    ).len() + j,
                    forall|t: int|
                        0 <= t < flat_nodes(pls.take(i as int)).len() ==> proc_matches_node(
                            #[trigger] g.processors@[gstart.processors@.len() + t],
                            flat_nodes(pls.take(i as int))[t],
                        ),
                    forall|t: int|
                        0 <= t < j ==> proc_matches_node(
                            #[trigger] g.processors@[gstart.processors@.len() + flat_nodes(
                                pls.take(i as int),
                            ).len() + t],
                            pnodes[t],
                        ),
                    cursor as int == sum_inputs(pnodes.take(j as int)),
                    prev_ports@.len() == sum_inputs(pnodes),
                    i == 0 ==> prev_ports@.len() == 0,
                    forall|t: int|
                        0 <= t < prev_ports@.len() ==> (#[trigger] prev_ports@[t])
                            < g.ports@.len(),
                    forall|t: int|
                        0 <= t < prev_ports@.len() ==> g.ports@[
                            #[trigger] prev_ports@[t] as int
                        ].depth as int == nb + 1 - i,
                    next_ports@.len() as int == sum_outputs(pnodes.take(j as int)),
                    forall|t: int|
                        0 <= t < next_ports@.len() ==> (#[trigger] next_ports@[t])
                            < g.ports@.len(),
                    forall|t: int|
                        0 <= t < next_ports@.len() ==> g.ports@[
                            #[trigger] next_ports@[t] as int
                        ].depth as int == nb - i,
                decreases nn - j,
            {
                let nd = nodes.remove(0);
                proof {
                    assert(nd == pnodes[j as int]);
                    assert(nodes@ =~= pnodes.skip(j + 1));
                    assert(node_ok(pnodes[j as int]));
                    assert(node_joins(pnodes[j as int]) <= g.joins@.len());
                    assert(pnodes.take(j + 1) =~= pnodes.take(j as int).push(pnodes[j as int]));
                    lemma_sums_push(pnodes.take(j as int), pnodes[j as int]);
                    lemma_sums_prefix_le(pnodes, j + 1);
                    lemma_sums_nonneg(pnodes.take(j as int));
                    assert(cursor + nd.n_inputs <= prev_ports@.len());
                    if nd.n_inputs > 0 {
                        assert(prev_ports@.len() > 0);
                        assert(i >= 1);
                    }
                    if nd.n_outputs > 0 {
                        assert(i < nb) by {
                            if i == nb {
                                crate::pipe::lemma_sum_outputs_zero(pnodes, j as int);
                            }
                        }
                    }
                }
                // The input ports: a slice of the previous boundary.
                let mut ids: Vec<usize> = Vec::new();
                let prev_len = prev_ports.len();
                let mut t: usize = 0;
                while t < nd.n_inputs
                    invariant
                        t <= nd.n_inputs,
                        prev_len == prev_ports@.len(),
                        cursor + nd.n_inputs <= prev_len,
                        ids@ == prev_ports@.subrange(cursor as int, cursor + t),
                    decreases nd.n_inputs - t,
                {
                    ids.push(prev_ports[cursor + t]);
                    proof {
                        assert(ids@ =~= prev_ports@.subrange(cursor as int, cursor + t + 1));
                    }
                    t = t + 1;
                }
                // The output ports: freshly created at this boundary.
                let ghost gnode = *g;
                let base = g.ports.len();
                let mut outs: Vec<usize> = Vec::new();
                let mut u: usize = 0;
                while u < nd.n_outputs
                    invariant
                        u <= nd.n_outputs,
                        nd.n_outputs > 0 ==> depth_out >= 1,
                        depth_out == nb - i,
                        base == gnode.ports@.len(),
                        g.ports@.len() == base + u,
                        g.processors@ == gnode.processors@,
                        g.joins@ == gnode.joins@,
                        forall|x: int| 0 <= x < base ==> g.ports@[x] == gnode.ports@[x],
                        outs@.len() == u,
                        forall|x: int| 0 <= x < u ==> (#[trigger] outs@[x]) == base + x,
                        forall|x: int|
                            base <= x < g.ports@.len() ==> (#[trigger] g.ports@[x]).wf()
                                && g.ports@[x].depth == depth_out && g.ports@[x].state
                                is Empty,
                    decreases nd.n_outputs - u,
                {
                    let id = g.ports.len();
                    g.ports.push(Port::create(depth_out));
                    outs.push(id);
                    u = u + 1;
                }
                // Copy the new ids onto the boundary before the list moves
                // into the processor.
                let ghost next_base = next_ports@;
                let mut c: usize = 0;
                while c < nd.n_outputs
                    invariant
                        c <= nd.n_outputs,
                        outs@.len() == nd.n_outputs,
                        forall|x: int| 0 <= x < nd.n_outputs ==> (#[trigger] outs@[x]) == base + x,
                        next_ports@ == next_base + outs@.subrange(0, c as int),
                    decreases nd.n_outputs - c,
                {
                    next_ports.push(outs[c]);
                    proof {
                        assert(next_ports@ =~= next_base + outs@.subrange(0, c + 1));
                    }
                    c = c + 1;
                }
                proof {
                    assert(outs@.subrange(0, nd.n_outputs as int) =~= outs@);
                    assert(next_ports@ == next_base + outs@);
                }
                let ghost idsv = ids@;
                let ghost outsv = outs@;
                let ghost ndk = nd.kind;
                let ghost cursor0 = cursor as int;
                let ghost n_in = nd.n_inputs as int;
                let ghost n_out = nd.n_outputs as int;
                let pid = g.processors.len();
                g.processors.push(Processor {
                    name: nd.name,
                    inputs: ids,
                    outputs: outs,
                    kind: nd.kind,
                    finished: false,
                });
                proof {
                    let g2 = *g;
                    let gn = gnode;
                    assert(g2.processors@ == gn.processors@.push(g2.processors@[pid as int]));
                    assert(g2.joins@ == gn.joins@);
                    let p2 = g2.processors@[pid as int];
                    assert(p2.inputs@ == idsv);
                    assert(p2.outputs@ == outsv);
                    assert(p2.kind == ndk);
                    assert(!p2.finished);
                    assert(idsv.len() == n_in);
                    assert(outsv.len() == n_out);
                    // Facts about the wired ports.
                    assert forall|t: int| 0 <= t < n_in implies (#[trigger] idsv[t])
                        < g2.ports@.len() && g2.ports@[idsv[t] as int].depth as int == nb + 1
                        - i by {
                        assert(idsv[t] == prev_ports@[cursor0 + t]);
                        assert(prev_ports@[cursor0 + t] < gn.ports@.len());
                        assert(gn.ports@[prev_ports@[cursor0 + t] as int].depth as int == nb + 1
                            - i);
                        assert(g2.ports@[idsv[t] as int] == gn.ports@[idsv[t] as int]);
                    }
                    assert forall|t: int| 0 <= t < n_out implies (#[trigger] outsv[t])
                        < g2.ports@.len() && g2.ports@[outsv[t] as int].depth as int == nb
                        - i by {
                        assert(outsv[t] == base + t);
                    }
                    // The new processor is well shaped and well stated.
                    assert(g2.proc_shape_wf(pid as int)) by {
                        assert(node_ok(pnodes[j as int]));
                        match ndk {
                            ProcessorKind::ConstantSource { .. } => {
                                assert(idsv.len() == 0);
                                assert(outsv.len() == 1);
                            }
                            ProcessorKind::Transform => {
                                assert(g2.ports@[outsv[0] as int].depth < g2.ports@[
                                    idsv[0] as int
                                ].depth);
                            }
                            ProcessorKind::CollectSink { .. } => {}
                            ProcessorKind::Resize { .. } => {
                                assert forall|a: int, b: int|
                                    0 <= a < p2.inputs@.len() && 0 <= b
                                        < p2.outputs@.len() implies g2.ports@[
                                    #[trigger] p2.outputs@[b] as int
                                ].depth < g2.ports@[#[trigger] p2.inputs@[a] as int].depth by {
                                    assert(g2.ports@[idsv[a] as int].depth as int == nb + 1 - i);
                                    assert(g2.ports@[outsv[b] as int].depth as int == nb - i);
                                }
                            }
                            ProcessorKind::JoinBuild { join } => {
                                assert(join + 1 <= g2.joins@.len());
                            }
                            ProcessorKind::JoinProbe { join } => {
                                assert(join + 1 <= g2.joins@.len());
                                assert(g2.ports@[outsv[0] as int].depth < g2.ports@[
                                    idsv[0] as int
                                ].depth);
                            }
                            ProcessorKind::Fault { .. } => {}
                        }
                    }
                    assert(ExecutingGraph::proc_state_wf(p2)) by {
                        assert(node_ok(pnodes[j as int]));
                    }
                    // Every other processor keeps its shape.
                    assert forall|x: int| 0 <= x < g2.processors@.len() implies
                        #[trigger] g2.proc_shape_wf(x) by {
                        if x < gn.processors@.len() {
                            assert(gn.proc_shape_wf(x));
                            crate::executor::lemma_shape_wf_append(gn, g2, x);
                        }
                    }
                    assert forall|x: int| 0 <= x < g2.processors@.len() implies
                        ExecutingGraph::proc_state_wf(#[trigger] g2.processors@[x]) by {
                        if x < gn.processors@.len() {
                            assert(g2.processors@[x] == gn.processors@[x]);
                            assert(ExecutingGraph::proc_state_wf(gn.processors@[x]));
                        }
                    }
                    assert forall|x: int| 0 <= x < g2.ports@.len() implies (
                    #[trigger] g2.ports@[x]).wf() by {
                        if x < base {
                            assert(g2.ports@[x] == gn.ports@[x]);
                            assert(gn.ports@[x].wf());
                        }
                    }
                    assert(g2.wf());
                    // Every port is covered: old ones as before, new ones by
                    // the processor just pushed.
                    assert forall|q: int| 0 <= q < g2.ports@.len() implies
                        #[trigger] g2.has_producer(q) by {
                        if q < base {
                            assert(gn.has_producer(q));
                            let (i2, k2): (int, int) = choose|i2: int, k2: int|
                                0 <= i2 < gn.processors@.len() && 0 <= k2 < gn.processors@[
                                    i2
                                ].outputs@.len() && (#[trigger] gn.processors@[i2].outputs@[k2])
                                    as int == q;
                            assert(g2.processors@[i2] == gn.processors@[i2]);
                            assert(g2.processors@[i2].outputs@[k2] as int == q);
                        } else {
                            let k2 = q - base;
                            assert(g2.processors@[pid as int].outputs@[k2] as int == q);
                        }
                    }
                    assert(g2.covered());
                    // Finished processors are untouched and keep finished
                    // output ports; sources likewise.
                    assert forall|i2: int, k2: int|
                        0 <= i2 < g2.processors@.len() && 0 <= k2 < g2.processors@[
                            i2
                        ].outputs@.len() && g2.processors@[i2].finished implies g2.ports@[
                        #[trigger] g2.processors@[i2].outputs@[k2] as int
                    ].state is Finished by {
                        assert(i2 != pid as int);
                        assert(g2.processors@[i2] == gn.processors@[i2]);
                        assert(gn.proc_shape_wf(i2));
                        let q = gn.processors@[i2].outputs@[k2] as int;
                        assert(gn.ports@[q].state is Finished);
                        assert(0 <= q < gn.ports@.len());
                        assert(g2.ports@[q] == gn.ports@[q]);
                    }
                    assert(g2.outputs_done());
                    assert forall|i2: int|
                        0 <= i2 < g2.processors@.len() && (
                        #[trigger] g2.processors@[i2]).finished implies match g2.processors@[
                        i2
                    ].kind {
                        ProcessorKind::ConstantSource { blocks, next } => next == blocks@.len(),
                        _ => true,
                    } by {
                        assert(i2 != pid as int);
                        assert(g2.processors@[i2] == gn.processors@[i2]);
                    }
                    assert(g2.sources_exhausted());
                    // The appended processor is exactly the node it came
                    // from.
                    assert(proc_matches_node(p2, pnodes[j as int]));
                    assert forall|t: int|
                        0 <= t < j + 1 implies proc_matches_node(
                        #[trigger] g2.processors@[gstart.processors@.len() + flat_nodes(
                            pls.take(i as int),
                        ).len() + t],
                        pnodes[t],
                    ) by {
                        if t < j {
                            assert(g2.processors@[gstart.processors@.len() + flat_nodes(
                                pls.take(i as int),
                            ).len() + t] == gn.processors@[gstart.processors@.len()
                                + flat_nodes(pls.take(i as int)).len() + t]);
                        } else {
                            assert(gstart.processors@.len() + flat_nodes(
                                pls.take(i as int),
                            ).len() + t == pid as int);
                        }
                    }
                    // The finish-discipline and single-producer conditions
                    // carry over: the new processor is unfinished, and its
                    // ports are fresh and empty.
                    if gstart.inputs_done() {
                        assert forall|i2: int, k2: int|
                            0 <= i2 < g2.processors@.len() && 0 <= k2 < g2.processors@[
                                i2
                            ].inputs@.len() && g2.processors@[i2].finished implies g2.ports@[
                            #[trigger] g2.processors@[i2].inputs@[k2] as int
                        ].state is Finished by {
                            assert(i2 != pid as int);
                            assert(g2.processors@[i2] == gn.processors@[i2]);
                            assert(gn.proc_shape_wf(i2));
                            let qq = gn.processors@[i2].inputs@[k2] as int;
                            assert(gn.ports@[qq].state is Finished);
                            assert(0 <= qq < gn.ports@.len());
                            assert(g2.ports@[qq] == gn.ports@[qq]);
                        }
                        assert(g2.inputs_done());
                    }
                    if gstart.no_early_finish() {
                        assert forall|i2: int, k2: int|
                            0 <= i2 < g2.processors@.len() && 0 <= k2 < g2.processors@[
                                i2
                            ].outputs@.len() && !g2.processors@[i2].finished implies !(
                        g2.ports@[#[trigger] g2.processors@[i2].outputs@[k2] as int].state
                            is Finished) by {
                            if i2 == pid as int {
                                assert(g2.processors@[i2].outputs@[k2] == outsv[k2]);
                                assert(outsv[k2] == base + k2);
                                assert(g2.ports@[outsv[k2] as int].state is Empty);
                            } else {
                                assert(g2.processors@[i2] == gn.processors@[i2]);
                                assert(gn.proc_shape_wf(i2));
                                let qq = gn.processors@[i2].outputs@[k2] as int;
                                assert(!(gn.ports@[qq].state is Finished));
                                assert(0 <= qq < gn.ports@.len());
                                assert(g2.ports@[qq] == gn.ports@[qq]);
                            }
                        }
                        assert(g2.no_early_finish());
                    }
                    if gstart.producer_unique() && gstart.outputs_in_range() {
                        assert forall|i2: int, k2: int|
                            0 <= i2 < g2.processors@.len() && 0 <= k2 < g2.processors@[
                                i2
                            ].outputs@.len() implies (#[trigger] g2.processors@[i2].outputs@[
                            k2
                        ]) < g2.ports@.len() by {
                            if i2 == pid as int {
                                assert(g2.processors@[i2].outputs@[k2] == base + k2);
                            } else {
                                assert(g2.processors@[i2] == gn.processors@[i2]);
                                assert(gn.processors@[i2].outputs@[k2] < gn.ports@.len());
                            }
                        }
                        assert(g2.outputs_in_range());
                        assert forall|i1: int, k1: int, i2: int, k2: int|
                            0 <= i1 < g2.processors@.len() && 0 <= k1 < g2.processors@[
                                i1
                            ].outputs@.len() && 0 <= i2 < g2.processors@.len() && 0 <= k2
                            < g2.processors@[i2].outputs@.len() && (i1 != i2 || k1 != k2)
                            implies (#[trigger] g2.processors@[i1].outputs@[k1]) != (
                        #[trigger] g2.processors@[i2].outputs@[k2]) by {
                            if i1 == pid as int && i2 == pid as int {
                                assert(g2.processors@[i1].outputs@[k1] == base + k1);
                                assert(g2.processors@[i2].outputs@[k2] == base + k2);
                            } else if i1 == pid as int {
                                assert(g2.processors@[i1].outputs@[k1] == base + k1);
                                assert(g2.processors@[i2] == gn.processors@[i2]);
                                assert(gn.processors@[i2].outputs@[k2] < gn.ports@.len());
                            } else if i2 == pid as int {
                                assert(g2.processors@[i2].outputs@[k2] == base + k2);
                                assert(g2.processors@[i1] == gn.processors@[i1]);
                                assert(gn.processors@[i1].outputs@[k1] < gn.ports@.len());
                            } else {
                                assert(g2.processors@[i1] == gn.processors@[i1]);
                                assert(g2.processors@[i2] == gn.processors@[i2]);
                                assert(gn.processors@[i1].outputs@[k1] != gn.processors@[
                                    i2
                                ].outputs@[k2]);
                            }
                        }
                        assert(g2.producer_unique());
                    }
                }
                cursor = cursor + nd.n_inputs;
                j = j + 1;
            }
            prev_ports = next_ports;
            proof {
                assert(pnodes.take(nn as int) =~= pnodes);
                lemma_flat_nodes_take(pls, i as int);
                assert(flat_nodes(pls.take(i + 1)) == flat_nodes(pls.take(i as int)) + pnodes);
                assert forall|t: int|
                    0 <= t < flat_nodes(pls.take(i + 1)).len() implies proc_matches_node(
                    #[trigger] g.processors@[gstart.processors@.len() + t],
                    flat_nodes(pls.take(i + 1))[t],
                ) by {
                    if t < flat_nodes(pls.take(i as int)).len() {
                        assert(flat_nodes(pls.take(i + 1))[t] == flat_nodes(
                            pls.take(i as int),
                        )[t]);
                    } else {
                        let t2 = t - flat_nodes(pls.take(i as int)).len();
                        assert(flat_nodes(pls.take(i + 1))[t] == pnodes[t2]);
                        assert(proc_matches_node(
                            g.processors@[gstart.processors@.len() + flat_nodes(
                                pls.take(i as int),
                            ).len() + t2],
                            pnodes[t2],
                        ));
                        assert(gstart.processors@.len() + flat_nodes(pls.take(i as int)).len()
                            + t2 == gstart.processors@.len() + t);
                    }
                }
            }
            i = i + 1;
        }
        proof {
            assert(pls.take(np as int) =~= pls);
        }
        Ok(())
    }
}

} // verus!
