//! Pipes: the horizontal stages a pipeline is composed of.
//!
//! A pipe is an ordered list of processors of uniform input and output
//! arity, operating as parallel lanes of one stage. Arity mismatches are
//! caught when the pipe is created, not at run time.

use vstd::prelude::*;
use crate::error::EngineError;
use crate::processor::ProcessorKind;

verus! {

/// One processor of a pipe, before it is wired into a graph.
pub struct PipeNode {
    /// The display name of the processor.
    pub name: String,
    /// The operator and its initial internal state.
    pub kind: ProcessorKind,
    /// How many input ports the processor takes.
    pub n_inputs: usize,
    /// How many output ports the processor drives.
    pub n_outputs: usize,
}

/// Whether a node's declared arity fits its operator, and its internal
/// state its own bounds.
pub open spec fn node_ok(nd: PipeNode) -> bool {
    match nd.kind {
        ProcessorKind::ConstantSource { blocks, next } => {
            &&& nd.n_inputs == 0
            &&& nd.n_outputs == 1
            &&& next <= blocks@.len()
        }
        ProcessorKind::Transform => nd.n_inputs == 1 && nd.n_outputs == 1,
        ProcessorKind::CollectSink { .. } => nd.n_inputs == 1 && nd.n_outputs == 0,
        ProcessorKind::Resize { next_out } => {
            &&& nd.n_inputs >= 1
            &&& nd.n_outputs >= 1
            &&& next_out < nd.n_outputs
        }
        ProcessorKind::JoinBuild { .. } => nd.n_inputs == 1 && nd.n_outputs == 0,
        ProcessorKind::JoinProbe { .. } => nd.n_inputs == 1 && nd.n_outputs == 1,
        ProcessorKind::Fault { .. } => true,
    }
}

/// The largest join index a node names, plus one; zero if none.
pub open spec fn node_joins(nd: PipeNode) -> int {
    match nd.kind {
        ProcessorKind::JoinBuild { join } => join + 1,
        ProcessorKind::JoinProbe { join } => join + 1,
        _ => 0,
    }
}

/// Checks one node.
pub fn check_node(nd: &PipeNode) -> (r: bool)
    ensures
        r == node_ok(*nd),
{
    match &nd.kind {
        ProcessorKind::ConstantSource { blocks, next } => {
            nd.n_inputs == 0 && nd.n_outputs == 1 && *next <= blocks.len()
        }
        ProcessorKind::Transform => nd.n_inputs == 1 && nd.n_outputs == 1,
        ProcessorKind::CollectSink { .. } => nd.n_inputs == 1 && nd.n_outputs == 0,
        ProcessorKind::Resize { next_out } => {
            nd.n_inputs >= 1 && nd.n_outputs >= 1 && *next_out < nd.n_outputs
        }
        ProcessorKind::JoinBuild { .. } => nd.n_inputs == 1 && nd.n_outputs == 0,
        ProcessorKind::JoinProbe { .. } => nd.n_inputs == 1 && nd.n_outputs == 1,
        ProcessorKind::Fault { .. } => true,
    }
}

/// A stage: parallel processors of one uniform arity.
pub struct Pipe {
    /// The processors of the stage, in lane order.
    pub nodes: Vec<PipeNode>,
    /// The total number of input ports of the stage.
    pub input_arity: usize,
    /// The total number of output ports of the stage.
    pub output_arity: usize,
}

/// The summed input arity of a list of nodes.
pub open spec fn sum_inputs(s: Seq<PipeNode>) -> int
    decreases s.len(),
{
    if s.len() == 0 {
        0
    } else {
        s[0].n_inputs + sum_inputs(s.drop_first())
    }
}

/// The summed output arity of a list of nodes.
pub open spec fn sum_outputs(s: Seq<PipeNode>) -> int
    decreases s.len(),
{
    if s.len() == 0 {
        0
    } else {
        s[0].n_outputs + sum_outputs(s.drop_first())
    }
}

/// Appending a node adds its arity to the sums.
pub proof fn lemma_sums_push(s: Seq<PipeNode>, nd: PipeNode)
    ensures
        sum_inputs(s.push(nd)) == sum_inputs(s) + nd.n_inputs,
        sum_outputs(s.push(nd)) == sum_outputs(s) + nd.n_outputs,
    decreases s.len(),
{
    assert(sum_inputs(s.push(nd)) == s.push(nd)[0].n_inputs + sum_inputs(
        s.push(nd).drop_first(),
    ));
    assert(sum_outputs(s.push(nd)) == s.push(nd)[0].n_outputs + sum_outputs(
        s.push(nd).drop_first(),
    ));
    if s.len() == 0 {
        assert(s.push(nd).drop_first() =~= Seq::<PipeNode>::empty());
        assert(s.push(nd)[0] == nd);
        assert(sum_inputs(Seq::<PipeNode>::empty()) == 0);
        assert(sum_outputs(Seq::<PipeNode>::empty()) == 0);
        assert(s =~= Seq::<PipeNode>::empty());
    } else {
        assert(s.push(nd).drop_first() =~= s.drop_first().push(nd));
        assert(s.push(nd)[0] == s[0]);
        lemma_sums_push(s.drop_first(), nd);
    }
}

/// Arity sums are never negative.
pub proof fn lemma_sums_nonneg(s: Seq<PipeNode>)
    ensures
        sum_inputs(s) >= 0,
        sum_outputs(s) >= 0,
    decreases s.len(),
{
    if s.len() > 0 {
        lemma_sums_nonneg(s.drop_first());
    }
}

/// The condition under which a list of nodes makes a pipe: every node
/// sound, and every node of the same arity as the first. An empty stage is
/// allowed; it carries no ports.
pub open spec fn nodes_ok(s: Seq<PipeNode>) -> bool {
    &&& forall|i: int| 0 <= i < s.len() ==> node_ok(#[trigger] s[i])
    &&& forall|i: int|
        0 <= i < s.len() ==> (#[trigger] s[i]).n_inputs == s[0].n_inputs && s[i].n_outputs
            == s[0].n_outputs
}

/// A well-formed pipe: sound nodes and arities that are really the sums.
pub open spec fn pipe_wf(p: Pipe) -> bool {
    &&& nodes_ok(p.nodes@)
    &&& p.input_arity == sum_inputs(p.nodes@)
    &&& p.output_arity == sum_outputs(p.nodes@)
}

/// Builds a stage out of parallel processors. Fails exactly when a node's
/// arity does not fit its operator or internal state, two nodes differ in
/// arity, or a summed arity does not fit the machine. An empty list makes
/// an empty stage.
pub fn create_pipe(nodes: Vec<PipeNode>) -> (r: Result<Pipe, EngineError>)
    ensures
        r matches Ok(p) ==> p.nodes == nodes && pipe_wf(p),
        r is Ok <==> nodes_ok(nodes@) && sum_inputs(nodes@) <= usize::MAX && sum_outputs(nodes@)
            <= usize::MAX,
        r matches Err(e) ==> e is Construction,
{
    let n = nodes.len();
    if n == 0 {
        proof {
            assert(sum_inputs(nodes@) == 0);
            assert(sum_outputs(nodes@) == 0);
        }
        return Ok(Pipe { nodes, input_arity: 0, output_arity: 0 });
    }
    let first_in = nodes[0].n_inputs;
    let first_out = nodes[0].n_outputs;
    let mut in_sum: usize = 0;
    let mut out_sum: usize = 0;
    let mut i: usize = 0;
    while i < n
        invariant
            i <= n,
            n == nodes@.len(),
            n > 0,
            first_in == nodes@[0].n_inputs,
            first_out == nodes@[0].n_outputs,
            forall|j: int| 0 <= j < i ==> node_ok(#[trigger] nodes@[j]),
            forall|j: int|
                0 <= j < i ==> (#[trigger] nodes@[j]).n_inputs == first_in && nodes@[j].n_outputs
                    == first_out,
            in_sum == sum_inputs(nodes@.take(i as int)),
            out_sum == sum_outputs(nodes@.take(i as int)),
        decreases n - i,
    {
        let nd = &nodes[i];
        if !check_node(nd) {
            return Err(EngineError::Construction {
                message: String::from_str(
                    "a processor's ports do not fit the operator it implements",
                ),
            });
        }
        if nd.n_inputs != first_in || nd.n_outputs != first_out {
            return Err(EngineError::Construction {
                message: String::from_str(
                    "every processor of a pipe must have the same input and output arity",
                ),
            });
        }
        proof {
            assert(nodes@.take(i + 1) =~= nodes@.take(i as int).push(nodes@[i as int]));
            lemma_sums_push(nodes@.take(i as int), nodes@[i as int]);
        }
        if in_sum > usize::MAX - nd.n_inputs || out_sum > usize::MAX - nd.n_outputs {
            proof {
                lemma_sums_prefix_le(nodes@, i + 1);
            }
            return Err(EngineError::Construction {
                message: String::from_str("a pipe's total arity does not fit the machine"),
            });
        }
        in_sum = in_sum + nd.n_inputs;
        out_sum = out_sum + nd.n_outputs;
        i = i + 1;
    }
    proof {
        assert(nodes@.take(n as int) =~= nodes@);
    }
    Ok(Pipe { nodes, input_arity: in_sum, output_arity: out_sum })
}

/// A prefix sum is at most the whole sum.
pub proof fn lemma_sums_prefix_le(s: Seq<PipeNode>, j: int)
    requires
        0 <= j <= s.len(),
    ensures
        sum_inputs(s.take(j)) <= sum_inputs(s),
        sum_outputs(s.take(j)) <= sum_outputs(s),
    decreases s.len() - j,
{
    if j == s.len() {
        assert(s.take(j) =~= s);
    } else {
        assert(s.take(j + 1) =~= s.take(j).push(s[j]));
        lemma_sums_push(s.take(j), s[j]);
        lemma_sums_prefix_le(s, j + 1);
    }
}


/// A zero output sum means every node has zero outputs.
pub proof fn lemma_sum_outputs_zero(s: Seq<PipeNode>, j: int)
    requires
        sum_outputs(s) == 0,
        0 <= j < s.len(),
    ensures
        s[j].n_outputs == 0,
    decreases j,
{
    lemma_sums_nonneg(s.drop_first());
    if j == 0 {
    } else {
        lemma_sum_outputs_zero(s.drop_first(), j - 1);
    }
}

/// Checks that the join states a node names exist.
pub fn check_node_joins(nd: &PipeNode, njoins: usize) -> (r: bool)
    ensures
        r == (node_joins(*nd) <= njoins),
{
    match &nd.kind {
        ProcessorKind::JoinBuild { join } => *join < njoins,
        ProcessorKind::JoinProbe { join } => *join < njoins,
        _ => true,
    }
}

/// When every node has the same arity, the sums are products.
pub proof fn lemma_sums_const(s: Seq<PipeNode>, a: int, b: int)
    requires
        forall|x: int| 0 <= x < s.len() ==> (#[trigger] s[x]).n_inputs == a && s[x].n_outputs == b,
    ensures
        sum_inputs(s) == s.len() * a,
        sum_outputs(s) == s.len() * b,
    decreases s.len(),
{
    if s.len() == 0 {
        assert(0int * a == 0) by (nonlinear_arith);
        assert(0int * b == 0) by (nonlinear_arith);
    } else {
        lemma_sums_const(s.drop_first(), a, b);
        assert(a + (s.len() - 1) * a == s.len() * a) by (nonlinear_arith);
        assert(b + (s.len() - 1) * b == s.len() * b) by (nonlinear_arith);
    }
}
} // verus!
