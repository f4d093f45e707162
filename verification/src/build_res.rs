//! The handoff object from the planner to the executor, and the executor
//! itself.
//!
//! A `PipelineBuildResult` carries the main pipeline, any auxiliary source
//! pipelines that feed it, the exchange injector chosen for its boundaries,
//! the profile set of the run, and shared build-time state such as a join
//! build side. A `PipelineExecutor` flattens all of it into one executing
//! graph and drives it to joint completion.

use vstd::prelude::*;
use crate::error::EngineError;
use crate::exchange::{ExchangeInjector, DefaultExchangeInjector};
use crate::executor::{ExecutingGraph, run_graph};
use crate::marray::PrimitiveType;
use crate::pipe::{Pipe, PipeNode, node_ok, create_pipe};
use crate::pipeline::{Pipeline, pipeline_wf, buildable};
use crate::processor::{Processor, ProcessorKind, JoinState};
use crate::profile::{Profile, ProfileSnapshot, SharedProcessorProfiles};
use crate::row::DataBlock;

verus! {

/// One column of a schema, as probe processors see it.
pub struct DataField {
    pub name: String,
    pub data_type: PrimitiveType,
}

/// Build-time state shared across plan fragments of one query.
pub struct PipelineBuilderData {
    /// The join state a probe-side fragment reads, by index.
    pub input_join_state: Option<usize>,
    /// The schema of the probe input, if one was handed over.
    pub input_probe_schema: Option<Vec<DataField>>,
}

/// What the planner hands the executor: the main pipeline, the auxiliary
/// source pipelines that must run to materialize its inputs, the exchange
/// injector, the profile set, and shared builder state.
pub struct PipelineBuildResult {
    pub main_pipeline: Pipeline,
    pub sources_pipelines: Vec<Pipeline>,
    pub prof_span_set: SharedProcessorProfiles,
    pub exchange_injector: ExchangeInjector,
    pub builder_data: PipelineBuilderData,
}

impl PipelineBuildResult {
    /// An empty build result: an empty main pipeline, no auxiliary
    /// pipelines, no profiles, the identity exchange injector, and no
    /// shared builder state.
    pub fn create() -> (r: PipelineBuildResult)
        ensures
            r.main_pipeline.pipes@.len() == 0,
            r.main_pipeline.max_threads == 0,
            pipeline_wf(r.main_pipeline),
            r.sources_pipelines@.len() == 0,
            r.prof_span_set.profiles@.len() == 0,
            r.exchange_injector.strategy is Local,
            r.builder_data.input_join_state is None,
            r.builder_data.input_probe_schema is None,
    {
        PipelineBuildResult {
            main_pipeline: Pipeline::create(),
            sources_pipelines: Vec::new(),
            prof_span_set: SharedProcessorProfiles::create(),
            exchange_injector: DefaultExchangeInjector::create(),
            builder_data: PipelineBuilderData {
                input_join_state: None,
                input_probe_schema: None,
            },
        }
    }

    /// A build result whose main pipeline holds one source pipe emitting
    /// the given batches, one one-shot source per batch; an empty batch
    /// list gives an empty source pipe. Always succeeds.
    pub fn from_blocks(blocks: Vec<DataBlock>) -> (r: Result<PipelineBuildResult, EngineError>)
        ensures
            r is Ok,
            r matches Ok(res) ==> {
                &&& res.main_pipeline.pipes@.len() == 1
                &&& pipeline_wf(res.main_pipeline)
                &&& res.main_pipeline.max_threads == 0
                &&& res.main_pipeline.pipes@[0].input_arity == 0
                &&& res.main_pipeline.pipes@[0].output_arity == blocks@.len()
                &&& res.main_pipeline.pipes@[0].nodes@.len() == blocks@.len()
                &&& forall|i: int|
                    0 <= i < blocks@.len() ==> ((#[trigger] res.main_pipeline.pipes@[0].nodes@[
                        i
                    ]).kind matches ProcessorKind::ConstantSource { blocks: b, next }
                        && b@.len() == 1 && b@[0].spec_rows() == blocks@[i].spec_rows() && next
                        == 0)
                &&& res.sources_pipelines@.len() == 0
                &&& res.prof_span_set.profiles@.len() == 0
                &&& res.exchange_injector.strategy is Local
                &&& res.builder_data.input_join_state is None
                &&& res.builder_data.input_probe_schema is None
            },
    {
        let n = blocks.len();
        let mut nodes: Vec<PipeNode> = Vec::new();
        let ghost blocks_view = blocks@;
        let mut blocks = blocks;
        let mut i: usize = 0;
        while i < n
            invariant
                i <= n,
                n == blocks_view.len(),
                blocks@ == blocks_view.skip(i as int),
                nodes@.len() == i,
                forall|x: int|
                    0 <= x < i ==> ((#[trigger] nodes@[x]).kind matches
                        ProcessorKind::ConstantSource { blocks: b, next } && b@.len() == 1
                        && b@[0].spec_rows() == blocks_view[x].spec_rows() && next == 0),
                forall|x: int| 0 <= x < i ==> node_ok(#[trigger] nodes@[x]),
                forall|x: int|
                    0 <= x < i ==> (#[trigger] nodes@[x]).n_inputs == 0 && nodes@[x].n_outputs
                        == 1,
            decreases n - i,
        {
            let ghost k = i as int;
            let block = blocks.remove(0);
            proof {
                assert(block == blocks_view[k]);
                assert(blocks@ =~= blocks_view.skip(k + 1));
            }
            let mut one: Vec<DataBlock> = Vec::new();
            one.push(block);
            nodes.push(PipeNode {
                name: String::from_str("OneBlockSource"),
                kind: ProcessorKind::ConstantSource { blocks: one, next: 0 },
                n_inputs: 0,
                n_outputs: 1,
            });
            i = i + 1;
        }
        let pipe = match create_pipe(nodes) {
            Ok(pipe) => pipe,
            Err(e) => {
                proof {
                    assert(crate::pipe::nodes_ok(nodes@)) by {
                        if n > 0 {
                            assert(nodes@[0].n_inputs == 0 && nodes@[0].n_outputs == 1);
                        }
                    }
                    crate::pipe::lemma_sums_const(nodes@, 0, 1);
                    assert(false);
                }
                return Err(e);
            }
        };
        let mut main_pipeline = Pipeline::create();
        match main_pipeline.add_pipe(pipe) {
            Ok(()) => {}
            Err(_) => {
                proof {
                    assert(false);
                }
            }
        }
        proof {
            crate::pipe::lemma_sums_const(main_pipeline.pipes@[0].nodes@, 0, 1);
        }
        Ok(PipelineBuildResult {
            main_pipeline,
            sources_pipelines: Vec::new(),
            prof_span_set: SharedProcessorProfiles::create(),
            exchange_injector: DefaultExchangeInjector::create(),
            builder_data: PipelineBuilderData {
                input_join_state: None,
                input_probe_schema: None,
            },
        })
    }

    /// Applies one thread cap to the main pipeline and every auxiliary
    /// source pipeline.
    pub fn set_max_threads(&mut self, max_threads: usize)
        ensures
            final(self).main_pipeline.pipes == old(self).main_pipeline.pipes,
            final(self).main_pipeline.max_threads == max_threads,
            final(self).sources_pipelines@.len() == old(self).sources_pipelines@.len(),
            forall|i: int|
                0 <= i < old(self).sources_pipelines@.len() ==> (#[trigger] final(self).sources_pipelines@[i]).pipes
                    == old(self).sources_pipelines@[i].pipes
                    && final(self).sources_pipelines@[i].max_threads == max_threads,
            final(self).prof_span_set == old(self).prof_span_set,
            final(self).exchange_injector == old(self).exchange_injector,
            final(self).builder_data == old(self).builder_data,
    {
        self.main_pipeline.set_max_threads(max_threads);
        let n = self.sources_pipelines.len();
        let mut i: usize = 0;
        while i < n
            invariant
                i <= n,
                n == self.sources_pipelines@.len(),
                n == old(self).sources_pipelines@.len(),
                self.main_pipeline.pipes == old(self).main_pipeline.pipes,
                self.main_pipeline.max_threads == max_threads,
                self.prof_span_set == old(self).prof_span_set,
                self.exchange_injector == old(self).exchange_injector,
                self.builder_data == old(self).builder_data,
                forall|x: int|
                    0 <= x < i ==> (#[trigger] self.sources_pipelines@[x]).pipes == old(
                        self,
                    ).sources_pipelines@[x].pipes && self.sources_pipelines@[x].max_threads
                        == max_threads,
                forall|x: int|
                    i <= x < n ==> self.sources_pipelines@[x] == old(self).sources_pipelines@[x],
            decreases n - i,
        {
            let p = &mut self.sources_pipelines[i];
            p.set_max_threads(max_threads);
            i = i + 1;
        }
    }
}


/// The nodes of a list of pipelines, flattened in order.
pub open spec fn flat_pipelines(s: Seq<Pipeline>) -> Seq<PipeNode>
    decreases s.len(),
{
    if s.len() == 0 {
        Seq::<PipeNode>::empty()
    } else {
        crate::pipeline::flat_nodes(s[0].pipes@) + flat_pipelines(s.drop_first())
    }
}

/// Appending a pipeline appends its nodes.
pub proof fn lemma_flat_pipelines_take(s: Seq<Pipeline>, i: int)
    requires
        0 <= i < s.len(),
    ensures
        flat_pipelines(s.take(i + 1)) == flat_pipelines(s.take(i)) + crate::pipeline::flat_nodes(
            s[i].pipes@,
        ),
    decreases i,
{
    if i == 0 {
        assert(s.take(1).drop_first() =~= Seq::<Pipeline>::empty());
        assert(s.take(1)[0] == s[0]);
        assert(flat_pipelines(Seq::<Pipeline>::empty()) =~= Seq::<PipeNode>::empty());
        assert(s.take(0) =~= Seq::<Pipeline>::empty());
        assert(flat_pipelines(s.take(1)) =~= flat_pipelines(s.take(0))
            + crate::pipeline::flat_nodes(s[0].pipes@));
    } else {
        assert(s.take(i + 1).drop_first() =~= s.drop_first().take(i));
        assert(s.take(i).drop_first() =~= s.drop_first().take(i - 1));
        assert(s.take(i + 1)[0] == s[0]);
        assert(s.take(i)[0] == s[0]);
        lemma_flat_pipelines_take(s.drop_first(), i - 1);
        assert(s.drop_first()[i - 1] == s[i]);
        assert(flat_pipelines(s.take(i + 1)) =~= flat_pipelines(s.take(i))
            + crate::pipeline::flat_nodes(s[i].pipes@));
    }
}

/// Every node a build result plans: the main pipeline's, then each
/// auxiliary source pipeline's, in order.
pub open spec fn planned_nodes(res: PipelineBuildResult) -> Seq<PipeNode> {
    crate::pipeline::flat_nodes(res.main_pipeline.pipes@) + flat_pipelines(
        res.sources_pipelines@,
    )
}

/// The executor invariant: a runnable graph obeying the scheduler's
/// invariants, with one profile per processor.
pub open spec fn executor_wf(e: PipelineExecutor) -> bool {
    &&& e.graph.wf()
    &&& e.graph.covered()
    &&& e.graph.outputs_done()
    &&& e.graph.inputs_done()
    &&& e.graph.no_early_finish()
    &&& e.graph.producer_unique()
    &&& e.graph.outputs_in_range()
    &&& e.graph.sources_exhausted()
    &&& e.profiles.profiles@.len() == e.graph.processors@.len()
}

/// The executor: the flattened graph of one build result, with its profile
/// set. It drives the main pipeline and every auxiliary source pipeline to
/// joint completion.
pub struct PipelineExecutor {
    pub graph: ExecutingGraph,
    pub profiles: SharedProcessorProfiles,
}

impl PipelineExecutor {
    /// Flattens a build result into one executable graph over
    /// `n_join_states` shared join states. Fails, with a construction
    /// error, exactly when the main pipeline or any auxiliary source
    /// pipeline cannot be wired.
    pub fn create(res: PipelineBuildResult, n_join_states: usize) -> (r: Result<
        PipelineExecutor,
        EngineError,
    >)
        ensures
            r is Ok <==> res.exchange_injector.strategy is Local && buildable(
                res.main_pipeline,
                n_join_states as int,
            ) && (forall|s: int|
                0 <= s < res.sources_pipelines@.len() ==> buildable(
                    #[trigger] res.sources_pipelines@[s],
                    n_join_states as int,
                )),
            r matches Ok(e) ==> executor_wf(e) && e.graph.joins@.len() == n_join_states && (
            forall|j: int|
                0 <= j < n_join_states ==> !(#[trigger] e.graph.joins@[j]).published),
            r matches Ok(e) ==> e.graph.processors@.len() == planned_nodes(res).len() && (forall|
                t: int,
            |
                0 <= t < planned_nodes(res).len() ==> crate::pipeline::proc_matches_node(
                    #[trigger] e.graph.processors@[t],
                    planned_nodes(res)[t],
                )),
            r matches Ok(e) ==> forall|x: int|
                0 <= x < e.profiles.profiles@.len() ==> (#[trigger] e.profiles.profiles@[x]).pid
                    == x && e.profiles.profiles@[x].p_name@ == e.graph.processors@[x].name@
                    && e.profiles.profiles@[x].cpu_time == 0 && e.profiles.profiles@[x].wait_time
                    == 0,
            r matches Err(e) ==> e is Construction,
    {
        match res.exchange_injector.strategy {
            crate::exchange::ExchangeStrategy::Local => {}
            _ => {
                // A remote exchange boundary needs a network transport; only
                // the identity injector can be built into a local graph.
                return Err(EngineError::Construction {
                    message: String::from_str(
                        "only the local exchange injector can be built into a local graph",
                    ),
                });
            }
        }
        let mut joins: Vec<JoinState> = Vec::new();
        let mut j: usize = 0;
        while j < n_join_states
            invariant
                j <= n_join_states,
                joins@.len() == j,
                forall|x: int|
                    0 <= x < j ==> !(#[trigger] joins@[x]).published && joins@[x].entries@.len()
                        == 0,
            decreases n_join_states - j,
        {
            joins.push(JoinState::create());
            j = j + 1;
        }
        let mut g = ExecutingGraph { processors: Vec::new(), ports: Vec::new(), joins };
        proof {
            assert(g.wf());
            assert(g.covered());
            assert(g.outputs_done());
            assert(g.inputs_done());
            assert(g.no_early_finish());
            assert(g.producer_unique());
            assert(g.outputs_in_range());
            assert(g.sources_exhausted());
        }
        let ghost main_pipes = res.main_pipeline.pipes@;
        match res.main_pipeline.build_into(&mut g) {
            Ok(()) => {}
            Err(e) => {
                return Err(e);
            }
        }
        proof {
            assert(flat_pipelines(Seq::<Pipeline>::empty()) =~= Seq::<PipeNode>::empty());
            assert(crate::pipeline::flat_nodes(main_pipes) + flat_pipelines(
                Seq::<Pipeline>::empty(),
            ) =~= crate::pipeline::flat_nodes(main_pipes));
        }
        let ghost srcs = res.sources_pipelines@;
        let ns = res.sources_pipelines.len();
        let mut sources = res.sources_pipelines;
        let mut s: usize = 0;
        proof {
            assert(srcs.take(0) =~= Seq::<Pipeline>::empty());
            assert(flat_pipelines(srcs.take(0)) =~= Seq::<PipeNode>::empty());
            assert forall|t: int|
                0 <= t < g.processors@.len() implies crate::pipeline::proc_matches_node(
                #[trigger] g.processors@[t],
                (crate::pipeline::flat_nodes(res.main_pipeline.pipes@) + flat_pipelines(
                    srcs.take(0),
                ))[t],
            ) by {
                assert(crate::pipeline::proc_matches_node(
                    g.processors@[0 + t],
                    crate::pipeline::flat_nodes(main_pipes)[t],
                ));
                assert((crate::pipeline::flat_nodes(res.main_pipeline.pipes@) + flat_pipelines(
                    srcs.take(0),
                ))[t] == crate::pipeline::flat_nodes(main_pipes)[t]);
            }
        }
        while s < ns
            invariant
                s <= ns,
                ns == srcs.len(),
                srcs == res.sources_pipelines@,
                buildable(res.main_pipeline, n_join_states as int),
                sources@ == srcs.skip(s as int),
                g.wf(),
                g.covered(),
                g.outputs_done(),
                g.inputs_done(),
                g.no_early_finish(),
                g.producer_unique(),
                g.outputs_in_range(),
                g.sources_exhausted(),
                g.processors@.len() == crate::pipeline::flat_nodes(
                    res.main_pipeline.pipes@,
                ).len() + flat_pipelines(srcs.take(s as int)).len(),
                forall|t: int|
                    0 <= t < g.processors@.len() ==> crate::pipeline::proc_matches_node(
                        #[trigger] g.processors@[t],
                        (crate::pipeline::flat_nodes(res.main_pipeline.pipes@)
                            + flat_pipelines(srcs.take(s as int)))[t],
                    ),
                g.joins@.len() == n_join_states,
                forall|x: int|
                    0 <= x < n_join_states ==> !(#[trigger] g.joins@[x]).published,
                forall|x: int| 0 <= x < s ==> buildable(#[trigger] srcs[x], n_join_states as int),
            decreases ns - s,
        {
            let ghost k = s as int;
            let pl = sources.remove(0);
            proof {
                assert(pl == srcs[k]);
                assert(sources@ =~= srcs.skip(k + 1));
            }
            let ghost gpre = g;
            match pl.build_into(&mut g) {
                Ok(()) => {}
                Err(e) => {
                    return Err(e);
                }
            }
            proof {
                lemma_flat_pipelines_take(srcs, k);
                let before = crate::pipeline::flat_nodes(res.main_pipeline.pipes@)
                    + flat_pipelines(srcs.take(k));
                let after = crate::pipeline::flat_nodes(res.main_pipeline.pipes@)
                    + flat_pipelines(srcs.take(k + 1));
                assert(after =~= before + crate::pipeline::flat_nodes(pl.pipes@));
                assert forall|t: int|
                    0 <= t < g.processors@.len() implies crate::pipeline::proc_matches_node(
                    #[trigger] g.processors@[t],
                    after[t],
                ) by {
                    if t < before.len() {
                        assert(g.processors@[t] == gpre.processors@[t]);
                        assert(after[t] == before[t]);
                    } else {
                        let t2 = t - before.len();
                        assert(crate::pipeline::proc_matches_node(
                            g.processors@[gpre.processors@.len() + t2],
                            crate::pipeline::flat_nodes(pl.pipes@)[t2],
                        ));
                        assert(after[t] == crate::pipeline::flat_nodes(pl.pipes@)[t2]);
                    }
                }
            }
            s = s + 1;
        }
        let n = g.processors.len();
        let mut profiles = SharedProcessorProfiles::create();
        let mut i: usize = 0;
        while i < n
            invariant
                i <= n,
                n == g.processors@.len(),
                profiles.profiles@.len() == i,
                forall|x: int|
                    0 <= x < i ==> (#[trigger] profiles.profiles@[x]).pid == x
                        && profiles.profiles@[x].p_name@ == g.processors@[x].name@
                        && profiles.profiles@[x].cpu_time == 0 && profiles.profiles@[x].wait_time
                        == 0,
            decreases n - i,
        {
            let name = g.processors[i].name.clone();
            profiles.profiles.push(Profile::create(i, name));
            i = i + 1;
        }
        proof {
            assert(srcs.take(ns as int) =~= srcs);
        }
        Ok(PipelineExecutor { graph: g, profiles })
    }

    /// Drives the graph to completion: success when every processor
    /// finishes, the first fatal error (after cancelling the rest of the
    /// graph) otherwise. On success with only conservative operators the
    /// collected rows are exactly the rows the run began with; see
    /// [`crate::executor::theorem_no_data_loss`].
    pub fn execute(&mut self) -> (r: Result<(), EngineError>)
        requires
            executor_wf(*old(self)),
        ensures
            final(self).graph.wf(),
            crate::executor::same_shape(old(self).graph, final(self).graph),
            final(self).graph.all_finished(),
            final(self).graph.all_ports_finished(),
            r is Ok ==> final(self).graph.sources_exhausted() && final(self).graph.outputs_done(),
            r is Ok && old(self).graph.all_conservative() ==> final(self).graph.live_ms() == old(
                self,
            ).graph.live_ms(),
            r matches Err(e) ==> (e is Deadlock || (e matches EngineError::Processor {
                pid: ep,
                ..
            } && ep < final(self).graph.processors@.len() && final(self).graph.processors@[
                ep as int
            ].kind is Fault)),
            r matches Err(e) && e is Deadlock ==> exists|gw: ExecutingGraph|
                #[trigger] crate::executor::stuck_state(old(self).graph, gw),
            final(self).profiles.profiles@.len() == old(self).profiles.profiles@.len(),
    {
        run_graph(&mut self.graph, &mut self.profiles)
    }

    /// Requests early termination: forces every port and processor to its
    /// terminal state. Idempotent; safe to call before or after a run.
    pub fn cancel(&mut self)
        requires
            old(self).graph.wf(),
        ensures
            final(self).graph.wf(),
            final(self).graph.all_finished(),
            final(self).graph.all_ports_finished(),
            final(self).profiles == old(self).profiles,
    {
        crate::executor::cancel_graph(&mut self.graph);
    }

    /// The batches every collecting sink holds, in processor and batch
    /// order.
    pub fn collected_blocks(&self) -> (r: Vec<DataBlock>)
        ensures
            r@.len() == crate::executor::collected_rows_of(self.graph.processors@).len(),
            forall|i: int|
                0 <= i < r@.len() ==> (#[trigger] r@[i]).spec_rows()
                    == crate::executor::collected_rows_of(self.graph.processors@)[i],
    {
        let n = self.graph.processors.len();
        let mut out: Vec<DataBlock> = Vec::new();
        let mut i: usize = 0;
        proof {
            assert(self.graph.processors@.skip(0) =~= self.graph.processors@);
            assert(rows_views(out@) =~= Seq::<Seq<crate::row::Row>>::empty());
        }
        while i < n
            invariant
                i <= n,
                n == self.graph.processors@.len(),
                crate::executor::collected_rows_of(self.graph.processors@) =~= rows_views(out@)
                    + crate::executor::collected_rows_of(
                    self.graph.processors@.skip(i as int),
                ),
            decreases n - i,
        {
            proof {
                assert(self.graph.processors@.skip(i as int)[0]
                    == self.graph.processors@[i as int]);
                assert(self.graph.processors@.skip(i as int).drop_first()
                    =~= self.graph.processors@.skip(i + 1));
            }
            let p = &self.graph.processors[i];
            let ghost before = rows_views(out@);
            match &p.kind {
                ProcessorKind::CollectSink { collected } => {
                    proof {
                        assert(crate::executor::collected_rows_of(
                            self.graph.processors@.skip(i as int),
                        ) =~= rows_views(collected@) + crate::executor::collected_rows_of(
                            self.graph.processors@.skip(i + 1),
                        ));
                    }
                    let m = collected.len();
                    let mut t: usize = 0;
                    proof {
                        assert(rows_views(collected@).take(0)
                            =~= Seq::<Seq<crate::row::Row>>::empty());
                        assert(rows_views(out@) =~= before + rows_views(collected@).take(0));
                    }
                    while t < m
                        invariant
                            t <= m,
                            m == collected@.len(),
                            p == self.graph.processors@[i as int],
                            p.kind matches ProcessorKind::CollectSink { collected: c } && c
                                == collected,
                            rows_views(out@) =~= before + rows_views(collected@).take(t as int),
                        decreases m - t,
                    {
                        let ghost out_old = out@;
                        out.push(collected[t].clone());
                        proof {
                            let cv = rows_views(collected@);
                            assert(cv.take(t + 1) =~= cv.take(t as int).push(cv[t as int]));
                            assert(cv[t as int] == collected@[t as int].spec_rows());
                            assert(rows_views(out@) =~= rows_views(out_old).push(
                                out@[out_old.len() as int].spec_rows(),
                            ));
                            assert(before + cv.take(t as int).push(cv[t as int]) =~= (before
                                + cv.take(t as int)).push(cv[t as int]));
                            assert(rows_views(out@) =~= before + cv.take(t + 1));
                        }
                        t = t + 1;
                    }
                    proof {
                        assert(rows_views(collected@).take(m as int) =~= rows_views(collected@));
                    }
                }
                _ => {
                    proof {
                        assert(crate::executor::collected_rows_of(
                            self.graph.processors@.skip(i as int),
                        ) =~= crate::executor::collected_rows_of(
                            self.graph.processors@.skip(i + 1),
                        ));
                    }
                }
            }
            i = i + 1;
        }
        proof {
            assert(self.graph.processors@.skip(n as int) =~= Seq::<Processor>::empty());
            assert(crate::executor::collected_rows_of(Seq::<Processor>::empty())
                =~= Seq::<Seq<crate::row::Row>>::empty());
            assert(crate::executor::collected_rows_of(self.graph.processors@) =~= rows_views(
                out@,
            ));
            assert forall|x: int|
                0 <= x < out@.len() implies (#[trigger] out@[x]).spec_rows()
                == crate::executor::collected_rows_of(self.graph.processors@)[x] by {
                assert(rows_views(out@)[x] == out@[x].spec_rows());
            }
        }
        out
    }

    /// A profiling snapshot, readable at any time: one row per processor,
    /// in processor order, carrying its id, name and both counters.
    pub fn profile_snapshot(&self) -> (r: Vec<ProfileSnapshot>)
        ensures
            r@.len() == self.profiles.profiles@.len(),
            forall|i: int|
                0 <= i < r@.len() ==> {
                    &&& (#[trigger] r@[i]).processor_id == self.profiles.profiles@[i].pid
                    &&& r@[i].processor_name@ == self.profiles.profiles@[i].p_name@
                    &&& r@[i].cpu_time == self.profiles.profiles@[i].cpu_time
                    &&& r@[i].wait_time == self.profiles.profiles@[i].wait_time
                },
    {
        self.profiles.snapshot()
    }
}

/// The rows of each batch of a list.
pub open spec fn rows_views(s: Seq<DataBlock>) -> Seq<Seq<crate::row::Row>> {
    s.map(|x: int, b: DataBlock| b.spec_rows())
}

/// Whether a graph is the one a build result plans: one processor per
/// planned node, in order.
pub open spec fn planned_graph(res: PipelineBuildResult, g0: ExecutingGraph) -> bool {
    &&& g0.processors@.len() == planned_nodes(res).len()
    &&& forall|t: int|
        0 <= t < planned_nodes(res).len() ==> crate::pipeline::proc_matches_node(
            #[trigger] g0.processors@[t],
            planned_nodes(res)[t],
        )
}

/// The evidence a deadlock report rests on: the graph built from the
/// result's pipelines really reached a state in which nothing could run.
pub open spec fn deadlock_evidence(
    res: PipelineBuildResult,
    g0: ExecutingGraph,
    gw: ExecutingGraph,
) -> bool {
    planned_graph(res, g0) && crate::executor::stuck_state(g0, gw)
}

/// Drives a build result to completion: flattens it over `n_join_states`
/// shared join states and runs it. The caller observes success, the first
/// construction error (exactly when the result cannot be built), or the
/// first fatal run error after cancellation was propagated; a deadlock is
/// reported only with evidence of a truly stuck state of the built graph.
pub fn run(res: PipelineBuildResult, n_join_states: usize) -> (r: Result<(), EngineError>)
    ensures
        r matches Err(e) ==> (e is Construction || e is Deadlock || e is Processor),
        (r matches Err(e) && e is Construction) <==> !(res.exchange_injector.strategy is Local
            && buildable(res.main_pipeline, n_join_states as int) && (forall|s: int|
            0 <= s < res.sources_pipelines@.len() ==> buildable(
                #[trigger] res.sources_pipelines@[s],
                n_join_states as int,
            ))),
        r matches Err(e) && e is Deadlock ==> exists|g0: ExecutingGraph, gw: ExecutingGraph|
            #[trigger] deadlock_evidence(res, g0, gw),
{
    let mut executor = match PipelineExecutor::create(res, n_join_states) {
        Ok(e) => e,
        Err(e) => {
            return Err(e);
        }
    };
    let ghost gpre = executor.graph;
    let out = executor.execute();
    proof {
        if out is Err && out->Err_0 is Deadlock {
            let gw = choose|gw: ExecutingGraph|
                #[trigger] crate::executor::stuck_state(gpre, gw);
            assert(deadlock_evidence(res, gpre, gw));
        }
    }
    out
}

} // verus!
