use pipeline_core::build_res::{run, PipelineBuildResult, PipelineExecutor};
use pipeline_core::error::EngineError;
use pipeline_core::pipe::{create_pipe, PipeNode};
use pipeline_core::pipeline::Pipeline;
use pipeline_core::processor::ProcessorKind;
use pipeline_core::row::{DataBlock, Row};
use pipeline_core::executor::{run_graph, ExecutingGraph};
use pipeline_core::port::Port;
use pipeline_core::processor::Processor;
use pipeline_core::profile::{Profile, SharedProcessorProfiles};

fn row(key: u64, value: u64) -> Row {
    Row { key, value }
}

fn block(rows: Vec<Row>) -> DataBlock {
    DataBlock::new(rows)
}

fn source_node(name: &str, blocks: Vec<DataBlock>) -> PipeNode {
    PipeNode {
        name: name.to_string(),
        kind: ProcessorKind::ConstantSource { blocks, next: 0 },
        n_inputs: 0,
        n_outputs: 1,
    }
}

fn transform_node(name: &str) -> PipeNode {
    PipeNode {
        name: name.to_string(),
        kind: ProcessorKind::Transform,
        n_inputs: 1,
        n_outputs: 1,
    }
}

fn sink_node(name: &str) -> PipeNode {
    PipeNode {
        name: name.to_string(),
        kind: ProcessorKind::CollectSink { collected: Vec::new() },
        n_inputs: 1,
        n_outputs: 0,
    }
}

fn fault_node(name: &str) -> PipeNode {
    PipeNode {
        name: name.to_string(),
        kind: ProcessorKind::Fault { message: "forced failure".to_string() },
        n_inputs: 1,
        n_outputs: 1,
    }
}

/// Three fixed batches of two rows each.
fn three_batches() -> Vec<DataBlock> {
    vec![
        block(vec![row(1, 10), row(2, 20)]),
        block(vec![row(3, 30), row(4, 40)]),
        block(vec![row(5, 50), row(6, 60)]),
    ]
}

fn scenario_a_pipeline(threads: usize) -> PipelineExecutor {
    let mut pipeline = Pipeline::create();
    pipeline
        .add_pipe(create_pipe(vec![source_node("src", three_batches())]).unwrap())
        .unwrap();
    pipeline
        .add_pipe(create_pipe(vec![transform_node("keep_all")]).unwrap())
        .unwrap();
    pipeline
        .add_pipe(create_pipe(vec![sink_node("collect")]).unwrap())
        .unwrap();
    pipeline.set_max_threads(threads);
    let mut res = PipelineBuildResult::create();
    res.main_pipeline = pipeline;
    PipelineExecutor::create(res, 0).unwrap()
}

#[test]
fn scenario_constant_source_one_thread() {
    let mut exec = scenario_a_pipeline(1);
    exec.execute().unwrap();
    let out = exec.collected_blocks();
    assert_eq!(out.len(), 3);
    let total: usize = out.iter().map(|b| b.rows.len()).sum();
    assert_eq!(total, 6);
    // With one lane, batches arrive in emission order.
    assert_eq!(out[0].rows, vec![row(1, 10), row(2, 20)]);
    assert_eq!(out[1].rows, vec![row(3, 30), row(4, 40)]);
    assert_eq!(out[2].rows, vec![row(5, 50), row(6, 60)]);
}

#[test]
fn scenario_constant_source_four_threads() {
    let mut exec = scenario_a_pipeline(4);
    exec.execute().unwrap();
    let out = exec.collected_blocks();
    assert_eq!(out.len(), 3);
    let total: usize = out.iter().map(|b| b.rows.len()).sum();
    assert_eq!(total, 6);
}

fn sorted_rows(blocks: &[DataBlock]) -> Vec<(u64, u64)> {
    let mut rows: Vec<(u64, u64)> = blocks
        .iter()
        .flat_map(|b| b.rows.iter().map(|r| (r.key, r.value)))
        .collect();
    rows.sort();
    rows
}

#[test]
fn resize_fan_out_fan_in_preserves_rows() {
    // Fan-out 1 -> 3, then fan-in 3 -> 1, on deterministic processors.
    let mut pipeline = Pipeline::create();
    pipeline
        .add_pipe(create_pipe(vec![source_node("src", three_batches())]).unwrap())
        .unwrap();
    pipeline.resize(3).unwrap();
    pipeline
        .add_pipe(
            create_pipe(vec![
                transform_node("t0"),
                transform_node("t1"),
                transform_node("t2"),
            ])
            .unwrap(),
        )
        .unwrap();
    pipeline.resize(1).unwrap();
    pipeline
        .add_pipe(create_pipe(vec![sink_node("collect")]).unwrap())
        .unwrap();
    let mut res = PipelineBuildResult::create();
    res.main_pipeline = pipeline;
    let mut exec = PipelineExecutor::create(res, 0).unwrap();
    exec.execute().unwrap();
    let wide = sorted_rows(&exec.collected_blocks());

    // The same graph with one lane throughout.
    let mut narrow_exec = scenario_a_pipeline(1);
    narrow_exec.execute().unwrap();
    let narrow = sorted_rows(&narrow_exec.collected_blocks());
    assert_eq!(wide, narrow);
    assert_eq!(wide.len(), 6);
}

#[test]
fn scenario_build_probe_join() {
    // Build side: 5 key-value pairs. Probe side: 5 keys, 3 matching.
    let build_rows = vec![row(1, 100), row(2, 200), row(3, 300), row(4, 400), row(5, 500)];
    let probe_rows = vec![row(1, 0), row(3, 0), row(5, 0), row(7, 0), row(9, 0)];

    let mut aux = Pipeline::create();
    aux.add_pipe(create_pipe(vec![source_node("build_src", vec![block(build_rows)])]).unwrap())
        .unwrap();
    aux.add_pipe(
        create_pipe(vec![PipeNode {
            name: "join_build".to_string(),
            kind: ProcessorKind::JoinBuild { join: 0 },
            n_inputs: 1,
            n_outputs: 0,
        }])
        .unwrap(),
    )
    .unwrap();

    let mut main = Pipeline::create();
    main.add_pipe(create_pipe(vec![source_node("probe_src", vec![block(probe_rows)])]).unwrap())
        .unwrap();
    main.add_pipe(
        create_pipe(vec![PipeNode {
            name: "join_probe".to_string(),
            kind: ProcessorKind::JoinProbe { join: 0 },
            n_inputs: 1,
            n_outputs: 1,
        }])
        .unwrap(),
    )
    .unwrap();
    main.add_pipe(create_pipe(vec![sink_node("collect")]).unwrap())
        .unwrap();

    let mut res = PipelineBuildResult::create();
    res.main_pipeline = main;
    res.sources_pipelines = vec![aux];
    let mut exec = PipelineExecutor::create(res, 1).unwrap();
    exec.execute().unwrap();
    let out = exec.collected_blocks();
    let rows: Vec<(u64, u64)> = out
        .iter()
        .flat_map(|b| b.rows.iter().map(|r| (r.key, r.value)))
        .collect();
    assert_eq!(rows.len(), 3);
    assert_eq!(rows, vec![(1, 100), (3, 300), (5, 500)]);
}

#[test]
fn scenario_fault_in_second_of_four_lanes() {
    // Four parallel lanes; the second one fails its first step.
    let mut pipeline = Pipeline::create();
    let sources: Vec<PipeNode> = (0..4)
        .map(|i| source_node(&format!("src{i}"), vec![block(vec![row(i, i)])]))
        .collect();
    pipeline.add_pipe(create_pipe(sources).unwrap()).unwrap();
    pipeline
        .add_pipe(
            create_pipe(vec![
                transform_node("t0"),
                fault_node("t1"),
                transform_node("t2"),
                transform_node("t3"),
            ])
            .unwrap(),
        )
        .unwrap();
    pipeline
        .add_pipe(
            create_pipe(vec![
                sink_node("s0"),
                sink_node("s1"),
                sink_node("s2"),
                sink_node("s3"),
            ])
            .unwrap(),
        )
        .unwrap();
    let mut res = PipelineBuildResult::create();
    res.main_pipeline = pipeline;
    let mut exec = PipelineExecutor::create(res, 0).unwrap();
    let err = exec.execute().unwrap_err();
    match err {
        EngineError::Processor { name, message, .. } => {
            assert_eq!(name, "t1");
            assert_eq!(message, "forced failure");
        }
        _ => panic!("expected a processor error"),
    }
    // Cancellation drove every processor of the pipeline to Finished.
    assert!(exec.graph.processors.iter().all(|p| p.finished));
    assert!(exec
        .graph
        .ports
        .iter()
        .all(|p| matches!(p.state, pipeline_core::port::PortState::Finished)));
}

#[test]
fn incomplete_pipeline_fails_to_build() {
    // A pipeline whose sink ports dangle must fail at build time.
    let res = PipelineBuildResult::from_blocks(three_batches()).unwrap();
    match PipelineExecutor::create(res, 0) {
        Ok(_) => panic!("an incomplete pipeline must not build"),
        Err(err) => assert!(matches!(err, EngineError::Construction { .. })),
    }
}

#[test]
fn from_blocks_builds_one_source_per_batch() {
    let res = PipelineBuildResult::from_blocks(three_batches()).unwrap();
    assert_eq!(res.main_pipeline.pipes.len(), 1);
    assert_eq!(res.main_pipeline.pipes[0].nodes.len(), 3);
    assert_eq!(res.main_pipeline.pipes[0].output_arity, 3);
    // No batches at all: still a build result, with an empty source pipe.
    let empty = PipelineBuildResult::from_blocks(Vec::new()).unwrap();
    assert_eq!(empty.main_pipeline.pipes.len(), 1);
    assert_eq!(empty.main_pipeline.pipes[0].nodes.len(), 0);
    assert_eq!(empty.main_pipeline.pipes[0].output_arity, 0);
    // An empty source pipe is already a complete pipeline: it runs and
    // collects nothing.
    let mut exec = PipelineExecutor::create(empty, 0).unwrap();
    exec.execute().unwrap();
    assert!(exec.collected_blocks().is_empty());
}

#[test]
fn from_blocks_completed_runs_to_completion() {
    let mut res = PipelineBuildResult::from_blocks(three_batches()).unwrap();
    res.main_pipeline.resize(1).unwrap();
    res.main_pipeline
        .add_pipe(create_pipe(vec![sink_node("collect")]).unwrap())
        .unwrap();
    res.set_max_threads(2);
    let mut exec = PipelineExecutor::create(res, 0).unwrap();
    exec.execute().unwrap();
    let out = exec.collected_blocks();
    let total: usize = out.iter().map(|b| b.rows.len()).sum();
    assert_eq!(total, 6);
}

#[test]
fn arity_mismatch_fails_fast() {
    let mut pipeline = Pipeline::create();
    pipeline
        .add_pipe(create_pipe(vec![source_node("src", three_batches())]).unwrap())
        .unwrap();
    // Two lanes after a one-lane stage: refused at build time.
    let err = pipeline.add_pipe(
        create_pipe(vec![transform_node("a"), transform_node("b")]).unwrap(),
    );
    assert!(matches!(err, Err(EngineError::Construction { .. })));
}

#[test]
fn mixed_arity_pipe_is_refused() {
    let err = create_pipe(vec![transform_node("a"), sink_node("b")]);
    assert!(matches!(err, Err(EngineError::Construction { .. })));
    // An empty list makes an empty stage with no ports.
    let empty = create_pipe(Vec::new()).unwrap();
    assert_eq!(empty.input_arity, 0);
    assert_eq!(empty.output_arity, 0);
}

#[test]
fn deadlock_is_reported_not_hung() {
    // A lone transform whose input port no producer ever feeds.
    let g_ports = vec![Port::create(2), Port::create(1)];
    let procs = vec![Processor {
        name: "orphan".to_string(),
        inputs: vec![0],
        outputs: vec![1],
        kind: ProcessorKind::Transform,
        finished: false,
    }];
    let mut g = ExecutingGraph { processors: procs, ports: g_ports, joins: Vec::new() };
    let mut profiles = SharedProcessorProfiles::create();
    profiles.profiles.push(Profile::create(0, "orphan".to_string()));
    let err = run_graph(&mut g, &mut profiles).unwrap_err();
    assert!(matches!(err, EngineError::Deadlock));
    assert!(g.processors.iter().all(|p| p.finished));
}

#[test]
fn cancel_is_idempotent() {
    let mut exec = scenario_a_pipeline(1);
    exec.cancel();
    exec.cancel();
    assert!(exec.graph.processors.iter().all(|p| p.finished));
    // A cancelled run completes immediately with every processor finished.
    exec.execute().unwrap();
    assert!(exec.collected_blocks().is_empty());
}

#[test]
fn profiles_cover_every_processor() {
    let mut exec = scenario_a_pipeline(1);
    exec.execute().unwrap();
    let snap = exec.profile_snapshot();
    assert_eq!(snap.len(), 3);
    assert_eq!(snap[0].processor_id, 0);
    assert_eq!(snap[0].processor_name, "src");
    assert_eq!(snap[2].processor_name, "collect");
}

#[test]
fn run_reports_construction_exactly_when_unbuildable() {
    // A complete pipeline runs to completion.
    let mut res = PipelineBuildResult::from_blocks(three_batches()).unwrap();
    res.main_pipeline.resize(1).unwrap();
    res.main_pipeline
        .add_pipe(create_pipe(vec![sink_node("collect")]).unwrap())
        .unwrap();
    run(res, 0).unwrap();
    // A dangling pipeline is refused at build time.
    let dangling = PipelineBuildResult::from_blocks(three_batches()).unwrap();
    match run(dangling, 0) {
        Err(EngineError::Construction { .. }) => {}
        _ => panic!("a dangling pipeline must fail construction"),
    }
}

#[test]
fn resize_inserts_a_single_resize_stage() {
    let mut pipeline = Pipeline::create();
    pipeline
        .add_pipe(create_pipe(vec![source_node("src", three_batches())]).unwrap())
        .unwrap();
    pipeline.resize(3).unwrap();
    let inserted = pipeline.pipes.last().unwrap();
    assert_eq!(inserted.nodes.len(), 1);
    assert!(matches!(
        inserted.nodes[0].kind,
        ProcessorKind::Resize { next_out: 0 }
    ));
    assert_eq!(inserted.nodes[0].n_inputs, 1);
    assert_eq!(inserted.nodes[0].n_outputs, 3);
    assert_eq!(inserted.input_arity, 1);
    assert_eq!(inserted.output_arity, 3);
}
