//! Processors: the schedulable units of the graph.
//!
//! A processor owns its input and output port slots (named by index into the
//! graph's port table) and an operator-specific internal state. The closed
//! set of operators here covers the shapes the engine is specified over:
//! a one-shot source, an identity transform, a collecting sink, a resize
//! stage between pipes of different widths, the two halves of a hash join,
//! and a deliberately failing stub used to exercise error propagation.

use vstd::prelude::*;
use crate::row::{Row, DataBlock};

verus! {

/// The scheduler-visible state of a processor.
#[derive(Clone, Copy, PartialEq, Eq, Structural, Debug)]
pub enum Event {
    /// Some input lacks data and is not finished; upstream must supply it.
    NeedData,
    /// Some output still holds an unconsumed batch; downstream must drain it.
    NeedConsume,
    /// The processor can perform one bounded step of work now.
    Ready,
    /// The processor waits on an event that is not port traffic.
    Async,
    /// The processor has no more work.
    Finished,
}

/// The operator a processor implements, with its private state.
pub enum ProcessorKind {
    /// Emits a fixed list of batches, one per step, then finishes.
    ConstantSource { blocks: Vec<DataBlock>, next: usize },
    /// Forwards every batch unchanged (a keep-all filter).
    Transform,
    /// Collects every batch it consumes.
    CollectSink { collected: Vec<DataBlock> },
    /// Joins pipes of different widths: moves one batch per step from any
    /// input that has one to the next output, round-robin.
    Resize { next_out: usize },
    /// Ingests its input into the shared join state, then publishes it.
    JoinBuild { join: usize },
    /// Once the join state is published, maps each batch to its matches.
    JoinProbe { join: usize },
    /// Fails its first step; a stub for exercising the cancellation path.
    Fault { message: String },
}

/// One schedulable unit: identity, port slots, operator state.
pub struct Processor {
    /// The display name, used in error and profile reports.
    pub name: String,
    /// Indices of the input ports, in order.
    pub inputs: Vec<usize>,
    /// Indices of the output ports, in order.
    pub outputs: Vec<usize>,
    /// The operator and its internal state.
    pub kind: ProcessorKind,
    /// Whether the processor has reached its terminal state.
    pub finished: bool,
}

/// The build side of a hash join: rows gathered under exclusive ownership,
/// then published once and immutable afterwards.
pub struct JoinState {
    /// The gathered build-side rows.
    pub entries: Vec<Row>,
    /// Set once, by the build processor, when the build side is complete.
    /// Probes read `entries` only after this is set.
    pub published: bool,
}

impl JoinState {
    /// An empty, unpublished build side.
    pub fn create() -> (r: JoinState)
        ensures
            r.entries@.len() == 0,
            !r.published,
    {
        JoinState { entries: Vec::new(), published: false }
    }
}

/// Whether some build-side entry carries this key.
pub open spec fn spec_has_key(entries: Seq<Row>, key: u64) -> bool {
    exists|i: int| 0 <= i < entries.len() && entries[i].key == key
}

/// The first build-side entry with this key.
pub open spec fn spec_lookup(entries: Seq<Row>, key: u64) -> Row
    decreases entries.len(),
{
    if entries.len() == 0 {
        Row { key, value: 0 }
    } else if entries[0].key == key {
        entries[0]
    } else {
        spec_lookup(entries.drop_first(), key)
    }
}

/// The probe result: one row per probe row whose key the build side holds,
/// carrying the probe key and the matched build value, in probe order.
pub open spec fn spec_probe(entries: Seq<Row>, rows: Seq<Row>) -> Seq<Row>
    decreases rows.len(),
{
    if rows.len() == 0 {
        Seq::<Row>::empty()
    } else {
        let rest = spec_probe(entries, rows.drop_first());
        if spec_has_key(entries, rows[0].key) {
            seq![Row { key: rows[0].key, value: spec_lookup(entries, rows[0].key).value }] + rest
        } else {
            rest
        }
    }
}

/// Looks a key up in the build side: the first entry with that key.
pub fn lookup(entries: &Vec<Row>, key: u64) -> (r: Option<Row>)
    ensures
        r is Some <==> spec_has_key(entries@, key),
        r matches Some(e) ==> e == spec_lookup(entries@, key),
    {
    let n = entries.len();
    let mut i: usize = 0;
    proof {
        assert(entries@.skip(0) =~= entries@);
    }
    while i < n
        invariant
            i <= n,
            n == entries@.len(),
            forall|j: int| 0 <= j < i ==> entries@[j].key != key,
            spec_lookup(entries@, key) == spec_lookup(entries@.skip(i as int), key),
        decreases n - i,
    {
        proof {
            assert(entries@.skip(i as int)[0] == entries@[i as int]);
            assert(entries@.skip(i as int).drop_first() =~= entries@.skip(i + 1));
        }
        if entries[i].key == key {
            return Some(entries[i]);
        }
        i = i + 1;
    }
    proof {
        assert(entries@.skip(n as int) =~= Seq::<Row>::empty());
        if spec_has_key(entries@, key) {
            let w = choose|j: int| 0 <= j < entries@.len() && entries@[j].key == key;
            assert(entries@[w].key != key);
        }
    }
    None
}

/// Probes one batch against the build side.
pub fn probe_block(entries: &Vec<Row>, block: &DataBlock) -> (r: DataBlock)
    ensures
        r.spec_rows() == spec_probe(entries@, block.spec_rows()),
{
    let n = block.rows.len();
    let mut out: Vec<Row> = Vec::new();
    let mut i: usize = 0;
    proof {
        assert(block.rows@.skip(0) =~= block.rows@);
        assert(spec_probe(entries@, block.rows@) =~= Seq::<Row>::empty() + spec_probe(
            entries@,
            block.rows@,
        ));
    }
    while i < n
        invariant
            i <= n,
            n == block.rows@.len(),
            spec_probe(entries@, block.rows@) == out@ + spec_probe(
                entries@,
                block.rows@.skip(i as int),
            ),
        decreases n - i,
    {
        proof {
            assert(block.rows@.skip(i as int)[0] == block.rows@[i as int]);
            assert(block.rows@.skip(i as int).drop_first() =~= block.rows@.skip(i + 1));
        }
        let row = block.rows[i];
        match lookup(entries, row.key) {
            Some(e) => {
                out.push(Row { key: row.key, value: e.value });
                proof {
                    assert(spec_probe(entries@, block.rows@) =~= out@ + spec_probe(
                        entries@,
                        block.rows@.skip(i + 1),
                    ));
                }
            }
            None => {
                proof {
                    assert(spec_probe(entries@, block.rows@) =~= out@ + spec_probe(
                        entries@,
                        block.rows@.skip(i + 1),
                    ));
                }
            }
        }
        i = i + 1;
    }
    proof {
        assert(block.rows@.skip(n as int) =~= Seq::<Row>::empty());
        assert(spec_probe(entries@, block.rows@) =~= out@);
    }
    DataBlock::new(out)
}

} // verus!
