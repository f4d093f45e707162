//! The exchange layer: how batches are routed between plan fragments.
//!
//! When a pipeline boundary crosses cluster nodes, the local port link is
//! replaced by an exchange sink that partitions outgoing batches and an
//! exchange source that feeds the remote pipeline. The partitioning rules
//! live here, verified: a hash shuffle routes every row by its key hash
//! modulo the destination count, deterministically; a broadcast hands every
//! destination the whole batch; the default injector keeps every boundary
//! local, which is the only strategy single-node execution needs. The
//! network transport itself is out of the engine's scope.

use vstd::prelude::*;
use crate::row::{Row, DataBlock};

verus! {

/// The hash of a routing key: a fixed bit mix, the same on every run and
/// every node, so that re-running the same input routes the same way.
pub open spec fn spec_hash(k: u64) -> u64 {
    (k ^ (k >> 33)) ^ ((k ^ (k >> 33)) << 27)
}

/// Computes the routing hash of a key.
pub fn hash_key(k: u64) -> (r: u64)
    ensures
        r == spec_hash(k),
{
    let x = k ^ (k >> 33);
    x ^ (x << 27)
}

/// The destination of a row with key `k` among `d` destinations.
pub open spec fn spec_route(k: u64, d: u64) -> u64
    recommends
        d > 0,
{
    spec_hash(k) % d
}

/// Computes the destination of a key: always `hash(k) mod d`, and the same
/// on every call.
pub fn route(k: u64, d: u64) -> (r: u64)
    requires
        d > 0,
    ensures
        r == spec_route(k, d),
        r < d,
{
    hash_key(k) % d
}

/// Routing is a function of the key and the destination count alone: two
/// rows with the same key always reach the same destination.
pub proof fn lemma_route_deterministic(a: Row, b: Row, d: u64)
    requires
        d > 0,
        a.key == b.key,
    ensures
        spec_route(a.key, d) == spec_route(b.key, d),
{
}

/// How an exchange boundary moves data to its destinations.
pub enum ExchangeStrategy {
    /// The boundary stays a local port link.
    Local,
    /// Every destination receives every batch (a replicated join build side).
    Broadcast { destinations: u64 },
    /// Rows are split by key hash across destinations (a shuffle).
    HashShuffle { destinations: u64 },
}

/// The pluggable strategy consulted at build time for each boundary.
pub struct ExchangeInjector {
    pub strategy: ExchangeStrategy,
}

/// The identity injector: every boundary stays local. This is the injector
/// to use whenever no fragment crosses a node boundary, and the only one
/// single-node execution requires.
pub struct DefaultExchangeInjector {
}

impl DefaultExchangeInjector {
    /// The identity strategy.
    pub fn create() -> (r: ExchangeInjector)
        ensures
            r.strategy is Local,
    {
        ExchangeInjector { strategy: ExchangeStrategy::Local }
    }
}

/// Splits one batch across `d` destinations by key hash. Destination `i`
/// receives exactly the rows routed to it, in their original order; no row
/// is lost, duplicated, or sent anywhere else.
pub fn scatter(block: &DataBlock, d: u64) -> (r: Vec<DataBlock>)
    requires
        d > 0,
        d <= usize::MAX,
    ensures
        r@.len() == d,
        forall|i: int|
            0 <= i < d ==> (#[trigger] r@[i]).spec_rows() == block.spec_rows().filter(
                |row: Row| spec_route(row.key, d) == i,
            ),
{
    let dd = d as usize;
    let mut buckets: Vec<Vec<Row>> = Vec::new();
    let mut i: usize = 0;
    while i < dd
        invariant
            i <= dd,
            buckets@.len() == i,
            forall|t: int| 0 <= t < i ==> (#[trigger] buckets@[t])@ == Seq::<Row>::empty(),
        decreases dd - i,
    {
        buckets.push(Vec::new());
        i = i + 1;
    }
    let n = block.rows.len();
    let mut t: usize = 0;
    proof {
        assert(block.rows@.take(0) =~= Seq::<Row>::empty());
        assert forall|x: int| 0 <= x < d implies (#[trigger] buckets@[x])@ =~= block.rows@.take(
            0,
        ).filter(|row: Row| spec_route(row.key, d) == x) by {
            reveal_with_fuel(Seq::filter, 2);
        }
    }
    while t < n
        invariant
            t <= n,
            n == block.rows@.len(),
            d > 0,
            dd == d,
            buckets@.len() == d,
            forall|x: int|
                0 <= x < d ==> (#[trigger] buckets@[x])@ == block.rows@.take(t as int).filter(
                    |row: Row| spec_route(row.key, d) == x,
                ),
        decreases n - t,
    {
        let row = block.rows[t];
        let dest = route(row.key, d) as usize;
        let ghost pre = buckets@;
        let b = &mut buckets[dest];
        b.push(row);
        proof {
            let p = block.rows@.take(t as int);
            let q = block.rows@.take(t + 1);
            assert(q =~= p.push(row));
            assert forall|x: int| 0 <= x < d implies (#[trigger] buckets@[x])@ == block.rows@.take(
                t + 1,
            ).filter(|row2: Row| spec_route(row2.key, d) == x) by {
                let f = |row2: Row| spec_route(row2.key, d) == x;
                assert(q.filter(f) =~= p.filter(f) + seq![row].filter(f)) by {
                    Seq::filter_distributes_over_add(p, seq![row], f);
                    assert(q =~= p + seq![row]);
                }
                reveal_with_fuel(Seq::filter, 2);
                if x == dest as int {
                    assert(seq![row].filter(f) =~= seq![row]);
                    assert(buckets@[x]@ =~= pre[x]@.push(row));
                    assert(buckets@[x]@ =~= q.filter(f));
                } else {
                    assert(seq![row].filter(f) =~= Seq::<Row>::empty());
                    assert(buckets@[x]@ == pre[x]@);
                    assert(buckets@[x]@ =~= q.filter(f));
                }
            }
        }
        t = t + 1;
    }
    proof {
        assert(block.rows@.take(n as int) =~= block.rows@);
    }
    let ghost orig = buckets@;
    let mut out: Vec<DataBlock> = Vec::new();
    while out.len() < dd
        invariant
            dd == d,
            orig.len() == d,
            out@.len() + buckets@.len() == d,
            buckets@ == orig.skip(out@.len() as int),
            forall|x: int|
                0 <= x < d ==> (#[trigger] orig[x])@ == block.rows@.filter(
                    |row: Row| spec_route(row.key, d) == x,
                ),
            forall|x: int|
                0 <= x < out@.len() ==> (#[trigger] out@[x]).spec_rows()
                    == block.spec_rows().filter(|row: Row| spec_route(row.key, d) == x),
        decreases dd - out@.len(),
    {
        let ghost k = out@.len() as int;
        let b = buckets.remove(0);
        proof {
            assert(orig.skip(k)[0] == orig[k]);
            assert(buckets@ =~= orig.skip(k + 1));
        }
        out.push(DataBlock::new(b));
    }
    out
}

/// Hands every one of `d` destinations the whole batch.
pub fn broadcast_block(block: &DataBlock, d: u64) -> (r: Vec<DataBlock>)
    requires
        d <= usize::MAX,
    ensures
        r@.len() == d,
        forall|i: int| 0 <= i < d ==> (#[trigger] r@[i]).spec_rows() == block.spec_rows(),
{
    let dd = d as usize;
    let mut out: Vec<DataBlock> = Vec::new();
    let mut k: usize = 0;
    while k < dd
        invariant
            k <= dd,
            out@.len() == k,
            forall|i: int| 0 <= i < k ==> (#[trigger] out@[i]).spec_rows() == block.spec_rows(),
        decreases dd - k,
    {
        out.push(block.clone());
        k = k + 1;
    }
    out
}

} // verus!
