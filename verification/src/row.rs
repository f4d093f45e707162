//! The unit of data that flows through the engine.
//!
//! A `DataBlock` is one columnar batch, modelled as a vector of rows; a `Row`
//! is a key/value pair, the shape that the join and exchange operators read.

use vstd::prelude::*;

verus! {

/// One row of a batch: a key (used by joins and hash exchanges) and a value.
#[derive(Clone, Copy, PartialEq, Eq, Structural, Debug)]
pub struct Row {
    pub key: u64,
    pub value: u64,
}

/// One columnar batch: the unit a port hands from producer to consumer.
#[derive(Debug)]
pub struct DataBlock {
    pub rows: Vec<Row>,
}

impl Clone for DataBlock {
    /// A clone holds the same rows.
    fn clone(&self) -> (r: DataBlock)
        ensures
            r.spec_rows() == self.spec_rows(),
    {
        let n = self.rows.len();
        let mut rows: Vec<Row> = Vec::new();
        let mut i: usize = 0;
        while i < n
            invariant
                i <= n,
                n == self.rows@.len(),
                rows@ == self.rows@.take(i as int),
            decreases n - i,
        {
            rows.push(self.rows[i]);
            proof {
                assert(rows@ =~= self.rows@.take(i + 1));
            }
            i = i + 1;
        }
        proof {
            assert(rows@ =~= self.rows@);
        }
        DataBlock { rows }
    }
}

impl DataBlock {
    /// The rows of the block, as a sequence.
    pub open spec fn spec_rows(self) -> Seq<Row> {
        self.rows@
    }

    /// Makes a block out of its rows.
    pub fn new(rows: Vec<Row>) -> (r: DataBlock)
        ensures
            r.spec_rows() == rows@,
    {
        DataBlock { rows }
    }

    /// An empty block.
    pub fn empty() -> (r: DataBlock)
        ensures
            r.spec_rows() == Seq::<Row>::empty(),
    {
        DataBlock { rows: Vec::new() }
    }

    /// The number of rows in the block.
    pub fn num_rows(&self) -> (r: usize)
        ensures
            r == self.spec_rows().len(),
    {
        self.rows.len()
    }
}

/// The rows of a sequence of blocks, flattened in order.
pub open spec fn rows_of_blocks(blocks: Seq<DataBlock>) -> Seq<Row>
    decreases blocks.len(),
{
    if blocks.len() == 0 {
        Seq::<Row>::empty()
    } else {
        blocks[0].spec_rows() + rows_of_blocks(blocks.drop_first())
    }
}

/// Appending one block appends its rows.
pub proof fn lemma_rows_of_blocks_push(blocks: Seq<DataBlock>, b: DataBlock)
    ensures
        rows_of_blocks(blocks.push(b)) == rows_of_blocks(blocks) + b.spec_rows(),
    decreases blocks.len(),
{
    if blocks.len() == 0 {
        assert(blocks.push(b).drop_first() =~= Seq::<DataBlock>::empty());
        assert(blocks.push(b)[0] == b);
        assert(rows_of_blocks(Seq::<DataBlock>::empty()) =~= Seq::<Row>::empty());
        assert(rows_of_blocks(blocks.push(b)) =~= rows_of_blocks(blocks) + b.spec_rows());
    } else {
        assert(blocks.push(b).drop_first() =~= blocks.drop_first().push(b));
        lemma_rows_of_blocks_push(blocks.drop_first(), b);
        assert(rows_of_blocks(blocks.push(b)) =~= rows_of_blocks(blocks) + b.spec_rows());
    }
}

/// Splitting off the first block splits off its rows.
pub proof fn lemma_rows_of_blocks_first(blocks: Seq<DataBlock>)
    requires
        blocks.len() > 0,
    ensures
        rows_of_blocks(blocks) == blocks[0].spec_rows() + rows_of_blocks(blocks.drop_first()),
{
}

} // verus!
