//! Reading null columns out of parquet pages.
//!
//! A null column stores no bytes, only counts; decoding it is pure
//! arithmetic over the page metadata, verified here. The pages themselves
//! are carried opaquely; the one thing read of them is the value count of a
//! dictionary page.

use vstd::prelude::*;
use crate::error::DataError;
use crate::marray::DataType;
use crate::parquet_ext::{dict_page_num_values, spec_dict_num_values};

verus! {

/// How a level of nesting is initialized when a nested column is read.
#[derive(Debug, Clone, Copy, PartialEq, Eq, Structural)]
pub enum InitNested {
    /// A primitive level, with its nullability.
    Primitive(bool),
    /// A list level, with its nullability.
    List(bool),
    /// A struct level, with its nullability.
    Struct(bool),
}

/// The decoder of null arrays: its state and its decoded form are plain
/// counts of slots.
#[derive(Debug)]
pub struct NullDecoder {
}

impl NullDecoder {
    /// Builds the page state: the run length a valid slot contributes. With
    /// a dictionary, each valid slot stands for the dictionary's value
    /// count; without one, for a single value.
    pub fn build_state(&self, page: &parquet2::page::DataPage, dict: Option<&usize>) -> (r:
        Result<usize, DataError>)
        ensures
            r matches Ok(v) && v == (match dict {
                Some(n) => *n,
                None => 1usize,
            }),
    {
        let _ = page;
        match dict {
            Some(n) => Ok(*n),
            None => Ok(1),
        }
    }

    /// A fresh decoded state: no slots yet.
    pub fn with_capacity(&self, capacity: usize) -> (r: usize)
        ensures
            r == 0,
    {
        let _ = capacity;
        0
    }

    /// Pushes one valid slot: the decoded count grows by the page state.
    pub fn push_valid(&self, state: &mut usize, decoded: &mut usize) -> (r: Result<(), DataError>)
        requires
            *old(decoded) + *old(state) <= usize::MAX,
        ensures
            r is Ok,
            *final(state) == *old(state),
            *final(decoded) == *old(decoded) + *old(state),
    {
        *decoded = *decoded + *state;
        Ok(())
    }

    /// Pushes one null slot: the decoded count grows by one.
    pub fn push_null(&self, decoded: &mut usize)
        requires
            *old(decoded) < usize::MAX,
        ensures
            *final(decoded) == *old(decoded) + 1,
    {
        *decoded = *decoded + 1;
    }

    /// Reads the dictionary of a page: for a null column, only its value
    /// count matters.
    pub fn deserialize_dict(&self, page: &parquet2::page::DictPage) -> (r: usize)
        ensures
            r == spec_dict_num_values(*page),
    {
        dict_page_num_values(page)
    }
}

/// An iterator adapter over pages assumed to be encoded as null arrays.
pub struct NestedIter {
    /// The pages still to be decoded, in order.
    pub iter: Vec<parquet2::page::DataPage>,
    /// How each level of nesting is initialized.
    pub init: Vec<InitNested>,
    /// The logical type of the produced arrays.
    pub data_type: DataType,
    /// Decoded slot counts not yet handed out.
    pub items: Vec<usize>,
    /// How many rows remain to be produced.
    pub remaining: usize,
    /// The target number of rows per produced array, if bounded.
    pub chunk_size: Option<usize>,
    /// The decoder driving the iteration.
    pub decoder: NullDecoder,
}

impl NestedIter {
    /// A fresh iterator over the given pages, set to produce `num_rows`
    /// rows in chunks of `chunk_size`.
    pub fn new(
        iter: Vec<parquet2::page::DataPage>,
        init: Vec<InitNested>,
        data_type: DataType,
        num_rows: usize,
        chunk_size: Option<usize>,
    ) -> (r: NestedIter)
        ensures
            r.iter == iter,
            r.init == init,
            r.data_type == data_type,
            r.items@.len() == 0,
            r.remaining == num_rows,
            r.chunk_size == chunk_size,
    {
        NestedIter {
            iter,
            init,
            data_type,
            items: Vec::new(),
            remaining: num_rows,
            chunk_size,
            decoder: NullDecoder {  },
        }
    }
}

} // verus!
