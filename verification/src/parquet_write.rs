//! Writing chunks as parquet row groups: the checks and the schema mapping.
//!
//! A row-group iterator hands the writer one validated chunk at a time: the
//! number of encodings must equal the number of schema fields when the
//! iterator is created, and the number of arrays of every chunk must equal
//! it again when the chunk is taken. Both checks fail with an error at the
//! boundary, never inside the writer. The page encoding and compression
//! themselves belong to the parquet crate.

use vstd::prelude::*;
use crate::error::DataError;
use crate::marray::{Array, Field, PrimitiveType};
use crate::parquet_ext::physical_type_of;

verus! {

/// A schema: the named, typed columns of the data to write.
pub struct Schema {
    pub fields: Vec<Field>,
}

/// The parquet format version to write.
#[derive(Debug, Clone, Copy, PartialEq, Eq, Structural)]
pub enum Version {
    V1,
    V2,
}

/// Parquet-specific write options.
#[derive(Clone, Copy)]
pub struct WriteOptions {
    /// Whether to write statistics.
    pub write_statistics: bool,
    /// The format version.
    pub version: Version,
    /// The compression to apply.
    pub compression: parquet2::compression::CompressionOptions,
    /// A soft limit on the size of one data page, if any.
    pub data_pagesize_limit: Option<usize>,
}

/// Maps a schema of the library to a parquet schema descriptor named
/// `root`, one primitive parquet field per column.
pub(crate) fn to_parquet_schema(schema: &Schema) -> (r: parquet2::metadata::SchemaDescriptor)
{
    let n = schema.fields.len();
    let mut fields: Vec<parquet2::schema::types::ParquetType> = Vec::new();
    let mut i: usize = 0;
    while i < n
        invariant
            i <= n,
            n == schema.fields@.len(),
        decreases n - i,
    {
        let f = &schema.fields[i];
        let pt = physical_type_of(f.data_type);
        fields.push(parquet2::schema::types::ParquetType::from_physical(f.name.clone(), pt));
        i = i + 1;
    }
    parquet2::metadata::SchemaDescriptor::new(String::from_str("root"), fields)
}

/// One chunk of columnar data: one array per schema field.
pub struct Chunk {
    pub arrays: Vec<Array>,
}

/// An iterator adapter that hands chunks to the parquet writer one row
/// group at a time, checking the arities at the boundary.
pub struct RowGroupIterator {
    /// The chunks still to be written, in order.
    pub chunks: Vec<Chunk>,
    /// The write options every row group shares.
    pub options: WriteOptions,
    /// The parquet schema of the output file.
    pub parquet_schema: parquet2::metadata::SchemaDescriptor,
    /// The encodings, one list per schema field.
    pub encodings: Vec<Vec<parquet2::encoding::Encoding>>,
}

impl RowGroupIterator {
    /// Creates a row-group iterator over chunks. Fails exactly when the
    /// number of encodings differs from the number of schema fields.
    pub fn try_new(
        chunks: Vec<Chunk>,
        schema: &Schema,
        options: WriteOptions,
        encodings: Vec<Vec<parquet2::encoding::Encoding>>,
    ) -> (r: Result<RowGroupIterator, DataError>)
        ensures
            r is Ok <==> encodings@.len() == schema.fields@.len(),
            r matches Ok(it) ==> {
                &&& it.chunks == chunks
                &&& it.encodings == encodings
                &&& it.options == options
            },
            r matches Err(e) ==> e is InvalidArgument,
    {
        if encodings.len() != schema.fields.len() {
            return Err(DataError::InvalidArgument {
                message: String::from_str(
                    "the number of encodings must equal the number of fields",
                ),
            });
        }
        let parquet_schema = to_parquet_schema(schema);
        Ok(RowGroupIterator { chunks, options, parquet_schema, encodings })
    }

    /// The parquet schema of the output file.
    pub fn parquet_schema(&self) -> (r: &parquet2::metadata::SchemaDescriptor)
        ensures
            *r == self.parquet_schema,
    {
        &self.parquet_schema
    }

    /// Takes the next chunk, validated: the number of arrays must equal the
    /// number of encodings (one column each). A mismatch surfaces as an
    /// error for this chunk, and the iterator moves on.
    pub fn next_group(&mut self) -> (r: Option<Result<Chunk, DataError>>)
        ensures
            final(self).options == old(self).options,
            final(self).parquet_schema == old(self).parquet_schema,
            final(self).encodings == old(self).encodings,
            old(self).chunks@.len() == 0 ==> r is None && final(self).chunks == old(self).chunks,
            old(self).chunks@.len() > 0 ==> {
                &&& final(self).chunks@ == old(self).chunks@.drop_first()
                &&& (if old(self).chunks@[0].arrays@.len() == old(self).encodings@.len() {
                    r matches Some(Ok(c)) && c == old(self).chunks@[0]
                } else {
                    r matches Some(Err(e)) && e is InvalidArgument
                })
            },
    {
        if self.chunks.len() == 0 {
            return None;
        }
        let chunk = self.chunks.remove(0);
        if chunk.arrays.len() != self.encodings.len() {
            return Some(
                Err(DataError::InvalidArgument {
                    message: String::from_str(
                        "the number of arrays in the chunk must equal the number of fields in the schema",
                    ),
                }),
            );
        }
        Some(Ok(chunk))
    }
}

} // verus!
