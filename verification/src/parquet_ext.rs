//! The trusted boundary to the parquet I/O crate.
//!
//! The library carries parquet pages, encodings, compression choices and
//! schema descriptors as opaque values of `parquet2`'s own types; what the
//! logic reads of them goes through the wrappers here, each relying on one
//! documented item of that crate.

use vstd::prelude::*;

verus! {

#[verifier::external_type_specification]
#[verifier::external_body]
pub struct ExDataPage(parquet2::page::DataPage);

#[verifier::external_type_specification]
#[verifier::external_body]
pub struct ExDictPage(parquet2::page::DictPage);

#[verifier::external_type_specification]
#[verifier::external_body]
pub struct ExEncoding(parquet2::encoding::Encoding);

#[verifier::external_type_specification]
#[verifier::external_body]
pub struct ExCompressionOptions(parquet2::compression::CompressionOptions);

#[verifier::external_type_specification]
#[verifier::external_body]
pub struct ExSchemaDescriptor(parquet2::metadata::SchemaDescriptor);

#[verifier::external_type_specification]
#[verifier::external_body]
pub struct ExParquetType(parquet2::schema::types::ParquetType);

#[verifier::external_type_specification]
#[verifier::external_body]
pub struct ExPhysicalType(parquet2::schema::types::PhysicalType);

/// How many values a dictionary page holds.
pub uninterp spec fn spec_dict_num_values(page: parquet2::page::DictPage) -> usize;

/// Relies on `parquet2::page::DictPage`: `num_values` is the page's own
/// count of the values it holds, a plain public field of the page.
#[verifier::external_body]
pub(crate) fn dict_page_num_values(page: &parquet2::page::DictPage) -> (r: usize)
    ensures
        r == spec_dict_num_values(*page),
{
    page.num_values
}

/// Relies on `parquet2::schema::types::ParquetType::from_physical`: builds
/// the primitive parquet type of the given name and physical type.
pub assume_specification[ parquet2::schema::types::ParquetType::from_physical ](
    name: String,
    physical_type: parquet2::schema::types::PhysicalType,
) -> parquet2::schema::types::ParquetType
;

/// Relies on `parquet2::metadata::SchemaDescriptor::new`: builds the
/// descriptor of a schema out of its name and its top-level fields.
pub assume_specification[ parquet2::metadata::SchemaDescriptor::new ](
    name: String,
    fields: Vec<parquet2::schema::types::ParquetType>,
) -> parquet2::metadata::SchemaDescriptor
;

/// Relies on `parquet2::schema::types::PhysicalType`: names the parquet
/// physical type that stores each primitive type of the library. A null
/// column is carried as a 32-bit integer column, as the writer does.
#[verifier::external_body]
pub(crate) fn physical_type_of(t: crate::marray::PrimitiveType) -> parquet2::schema::types::PhysicalType {
    match t {
        crate::marray::PrimitiveType::Int64 => parquet2::schema::types::PhysicalType::Int64,
        crate::marray::PrimitiveType::Boolean => parquet2::schema::types::PhysicalType::Boolean,
        crate::marray::PrimitiveType::Null => parquet2::schema::types::PhysicalType::Int32,
    }
}

} // verus!
