use pipeline_core::catalog::{check_create_catalog, check_drop_catalog, plan_external_catalogs, route_catalog, CatalogSource};
use pipeline_core::dict::{equal, DictionaryArray};
use pipeline_core::error::DataError;
use pipeline_core::exchange::{broadcast_block, route, scatter, ExchangeInjector, ExchangeStrategy};
use pipeline_core::build_res::{PipelineBuildResult, PipelineExecutor};
use pipeline_core::plan::i64_to_string;
use pipeline_core::ipc::{append_position, BlockLocation};
use pipeline_core::marray::{
    check, DataType, Field, MutableArray, MutableBitmap, MutableStructArray, PrimitiveType,
};
use pipeline_core::meta::{GetKVAction, MGetKVAction, PrefixListReq};
use pipeline_core::parquet_read::{InitNested, NestedIter, NullDecoder};
use pipeline_core::marray::check_bitmap_slice;
use parquet2::compression::CompressionOptions;
use parquet2::encoding::Encoding;
use pipeline_core::parquet_write::{RowGroupIterator, Schema, Version, WriteOptions, Chunk};
use pipeline_core::plan::{DataTypeImpl, DataValue, PhysicalScalar, SortDesc};
use pipeline_core::port::{Port, PortState};
use pipeline_core::profile::Profile;
use pipeline_core::row::{DataBlock, Row};
use pipeline_core::sink::{poll_close, poll_complete, start_send, SinkState, TaskPoll};

fn row(key: u64, value: u64) -> Row {
    Row { key, value }
}

#[test]
fn port_backpressure_rejects_second_push() {
    let mut port = Port::create(1);
    assert!(matches!(port.state, PortState::Empty));
    port.push(DataBlock::new(vec![row(1, 1)])).unwrap();
    assert!(matches!(port.state, PortState::HasData));
    // A second push while the first batch is unconsumed is rejected and the
    // producer keeps its batch.
    let rejected = port.push(DataBlock::new(vec![row(2, 2)])).unwrap_err();
    assert_eq!(rejected.rows, vec![row(2, 2)]);
    let pulled = port.pull().unwrap();
    assert_eq!(pulled.rows, vec![row(1, 1)]);
    port.push(DataBlock::new(vec![row(2, 2)])).unwrap();
    port.finish();
    assert!(matches!(port.state, PortState::Finished));
    assert!(port.push(DataBlock::new(vec![])).is_err());
}

#[test]
fn port_need_data_signal() {
    let mut port = Port::create(1);
    port.set_need_data();
    assert!(matches!(port.state, PortState::NeedData));
    port.push(DataBlock::new(vec![row(1, 1)])).unwrap();
    assert!(matches!(port.state, PortState::HasData));
}

#[test]
fn exchange_routing_is_deterministic() {
    for key in [0u64, 1, 7, 42, u64::MAX] {
        let a = route(key, 4);
        let b = route(key, 4);
        assert_eq!(a, b);
        assert!(a < 4);
    }
}

#[test]
fn exchange_scatter_routes_by_key_hash() {
    let rows: Vec<Row> = (0..32).map(|k| row(k, k * 10)).collect();
    let block = DataBlock::new(rows.clone());
    let parts = scatter(&block, 4);
    assert_eq!(parts.len(), 4);
    let mut seen = 0;
    for (i, part) in parts.iter().enumerate() {
        for r in &part.rows {
            assert_eq!(route(r.key, 4) as usize, i);
            seen += 1;
        }
    }
    assert_eq!(seen, rows.len());
    // Re-running the same input produces the same routing.
    let again = scatter(&block, 4);
    for i in 0..4 {
        assert_eq!(parts[i].rows, again[i].rows);
    }
}

#[test]
fn exchange_broadcast_copies_to_every_destination() {
    let block = DataBlock::new(vec![row(1, 1), row(2, 2)]);
    let parts = broadcast_block(&block, 3);
    assert_eq!(parts.len(), 3);
    for part in parts {
        assert_eq!(part.rows, block.rows);
    }
}

fn int_array(values: Vec<i64>) -> MutableArray {
    MutableArray::Int64 { values, validity: None }
}

fn bool_array(values: Vec<bool>) -> MutableArray {
    MutableArray::Boolean { values, validity: None }
}

fn two_fields() -> DataType {
    DataType::Struct(vec![
        Field { name: "a".to_string(), data_type: PrimitiveType::Int64 },
        Field { name: "b".to_string(), data_type: PrimitiveType::Boolean },
    ])
}

#[test]
fn struct_array_check_accepts_matching_children() {
    let values = vec![int_array(vec![1, 2]), bool_array(vec![true, false])];
    assert!(check(&two_fields(), &values, None).is_ok());
    assert!(check(&two_fields(), &values, Some(2)).is_ok());
}

#[test]
fn struct_array_check_rejects_bad_shapes() {
    // Not a struct type.
    assert!(check(&DataType::Int64, &vec![int_array(vec![1])], None).is_err());
    // No fields at all.
    assert!(check(&DataType::Struct(Vec::new()), &Vec::new(), None).is_err());
    // Field count differs from child count.
    assert!(check(&two_fields(), &vec![int_array(vec![1, 2])], None).is_err());
    // Child type differs from field type.
    let swapped = vec![bool_array(vec![true, false]), int_array(vec![1, 2])];
    assert!(check(&two_fields(), &swapped, None).is_err());
    // Children of unequal length.
    let ragged = vec![int_array(vec![1, 2]), bool_array(vec![true])];
    assert!(check(&two_fields(), &ragged, None).is_err());
    // Validity length differs from the children's length.
    let values = vec![int_array(vec![1, 2]), bool_array(vec![true, false])];
    assert!(check(&two_fields(), &values, Some(3)).is_err());
}

#[test]
fn mutable_struct_array_push_tracks_validity() {
    let values = vec![int_array(vec![]), bool_array(vec![])];
    let mut array = MutableStructArray::try_new(two_fields(), values, None).unwrap();
    // Two valid rows leave the validity absent.
    match array.value(0) {
        MutableArray::Int64 { values, .. } => {
            values.push(7);
            values.push(8);
        }
        _ => panic!("expected an integer child"),
    }
    match array.value(1) {
        MutableArray::Boolean { values, .. } => {
            values.push(true);
            values.push(false);
        }
        _ => panic!("expected a boolean child"),
    }
    array.push(true);
    array.push(true);
    assert!(array.validity().is_none());
    // The first null row creates the bitmap: earlier rows valid, last null.
    array.push_null();
    let validity = array.validity().unwrap();
    assert_eq!(validity.bits, vec![true, true, false]);
    assert_eq!(validity.unset_bits(), 1);
    assert_eq!(array.len(), 3);
}

#[test]
fn mutable_struct_array_freeze_drops_clean_validity() {
    let values = vec![int_array(vec![1, 2])];
    let dt = DataType::Struct(vec![Field {
        name: "a".to_string(),
        data_type: PrimitiveType::Int64,
    }]);
    let mut array = MutableStructArray::try_new(dt, values, None).unwrap();
    array.push(true);
    array.push(true);
    // An all-valid bitmap: freezing drops it.
    let mut bitmap = MutableBitmap::with_capacity(2);
    bitmap.push(true);
    bitmap.push(true);
    array.validity = Some(bitmap);
    let frozen = array.freeze();
    assert!(frozen.validity.is_none());
    assert_eq!(frozen.values.len(), 1);
}

#[test]
fn mutable_struct_array_into_arc_keeps_nulls() {
    let values = vec![int_array(vec![1, 2])];
    let dt = DataType::Struct(vec![Field {
        name: "a".to_string(),
        data_type: PrimitiveType::Int64,
    }]);
    let mut array = MutableStructArray::try_new(dt, values, None).unwrap();
    let mut bitmap = MutableBitmap::with_capacity(2);
    bitmap.push(true);
    bitmap.push(false);
    array.validity = Some(bitmap);
    let frozen = array.into_arc();
    assert_eq!(frozen.validity.as_ref().unwrap(), &vec![true, false]);
}

#[test]
fn mutable_struct_array_as_box_drains() {
    let values = vec![int_array(vec![5])];
    let dt = DataType::Struct(vec![Field {
        name: "a".to_string(),
        data_type: PrimitiveType::Int64,
    }]);
    let mut array = MutableStructArray::try_new(dt, values, None).unwrap();
    let frozen = array.as_box();
    assert_eq!(frozen.values.len(), 1);
    assert!(array.values().is_empty());
    let (_dt, vals, validity) = array.into_inner();
    assert!(vals.is_empty());
    assert!(validity.is_none());
}

#[test]
fn dictionary_equal_treats_null_paths_alike() {
    // Slot 1 of the left has a null key; slot 1 of the right points at a
    // null value: the slots are equal.
    let lhs = DictionaryArray {
        data_type: PrimitiveType::Int64,
        keys: vec![Some(0), None],
        values: vec![Some(7), None],
    };
    let rhs = DictionaryArray {
        data_type: PrimitiveType::Int64,
        keys: vec![Some(0), Some(1)],
        values: vec![Some(7), None],
    };
    assert!(equal(&lhs, &rhs));
    let different = DictionaryArray {
        data_type: PrimitiveType::Int64,
        keys: vec![Some(0), Some(0)],
        values: vec![Some(7), None],
    };
    assert!(!equal(&lhs, &different));
    let other_type = DictionaryArray { data_type: PrimitiveType::Boolean, ..lhs.clone() };
    assert!(!equal(&lhs, &other_type));
}

#[test]
fn null_decoder_counts_slots() {
    let decoder = NullDecoder {};
    let mut decoded = decoder.with_capacity(16);
    assert_eq!(decoded, 0);
    let mut state = 3usize;
    decoder.push_valid(&mut state, &mut decoded).unwrap();
    decoder.push_valid(&mut state, &mut decoded).unwrap();
    decoder.push_null(&mut decoded);
    assert_eq!(decoded, 7);
}

#[test]
fn nested_iter_starts_fresh() {
    let iter = NestedIter::new(
        Vec::new(),
        vec![InitNested::Struct(true), InitNested::Primitive(false)],
        DataType::Null,
        42,
        Some(8),
    );
    assert_eq!(iter.remaining, 42);
    assert_eq!(iter.chunk_size, Some(8));
    assert!(iter.items.is_empty());
    assert_eq!(iter.init.len(), 2);
}

#[test]
fn row_group_iterator_checks_arities() {
    let schema = Schema {
        fields: vec![Field { name: "a".to_string(), data_type: PrimitiveType::Int64 }],
    };
    let options = WriteOptions {
        write_statistics: true,
        version: Version::V2,
        compression: CompressionOptions::Uncompressed,
        data_pagesize_limit: None,
    };
    // Wrong number of encodings: refused.
    let err = RowGroupIterator::try_new(Vec::new(), &schema, options, Vec::new());
    assert!(matches!(err, Err(DataError::InvalidArgument { .. })));
    // One encoding per field: accepted.
    let good_chunk = Chunk {
        arrays: vec![pipeline_core::marray::Array::Int64 { values: vec![1], validity: None }],
    };
    let bad_chunk = Chunk { arrays: Vec::new() };
    let mut it = RowGroupIterator::try_new(
        vec![good_chunk, bad_chunk],
        &schema,
        options,
        vec![vec![Encoding::Plain]],
    )
    .unwrap();
    assert_eq!(it.parquet_schema().fields().len(), 1);
    assert!(matches!(it.next_group(), Some(Ok(_))));
    // A chunk whose array count differs from the schema is an error.
    assert!(matches!(it.next_group(), Some(Err(_))));
    assert!(it.next_group().is_none());
}

#[test]
fn append_position_is_end_of_last_block() {
    let blocks = vec![
        BlockLocation { offset: 0, meta_data_length: 8, body_length: 100 },
        BlockLocation { offset: 108, meta_data_length: 16, body_length: 50 },
    ];
    assert_eq!(append_position(&blocks).unwrap(), 174);
    assert!(append_position(&Vec::new()).is_err());
    let negative = vec![BlockLocation { offset: -1, meta_data_length: 0, body_length: 0 }];
    assert!(append_position(&negative).is_err());
}

#[test]
fn catalog_routing_prefers_default_then_externals() {
    let externals = vec!["hive1".to_string(), "hive2".to_string()];
    assert!(matches!(
        route_catalog(&"default".to_string(), &externals),
        CatalogSource::Default
    ));
    assert!(matches!(
        route_catalog(&"hive2".to_string(), &externals),
        CatalogSource::External { index: 1 }
    ));
    assert!(matches!(
        route_catalog(&"elsewhere".to_string(), &externals),
        CatalogSource::FromMeta
    ));
}

#[test]
fn catalog_guards_refuse_default_and_externals() {
    let externals = vec!["hive".to_string()];
    assert!(check_create_catalog(&"default".to_string(), &externals).is_err());
    assert!(check_create_catalog(&"hive".to_string(), &externals).is_err());
    assert!(check_create_catalog(&"fresh".to_string(), &externals).is_ok());
    assert!(check_drop_catalog(&"default".to_string(), &externals).is_err());
    assert!(check_drop_catalog(&"hive".to_string(), &externals).is_err());
    assert!(check_drop_catalog(&"fresh".to_string(), &externals).is_ok());
}

#[test]
fn sink_state_machine_lifecycle() {
    // Start-up completes, a record is accepted, its write completes, the
    // sink closes.
    let s = SinkState::Starting;
    let s = poll_complete(s, TaskPoll::Pending);
    assert_eq!(s, SinkState::Starting);
    let s = poll_complete(s, TaskPoll::Done);
    assert_eq!(s, SinkState::Ready);
    let s = start_send(s).unwrap();
    assert_eq!(s, SinkState::Writing);
    // Accepting while a write is in flight is refused.
    assert!(start_send(s).is_err());
    let s = poll_complete(s, TaskPoll::Done);
    let s = poll_close(s);
    assert_eq!(s, SinkState::Closing);
    let s = poll_complete(s, TaskPoll::Done);
    assert_eq!(s, SinkState::Closed);
    assert!(start_send(s).is_err());
    assert_eq!(poll_close(s), SinkState::Closed);
    // A failing write is terminal.
    assert_eq!(poll_complete(SinkState::Writing, TaskPoll::Error), SinkState::Failed);
}

#[test]
fn meta_actions_hold_their_requests() {
    let get = GetKVAction::new("k1".to_string());
    assert_eq!(get.key, "k1");
    let mget = MGetKVAction::new(vec!["a".to_string(), "b".to_string()]);
    assert_eq!(mget.keys.len(), 2);
    let prefix = PrefixListReq("meta/".to_string());
    assert_eq!(prefix.0, "meta/");
}

#[test]
fn profile_counters_start_at_zero_and_saturate() {
    let mut p = Profile::create(3, "scan".to_string());
    assert_eq!(p.pid, 3);
    assert_eq!(p.p_name, "scan");
    assert_eq!(p.cpu_time, 0);
    assert_eq!(p.wait_time, 0);
    p.add_cpu_time(5);
    p.add_cpu_time(u64::MAX);
    assert_eq!(p.cpu_time, u64::MAX);
    p.add_wait_time(9);
    assert_eq!(p.wait_time, 9);
}

#[test]
fn sort_desc_holds_its_parts() {
    let d = SortDesc::new(true, false, "c1".to_string());
    assert!(d.asc);
    assert!(!d.nulls_first);
    assert_eq!(d.order_by, "c1");
}

#[test]
fn bitmap_slice_bounds() {
    assert!(check_bitmap_slice(2, 0, 16).is_ok());
    assert!(check_bitmap_slice(2, 3, 13).is_ok());
    // An offset of a whole byte or more is refused.
    assert!(check_bitmap_slice(2, 8, 1).is_err());
    // A length beyond the bits that remain is refused.
    assert!(check_bitmap_slice(2, 3, 14).is_err());
    assert!(check_bitmap_slice(0, 1, 0).is_err());
}

#[test]
fn physical_scalar_renderings() {
    let scalar = PhysicalScalar::Function {
        name: "plus".to_string(),
        args: vec![
            PhysicalScalar::IndexedVariable {
                index: 4,
                data_type: DataTypeImpl::Int64,
                display_name: "a".to_string(),
            },
            PhysicalScalar::Cast {
                input: Box::new(PhysicalScalar::Constant {
                    value: DataValue::Int64(-7),
                    data_type: DataTypeImpl::Int64,
                }),
                target: DataTypeImpl::Utf8,
            },
        ],
        return_type: DataTypeImpl::Utf8,
    };
    assert_eq!(scalar.column_name(), "plus(a, -7::VARCHAR)");
    assert_eq!(scalar.pretty_display(), "plus(a, CAST(-7 AS VARCHAR))");
    assert_eq!(scalar.display_string(), "plus($4, CAST(-7 AS VARCHAR))");
    assert_eq!(scalar.data_type(), DataTypeImpl::Utf8);
    let quoted = PhysicalScalar::Constant {
        value: DataValue::Utf8("x".to_string()),
        data_type: DataTypeImpl::Utf8,
    };
    assert_eq!(quoted.column_name(), "'x'");
    assert_eq!(quoted.pretty_display(), "x");
    let field = quoted.to_data_field();
    assert_eq!(field.name, "'x'");
    assert_eq!(field.data_type, DataTypeImpl::Utf8);
}

#[test]
fn signed_decimal_edges() {
    assert_eq!(i64_to_string(0), "0");
    assert_eq!(i64_to_string(-1), "-1");
    assert_eq!(i64_to_string(i64::MAX), "9223372036854775807");
    assert_eq!(i64_to_string(i64::MIN), "-9223372036854775808");
}

#[test]
fn remote_exchange_strategies_need_a_transport() {
    let mut res = PipelineBuildResult::create();
    res.exchange_injector = ExchangeInjector {
        strategy: ExchangeStrategy::HashShuffle { destinations: 2 },
    };
    assert!(PipelineExecutor::create(res, 0).is_err());
}

#[test]
fn error_descriptions() {
    let e = pipeline_core::error::EngineError::Construction { message: "bad".to_string() };
    assert_eq!(e.describe(), "bad");
    assert_eq!(pipeline_core::error::EngineError::Deadlock.describe(), "deadlock: no runnable processor");
    let d = DataError::InvalidArgument { message: "oops".to_string() };
    assert_eq!(d.describe(), "oops");
}

#[test]
fn external_catalogs_need_a_hive_creator() {
    let names = vec!["h1".to_string(), "h2".to_string()];
    assert_eq!(plan_external_catalogs(names.clone(), true).unwrap(), names);
    assert!(plan_external_catalogs(names, false).is_err());
    assert_eq!(plan_external_catalogs(Vec::new(), false).unwrap(), Vec::<String>::new());
}
