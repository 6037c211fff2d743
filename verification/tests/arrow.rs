use std::sync::Arc;

use ballista_bench::aggregate::{
    aggregate_batches, aggregate_columns, aggregate_schema, rows_out, Layout,
};
use ballista_bench::arrow::{arrow_schema, schema_message_bytes, Compression};
use ballista_bench::columns::{self, ColumnType};
use ballista_bench::overhead::{self, schema_overhead, Overhead};
use ballista_bench::{read_data, write_data};
use datafusion::arrow::array::{Array, Int64Array, StringArray};
use datafusion::arrow::datatypes::{DataType, Field, Schema};
use datafusion::arrow::ipc::reader::StreamReader;
use datafusion::arrow::ipc::writer::{IpcWriteOptions, StreamWriter};
use datafusion::arrow::ipc::CompressionType;

fn wide_arrow_schema(num_cols: usize) -> Schema {
    let fields: Vec<Field> = (0..num_cols)
        .map(|i| match i % 3 {
            0 => Field::new(format!("column_name_{i}"), DataType::Int64, true),
            1 => Field::new(format!("column_name_{i}"), DataType::Float64, true),
            _ => Field::new(format!("column_name_{i}"), DataType::Utf8, true),
        })
        .collect();
    Schema::new(fields)
}

fn stream(schema: &Schema, compression: Option<CompressionType>) -> Vec<u8> {
    let mut buf: Vec<u8> = Vec::new();
    let options = IpcWriteOptions::default().try_with_compression(compression).unwrap();
    let mut w = StreamWriter::try_new_with_options(&mut buf, schema, options).unwrap();
    w.finish().unwrap();
    drop(w);
    buf
}

#[test]
fn schemas_become_arrow_schemas() {
    for num_cols in [0, 1, 3, 16] {
        let schema = arrow_schema(&write_data::wide_schema(num_cols));
        assert_eq!(schema, wide_arrow_schema(num_cols));
    }
    let read = arrow_schema(&read_data::build_schema());
    assert_eq!(read.fields().len(), 16);
    assert_eq!(read.field(8), &Field::new("f0", DataType::Float64, false));
    assert!(read.metadata().is_empty());
}

#[test]
fn schema_streams_have_the_length_that_arrow_writes() {
    for num_cols in [0, 10, 50] {
        let fields = write_data::wide_schema(num_cols);
        let schema = wide_arrow_schema(num_cols);
        assert_eq!(schema_message_bytes(&fields, None), stream(&schema, None).len());
        assert_eq!(
            schema_message_bytes(&fields, Some(Compression::Lz4Frame)),
            stream(&schema, Some(CompressionType::LZ4_FRAME)).len()
        );
        assert_eq!(
            schema_message_bytes(&fields, Some(Compression::Zstd)),
            stream(&schema, Some(CompressionType::ZSTD)).len()
        );
    }
    let bytes = stream(&wide_arrow_schema(10), None);
    let reader = StreamReader::try_new(std::io::Cursor::new(bytes), None).unwrap();
    assert_eq!(reader.schema().as_ref(), &arrow_schema(&write_data::wide_schema(10)));
}

#[test]
fn schema_messages_stay_within_their_bounds() {
    for name in ["", "c", "key", "column_name_299", "schl\u{fc}ssel", "\u{1f980}\u{1f980}"] {
        for data_type in [ColumnType::Int64, ColumnType::Float64, ColumnType::Utf8] {
            for nullable in [true, false] {
                let fields: Vec<columns::Field> = (0..1_000)
                    .map(|_| columns::Field {
                        name: name.to_string(),
                        data_type,
                        nullable,
                    })
                    .collect();
                let bound = 1_000 * (name.len() + 96);
                assert!(schema_message_bytes(&fields, None) <= bound + 1_024);
            }
        }
    }
}

#[test]
fn measure_schema_overhead() {
    let rows = overhead::measure_schema_overhead();
    let mut i = 0;
    for num_cols in [10usize, 50, 100, 300] {
        let bytes = stream(&wide_arrow_schema(num_cols), Some(CompressionType::LZ4_FRAME)).len();
        for k in [64usize, 200, 1000] {
            assert_eq!(rows[i].num_cols, num_cols);
            assert_eq!(rows[i].partitions, k);
            assert_eq!(rows[i].stream_bytes, bytes);
            assert_eq!(
                schema_overhead(rows[i].stream_bytes, k),
                Overhead { copies: k + 1, bytes: bytes * (k + 1) }
            );
            i += 1;
        }
    }
    assert_eq!(rows.len(), i);
}

#[test]
fn overhead_is_a_stream_for_each_partition_and_the_header() {
    assert_eq!(schema_overhead(1_000, 64), Overhead { copies: 65, bytes: 65_000 });
    assert_eq!(schema_overhead(1_000, 0), Overhead { copies: 1, bytes: 1_000 });
}

#[test]
fn keys_follow_their_layout() {
    let cyclic = aggregate_columns(Layout::Cyclic, 3, 9, 4);
    assert_eq!(cyclic.keys, vec![3, 0, 1, 2, 3, 0]);
    assert_eq!(cyclic.vals, vec![3, 4, 5, 6, 7, 8]);
    let hashed = aggregate_columns(Layout::Hashed, 0, 5, 40_000);
    let expected = (0..5i64).map(|i| (i * 2_654_435_761) % 40_000).collect::<Vec<_>>();
    assert_eq!(hashed.keys, expected);
    assert_eq!(hashed.keys[1], 35_761);
    assert_eq!(hashed.pads[4], "padding-value-4");
    let later = aggregate_columns(Layout::Cyclic, 96, 99, 1);
    assert_eq!(later.pads, vec!["padding-value-96", "padding-value-0", "padding-value-1"]);
    assert_eq!(Layout::Hashed.name(), "hashed");
    assert_eq!(Layout::Cyclic.name(), "cyclic");
}

#[test]
fn keys_are_numbered_as_far_as_they_fit() {
    assert!(Layout::Cyclic.can_number(4_000_000_000));
    assert!(Layout::Cyclic.can_number(i64::MAX as usize));
    assert!(!Layout::Cyclic.can_number(i64::MAX as usize + 1));
    let most = (i64::MAX / 2_654_435_761) as usize + 1;
    assert!(Layout::Hashed.can_number(most));
    assert!(!Layout::Hashed.can_number(most + 1));
    let last = aggregate_columns(Layout::Hashed, most - 1, most, 7);
    assert_eq!(last.keys, vec![((most - 1) as i64 * 2_654_435_761) % 7]);
}

#[test]
fn hashed_keys_scatter_over_the_whole_key_space() {
    let mut keys = aggregate_columns(Layout::Hashed, 1_000, 41_000, 40_000).keys;
    keys.sort();
    assert_eq!(keys, (0..40_000).collect::<Vec<i64>>());
}

#[test]
fn rows_are_cut_into_record_batches() {
    for layout in [Layout::Hashed, Layout::Cyclic] {
        let (num_rows, cardinality) = (20_000usize, 1_000i64);
        let batches = aggregate_batches(layout, num_rows, cardinality);
        let lens = batches.iter().map(|b| b.inner.num_rows()).collect::<Vec<_>>();
        assert_eq!(lens, vec![8_192, 8_192, 3_616]);
        let mut i = 0i64;
        for batch in &batches {
            assert_eq!(
                batch.inner.schema(),
                Arc::new(Schema::new(vec![
                    Field::new("k", DataType::Int64, false),
                    Field::new("v", DataType::Int64, false),
                    Field::new("pad", DataType::Utf8, false),
                ]))
            );
            let column = |c: usize| batch.inner.column(c).as_any();
            let keys = column(0).downcast_ref::<Int64Array>().unwrap();
            let vals = column(1).downcast_ref::<Int64Array>().unwrap();
            let pads = column(2).downcast_ref::<StringArray>().unwrap();
            for r in 0..batch.inner.num_rows() {
                let key = match layout {
                    Layout::Hashed => (i * 2_654_435_761) % cardinality,
                    Layout::Cyclic => i % cardinality,
                };
                assert_eq!(keys.value(r), key);
                assert_eq!(vals.value(r), i);
                assert_eq!(pads.value(r), format!("padding-value-{}", i % 97));
                i += 1;
            }
        }
        assert_eq!(i, 20_000);
    }
    assert!(aggregate_batches(Layout::Hashed, 0, 1).is_empty());
    assert_eq!(aggregate_schema().len(), 3);
}

#[test]
fn operators_that_say_nothing_put_out_no_rows() {
    assert_eq!(rows_out(Some(12)), 12);
    assert_eq!(rows_out(None), 0);
}
