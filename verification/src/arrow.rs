//! Arrow schemas, record batches and streams.
use vstd::prelude::*;
use vstd::utf8::encode_utf8;
use datafusion::arrow::array::Int64Array;
use datafusion::arrow::array::StringArray;
use datafusion::arrow::datatypes::DataType;
use datafusion::arrow::datatypes::Schema;
use datafusion::arrow::error::ArrowError;
use datafusion::arrow::ipc::CompressionType;
use datafusion::arrow::ipc::writer::IpcWriteOptions;
use datafusion::arrow::ipc::writer::StreamWriter;
use datafusion::arrow::record_batch::RecordBatch;
use crate::columns::ColumnType;
use crate::columns::Field;
use crate::columns::FieldModel;
use crate::columns::field_models;
use crate::columns::texts;
use crate::totals::sum;

verus! {

/// `datafusion::arrow::datatypes::Schema`, which Verus does not look into.
#[verifier::external_type_specification]
#[verifier::external_body]
pub struct ExSchema(datafusion::arrow::datatypes::Schema);

/// A `datafusion::arrow::record_batch::RecordBatch`, which Verus does not look into. It stands in
/// a struct because an index into it is a `dyn Array`, a type that Verus does not know.
#[verifier::external_body]
#[derive(Debug)]
pub struct Batch {
    pub inner: RecordBatch,
}

/// `datafusion::arrow::error::ArrowError`, which Verus does not look into.
#[verifier::external_type_specification]
#[verifier::external_body]
pub struct ExArrowError(datafusion::arrow::error::ArrowError);

/// The fields of a schema.
pub uninterp spec fn schema_fields(schema: Schema) -> Seq<FieldModel>;

/// Whether a schema holds nothing but its fields: neither it nor a field has metadata, and every
/// field has one of the types of `ColumnType`.
pub uninterp spec fn schema_is_plain(schema: Schema) -> bool;

/// The fields of a record batch's schema.
pub uninterp spec fn batch_fields(batch: Batch) -> Seq<FieldModel>;

/// The rows of a record batch of an `Int64` column, another one and a `Utf8` column, none of which
/// holds a null.
pub uninterp spec fn batch_rows(batch: Batch) -> Seq<(i64, i64, Seq<char>)>;

/// How the buffers of a stream are compressed.
#[derive(Clone, Copy, Debug, PartialEq, Eq, Structural)]
pub enum Compression {
    Lz4Frame,
    Zstd,
}

/// Calls `datafusion::arrow::datatypes::Schema::new` on what
/// `datafusion::arrow::datatypes::Field::new` makes of each field. The schema has those fields in
/// their order, and no metadata.
#[verifier::external_body]
fn new_schema(fields: &Vec<Field>) -> (r: Schema)
    ensures
        schema_fields(r) == field_models(fields@),
        schema_is_plain(r),
{
    let to_arrow = |f: &Field| {
        let data_type = match f.data_type {
            ColumnType::Int64 => DataType::Int64,
            ColumnType::Float64 => DataType::Float64,
            ColumnType::Utf8 => DataType::Utf8,
        };
        datafusion::arrow::datatypes::Field::new(f.name.as_str(), data_type, f.nullable)
    };
    Schema::new(fields.iter().map(to_arrow).collect::<Vec<_>>())
}

/// The Arrow schema with these fields.
pub fn arrow_schema(fields: &Vec<Field>) -> (r: Schema)
    ensures
        schema_fields(r) == field_models(fields@),
        schema_is_plain(r),
{
    new_schema(fields)
}

/// The stream of a schema without record batches, as
/// `datafusion::arrow::ipc::writer::StreamWriter` writes it.
pub uninterp spec fn schema_stream(
    fields: Seq<FieldModel>,
    compression: Option<Compression>,
) -> Seq<u8>;

/// For each field, a number of bytes that its part of a schema message does not exceed: its name
/// in UTF-8, and what describes the field.
pub open spec fn message_bounds(fields: Seq<FieldModel>) -> Seq<nat> {
    fields.map_values(|field: FieldModel| encode_utf8(field.name).len() + 96)
}

/// Whether the schema message is sure to stay within the two gigabytes that the format allows, and
/// the buffer that it is written to, which doubles as it grows, within what one allocation can
/// hold.
pub open spec fn fits_message(fields: Seq<FieldModel>) -> bool {
    &&& sum(message_bounds(fields)) <= 2_147_000_000
    &&& 2 * sum(message_bounds(fields)) + 1_000_000 <= isize::MAX
}

/// Calls `datafusion::arrow::ipc::writer::StreamWriter::try_new_with_options`, which writes the
/// schema, and `StreamWriter::finish`, which writes the end of the stream, on a buffer in memory.
/// Claimed is that they succeed, and that the bytes are a function of the fields and the
/// compression: there is no metadata, and no field has a type that the format cannot hold.
#[verifier::external_body]
fn write_schema_stream(schema: &Schema, compression: Option<Compression>) -> (r: Result<
    Vec<u8>,
    ArrowError,
>)
    requires
        schema_is_plain(*schema),
        fits_message(schema_fields(*schema)),
    ensures
        r is Ok,
        r->Ok_0@ == schema_stream(schema_fields(*schema), compression),
{
    let codec = compression.map(|c| match c {
        Compression::Lz4Frame => CompressionType::LZ4_FRAME,
        Compression::Zstd => CompressionType::ZSTD,
    });
    let options = IpcWriteOptions::default().try_with_compression(codec)?;
    let mut buf: Vec<u8> = Vec::new();
    StreamWriter::try_new_with_options(&mut buf, schema, options)?.finish()?;
    Ok(buf)
}

/// How many bytes the stream of a schema takes that has no record batches.
pub fn schema_message_bytes(fields: &Vec<Field>, compression: Option<Compression>) -> (r: usize)
    requires
        fits_message(field_models(fields@)),
    ensures
        r == schema_stream(field_models(fields@), compression).len(),
{
    let schema = new_schema(fields);
    write_schema_stream(&schema, compression).unwrap().len()
}

/// Three columns, row by row.
pub open spec fn zipped(first: Seq<i64>, second: Seq<i64>, third: Seq<Seq<char>>) -> Seq<
    (i64, i64, Seq<char>),
> {
    Seq::new(first.len(), |i: int| (first[i], second[i], third[i]))
}

/// Whether the fields are those of two `Int64` columns and a `Utf8` column.
pub open spec fn is_int_int_text(fields: Seq<FieldModel>) -> bool {
    &&& fields.len() == 3
    &&& fields[0].data_type == ColumnType::Int64
    &&& fields[1].data_type == ColumnType::Int64
    &&& fields[2].data_type == ColumnType::Utf8
}

/// Calls `datafusion::arrow::record_batch::RecordBatch::try_new` on the arrays that
/// `Int64Array::from` and `StringArray::from` make of the columns. It succeeds just where there
/// are as many columns as fields, each has the type of its field, and all have the same length;
/// the batch then has the fields of the schema and the cells of the columns.
#[verifier::external_body]
pub(crate) fn new_record_batch(
    schema: &Schema,
    first: Vec<i64>,
    second: Vec<i64>,
    third: Vec<String>,
) -> (r: Result<Batch, ArrowError>)
    requires
        schema_is_plain(*schema),
        third@.len() <= 100_000,
        forall|i: int| 0 <= i < third@.len() ==> (#[trigger] third@[i])@.len() <= 1_000,
    ensures
        r is Ok == (is_int_int_text(schema_fields(*schema)) && first@.len() == second@.len()
            && first@.len() == third@.len()),
        r is Ok ==> batch_fields(r->Ok_0) == schema_fields(*schema),
        r is Ok ==> batch_rows(r->Ok_0) == zipped(first@, second@, texts(third@)),
{
    let inner = RecordBatch::try_new(
        std::sync::Arc::new(schema.clone()),
        vec![
            std::sync::Arc::new(Int64Array::from(first)),
            std::sync::Arc::new(Int64Array::from(second)),
            std::sync::Arc::new(StringArray::from(third)),
        ],
    )?;
    Ok(Batch { inner })
}

/// Columns side by side: row `i` has cell `i` of each.
pub proof fn law_rows_go_across_the_columns(
    first: Seq<i64>,
    second: Seq<i64>,
    third: Seq<Seq<char>>,
    i: int,
)
    requires
        first.len() == second.len() == third.len(),
        0 <= i < first.len(),
    ensures
        zipped(first, second, third).len() == first.len(),
        zipped(first, second, third)[i].0 == first[i],
        zipped(first, second, third)[i].1 == second[i],
        zipped(first, second, third)[i].2 == third[i],
{
}

} // verus!
