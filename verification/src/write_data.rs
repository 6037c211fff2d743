//! The data that the shuffle write benchmarks write.
use vstd::prelude::*;
use crate::columns::Column;
use crate::columns::ColumnModel;
use crate::columns::ColumnType;
use crate::columns::Field;
use crate::columns::FieldModel;
use crate::columns::column_models;
use crate::columns::field_models;
use crate::columns::fits_schema;
use crate::columns::texts;
use crate::text::decimal;
use crate::text::law_numerals_differ;
use crate::text::push_decimal;

verus! {

/// How many rows the benchmarks give a batch.
pub const ROWS_PER_BATCH: usize = 8192;

/// How many columns the stream of the block transport benchmark has.
pub const BLOCK_STREAM_COLS: usize = 16;

/// Column `i` of a wide schema: integers, floating-point numbers and texts take turns.
pub open spec fn wide_field(i: int) -> FieldModel {
    FieldModel {
        name: "column_name_"@ + decimal(i as nat),
        data_type: if i % 3 == 0 {
            ColumnType::Int64
        } else if i % 3 == 1 {
            ColumnType::Float64
        } else {
            ColumnType::Utf8
        },
        nullable: true,
    }
}

/// A schema of `num_cols` columns.
pub open spec fn wide_model(num_cols: nat) -> Seq<FieldModel> {
    Seq::new(num_cols, |i: int| wide_field(i))
}

/// The integer in row `r` of column `i`, with the bits that an `i64` has.
pub open spec fn int_cell(r: int, i: int, seed: int) -> i64 {
    (r * 7 + i + seed) as i64
}

/// Twice the number in row `r` of column `i`: the number is half the row, and the column on top.
pub open spec fn float_halves(r: int, i: int) -> nat {
    (r + 2 * i) as nat
}

/// The text in row `r` of column `i`.
pub open spec fn text_cell(r: int, i: int, seed: int) -> Seq<char> {
    "v-"@ + decimal(seed as nat) + "-"@ + decimal(i as nat) + "-"@ + decimal((r % 1013) as nat)
}

/// Column `i`, of the given type, of the batch of `rows` rows that `seed` gives.
pub open spec fn column(data_type: ColumnType, i: int, rows: nat, seed: int) -> ColumnModel {
    match data_type {
        ColumnType::Int64 => ColumnModel::Int64(Seq::new(rows, |r: int| int_cell(r, i, seed))),
        ColumnType::Float64 => ColumnModel::Float64Halves(
            Seq::new(rows, |r: int| float_halves(r, i)),
        ),
        ColumnType::Utf8 => ColumnModel::Utf8(Seq::new(rows, |r: int| text_cell(r, i, seed))),
    }
}

/// The batch of a schema with `rows` rows that `seed` gives.
pub open spec fn batch_model(fields: Seq<FieldModel>, rows: nat, seed: int) -> Seq<ColumnModel> {
    Seq::new(fields.len(), |i: int| column(fields[i].data_type, i, rows, seed))
}

/// A schema of `num_cols` columns.
pub fn wide_schema(num_cols: usize) -> (r: Vec<Field>)
    ensures
        field_models(r@) == wide_model(num_cols as nat),
{
    let mut fields: Vec<Field> = Vec::new();
    let mut i: usize = 0;
    while i < num_cols
        invariant
            i <= num_cols,
            fields@.len() == i,
            forall|k: int| 0 <= k < i ==> (#[trigger] fields@[k])@ == wide_field(k),
        decreases num_cols - i,
    {
        let mut name = "column_name_".to_owned();
        push_decimal(&mut name, i as u64);
        let data_type = match i % 3 {
            0 => ColumnType::Int64,
            1 => ColumnType::Float64,
            _ => ColumnType::Utf8,
        };
        fields.push(Field { name, data_type, nullable: true });
        i += 1;
    }
    assert(field_models(fields@) =~= wide_model(num_cols as nat));
    fields
}

fn int_column(i: usize, rows: usize, seed: usize) -> (r: Column)
    requires
        rows > 0 ==> (rows - 1) * 7 + i + seed <= usize::MAX,
    ensures
        r@ == column(ColumnType::Int64, i as int, rows as nat, seed as int),
{
    let mut cells: Vec<i64> = Vec::new();
    let mut r: usize = 0;
    while r < rows
        invariant
            r <= rows,
            rows > 0 ==> (rows - 1) * 7 + i + seed <= usize::MAX,
            cells@.len() == r,
            forall|k: int|
                0 <= k < r ==> #[trigger] cells@[k] == int_cell(k, i as int, seed as int),
        decreases rows - r,
    {
        let number: usize = r * 7 + i + seed;
        cells.push(#[verifier::truncate] (number as i64));
        r += 1;
    }
    assert(cells@ =~= Seq::new(rows as nat, |k: int| int_cell(k, i as int, seed as int)));
    Column::Int64(cells)
}

fn float_column(i: usize, rows: usize) -> (r: Column)
    ensures
        forall|seed: int|
            r@ == #[trigger] column(ColumnType::Float64, i as int, rows as nat, seed),
{
    let mut cells: Vec<u128> = Vec::new();
    let mut r: usize = 0;
    while r < rows
        invariant
            r <= rows,
            cells@.len() == r,
            forall|k: int| 0 <= k < r ==> #[trigger] cells@[k] == float_halves(k, i as int),
        decreases rows - r,
    {
        cells.push(r as u128 + 2 * i as u128);
        r += 1;
    }
    assert(cells@.map_values(|cell: u128| cell as nat) =~= Seq::new(
        rows as nat,
        |k: int| float_halves(k, i as int),
    ));
    Column::Float64Halves(cells)
}

fn text_column(i: usize, rows: usize, seed: usize) -> (r: Column)
    ensures
        r@ == column(ColumnType::Utf8, i as int, rows as nat, seed as int),
{
    let mut cells: Vec<String> = Vec::new();
    let mut r: usize = 0;
    while r < rows
        invariant
            r <= rows,
            cells@.len() == r,
            forall|k: int|
                0 <= k < r ==> (#[trigger] cells@[k])@ == text_cell(k, i as int, seed as int),
        decreases rows - r,
    {
        let mut cell = "v-".to_owned();
        push_decimal(&mut cell, seed as u64);
        cell.append("-");
        push_decimal(&mut cell, i as u64);
        cell.append("-");
        push_decimal(&mut cell, (r % 1013) as u64);
        cells.push(cell);
        r += 1;
    }
    assert(texts(cells@) =~= Seq::new(
        rows as nat,
        |k: int| text_cell(k, i as int, seed as int),
    ));
    Column::Utf8(cells)
}

/// The batch of a schema with `rows` rows that `seed` gives, column by column.
pub fn build_batch(fields: &Vec<Field>, rows: usize, seed: usize) -> (r: Vec<Column>)
    requires
        rows > 0 ==> forall|i: int|
            0 <= i < fields@.len() && (#[trigger] fields@[i]).data_type == ColumnType::Int64 ==> (
            rows - 1) * 7 + i + seed <= usize::MAX,
    ensures
        column_models(r@) == batch_model(field_models(fields@), rows as nat, seed as int),
{
    let ghost models = field_models(fields@);
    let mut columns: Vec<Column> = Vec::new();
    let mut i: usize = 0;
    while i < fields.len()
        invariant
            i <= fields.len(),
            rows > 0 ==> forall|k: int|
                0 <= k < fields@.len() && (#[trigger] fields@[k]).data_type == ColumnType::Int64
                    ==> (rows - 1) * 7 + k + seed <= usize::MAX,
            columns@.len() == i,
            forall|k: int|
                0 <= k < i ==> (#[trigger] columns@[k])@ == column(
                    fields@[k].data_type,
                    k,
                    rows as nat,
                    seed as int,
                ),
        decreases fields.len() - i,
    {
        let column = match fields[i].data_type {
            ColumnType::Int64 => int_column(i, rows, seed),
            ColumnType::Float64 => float_column(i, rows),
            ColumnType::Utf8 => text_column(i, rows, seed),
        };
        columns.push(column);
        i += 1;
    }
    assert(column_models(columns@) =~= batch_model(models, rows as nat, seed as int));
    columns
}

/// Every batch is one of its schema, and has the rows that it was asked for.
pub proof fn law_batches_fit_schema(fields: Seq<FieldModel>, rows: nat, seed: int)
    ensures
        fits_schema(batch_model(fields, rows, seed), fields, rows),
{
}

/// A wider schema begins with the columns of a narrower one.
pub proof fn law_wide_schemas_extend(narrow: nat, wide: nat)
    requires
        narrow <= wide,
    ensures
        wide_model(wide).take(narrow as int) == wide_model(narrow),
{
    assert(wide_model(wide).take(narrow as int) =~= wide_model(narrow));
}

/// No two columns have the same name.
pub proof fn law_column_names_differ(i: nat, j: nat)
    requires
        wide_field(i as int).name == wide_field(j as int).name,
    ensures
        i == j,
{
    let prefix = "column_name_"@;
    assert((prefix + decimal(i)).skip(prefix.len() as int) =~= decimal(i));
    assert((prefix + decimal(j)).skip(prefix.len() as int) =~= decimal(j));
    law_numerals_differ(i, j);
}

proof fn lemma_as_i64(x: u64)
    ensures
        x < 0x8000_0000_0000_0000 ==> x as i64 == x,
        x >= 0x8000_0000_0000_0000 ==> x as i64 == x - 0x1_0000_0000_0000_0000,
{
    assert(x < 0x8000_0000_0000_0000 ==> x as i64 == x) by (bit_vector);
    assert(x >= 0x8000_0000_0000_0000 ==> x as i64 == x - 0x1_0000_0000_0000_0000) by (bit_vector);
}

/// An integer column begins with the number of the column and the seed, and every cell is 7 more
/// than the one above it, in 64 bits. So no two rows have the same integer.
pub proof fn law_integers_rise_by_seven(
    fields: Seq<FieldModel>,
    rows: nat,
    seed: int,
    i: int,
    r: int,
)
    requires
        0 <= i < fields.len(),
        fields[i].data_type == ColumnType::Int64,
        seed >= 0,
        0 <= r < rows,
        (rows - 1) * 7 + i + seed <= u64::MAX,
    ensures
        batch_model(fields, rows, seed).len() == fields.len(),
        batch_model(fields, rows, seed)[i] is Int64,
        ({
            let cells = batch_model(fields, rows, seed)[i]->Int64_0;
            &&& cells.len() == rows
            &&& cells[0] == i + seed || cells[0] == i + seed - 0x1_0000_0000_0000_0000
            &&& r + 1 < rows ==> cells[r + 1] - cells[r] == 7 || cells[r + 1] - cells[r] == 7
                - 0x1_0000_0000_0000_0000
            &&& forall|other: int| 0 <= other < rows && other != r ==> #[trigger] cells[other]
                != cells[r]
        }),
{
    let cells = batch_model(fields, rows, seed)[i]->Int64_0;
    assert forall|k: int| 0 <= k < rows implies (#[trigger] cells[k] == k * 7 + i + seed
        || cells[k] == k * 7 + i + seed - 0x1_0000_0000_0000_0000) by {
        let number = (k * 7 + i + seed) as u64;
        assert(number == k * 7 + i + seed);
        assert(cells[k] == int_cell(k, i, seed));
        lemma_as_i64(number);
    }
    assert(cells[0] == cells[0]);
    assert(cells[r] == cells[r]);
    if r + 1 < rows {
        assert(cells[r + 1] == cells[r + 1]);
    }
}

/// A floating-point column begins with the number of the column, and every cell is a half more
/// than the one above it, whatever the seed.
pub proof fn law_floats_rise_by_a_half(
    fields: Seq<FieldModel>,
    rows: nat,
    seed: int,
    i: int,
    r: int,
)
    requires
        0 <= i < fields.len(),
        fields[i].data_type == ColumnType::Float64,
        0 <= r < rows,
    ensures
        batch_model(fields, rows, seed)[i] is Float64Halves,
        ({
            let halves = batch_model(fields, rows, seed)[i]->Float64Halves_0;
            &&& halves.len() == rows
            &&& halves[0] == 2 * i
            &&& r + 1 < rows ==> halves[r + 1] == halves[r] + 1
        }),
{
}

/// A text column names the seed, the column and the row; the rows are counted up to 1012 and begin
/// again.
pub proof fn law_texts_name_their_cells(
    fields: Seq<FieldModel>,
    rows: nat,
    seed: nat,
    i: int,
    round: int,
    count: nat,
)
    requires
        0 <= i < fields.len(),
        fields[i].data_type == ColumnType::Utf8,
        count < 1013,
        0 <= 1013 * round + count < rows,
    ensures
        batch_model(fields, rows, seed as int)[i] is Utf8,
        batch_model(fields, rows, seed as int)[i]->Utf8_0.len() == rows,
        batch_model(fields, rows, seed as int)[i]->Utf8_0[1013 * round + count] == "v-"@ + decimal(
            seed,
        ) + "-"@ + decimal(i as nat) + "-"@ + decimal(count),
{
}

/// A wide schema has as many columns as were asked for: integers, floating-point numbers and texts
/// in turn, each named by its number.
pub proof fn law_wide_columns_take_turns(num_cols: nat, i: nat)
    requires
        i < num_cols,
    ensures
        wide_model(num_cols).len() == num_cols,
        wide_model(num_cols)[0].data_type == ColumnType::Int64,
        i + 1 < num_cols ==> wide_model(num_cols)[i as int + 1].data_type == match wide_model(
            num_cols,
        )[i as int].data_type {
            ColumnType::Int64 => ColumnType::Float64,
            ColumnType::Float64 => ColumnType::Utf8,
            ColumnType::Utf8 => ColumnType::Int64,
        },
        wide_model(num_cols)[i as int].name == "column_name_"@ + decimal(i),
        wide_model(num_cols)[i as int].nullable,
{
}

/// The benchmarks write batches of 8192 rows, and the block transport benchmark 16 columns.
pub proof fn law_write_benchmark_sizes()
    ensures
        ROWS_PER_BATCH == 8192,
        BLOCK_STREAM_COLS == 16,
{
}

} // verus!
