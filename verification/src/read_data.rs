//! The data that the shuffle read benchmarks write and read.
use vstd::prelude::*;
use crate::columns::Column;
use crate::columns::ColumnModel;
use crate::columns::ColumnType;
use crate::columns::Field;
use crate::columns::FieldModel;
use crate::columns::column_models;
use crate::columns::field_models;
use crate::columns::fits_schema;
use crate::columns::texts;
use crate::text::decimal;
use crate::text::law_numerals_differ;
use crate::text::push_decimal;

verus! {

pub const NUM_INT_COLS: usize = 8;

pub const NUM_FLOAT_COLS: usize = 6;

pub const NUM_STR_COLS: usize = 2;

pub const ROWS_PER_BATCH: usize = 8192;

/// Column `i` of the schema: first the integers, next the floating-point numbers, then the texts,
/// each kind numbered from zero.
pub open spec fn field(i: int) -> FieldModel {
    if i < NUM_INT_COLS {
        FieldModel { name: "i"@ + decimal(i as nat), data_type: ColumnType::Int64, nullable: false }
    } else if i < NUM_INT_COLS + NUM_FLOAT_COLS {
        FieldModel {
            name: "f"@ + decimal((i - NUM_INT_COLS) as nat),
            data_type: ColumnType::Float64,
            nullable: false,
        }
    } else {
        FieldModel {
            name: "s"@ + decimal((i - NUM_INT_COLS - NUM_FLOAT_COLS) as nat),
            data_type: ColumnType::Utf8,
            nullable: false,
        }
    }
}

/// The schema.
pub open spec fn schema_model() -> Seq<FieldModel> {
    Seq::new((NUM_INT_COLS + NUM_FLOAT_COLS + NUM_STR_COLS) as nat, |i: int| field(i))
}

/// The integer in row `r` of integer column `c`.
pub open spec fn int_cell(r: int, c: int, seed: int) -> i64 {
    ((r * 31 + c * 7 + seed) % 100_000) as i64
}

/// Twice the number in row `r` of floating-point column `c`: the number is one and a half times
/// the row, and the column and the seed on top.
pub open spec fn float_halves(r: int, c: int, seed: int) -> nat {
    (3 * r + 2 * (c + seed)) as nat
}

/// The text in row `r` of text column `c`.
pub open spec fn text_cell(r: int, c: int, seed: int) -> Seq<char> {
    "value-"@ + decimal(seed as nat) + "-"@ + decimal(c as nat) + "-"@ + decimal((r % 977) as nat)
}

/// Column `i` of the batch that `seed` gives.
pub open spec fn column(i: int, seed: int) -> ColumnModel {
    if i < NUM_INT_COLS {
        ColumnModel::Int64(Seq::new(ROWS_PER_BATCH as nat, |r: int| int_cell(r, i, seed)))
    } else if i < NUM_INT_COLS + NUM_FLOAT_COLS {
        ColumnModel::Float64Halves(
            Seq::new(ROWS_PER_BATCH as nat, |r: int| float_halves(r, i - NUM_INT_COLS, seed)),
        )
    } else {
        ColumnModel::Utf8(
            Seq::new(
                ROWS_PER_BATCH as nat,
                |r: int| text_cell(r, i - NUM_INT_COLS - NUM_FLOAT_COLS, seed),
            ),
        )
    }
}

/// The batch that `seed` gives.
pub open spec fn batch_model(seed: int) -> Seq<ColumnModel> {
    Seq::new((NUM_INT_COLS + NUM_FLOAT_COLS + NUM_STR_COLS) as nat, |i: int| column(i, seed))
}

fn numbered_field(prefix: &str, number: usize, data_type: ColumnType) -> (r: Field)
    ensures
        r@ == (FieldModel {
            name: prefix@ + decimal(number as nat),
            data_type,
            nullable: false,
        }),
{
    let mut name = prefix.to_owned();
    push_decimal(&mut name, number as u64);
    Field { name, data_type, nullable: false }
}

/// The schema of the data.
pub fn build_schema() -> (r: Vec<Field>)
    ensures
        field_models(r@) == schema_model(),
{
    let mut fields: Vec<Field> = Vec::new();
    let mut i: usize = 0;
    while i < NUM_INT_COLS
        invariant
            i <= NUM_INT_COLS,
            fields@.len() == i,
            forall|k: int| 0 <= k < fields@.len() ==> (#[trigger] fields@[k])@ == field(k),
        decreases NUM_INT_COLS - i,
    {
        fields.push(numbered_field("i", i, ColumnType::Int64));
        i += 1;
    }
    let mut i: usize = 0;
    while i < NUM_FLOAT_COLS
        invariant
            i <= NUM_FLOAT_COLS,
            fields@.len() == NUM_INT_COLS + i,
            forall|k: int| 0 <= k < fields@.len() ==> (#[trigger] fields@[k])@ == field(k),
        decreases NUM_FLOAT_COLS - i,
    {
        fields.push(numbered_field("f", i, ColumnType::Float64));
        i += 1;
    }
    let mut i: usize = 0;
    while i < NUM_STR_COLS
        invariant
            i <= NUM_STR_COLS,
            fields@.len() == NUM_INT_COLS + NUM_FLOAT_COLS + i,
            forall|k: int| 0 <= k < fields@.len() ==> (#[trigger] fields@[k])@ == field(k),
        decreases NUM_STR_COLS - i,
    {
        fields.push(numbered_field("s", i, ColumnType::Utf8));
        i += 1;
    }
    assert(field_models(fields@) =~= schema_model());
    fields
}

fn int_column(c: usize, seed: usize) -> (r: Column)
    requires
        c < NUM_INT_COLS,
        seed + (ROWS_PER_BATCH - 1) * 31 + (NUM_INT_COLS - 1) * 7 <= usize::MAX,
    ensures
        r@ == column(c as int, seed as int),
{
    let mut cells: Vec<i64> = Vec::new();
    let mut r: usize = 0;
    while r < ROWS_PER_BATCH
        invariant
            r <= ROWS_PER_BATCH,
            c < NUM_INT_COLS,
            seed + (ROWS_PER_BATCH - 1) * 31 + (NUM_INT_COLS - 1) * 7 <= usize::MAX,
            cells@.len() == r,
            forall|k: int|
                0 <= k < r ==> #[trigger] cells@[k] == int_cell(k, c as int, seed as int),
        decreases ROWS_PER_BATCH - r,
    {
        cells.push(((r * 31 + c * 7 + seed) % 100_000) as i64);
        r += 1;
    }
    assert(cells@ =~= Seq::new(
        ROWS_PER_BATCH as nat,
        |k: int| int_cell(k, c as int, seed as int),
    ));
    Column::Int64(cells)
}

fn float_column(c: usize, seed: usize) -> (r: Column)
    requires
        c < NUM_FLOAT_COLS,
    ensures
        r@ == column(NUM_INT_COLS + c, seed as int),
{
    let mut cells: Vec<u128> = Vec::new();
    let mut r: usize = 0;
    while r < ROWS_PER_BATCH
        invariant
            r <= ROWS_PER_BATCH,
            c < NUM_FLOAT_COLS,
            cells@.len() == r,
            forall|k: int|
                0 <= k < r ==> #[trigger] cells@[k] == float_halves(k, c as int, seed as int),
        decreases ROWS_PER_BATCH - r,
    {
        cells.push(3 * r as u128 + 2 * (c as u128 + seed as u128));
        r += 1;
    }
    assert(cells@.map_values(|cell: u128| cell as nat) =~= Seq::new(
        ROWS_PER_BATCH as nat,
        |k: int| float_halves(k, c as int, seed as int),
    ));
    assert(NUM_INT_COLS + c - NUM_INT_COLS == c);
    Column::Float64Halves(cells)
}

fn text_column(c: usize, seed: usize) -> (r: Column)
    requires
        c < NUM_STR_COLS,
    ensures
        r@ == column(NUM_INT_COLS + NUM_FLOAT_COLS + c, seed as int),
{
    let mut cells: Vec<String> = Vec::new();
    let mut r: usize = 0;
    while r < ROWS_PER_BATCH
        invariant
            r <= ROWS_PER_BATCH,
            c < NUM_STR_COLS,
            cells@.len() == r,
            forall|k: int|
                0 <= k < r ==> (#[trigger] cells@[k])@ == text_cell(k, c as int, seed as int),
        decreases ROWS_PER_BATCH - r,
    {
        let mut cell = "value-".to_owned();
        push_decimal(&mut cell, seed as u64);
        cell.append("-");
        push_decimal(&mut cell, c as u64);
        cell.append("-");
        push_decimal(&mut cell, (r % 977) as u64);
        cells.push(cell);
        r += 1;
    }
    assert(texts(cells@) =~= Seq::new(
        ROWS_PER_BATCH as nat,
        |k: int| text_cell(k, c as int, seed as int),
    ));
    Column::Utf8(cells)
}

/// The batch that `seed` gives, column by column.
pub fn build_batch(seed: usize) -> (r: Vec<Column>)
    requires
        seed + (ROWS_PER_BATCH - 1) * 31 + (NUM_INT_COLS - 1) * 7 <= usize::MAX,
    ensures
        column_models(r@) == batch_model(seed as int),
{
    let mut columns: Vec<Column> = Vec::new();
    let mut c: usize = 0;
    while c < NUM_INT_COLS
        invariant
            c <= NUM_INT_COLS,
            seed + (ROWS_PER_BATCH - 1) * 31 + (NUM_INT_COLS - 1) * 7 <= usize::MAX,
            columns@.len() == c,
            forall|k: int|
                0 <= k < columns@.len() ==> (#[trigger] columns@[k])@ == column(k, seed as int),
        decreases NUM_INT_COLS - c,
    {
        columns.push(int_column(c, seed));
        c += 1;
    }
    let mut c: usize = 0;
    while c < NUM_FLOAT_COLS
        invariant
            c <= NUM_FLOAT_COLS,
            columns@.len() == NUM_INT_COLS + c,
            forall|k: int|
                0 <= k < columns@.len() ==> (#[trigger] columns@[k])@ == column(k, seed as int),
        decreases NUM_FLOAT_COLS - c,
    {
        columns.push(float_column(c, seed));
        c += 1;
    }
    let mut c: usize = 0;
    while c < NUM_STR_COLS
        invariant
            c <= NUM_STR_COLS,
            columns@.len() == NUM_INT_COLS + NUM_FLOAT_COLS + c,
            forall|k: int|
                0 <= k < columns@.len() ==> (#[trigger] columns@[k])@ == column(k, seed as int),
        decreases NUM_STR_COLS - c,
    {
        columns.push(text_column(c, seed));
        c += 1;
    }
    assert(column_models(columns@) =~= batch_model(seed as int));
    columns
}

/// Every batch is one of the schema, and has its full number of rows.
pub proof fn law_batches_fit_schema(seed: int)
    ensures
        fits_schema(batch_model(seed), schema_model(), ROWS_PER_BATCH as nat),
{
}

/// No two columns have the same name.
pub proof fn law_column_names_differ(i: int, j: int)
    requires
        0 <= i < schema_model().len(),
        0 <= j < schema_model().len(),
        field(i).name == field(j).name,
    ensures
        i == j,
{
    reveal_strlit("i");
    reveal_strlit("f");
    reveal_strlit("s");
    let a = field(i).name;
    let b = field(j).name;
    assert(a[0] == b[0]);
    let first_i = if i < NUM_INT_COLS {
        0
    } else if i < NUM_INT_COLS + NUM_FLOAT_COLS {
        NUM_INT_COLS as int
    } else {
        NUM_INT_COLS + NUM_FLOAT_COLS
    };
    assert(a.skip(1) =~= decimal((i - first_i) as nat));
    assert(b.skip(1) =~= decimal((j - first_i) as nat));
    law_numerals_differ((i - first_i) as nat, (j - first_i) as nat);
}

/// Every integer is below a hundred thousand.
pub proof fn law_int_cells_in_range(r: int, c: int, seed: int)
    ensures
        0 <= int_cell(r, c, seed) < 100_000,
{
}

/// An integer column begins, below a hundred thousand, with 7 times the number of the column and
/// the seed on top, and every cell is 31 more than the one above it, around a hundred thousand.
pub proof fn law_integers_rise_by_31(seed: int, i: int, r: int)
    requires
        seed >= 0,
        0 <= i < 8,
        0 <= r < 8192,
    ensures
        batch_model(seed)[i] is Int64,
        ({
            let cells = batch_model(seed)[i]->Int64_0;
            &&& cells.len() == 8192
            &&& 0 <= cells[r] < 100_000
            &&& (cells[0] - (i * 7 + seed)) % 100_000 == 0
            &&& r + 1 < 8192 ==> cells[r + 1] - cells[r] == 31 || cells[r + 1] - cells[r] == 31
                - 100_000
        }),
{
    let cells = batch_model(seed)[i]->Int64_0;
    assert(cells[0] == int_cell(0, i, seed));
    assert(cells[r] == int_cell(r, i, seed));
    if r + 1 < 8192 {
        assert(cells[r + 1] == int_cell(r + 1, i, seed));
    }
}

/// A floating-point column begins with its number and the seed, and every cell is one and a half
/// more than the one above it.
pub proof fn law_floats_rise_by_one_and_a_half(seed: int, i: int, r: int)
    requires
        seed >= 0,
        8 <= i < 14,
        0 <= r < 8192,
    ensures
        batch_model(seed)[i] is Float64Halves,
        ({
            let halves = batch_model(seed)[i]->Float64Halves_0;
            &&& halves.len() == 8192
            &&& halves[0] == 2 * (i - 8 + seed)
            &&& r + 1 < 8192 ==> halves[r + 1] == halves[r] + 3
        }),
{
}

/// A text column names the seed, the column and the row; the rows are counted up to 976 and begin
/// again.
pub proof fn law_texts_name_their_cells(seed: nat, i: int, round: int, count: nat)
    requires
        14 <= i < 16,
        count < 977,
        0 <= 977 * round + count < 8192,
    ensures
        batch_model(seed as int)[i] is Utf8,
        batch_model(seed as int)[i]->Utf8_0.len() == 8192,
        batch_model(seed as int)[i]->Utf8_0[977 * round + count] == "value-"@ + decimal(seed) + "-"@
            + decimal((i - 14) as nat) + "-"@ + decimal(count),
{
}

/// The schema has eight integer columns, six floating-point ones and two texts, each kind numbered
/// from zero and none of them optional.
pub proof fn law_schema_is_grouped_by_type(i: int)
    requires
        0 <= i < 16,
    ensures
        schema_model().len() == 16,
        batch_model(0).len() == 16,
        !schema_model()[i].nullable,
        i < 8 ==> schema_model()[i].data_type == ColumnType::Int64 && schema_model()[i].name
            == "i"@ + decimal(i as nat),
        8 <= i < 14 ==> schema_model()[i].data_type == ColumnType::Float64
            && schema_model()[i].name == "f"@ + decimal((i - 8) as nat),
        14 <= i ==> schema_model()[i].data_type == ColumnType::Utf8 && schema_model()[i].name
            == "s"@ + decimal((i - 14) as nat),
{
}

} // verus!
