//! The rows that the partial aggregation benchmark groups.
use vstd::prelude::*;
use crate::arrow::Batch;
use crate::arrow::arrow_schema;
use crate::arrow::batch_fields;
use crate::arrow::batch_rows;
use crate::arrow::new_record_batch;
use crate::arrow::zipped;
use crate::chunks::chunk_count;
use crate::chunks::chunk_end;
use crate::chunks::chunk_ranges;
use crate::chunks::chunk_start;
use crate::chunks::joined_chunks;
use crate::chunks::law_chunks_are_full;
use crate::chunks::law_chunks_make_up_the_list;
use crate::columns::ColumnType;
use crate::columns::Field;
use crate::columns::FieldModel;
use crate::columns::field_models;
use crate::columns::texts;
use crate::text::decimal;
use crate::text::lemma_decimal_is_short;
use crate::text::push_decimal;

verus! {

/// How many rows a batch has, but for the last one.
pub const ROWS_PER_BATCH: usize = 8192;

/// How the keys follow each other.
#[derive(Clone, Copy, Debug, PartialEq, Eq, Structural)]
pub enum Layout {
    /// Scattered over the key space.
    Hashed,
    /// Through the key space in order, again and again, as in clustered or time-ordered data.
    Cyclic,
}

impl Layout {
    /// The name of the layout.
    pub open spec fn name_text(self) -> Seq<char> {
        match self {
            Layout::Hashed => "hashed"@,
            Layout::Cyclic => "cyclic"@,
        }
    }

    /// The name of the layout.
    pub fn name(self) -> (r: &'static str)
        ensures
            r@ == self.name_text(),
            self == Layout::Hashed ==> r@ == "hashed"@,
            self == Layout::Cyclic ==> r@ == "cyclic"@,
    {
        match self {
            Layout::Hashed => "hashed",
            Layout::Cyclic => "cyclic",
        }
    }

    /// The key of row `i` where there are `cardinality` keys.
    pub open spec fn key(self, i: int, cardinality: int) -> int {
        match self {
            Layout::Hashed => (i * 2_654_435_761) % cardinality,
            Layout::Cyclic => i % cardinality,
        }
    }

    /// Whether the keys of `num_rows` rows can be computed in an `i64`.
    pub open spec fn in_range(self, num_rows: int) -> bool {
        &&& num_rows <= i64::MAX
        &&& self == Layout::Hashed ==> (num_rows - 1) * 2_654_435_761 <= i64::MAX
    }

    /// Whether the keys of `num_rows` rows can be computed in an `i64`.
    pub fn can_number(self, num_rows: usize) -> (r: bool)
        ensures
            r == self.in_range(num_rows as int),
    {
        match self {
            Layout::Hashed => num_rows as u128 * 2_654_435_761 <= i64::MAX as u128 + 2_654_435_761,
            Layout::Cyclic => num_rows as u128 <= i64::MAX as u128,
        }
    }
}

/// Row `i`: its key, its value and its padding.
pub open spec fn row(layout: Layout, i: int, cardinality: int) -> (i64, i64, Seq<char>) {
    (
        layout.key(i, cardinality) as i64,
        i as i64,
        "padding-value-"@ + decimal((i % 97) as nat),
    )
}

/// The first `num_rows` rows.
pub open spec fn rows(layout: Layout, num_rows: nat, cardinality: int) -> Seq<
    (i64, i64, Seq<char>),
> {
    Seq::new(num_rows, |i: int| row(layout, i, cardinality))
}

/// The fields: the key, the value and the padding.
pub open spec fn schema_model() -> Seq<FieldModel> {
    seq![
        FieldModel { name: "k"@, data_type: ColumnType::Int64, nullable: false },
        FieldModel { name: "v"@, data_type: ColumnType::Int64, nullable: false },
        FieldModel { name: "pad"@, data_type: ColumnType::Utf8, nullable: false },
    ]
}

/// The schema of the rows.
pub fn aggregate_schema() -> (r: Vec<Field>)
    ensures
        field_models(r@) == schema_model(),
{
    let mut fields: Vec<Field> = Vec::new();
    fields.push(Field { name: "k".to_owned(), data_type: ColumnType::Int64, nullable: false });
    fields.push(Field { name: "v".to_owned(), data_type: ColumnType::Int64, nullable: false });
    fields.push(Field { name: "pad".to_owned(), data_type: ColumnType::Utf8, nullable: false });
    assert(field_models(fields@) =~= schema_model());
    fields
}

/// The columns of a run of rows.
#[derive(Debug)]
pub struct AggregateColumns {
    pub keys: Vec<i64>,
    pub vals: Vec<i64>,
    pub pads: Vec<String>,
}

/// The columns of the rows from `start` up to, and without, `end`.
pub fn aggregate_columns(layout: Layout, start: usize, end: usize, cardinality: i64) -> (r:
    AggregateColumns)
    requires
        start <= end,
        cardinality > 0,
        layout.in_range(end as int),
    ensures
        r.keys@.len() == end - start,
        r.vals@.len() == end - start,
        r.pads@.len() == end - start,
        forall|k: int|
            #![trigger r.keys@[k]]
            #![trigger r.vals@[k]]
            #![trigger r.pads@[k]]
            0 <= k < end - start ==> row(layout, start + k, cardinality as int) == (
                r.keys@[k],
                r.vals@[k],
                r.pads@[k]@,
            ),
        forall|k: int|
            #![trigger r.keys@[k]]
            0 <= k < end - start ==> 0 <= r.keys@[k] < cardinality && match layout {
                Layout::Hashed => (r.keys@[k] - (start + k) * 2_654_435_761) % (cardinality as int)
                    == 0,
                Layout::Cyclic => (r.keys@[k] - (start + k)) % (cardinality as int) == 0,
            },
        forall|k: int| 0 <= k < end - start ==> #[trigger] r.vals@[k] == start + k,
{
    let mut keys: Vec<i64> = Vec::new();
    let mut vals: Vec<i64> = Vec::new();
    let mut pads: Vec<String> = Vec::new();
    let mut i: usize = start;
    while i < end
        invariant
            start <= i <= end,
            cardinality > 0,
            layout.in_range(end as int),
            keys@.len() == i - start,
            vals@.len() == i - start,
            pads@.len() == i - start,
            forall|k: int|
                #![trigger keys@[k]]
                #![trigger vals@[k]]
                #![trigger pads@[k]]
                0 <= k < i - start ==> row(layout, start + k, cardinality as int) == (
                    keys@[k],
                    vals@[k],
                    pads@[k]@,
                ),
        decreases end - i,
    {
        let number: i64 = i as i64;
        let key: i64 = match layout {
            Layout::Hashed => (number * 2_654_435_761) % cardinality,
            Layout::Cyclic => number % cardinality,
        };
        let mut pad = "padding-value-".to_owned();
        push_decimal(&mut pad, (i % 97) as u64);
        keys.push(key);
        vals.push(number);
        pads.push(pad);
        i += 1;
    }
    proof {
        let d = cardinality as int;
        assert forall|k: int|
            #![trigger keys@[k]]
            0 <= k < end - start implies 0 <= keys@[k] < cardinality && match layout {
            Layout::Hashed => (keys@[k] - (start + k) * 2_654_435_761) % d == 0,
            Layout::Cyclic => (keys@[k] - (start + k)) % d == 0,
        } by {
            assert(row(layout, start + k, d) == (keys@[k], vals@[k], pads@[k]@));
            law_keys_in_key_space(layout, start + k, d);
            law_hashed_keys_scatter(start + k, d);
            lemma_remainder_differs_by_multiple(start + k, d);
        }
        assert forall|k: int| 0 <= k < end - start implies #[trigger] vals@[k] == start + k by {
            assert(row(layout, start + k, d) == (keys@[k], vals@[k], pads@[k]@));
        }
    }
    AggregateColumns { keys, vals, pads }
}

/// The first `num_rows` rows, in batches of the same number of rows but for the last one.
pub fn aggregate_batches(layout: Layout, num_rows: usize, cardinality: i64) -> (r: Vec<Batch>)
    requires
        cardinality > 0,
        layout.in_range(num_rows as int),
    ensures
        r@.len() == chunk_count(num_rows as nat, ROWS_PER_BATCH as nat),
        forall|b: int|
            0 <= b < r@.len() ==> batch_fields(#[trigger] r@[b]) == schema_model() && batch_rows(
                r@[b],
            ) == rows(layout, num_rows as nat, cardinality as int).subrange(
                chunk_start(ROWS_PER_BATCH as nat, b),
                chunk_end(num_rows as nat, ROWS_PER_BATCH as nat, b),
            ),
{
    let ghost all = rows(layout, num_rows as nat, cardinality as int);
    let schema = arrow_schema(&aggregate_schema());
    let ranges = chunk_ranges(num_rows, ROWS_PER_BATCH);
    let mut batches: Vec<Batch> = Vec::new();
    let mut b: usize = 0;
    while b < ranges.len()
        invariant
            b <= ranges.len(),
            cardinality > 0,
            layout.in_range(num_rows as int),
            all == rows(layout, num_rows as nat, cardinality as int),
            crate::arrow::schema_fields(schema) == schema_model(),
            crate::arrow::schema_is_plain(schema),
            ranges@.len() == chunk_count(num_rows as nat, ROWS_PER_BATCH as nat),
            forall|k: int|
                0 <= k < ranges@.len() ==> (#[trigger] ranges@[k]).0 == chunk_start(
                    ROWS_PER_BATCH as nat,
                    k,
                ) && ranges@[k].1 == chunk_end(num_rows as nat, ROWS_PER_BATCH as nat, k),
            batches@.len() == b,
            forall|k: int|
                0 <= k < b ==> batch_fields(#[trigger] batches@[k]) == schema_model()
                    && batch_rows(batches@[k]) == all.subrange(
                    chunk_start(ROWS_PER_BATCH as nat, k),
                    chunk_end(num_rows as nat, ROWS_PER_BATCH as nat, k),
                ),
        decreases ranges.len() - b,
    {
        let (start, end) = ranges[b];
        proof {
            law_chunks_are_full(num_rows as nat, ROWS_PER_BATCH as nat, b as int);
        }
        let columns = aggregate_columns(layout, start, end, cardinality);
        proof {
            assert forall|k: int| 0 <= k < columns.pads@.len() implies (
            #[trigger] columns.pads@[k])@.len() <= 1_000 by {
                let i = start + k;
                assert(row(layout, i, cardinality as int).2 == columns.pads@[k]@);
                lemma_decimal_is_short((i % 97) as nat);
                reveal_strlit("padding-value-");
            }
            assert(zipped(columns.keys@, columns.vals@, texts(columns.pads@)) =~= all.subrange(
                start as int,
                end as int,
            ));
        }
        let batch = new_record_batch(&schema, columns.keys, columns.vals, columns.pads).unwrap();
        batches.push(batch);
        b += 1;
    }
    batches
}

/// The rows that an operator says it put out; none where it says nothing.
pub fn rows_out(output_rows: Option<usize>) -> (r: u64)
    ensures
        r == match output_rows {
            Some(rows) => rows as u64,
            None => 0,
        },
{
    match output_rows {
        Some(rows) => rows as u64,
        None => 0,
    }
}

/// Every key is one of the `cardinality` keys.
pub proof fn law_keys_in_key_space(layout: Layout, i: int, cardinality: int)
    requires
        cardinality > 0,
    ensures
        0 <= layout.key(i, cardinality) < cardinality,
{
    vstd::arithmetic::div_mod::lemma_mod_bound(i * 2_654_435_761, cardinality);
    vstd::arithmetic::div_mod::lemma_mod_bound(i, cardinality);
}

proof fn lemma_same_remainder(a: int, b: int, d: int)
    requires
        d > 0,
        a % d == b % d,
    ensures
        a - b == d * (a / d - b / d),
{
    vstd::arithmetic::div_mod::lemma_fundamental_div_mod(a, d);
    vstd::arithmetic::div_mod::lemma_fundamental_div_mod(b, d);
    assert(d * (a / d) - d * (b / d) == d * (a / d - b / d)) by (nonlinear_arith);
}

/// In the cyclic layout the key after a key is the next one, or the first one after the last one.
pub proof fn law_cyclic_keys_in_order(i: int, cardinality: int)
    requires
        cardinality > 0,
    ensures
        Layout::Cyclic.key(0, cardinality) == 0,
        Layout::Cyclic.key(i + 1, cardinality) == if Layout::Cyclic.key(i, cardinality) + 1
            < cardinality {
            Layout::Cyclic.key(i, cardinality) + 1
        } else {
            0
        },
{
    let d = cardinality;
    vstd::arithmetic::div_mod::lemma_small_mod(0, d as nat);
    vstd::arithmetic::div_mod::lemma_fundamental_div_mod(i, d);
    vstd::arithmetic::div_mod::lemma_mod_bound(i, d);
    if i % d + 1 < d {
        vstd::arithmetic::div_mod::lemma_fundamental_div_mod_converse(i + 1, d, i / d, i % d + 1);
    } else {
        assert(i + 1 == (i / d + 1) * d + 0) by (nonlinear_arith)
            requires
                i == d * (i / d) + i % d,
                i % d + 1 == d,
        ;
        vstd::arithmetic::div_mod::lemma_fundamental_div_mod_converse(i + 1, d, i / d + 1, 0);
    }
}

/// In the cyclic layout no key comes again before all the others have come.
pub proof fn law_cyclic_keys_differ(i: int, j: int, cardinality: int)
    requires
        cardinality > 0,
        i < j < i + cardinality,
    ensures
        Layout::Cyclic.key(i, cardinality) != Layout::Cyclic.key(j, cardinality),
{
    if i % cardinality == j % cardinality {
        lemma_same_remainder(j, i, cardinality);
        let q = j / cardinality - i / cardinality;
        assert(false) by (nonlinear_arith)
            requires
                0 < cardinality * q < cardinality,
                cardinality > 0,
        ;
    }
}

/// In the hashed layout no key comes again before all the others have come either, where the
/// multiplier can be undone among `cardinality` keys, as it can where it has no divisor in common
/// with their number.
pub proof fn law_hashed_keys_differ(i: int, j: int, cardinality: int, inverse: int)
    requires
        cardinality > 0,
        i < j < i + cardinality,
        (2_654_435_761 * inverse) % cardinality == 1int % cardinality,
    ensures
        Layout::Hashed.key(i, cardinality) != Layout::Hashed.key(j, cardinality),
{
    let d = cardinality;
    let m = 2_654_435_761int;
    if (i * m) % d == (j * m) % d {
        lemma_same_remainder(j * m, i * m, d);
        lemma_same_remainder(m * inverse, 1, d);
        let q = (j * m) / d - (i * m) / d;
        let t = (m * inverse) / d - 1int / d;
        let gap = j - i;
        assert(gap * m == d * q) by (nonlinear_arith)
            requires
                j * m - i * m == d * q,
                gap == j - i,
        ;
        assert(gap == d * (q * inverse - gap * t)) by (nonlinear_arith)
            requires
                gap * m == d * q,
                m * inverse - 1 == d * t,
        ;
        let n = q * inverse - gap * t;
        assert(false) by (nonlinear_arith)
            requires
                0 < gap < d,
                gap == d * n,
        ;
    }
}

/// In the cyclic layout any `cardinality` rows one after the other have every key.
pub proof fn law_cyclic_keys_all_come(start: int, key: int, cardinality: int)
    requires
        0 <= key < cardinality,
    ensures
        exists|i: int|
            start <= i < start + cardinality && #[trigger] Layout::Cyclic.key(i, cardinality)
                == key,
{
    let d = cardinality;
    let i = start + (key - start) % d;
    vstd::arithmetic::div_mod::lemma_mod_bound(key - start, d);
    vstd::arithmetic::div_mod::lemma_fundamental_div_mod(key - start, d);
    let q = (key - start) / d;
    assert(i == d * (-q) + key) by (nonlinear_arith)
        requires
            key - start == d * q + (key - start) % d,
            i == start + (key - start) % d,
    ;
    vstd::arithmetic::div_mod::lemma_mod_multiples_vanish(-q, key, d);
    vstd::arithmetic::div_mod::lemma_small_mod(key as nat, d as nat);
    assert(Layout::Cyclic.key(i, d) == key);
}

/// In the hashed layout too any `cardinality` rows one after the other have every key, so that the
/// keys are spread evenly, where the multiplier can be undone among `cardinality` keys.
pub proof fn law_hashed_keys_all_come(start: int, key: int, cardinality: int, inverse: int)
    requires
        0 <= key < cardinality,
        (2_654_435_761 * inverse) % cardinality == 1int % cardinality,
    ensures
        exists|i: int|
            start <= i < start + cardinality && #[trigger] Layout::Hashed.key(i, cardinality)
                == key,
{
    let d = cardinality;
    let m = 2_654_435_761int;
    let target = key * inverse - start;
    let i = start + target % d;
    vstd::arithmetic::div_mod::lemma_mod_bound(target, d);
    vstd::arithmetic::div_mod::lemma_fundamental_div_mod(target, d);
    lemma_same_remainder(m * inverse, 1, d);
    let q = target / d;
    let t = (m * inverse) / d - 1int / d;
    assert(i == key * inverse - d * q);
    assert(i * m == d * (key * t - q * m) + key) by (nonlinear_arith)
        requires
            i == key * inverse - d * q,
            m * inverse - 1 == d * t,
    ;
    vstd::arithmetic::div_mod::lemma_mod_multiples_vanish(key * t - q * m, key, d);
    vstd::arithmetic::div_mod::lemma_small_mod(key as nat, d as nat);
    assert(Layout::Hashed.key(i, d) == key);
}

/// Both layouts come back to the same key after `cardinality` rows.
pub proof fn law_keys_repeat(layout: Layout, i: int, cardinality: int)
    requires
        cardinality > 0,
    ensures
        layout.key(i + cardinality, cardinality) == layout.key(i, cardinality),
{
    let m = 2_654_435_761int;
    vstd::arithmetic::div_mod::lemma_mod_multiples_vanish(1, i, cardinality);
    vstd::arithmetic::div_mod::lemma_mod_multiples_vanish(m, i * m, cardinality);
    assert((i + cardinality) * m == cardinality * m + i * m) by (nonlinear_arith);
}

/// The batches one behind the other are the rows: each row is in one batch, and each batch but the
/// last one has 8192 rows.
pub proof fn law_batches_make_up_the_rows(layout: Layout, num_rows: nat, cardinality: int)
    ensures
        forall|b: int|
            0 <= b && b + 1 < chunk_count(num_rows, ROWS_PER_BATCH as nat) ==> chunk_end(
                num_rows,
                ROWS_PER_BATCH as nat,
                b,
            ) - #[trigger] chunk_start(ROWS_PER_BATCH as nat, b) == 8192,
        joined_chunks(
            rows(layout, num_rows, cardinality),
            ROWS_PER_BATCH as nat,
            chunk_count(num_rows, ROWS_PER_BATCH as nat),
        ) == rows(layout, num_rows, cardinality),
{
    assert forall|b: int|
        0 <= b && b + 1 < chunk_count(num_rows, ROWS_PER_BATCH as nat) implies chunk_end(
        num_rows,
        ROWS_PER_BATCH as nat,
        b,
    ) - #[trigger] chunk_start(ROWS_PER_BATCH as nat, b) == 8192 by {
        law_chunks_are_full(num_rows, ROWS_PER_BATCH as nat, b);
    }
    law_chunks_make_up_the_list(rows(layout, num_rows, cardinality), ROWS_PER_BATCH as nat);
}

proof fn lemma_remainder_differs_by_multiple(x: int, d: int)
    requires
        d > 0,
    ensures
        (x % d - x) % d == 0,
{
    vstd::arithmetic::div_mod::lemma_fundamental_div_mod(x, d);
    vstd::arithmetic::div_mod::lemma_mod_multiples_vanish(-(x / d), 0, d);
    vstd::arithmetic::div_mod::lemma_small_mod(0, d as nat);
    assert(x % d - x == d * (-(x / d)) + 0) by (nonlinear_arith)
        requires
            x == d * (x / d) + x % d,
    ;
}

proof fn lemma_multiples_add(a: int, b: int, d: int)
    requires
        d > 0,
        b % d == 0,
    ensures
        (a + b) % d == a % d,
{
    vstd::arithmetic::div_mod::lemma_fundamental_div_mod(b, d);
    vstd::arithmetic::div_mod::lemma_mod_multiples_vanish(b / d, a, d);
}

/// In the hashed layout the first key is 0, and from each row to the next the key moves on by
/// 2654435761 around the key space. It does not move on by one there, as it does in the cyclic
/// layout, unless that is the same.
pub proof fn law_hashed_keys_scatter(i: int, cardinality: int)
    requires
        cardinality > 0,
    ensures
        Layout::Hashed.key(0, cardinality) == 0,
        (Layout::Hashed.key(i, cardinality) - i * 2_654_435_761) % cardinality == 0,
        (Layout::Hashed.key(i + 1, cardinality) - Layout::Hashed.key(i, cardinality)
            - 2_654_435_761) % cardinality == 0,
        2_654_435_760int % cardinality != 0 ==> (Layout::Hashed.key(i + 1, cardinality)
            - Layout::Hashed.key(i, cardinality) - 1) % cardinality != 0,
{
    let d = cardinality;
    let m = 2_654_435_761int;
    let here = Layout::Hashed.key(i, d) - i * m;
    let next = Layout::Hashed.key(i + 1, d) - (i + 1) * m;
    vstd::arithmetic::div_mod::lemma_small_mod(0, d as nat);
    lemma_remainder_differs_by_multiple(i * m, d);
    lemma_remainder_differs_by_multiple((i + 1) * m, d);
    let step = next - here;
    assert((i + 1) * m == i * m + m) by (nonlinear_arith);
    lemma_multiples_add(step, here, d);
    assert(step % d == 0);
    assert(Layout::Hashed.key(i + 1, d) - Layout::Hashed.key(i, d) - m == step);
    lemma_multiples_add(m - 1, step, d);
}

/// In the cyclic layout the key of a row differs from its number by whole rounds.
pub proof fn law_cyclic_keys_count_up(i: int, cardinality: int)
    requires
        cardinality > 0,
    ensures
        (Layout::Cyclic.key(i, cardinality) - i) % cardinality == 0,
        0 <= i < cardinality ==> Layout::Cyclic.key(i, cardinality) == i,
{
    lemma_remainder_differs_by_multiple(i, cardinality);
    if 0 <= i < cardinality {
        vstd::arithmetic::div_mod::lemma_small_mod(i as nat, cardinality as nat);
    }
}

/// The rows as they are written: there are as many as were asked for, each has the key of its
/// layout and its own number, and the paddings count up to 96 and begin again.
pub proof fn law_rows_hold_their_numbers(
    layout: Layout,
    num_rows: nat,
    cardinality: int,
    i: int,
    round: int,
    pad: nat,
)
    requires
        0 < cardinality <= i64::MAX,
        num_rows <= i64::MAX,
        0 <= i < num_rows,
        i == 97 * round + pad,
        pad < 97,
    ensures
        rows(layout, num_rows, cardinality).len() == num_rows,
        rows(layout, num_rows, cardinality)[i].0 == layout.key(i, cardinality),
        rows(layout, num_rows, cardinality)[i].1 == i,
        rows(layout, num_rows, cardinality)[i].2 == "padding-value-"@ + decimal(pad),
{
    law_keys_in_key_space(layout, i, cardinality);
}

/// The keys can be computed just where the number of the last row, in the hashed layout times
/// 2654435761, is an `i64`.
pub proof fn law_keys_can_be_computed(layout: Layout, num_rows: int, i: int)
    requires
        0 <= i < num_rows,
    ensures
        layout.in_range(num_rows) ==> i <= i64::MAX && (layout == Layout::Hashed ==> i
            * 2_654_435_761 <= i64::MAX),
        num_rows <= i64::MAX && (layout == Layout::Hashed ==> (num_rows - 1) * 2_654_435_761
            <= i64::MAX) ==> layout.in_range(num_rows),
{
}

/// The schema has a key, a value and a padding, none of them optional.
pub proof fn law_schema_has_three_columns()
    ensures
        schema_model().len() == 3,
        schema_model()[0].name == "k"@,
        schema_model()[1].name == "v"@,
        schema_model()[2].name == "pad"@,
        schema_model()[0].data_type == ColumnType::Int64,
        schema_model()[1].data_type == ColumnType::Int64,
        schema_model()[2].data_type == ColumnType::Utf8,
        forall|i: int| 0 <= i < 3 ==> !(#[trigger] schema_model()[i]).nullable,
{
}

} // verus!
