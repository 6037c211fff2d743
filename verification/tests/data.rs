use ballista_bench::columns::{Column, ColumnType, Field};
use ballista_bench::{read_data, write_data};

fn described(fields: &[Field]) -> Vec<(String, ColumnType, bool)> {
    fields.iter().map(|f| (f.name.clone(), f.data_type, f.nullable)).collect()
}

#[test]
fn read_schema_has_three_kinds_of_columns() {
    let mut expected = Vec::new();
    for i in 0..8 {
        expected.push((format!("i{i}"), ColumnType::Int64, false));
    }
    for i in 0..6 {
        expected.push((format!("f{i}"), ColumnType::Float64, false));
    }
    for i in 0..2 {
        expected.push((format!("s{i}"), ColumnType::Utf8, false));
    }
    assert_eq!(described(&read_data::build_schema()), expected);
}

#[test]
fn read_batches_hold_the_seeded_cells() {
    for seed in [0usize, 1, 31_015, 99_999] {
        let batch = read_data::build_batch(seed);
        assert_eq!(batch.len(), 16);
        for (i, column) in batch.iter().enumerate() {
            match column {
                Column::Int64(cells) => {
                    assert!(i < 8);
                    let expected = (0..8192)
                        .map(|r| ((r * 31 + i * 7 + seed) % 100_000) as i64)
                        .collect::<Vec<_>>();
                    assert_eq!(cells, &expected);
                }
                Column::Float64Halves(halves) => {
                    assert!((8..14).contains(&i));
                    let c = i - 8;
                    assert_eq!(halves.len(), 8192);
                    for (r, half) in halves.iter().enumerate() {
                        assert_eq!(*half as f64 / 2.0, (r as f64) * 1.5 + (c + seed) as f64);
                    }
                }
                Column::Utf8(cells) => {
                    assert!(i >= 14);
                    let c = i - 14;
                    let expected = (0..8192)
                        .map(|r| format!("value-{}-{}-{}", seed, c, r % 977))
                        .collect::<Vec<_>>();
                    assert_eq!(cells, &expected);
                }
            }
        }
    }
}

#[test]
fn wide_schema_takes_turns() {
    let fields = write_data::wide_schema(5);
    assert_eq!(
        described(&fields),
        vec![
            ("column_name_0".to_string(), ColumnType::Int64, true),
            ("column_name_1".to_string(), ColumnType::Float64, true),
            ("column_name_2".to_string(), ColumnType::Utf8, true),
            ("column_name_3".to_string(), ColumnType::Int64, true),
            ("column_name_4".to_string(), ColumnType::Float64, true),
        ]
    );
    assert!(write_data::wide_schema(0).is_empty());
}

#[test]
fn write_batches_hold_the_seeded_cells() {
    let fields = write_data::wide_schema(16);
    for (rows, seed) in [(0usize, 3usize), (1, 0), (2_100, 17)] {
        let batch = write_data::build_batch(&fields, rows, seed);
        assert_eq!(batch.len(), 16);
        for (i, column) in batch.iter().enumerate() {
            match (column, fields[i].data_type) {
                (Column::Int64(cells), ColumnType::Int64) => {
                    let expected =
                        (0..rows).map(|r| (r * 7 + i + seed) as i64).collect::<Vec<_>>();
                    assert_eq!(cells, &expected);
                }
                (Column::Float64Halves(halves), ColumnType::Float64) => {
                    assert_eq!(halves.len(), rows);
                    for (r, half) in halves.iter().enumerate() {
                        assert_eq!(*half as f64 / 2.0, r as f64 * 0.5 + i as f64);
                    }
                }
                (Column::Utf8(cells), ColumnType::Utf8) => {
                    let expected = (0..rows)
                        .map(|r| format!("v-{seed}-{i}-{}", r % 1013))
                        .collect::<Vec<_>>();
                    assert_eq!(cells, &expected);
                }
                _ => panic!("column {i} does not fit its field"),
            }
        }
    }
}

#[test]
fn integers_wrap_into_64_bits() {
    let fields = write_data::wide_schema(1);
    let seed = i64::MAX as usize;
    let batch = write_data::build_batch(&fields, 2, seed);
    assert!(matches!(&batch[0], Column::Int64(cells) if *cells == [i64::MAX, i64::MIN + 6]));
}
