//! Tests of the typed row converter: synthesized metadata columns, the
//! per-type dispatch, decimal truncation and the failure policy.

use grafana_materialize_datasource::convert::{
    numeric_to_i64, rows_to_frame, rows_to_frame_at, CellValue, Column, ColumnType, FrameType,
    FrameValue, RowBatch,
};
use grafana_materialize_datasource::error::Error;

fn col(name: &str, ctype: ColumnType) -> Column {
    Column {
        name: name.to_string(),
        ctype,
    }
}

#[test]
fn empty_batch_gives_empty_frame() {
    let batch = RowBatch {
        columns: vec![],
        rows: vec![],
    };
    let frame = rows_to_frame(&batch).unwrap();
    assert_eq!(frame.fields.len(), 0);
    // Even a batch that claims a schema gives no fields without a row.
    let batch = RowBatch {
        columns: vec![col("a", ColumnType::Int4)],
        rows: vec![],
    };
    let frame = rows_to_frame(&batch).unwrap();
    assert_eq!(frame.fields.len(), 0);
}

#[test]
fn missing_ingestion_time_column_is_synthesized_non_null() {
    let batch = RowBatch {
        columns: vec![col("a", ColumnType::Int4)],
        rows: vec![
            vec![CellValue::Int4(1)],
            vec![CellValue::Int4(2)],
            vec![CellValue::Int4(3)],
        ],
    };
    let frame = rows_to_frame_at(&batch, 777).unwrap();
    assert_eq!(frame.fields.len(), 3);
    let ts = &frame.fields[0];
    assert_eq!(ts.name, "mz_timestamp");
    assert_eq!(ts.ftype, FrameType::TimestampTz);
    assert_eq!(ts.values.len(), 3);
    for v in &ts.values {
        assert_eq!(v, &Some(FrameValue::TimestampTz(777)));
    }
    // The wall-clock variant also stamps every row with some non-null time.
    let frame = rows_to_frame(&batch).unwrap();
    for v in &frame.fields[0].values {
        assert!(matches!(v, Some(FrameValue::TimestampTz(_))));
    }
}

#[test]
fn missing_diff_column_is_synthesized_all_null() {
    let batch = RowBatch {
        columns: vec![col("a", ColumnType::Int8)],
        rows: vec![vec![CellValue::Int8(7)], vec![CellValue::Int8(8)]],
    };
    let frame = rows_to_frame_at(&batch, 0).unwrap();
    assert_eq!(frame.fields.len(), 3);
    let diff = &frame.fields[1];
    assert_eq!(diff.name, "mz_diff");
    assert_eq!(diff.ftype, FrameType::Int8);
    assert_eq!(diff.values.len(), 2);
    for v in &diff.values {
        assert!(v.is_none());
    }
}

#[test]
fn present_metadata_columns_are_not_synthesized() {
    let batch = RowBatch {
        columns: vec![
            col(
                "mz_timestamp",
                ColumnType::Numeric,
            ),
            col("mz_diff", ColumnType::Int8),
            col("v", ColumnType::Text),
        ],
        rows: vec![vec![
            CellValue::Numeric {
                mantissa: 1700000000123,
                scale: 0,
            },
            CellValue::Int8(-1),
            CellValue::Text("hello".to_string()),
        ]],
    };
    let frame = rows_to_frame_at(&batch, 42).unwrap();
    assert_eq!(frame.fields.len(), 3);
    assert_eq!(frame.fields[0].name, "mz_timestamp");
    assert_eq!(
        frame.fields[0].values[0],
        Some(FrameValue::TimestampTz(1700000000123000))
    );
    assert_eq!(frame.fields[1].name, "mz_diff");
    assert_eq!(frame.fields[1].values[0], Some(FrameValue::Int8(-1)));
    assert_eq!(frame.fields[2].name, "v");
    assert_eq!(
        frame.fields[2].values[0],
        Some(FrameValue::Text("hello".to_string()))
    );
}

#[test]
fn per_type_dispatch() {
    let batch = RowBatch {
        columns: vec![
            col("c", ColumnType::Char),
            col("s", ColumnType::Int2),
            col("i", ColumnType::Int4),
            col("l", ColumnType::Int8),
            col("f", ColumnType::Float4),
            col("d", ColumnType::Float8),
            col("o", ColumnType::Oid),
            col("t", ColumnType::Text),
            col("vc", ColumnType::Varchar),
            col("j", ColumnType::Json),
            col("n", ColumnType::Numeric),
            col("dt", ColumnType::Date),
            col("ts", ColumnType::Timestamp),
            col("tz", ColumnType::TimestampTz),
        ],
        rows: vec![vec![
            CellValue::Char(7),
            CellValue::Int2(-2),
            CellValue::Int4(40),
            CellValue::Int8(80),
            CellValue::Float4(0x3f800000),
            CellValue::Float8(0x3ff0000000000000),
            CellValue::Oid(11),
            CellValue::Text("txt".to_string()),
            CellValue::Text("vtxt".to_string()),
            CellValue::Json("{\"a\":1}".to_string()),
            CellValue::Numeric {
                mantissa: 27,
                scale: 1,
            },
            CellValue::Date(19000),
            CellValue::Timestamp(1000000),
            CellValue::TimestampTz(2000000),
        ]],
    };
    let frame = rows_to_frame_at(&batch, 5).unwrap();
    // two synthesized leading columns, then the schema in order
    assert_eq!(frame.fields.len(), 16);
    let vals: Vec<_> = frame.fields[2..]
        .iter()
        .map(|f| f.values[0].clone())
        .collect();
    assert_eq!(
        vals,
        vec![
            Some(FrameValue::Char(7)),
            Some(FrameValue::Int2(-2)),
            Some(FrameValue::Int4(40)),
            Some(FrameValue::Int8(80)),
            Some(FrameValue::Float4(0x3f800000)),
            Some(FrameValue::Float8(0x3ff0000000000000)),
            Some(FrameValue::Oid(11)),
            Some(FrameValue::Text("txt".to_string())),
            Some(FrameValue::Text("vtxt".to_string())),
            Some(FrameValue::Text("{\"a\":1}".to_string())),
            Some(FrameValue::Int8(2)),
            Some(FrameValue::Date(19000)),
            Some(FrameValue::Timestamp(1000000)),
            Some(FrameValue::TimestampTz(2000000)),
        ]
    );
}

#[test]
fn unsupported_type_degrades_to_diagnostic_text() {
    let batch = RowBatch {
        columns: vec![col("u", ColumnType::Other("uuid".to_string()))],
        rows: vec![vec![CellValue::Opaque], vec![CellValue::Null]],
    };
    let frame = rows_to_frame_at(&batch, 0).unwrap();
    let f = &frame.fields[2];
    assert_eq!(f.name, "u");
    assert_eq!(f.ftype, FrameType::Text);
    for v in &f.values {
        assert_eq!(
            v,
            &Some(FrameValue::Text("unsupported column type uuid".to_string()))
        );
    }
}

#[test]
fn numeric_overflow_becomes_null_not_error() {
    let batch = RowBatch {
        columns: vec![col("n", ColumnType::Numeric)],
        rows: vec![
            vec![CellValue::Numeric {
                mantissa: 170141183460469231731687303715884105727,
                scale: 0,
            }],
            vec![CellValue::Numeric {
                mantissa: 5,
                scale: 0,
            }],
        ],
    };
    let frame = rows_to_frame_at(&batch, 0).unwrap();
    let f = &frame.fields[2];
    assert_eq!(f.values[0], None);
    assert_eq!(f.values[1], Some(FrameValue::Int8(5)));
}

#[test]
fn mismatched_known_type_fails_the_batch() {
    let batch = RowBatch {
        columns: vec![col("i", ColumnType::Int4)],
        rows: vec![vec![CellValue::Text("not an int".to_string())]],
    };
    assert!(matches!(rows_to_frame_at(&batch, 0), Err(Error::Data(_))));
    // A null under a known type is a conversion error too.
    let batch = RowBatch {
        columns: vec![col("i", ColumnType::Int4)],
        rows: vec![vec![CellValue::Null]],
    };
    assert!(matches!(rows_to_frame_at(&batch, 0), Err(Error::Data(_))));
    // A non-decimal under the ingestion-time column fails as well.
    let batch = RowBatch {
        columns: vec![col("mz_timestamp", ColumnType::Numeric)],
        rows: vec![vec![CellValue::Int8(3)]],
    };
    assert!(matches!(rows_to_frame_at(&batch, 0), Err(Error::Data(_))));
}

#[test]
fn numeric_truncation_exact_values() {
    assert_eq!(numeric_to_i64(27, 1), Some(2));
    assert_eq!(numeric_to_i64(-27, 1), Some(-2));
    assert_eq!(numeric_to_i64(12345, 3), Some(12));
    assert_eq!(numeric_to_i64(12345, 0), Some(12345));
    assert_eq!(numeric_to_i64(0, 28), Some(0));
    assert_eq!(numeric_to_i64(9223372036854775807, 0), Some(i64::MAX));
    assert_eq!(numeric_to_i64(9223372036854775808, 0), None);
    assert_eq!(numeric_to_i64(-9223372036854775808, 0), Some(i64::MIN));
    assert_eq!(numeric_to_i64(-9223372036854775809, 0), None);
    assert_eq!(numeric_to_i64(92233720368547758079, 1), Some(i64::MAX));
    assert_eq!(numeric_to_i64(92233720368547758080, 1), None);
    assert_eq!(
        numeric_to_i64(170141183460469231731687303715884105727, 39),
        Some(0)
    );
    assert_eq!(numeric_to_i64(-1, 5), Some(0));
}

#[test]
fn truncated_timestamp_overflow_is_null() {
    // The truncation itself overflows a 64-bit integer.
    let batch = RowBatch {
        columns: vec![col("mz_timestamp", ColumnType::Numeric)],
        rows: vec![vec![CellValue::Numeric {
            mantissa: 170141183460469231731687303715884105727,
            scale: 0,
        }]],
    };
    let frame = rows_to_frame_at(&batch, 0).unwrap();
    assert_eq!(frame.fields[1].values[0], None);
    // The milliseconds fit, but carrying them as microseconds would not.
    let batch = RowBatch {
        columns: vec![col("mz_timestamp", ColumnType::Numeric)],
        rows: vec![vec![CellValue::Numeric {
            mantissa: 9223372036854775807,
            scale: 0,
        }]],
    };
    let frame = rows_to_frame_at(&batch, 0).unwrap();
    assert_eq!(frame.fields[1].values[0], None);
    // An ordinary epoch-millisecond value converts.
    let batch = RowBatch {
        columns: vec![col("mz_timestamp", ColumnType::Numeric)],
        rows: vec![vec![CellValue::Numeric {
            mantissa: 17000000001234,
            scale: 1,
        }]],
    };
    let frame = rows_to_frame_at(&batch, 0).unwrap();
    assert_eq!(
        frame.fields[1].values[0],
        Some(FrameValue::TimestampTz(1700000000123000))
    );
}
