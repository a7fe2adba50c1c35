//! Conversion of a homogeneous batch of database rows into a typed,
//! columnar frame.
//!
//! A batch carries its schema (ordered column names with their declared
//! database types) and its rows as plain decoded values. The converter
//! dispatches per column on the declared type, synthesizes the two leading
//! metadata columns when the schema lacks them, and degrades gracefully on
//! column types it does not know.

use vstd::arithmetic::power::pow;
use vstd::prelude::*;

use crate::error::Error;
use crate::text::str_eq;

verus! {

/// The database column types the converter knows, plus a graceful fallback
/// carrying the name of anything unrecognized.
#[derive(Clone, Debug, PartialEq, Eq)]
pub enum ColumnType {
    /// A single-byte "char".
    Char,
    /// A 16-bit integer.
    Int2,
    /// A 32-bit integer.
    Int4,
    /// A 64-bit integer.
    Int8,
    /// A 32-bit float.
    Float4,
    /// A 64-bit float.
    Float8,
    /// An object identifier.
    Oid,
    /// UTF-8 text.
    Text,
    /// UTF-8 text with a length bound.
    Varchar,
    /// A JSON document, carried in its rendered text form.
    Json,
    /// A binary JSON document, carried in its rendered text form.
    Jsonb,
    /// An arbitrary-precision decimal.
    Numeric,
    /// A calendar date.
    Date,
    /// A timestamp without a time zone.
    Timestamp,
    /// A timestamp with a time zone.
    TimestampTz,
    /// Any other declared type, by name.
    Other(String),
}

/// One decoded row value. Values that the database reports through richer
/// driver types are carried here as the plain data the converter reads:
/// floats as their raw bit patterns (the converter moves them unchanged),
/// dates as days since the epoch of 1970-01-01, timestamps as microseconds
/// since the Unix epoch, JSON as its rendered text, and decimals as a
/// mantissa with a base-ten scale.
#[derive(Clone, Debug, PartialEq, Eq)]
pub enum CellValue {
    /// A single-byte "char".
    Char(i8),
    /// A 16-bit integer.
    Int2(i16),
    /// A 32-bit integer.
    Int4(i32),
    /// A 64-bit integer.
    Int8(i64),
    /// The bit pattern of a 32-bit float.
    Float4(u32),
    /// The bit pattern of a 64-bit float.
    Float8(u64),
    /// An object identifier.
    Oid(u32),
    /// UTF-8 text.
    Text(String),
    /// A JSON document, rendered to its canonical text form.
    Json(String),
    /// A decimal: `mantissa / 10^scale`.
    Numeric { mantissa: i128, scale: u32 },
    /// Days since 1970-01-01.
    Date(i32),
    /// Microseconds since the Unix epoch, without a time zone.
    Timestamp(i64),
    /// Microseconds since the Unix epoch, in UTC.
    TimestampTz(i64),
    /// An SQL NULL.
    Null,
    /// A value of a type the converter does not decode.
    Opaque,
}

/// One schema column: its name and its declared database type.
#[derive(Clone, Debug, PartialEq, Eq)]
pub struct Column {
    /// The column's name.
    pub name: String,
    /// The column's declared database type.
    pub ctype: ColumnType,
}

/// A batch of rows sharing one schema.
#[derive(Clone, Debug, PartialEq, Eq)]
pub struct RowBatch {
    /// The shared schema, in column order.
    pub columns: Vec<Column>,
    /// The rows; each row holds one cell per schema column.
    pub rows: Vec<Vec<CellValue>>,
}

impl RowBatch {
    /// The batch is rectangular: every row has exactly one cell per column.
    pub open spec fn wf(&self) -> bool {
        forall|i: int|
            0 <= i < self.rows@.len() ==> (#[trigger] self.rows@[i])@.len()
                == self.columns@.len()
    }
}

/// The types a frame column can hold.
#[derive(Clone, Copy, Debug, PartialEq, Eq)]
pub enum FrameType {
    /// A single-byte "char".
    Char,
    /// A 16-bit integer.
    Int2,
    /// A 32-bit integer.
    Int4,
    /// A 64-bit integer.
    Int8,
    /// The bit pattern of a 32-bit float.
    Float4,
    /// The bit pattern of a 64-bit float.
    Float8,
    /// An object identifier.
    Oid,
    /// UTF-8 text.
    Text,
    /// Days since 1970-01-01.
    Date,
    /// Microseconds since the Unix epoch, without a time zone.
    Timestamp,
    /// Microseconds since the Unix epoch, in UTC.
    TimestampTz,
}

/// One typed frame value.
#[derive(Clone, Debug, PartialEq, Eq)]
pub enum FrameValue {
    /// A single-byte "char".
    Char(i8),
    /// A 16-bit integer.
    Int2(i16),
    /// A 32-bit integer.
    Int4(i32),
    /// A 64-bit integer.
    Int8(i64),
    /// The bit pattern of a 32-bit float.
    Float4(u32),
    /// The bit pattern of a 64-bit float.
    Float8(u64),
    /// An object identifier.
    Oid(u32),
    /// UTF-8 text.
    Text(String),
    /// Days since 1970-01-01.
    Date(i32),
    /// Microseconds since the Unix epoch, without a time zone.
    Timestamp(i64),
    /// Microseconds since the Unix epoch, in UTC.
    TimestampTz(i64),
}

/// `v` carries the type `t`.
pub open spec fn value_has_type(v: FrameValue, t: FrameType) -> bool {
    match v {
        FrameValue::Char(_) => t == FrameType::Char,
        FrameValue::Int2(_) => t == FrameType::Int2,
        FrameValue::Int4(_) => t == FrameType::Int4,
        FrameValue::Int8(_) => t == FrameType::Int8,
        FrameValue::Float4(_) => t == FrameType::Float4,
        FrameValue::Float8(_) => t == FrameType::Float8,
        FrameValue::Oid(_) => t == FrameType::Oid,
        FrameValue::Text(_) => t == FrameType::Text,
        FrameValue::Date(_) => t == FrameType::Date,
        FrameValue::Timestamp(_) => t == FrameType::Timestamp,
        FrameValue::TimestampTz(_) => t == FrameType::TimestampTz,
    }
}

/// One named, typed frame column: a value sequence with a parallel
/// validity marker (`None` is a null slot).
#[derive(Clone, Debug, PartialEq, Eq)]
pub struct Field {
    /// The column's name.
    pub name: String,
    /// The type every present value carries.
    pub ftype: FrameType,
    /// The values, one per row; `None` marks a null.
    pub values: Vec<Option<FrameValue>>,
}

impl Field {
    /// Every present value carries the field's type.
    pub open spec fn wf(&self) -> bool {
        forall|i: int|
            0 <= i < self.values@.len() ==> ((#[trigger] self.values@[i]) matches Some(v)
                ==> value_has_type(v, self.ftype))
    }
}

/// The typed, columnar output of conversion: named fields of equal length,
/// optionally tagged with the identifier of a streaming channel that can
/// keep the data current.
#[derive(Clone, Debug, PartialEq, Eq)]
pub struct Frame {
    /// The frame's name.
    pub name: String,
    /// The identifier of the channel a caller can subscribe to.
    pub channel: Option<String>,
    /// The columns, in schema order after the two leading metadata columns.
    pub fields: Vec<Field>,
}

impl Frame {
    /// The number of rows: the length all fields share.
    pub open spec fn n_rows(&self) -> nat {
        if self.fields@.len() == 0 {
            0
        } else {
            self.fields@[0].values@.len()
        }
    }

    /// Every field is well formed and every field has the same length.
    pub open spec fn wf(&self) -> bool {
        forall|j: int|
            0 <= j < self.fields@.len() ==> (#[trigger] self.fields@[j]).wf()
                && self.fields@[j].values@.len() == self.n_rows()
    }

    /// Tag the frame with the channel a caller should subscribe to for
    /// streaming updates of the same data.
    pub fn set_channel(&mut self, channel: String)
        ensures
            final(self).channel == Some(channel),
            final(self).name == old(self).name,
            final(self).fields == old(self).fields,
    {
        self.channel = Some(channel);
    }
}

/// `mantissa / 10^scale`, with any fractional part truncated toward zero.
pub open spec fn numeric_trunc(mantissa: int, scale: nat) -> int {
    if mantissa >= 0 {
        mantissa / pow(10, scale)
    } else {
        -((-mantissa) / pow(10, scale))
    }
}

/// The truncated decimal fits a 64-bit integer.
pub open spec fn numeric_fits_i64(mantissa: int, scale: nat) -> bool {
    i64::MIN <= numeric_trunc(mantissa, scale) <= i64::MAX
}

/// Truncate the fractional precision of a decimal, given as a mantissa and
/// a base-ten scale, to a 64-bit integer. Returns `None` exactly when the
/// truncated value overflows an `i64`.
pub fn numeric_to_i64(mantissa: i128, scale: u32) -> (r: Option<i64>)
    ensures
        r == if numeric_fits_i64(mantissa as int, scale as nat) {
            Some(numeric_trunc(mantissa as int, scale as nat) as i64)
        } else {
            None::<i64>
        },
{
    let mag: u128 = if mantissa >= 0 {
        mantissa as u128
    } else if mantissa == i128::MIN {
        170141183460469231731687303715884105728u128
    } else {
        (-mantissa) as u128
    };
    proof {
        assert(mag == if mantissa as int >= 0 {
            mantissa as int
        } else {
            -(mantissa as int)
        });
    }
    let mut p: u128 = 1;
    let mut k: u32 = 0;
    proof {
        vstd::arithmetic::power::lemma_pow0(10);
    }
    while k < scale
        invariant
            k <= scale,
            p == pow(10, k as nat),
            p >= 1,
            mag as int == if mantissa as int >= 0 {
                mantissa as int
            } else {
                -(mantissa as int)
            },
        decreases scale - k,
    {
        if p > u128::MAX / 10 {
            // 10 * p overflows, so 10^scale exceeds any possible mantissa
            // magnitude and the truncated value is zero.
            proof {
                reveal(vstd::arithmetic::power::pow);
                vstd::arithmetic::power::lemma_pow_positive(10, scale as nat);
                assert((u128::MAX as int) < 10 * p);
                assert(10 * p == pow(10, (k + 1) as nat));
                vstd::arithmetic::power::lemma_pow_increases(10, (k + 1) as nat, scale as nat);
                assert(mag < pow(10, scale as nat));
                vstd::arithmetic::div_mod::lemma_basic_div(mag as int, pow(10, scale as nat));
                assert(numeric_trunc(mantissa as int, scale as nat) == 0);
            }
            return Some(0);
        }
        proof {
            reveal(vstd::arithmetic::power::pow);
            assert(10 * p == pow(10, (k + 1) as nat));
        }
        p = p * 10;
        k += 1;
    }
    let q: u128 = mag / p;
    proof {
        vstd::arithmetic::power::lemma_pow_positive(10, scale as nat);
        assert(q == mag as int / pow(10, scale as nat));
        if mantissa >= 0 {
            assert(numeric_trunc(mantissa as int, scale as nat) == q);
        } else {
            assert(numeric_trunc(mantissa as int, scale as nat) == -(q as int));
        }
    }
    if mantissa >= 0 {
        if q <= 9223372036854775807u128 {
            Some(q as i64)
        } else {
            None
        }
    } else {
        if q <= 9223372036854775807u128 {
            Some(-(q as i64))
        } else if q == 9223372036854775808u128 {
            Some(i64::MIN)
        } else {
            None
        }
    }
}

/// Does `cell` decode under the declared type `ctype`? An unknown type
/// accepts anything (its column degrades to a diagnostic text column); a
/// known type demands a value of exactly its own kind, so a null or a
/// mismatched value is a conversion error.
pub open spec fn cell_ok(ctype: ColumnType, cell: CellValue) -> bool {
    match ctype {
        ColumnType::Char => cell is Char,
        ColumnType::Int2 => cell is Int2,
        ColumnType::Int4 => cell is Int4,
        ColumnType::Int8 => cell is Int8,
        ColumnType::Float4 => cell is Float4,
        ColumnType::Float8 => cell is Float8,
        ColumnType::Oid => cell is Oid,
        ColumnType::Text => cell is Text,
        ColumnType::Varchar => cell is Text,
        ColumnType::Json => cell is Json,
        ColumnType::Jsonb => cell is Json,
        ColumnType::Numeric => cell is Numeric,
        ColumnType::Date => cell is Date,
        ColumnType::Timestamp => cell is Timestamp,
        ColumnType::TimestampTz => cell is TimestampTz,
        ColumnType::Other(_) => true,
    }
}

/// The value a decoded cell contributes to its column. Only a decimal can
/// come out null: truncating it to 64 bits fails on overflow, and that
/// failure yields a null rather than aborting the batch.
pub open spec fn cell_value_spec(cell: CellValue) -> Option<FrameValue> {
    match cell {
        CellValue::Char(v) => Some(FrameValue::Char(v)),
        CellValue::Int2(v) => Some(FrameValue::Int2(v)),
        CellValue::Int4(v) => Some(FrameValue::Int4(v)),
        CellValue::Int8(v) => Some(FrameValue::Int8(v)),
        CellValue::Float4(v) => Some(FrameValue::Float4(v)),
        CellValue::Float8(v) => Some(FrameValue::Float8(v)),
        CellValue::Oid(v) => Some(FrameValue::Oid(v)),
        CellValue::Text(s) => Some(FrameValue::Text(s)),
        CellValue::Json(s) => Some(FrameValue::Text(s)),
        CellValue::Numeric { mantissa, scale } => if numeric_fits_i64(
            mantissa as int,
            scale as nat,
        ) {
            Some(FrameValue::Int8(numeric_trunc(mantissa as int, scale as nat) as i64))
        } else {
            None
        },
        CellValue::Date(v) => Some(FrameValue::Date(v)),
        CellValue::Timestamp(v) => Some(FrameValue::Timestamp(v)),
        CellValue::TimestampTz(v) => Some(FrameValue::TimestampTz(v)),
        CellValue::Null => None,
        CellValue::Opaque => None,
    }
}

/// The value the designated ingestion-time column contributes: its decimal
/// cell read as epoch milliseconds and carried as epoch microseconds, or
/// null when either the truncation or the change of unit overflows.
pub open spec fn ts_cell_value_spec(cell: CellValue) -> Option<FrameValue> {
    match cell {
        CellValue::Numeric { mantissa, scale } => {
            let ms = numeric_trunc(mantissa as int, scale as nat);
            if numeric_fits_i64(mantissa as int, scale as nat) && i64::MIN <= 1000 * ms
                <= i64::MAX {
                Some(FrameValue::TimestampTz((1000 * ms) as i64))
            } else {
                None
            }
        },
        _ => None,
    }
}

/// The frame column type produced for a declared database type.
pub open spec fn column_value_type(ctype: ColumnType) -> FrameType {
    match ctype {
        ColumnType::Char => FrameType::Char,
        ColumnType::Int2 => FrameType::Int2,
        ColumnType::Int4 => FrameType::Int4,
        ColumnType::Int8 => FrameType::Int8,
        ColumnType::Float4 => FrameType::Float4,
        ColumnType::Float8 => FrameType::Float8,
        ColumnType::Oid => FrameType::Oid,
        ColumnType::Text => FrameType::Text,
        ColumnType::Varchar => FrameType::Text,
        ColumnType::Json => FrameType::Text,
        ColumnType::Jsonb => FrameType::Text,
        ColumnType::Numeric => FrameType::Int8,
        ColumnType::Date => FrameType::Date,
        ColumnType::Timestamp => FrameType::Timestamp,
        ColumnType::TimestampTz => FrameType::TimestampTz,
        ColumnType::Other(_) => FrameType::Text,
    }
}

/// Column `j` of the batch, as the sequence of its cells from top to
/// bottom.
pub open spec fn column_cells(batch: RowBatch, j: int) -> Seq<CellValue> {
    Seq::new(batch.rows@.len(), |i: int| batch.rows@[i]@[j])
}

/// Every cell of the column decodes. The designated ingestion-time column
/// is read as a decimal whatever its declared type, as the row decoder
/// does.
pub open spec fn column_ok(col: Column, cells: Seq<CellValue>) -> bool {
    if col.name@ == "mz_timestamp"@ {
        forall|i: int| 0 <= i < cells.len() ==> (#[trigger] cells[i]) is Numeric
    } else {
        forall|i: int| 0 <= i < cells.len() ==> cell_ok(col.ctype, #[trigger] cells[i])
    }
}

/// Every column of the batch decodes.
pub open spec fn batch_convertible(batch: RowBatch) -> bool {
    forall|j: int|
        0 <= j < batch.columns@.len() ==> column_ok(
            #[trigger] batch.columns@[j],
            column_cells(batch, j),
        )
}

/// The field produced for schema column `col` whose cells are `cells`.
pub open spec fn field_matches_column(field: Field, col: Column, cells: Seq<CellValue>) -> bool {
    field.name@ == col.name@ && field.values@.len() == cells.len() && if col.name@
        == "mz_timestamp"@ {
        field.ftype == FrameType::TimestampTz && forall|i: int|
            0 <= i < cells.len() ==> #[trigger] field.values@[i] == ts_cell_value_spec(cells[i])
    } else {
        field.ftype == column_value_type(col.ctype) && match col.ctype {
            ColumnType::Other(t) => forall|i: int|
                0 <= i < cells.len() ==> ((#[trigger] field.values@[i]) matches Some(
                    FrameValue::Text(s),
                ) && s@ == "unsupported column type "@ + t@),
            _ => forall|i: int|
                0 <= i < cells.len() ==> #[trigger] field.values@[i] == cell_value_spec(cells[i]),
        }
    }
}

/// A field synthesized for a batch whose schema lacks the ingestion-time
/// column: every row gets the same, non-null wall-clock timestamp.
pub open spec fn synthesized_timestamp_field(field: Field, n: nat, now_micros: i64) -> bool {
    field.name@ == "mz_timestamp"@ && field.ftype == FrameType::TimestampTz && field.values@.len()
        == n && forall|i: int|
        0 <= i < n ==> #[trigger] field.values@[i] == Some(FrameValue::TimestampTz(now_micros))
}

/// A field synthesized for a batch whose schema lacks the
/// change-multiplicity column: an all-null 64-bit integer column.
pub open spec fn synthesized_diff_field(field: Field, n: nat) -> bool {
    field.name@ == "mz_diff"@ && field.ftype == FrameType::Int8 && field.values@.len() == n
        && forall|i: int| 0 <= i < n ==> (#[trigger] field.values@[i]) is None
}

/// The schema holds a column of this name.
pub open spec fn has_column(cols: Seq<Column>, name: Seq<char>) -> bool {
    exists|j: int| 0 <= j < cols.len() && (#[trigger] cols[j]).name@ == name
}

/// What converting `batch` at wall-clock `now_micros` produces: nothing for
/// an empty batch (its schema is unknowable); otherwise the synthesized
/// metadata columns that the schema lacks, followed by one field per schema
/// column, in order.
pub open spec fn converted_fields_ok(batch: RowBatch, now_micros: i64, fields: Seq<Field>) -> bool {
    let n = batch.rows@.len();
    let cols = batch.columns@;
    if n == 0 {
        fields.len() == 0
    } else {
        let synth_ts = !has_column(cols, "mz_timestamp"@);
        let synth_diff = !has_column(cols, "mz_diff"@);
        let lead = (if synth_ts {
            1int
        } else {
            0int
        }) + (if synth_diff {
            1int
        } else {
            0int
        });
        fields.len() == lead + cols.len() && (synth_ts ==> synthesized_timestamp_field(
            fields[0],
            n,
            now_micros,
        )) && (synth_diff ==> synthesized_diff_field(
            fields[
                if synth_ts {
                    1int
                } else {
                    0int
                }
            ],
            n,
        )) && forall|j: int|
            0 <= j < cols.len() ==> field_matches_column(
                #[trigger] fields[lead + j],
                cols[j],
                column_cells(batch, j),
            )
    }
}

/// What the whole converted frame looks like: named `tail`, not yet tagged
/// with a channel, holding exactly the converted fields.
pub open spec fn converted_frame_ok(batch: RowBatch, now_micros: i64, frame: Frame) -> bool {
    frame.name@ == "tail"@ && frame.channel is None && converted_fields_ok(
        batch,
        now_micros,
        frame.fields@,
    )
}

/// A cell that decodes under a known type yields a value of that column's
/// frame type.
proof fn lemma_cell_value_typed(ctype: ColumnType, cell: CellValue)
    requires
        cell_ok(ctype, cell),
        !(ctype is Other),
    ensures
        cell_value_spec(cell) matches Some(v) ==> value_has_type(v, column_value_type(ctype)),
{
}

/// Extending the scanned prefix by one column either finds the name there
/// or leaves the question to the prefix.
proof fn lemma_has_column_extend(cols: Seq<Column>, j: int, name: Seq<char>)
    requires
        0 <= j < cols.len(),
    ensures
        has_column(cols.take(j + 1), name) == (has_column(cols.take(j), name) || cols[j].name@
            == name),
{
    if has_column(cols.take(j), name) {
        let w = choose|w: int| 0 <= w < j && (#[trigger] cols.take(j)[w]).name@ == name;
        assert(cols.take(j + 1)[w].name@ == name);
    }
    if cols[j].name@ == name {
        assert(cols.take(j + 1)[j].name@ == name);
    }
    if has_column(cols.take(j + 1), name) {
        let w = choose|w: int| 0 <= w < j + 1 && (#[trigger] cols.take(j + 1)[w]).name@ == name;
        if w < j {
            assert(cols.take(j)[w].name@ == name);
        }
    }
}

/// Decode one cell under its column's declared (known) type; `None` means
/// the cell does not decode under that type.
fn convert_cell(ctype: &ColumnType, cell: &CellValue) -> (r: Option<Option<FrameValue>>)
    requires
        !(ctype is Other),
    ensures
        match r {
            Some(v) => cell_ok(*ctype, *cell) && v == cell_value_spec(*cell),
            None => !cell_ok(*ctype, *cell),
        },
{
    match (ctype, cell) {
        (ColumnType::Char, CellValue::Char(v)) => Some(Some(FrameValue::Char(*v))),
        (ColumnType::Int2, CellValue::Int2(v)) => Some(Some(FrameValue::Int2(*v))),
        (ColumnType::Int4, CellValue::Int4(v)) => Some(Some(FrameValue::Int4(*v))),
        (ColumnType::Int8, CellValue::Int8(v)) => Some(Some(FrameValue::Int8(*v))),
        (ColumnType::Float4, CellValue::Float4(v)) => Some(Some(FrameValue::Float4(*v))),
        (ColumnType::Float8, CellValue::Float8(v)) => Some(Some(FrameValue::Float8(*v))),
        (ColumnType::Oid, CellValue::Oid(v)) => Some(Some(FrameValue::Oid(*v))),
        (ColumnType::Text, CellValue::Text(s)) => Some(Some(FrameValue::Text(s.clone()))),
        (ColumnType::Varchar, CellValue::Text(s)) => Some(Some(FrameValue::Text(s.clone()))),
        (ColumnType::Json, CellValue::Json(s)) => Some(Some(FrameValue::Text(s.clone()))),
        (ColumnType::Jsonb, CellValue::Json(s)) => Some(Some(FrameValue::Text(s.clone()))),
        (ColumnType::Numeric, CellValue::Numeric { mantissa, scale }) => match numeric_to_i64(
            *mantissa,
            *scale,
        ) {
            Some(v) => Some(Some(FrameValue::Int8(v))),
            None => Some(None),
        },
        (ColumnType::Date, CellValue::Date(v)) => Some(Some(FrameValue::Date(*v))),
        (ColumnType::Timestamp, CellValue::Timestamp(v)) => Some(
            Some(FrameValue::Timestamp(*v)),
        ),
        (ColumnType::TimestampTz, CellValue::TimestampTz(v)) => Some(
            Some(FrameValue::TimestampTz(*v)),
        ),
        _ => None,
    }
}

/// The frame column type for a declared type, as an executable choice.
fn column_frame_type(ctype: &ColumnType) -> (t: FrameType)
    ensures
        t == column_value_type(*ctype),
{
    match ctype {
        ColumnType::Char => FrameType::Char,
        ColumnType::Int2 => FrameType::Int2,
        ColumnType::Int4 => FrameType::Int4,
        ColumnType::Int8 => FrameType::Int8,
        ColumnType::Float4 => FrameType::Float4,
        ColumnType::Float8 => FrameType::Float8,
        ColumnType::Oid => FrameType::Oid,
        ColumnType::Text => FrameType::Text,
        ColumnType::Varchar => FrameType::Text,
        ColumnType::Json => FrameType::Text,
        ColumnType::Jsonb => FrameType::Text,
        ColumnType::Numeric => FrameType::Int8,
        ColumnType::Date => FrameType::Date,
        ColumnType::Timestamp => FrameType::Timestamp,
        ColumnType::TimestampTz => FrameType::TimestampTz,
        ColumnType::Other(_) => FrameType::Text,
    }
}

/// Build the synthesized ingestion-time field: the wall clock, for every
/// row.
fn synth_timestamp_field(n: usize, now_micros: i64) -> (f: Field)
    ensures
        synthesized_timestamp_field(f, n as nat, now_micros),
        f.wf(),
{
    let mut values: Vec<Option<FrameValue>> = Vec::new();
    let mut i: usize = 0;
    while i < n
        invariant
            i <= n,
            values@.len() == i,
            forall|k: int|
                0 <= k < i ==> #[trigger] values@[k] == Some(
                    FrameValue::TimestampTz(now_micros),
                ),
        decreases n - i,
    {
        values.push(Some(FrameValue::TimestampTz(now_micros)));
        i += 1;
    }
    Field { name: "mz_timestamp".to_owned(), ftype: FrameType::TimestampTz, values }
}

/// Build the synthesized change-multiplicity field: all null.
fn synth_diff_field(n: usize) -> (f: Field)
    ensures
        synthesized_diff_field(f, n as nat),
        f.wf(),
{
    let mut values: Vec<Option<FrameValue>> = Vec::new();
    let mut i: usize = 0;
    while i < n
        invariant
            i <= n,
            values@.len() == i,
            forall|k: int| 0 <= k < i ==> (#[trigger] values@[k]) is None,
        decreases n - i,
    {
        values.push(None);
        i += 1;
    }
    Field { name: "mz_diff".to_owned(), ftype: FrameType::Int8, values }
}

/// Convert a batch of rows to a frame, stamping rows of a schema without
/// the ingestion-time column with the given wall-clock microseconds.
///
/// All of the rows must have the same columns (the batch is rectangular).
///
/// If the rows do not hold the `mz_timestamp` or `mz_diff` columns they
/// are added automatically, using `now_micros` and nulls as the values
/// respectively. An empty batch gives an empty, fieldless frame: without a
/// row the schema is unknowable, and callers treat a fieldless frame as
/// "no data yet". A value of a known type that does not decode as that
/// type fails the whole batch with a data error.
pub fn rows_to_frame_at(batch: &RowBatch, now_micros: i64) -> (r: Result<Frame, Error>)
    requires
        batch.wf(),
    ensures
        match r {
            Ok(frame) => batch_convertible(*batch) && converted_frame_ok(
                *batch,
                now_micros,
                frame,
            ) && frame.wf(),
            Err(e) => !batch_convertible(*batch) && e matches Error::Data(_),
        },
{
    let n = batch.rows.len();
    if n == 0 {
        let frame = Frame { name: "tail".to_owned(), channel: None, fields: Vec::new() };
        return Ok(frame);
    }
    let ncols = batch.columns.len();

    // Which metadata columns the schema already holds.
    let mut has_ts = false;
    let mut has_diff = false;
    let mut j: usize = 0;
    while j < ncols
        invariant
            j <= ncols,
            ncols == batch.columns@.len(),
            has_ts == has_column(batch.columns@.take(j as int), "mz_timestamp"@),
            has_diff == has_column(batch.columns@.take(j as int), "mz_diff"@),
        decreases ncols - j,
    {
        proof {
            lemma_has_column_extend(batch.columns@, j as int, "mz_timestamp"@);
            lemma_has_column_extend(batch.columns@, j as int, "mz_diff"@);
        }
        if str_eq(batch.columns[j].name.as_str(), "mz_timestamp") {
            has_ts = true;
        }
        if str_eq(batch.columns[j].name.as_str(), "mz_diff") {
            has_diff = true;
        }
        j += 1;
    }
    proof {
        assert(batch.columns@.take(ncols as int) =~= batch.columns@);
    }

    let mut fields: Vec<Field> = Vec::new();
    if !has_ts {
        fields.push(synth_timestamp_field(n, now_micros));
    }
    if !has_diff {
        fields.push(synth_diff_field(n));
    }
    let ghost lead = fields@.len() as int;

    let mut j: usize = 0;
    while j < ncols
        invariant
            j <= ncols,
            ncols == batch.columns@.len(),
            n == batch.rows@.len(),
            n > 0,
            batch.wf(),
            has_ts == has_column(batch.columns@, "mz_timestamp"@),
            has_diff == has_column(batch.columns@, "mz_diff"@),
            lead == (if !has_ts {
                1int
            } else {
                0int
            }) + (if !has_diff {
                1int
            } else {
                0int
            }),
            fields@.len() == lead + j,
            !has_ts ==> synthesized_timestamp_field(fields@[0], n as nat, now_micros),
            !has_diff ==> synthesized_diff_field(
                fields@[
                    if !has_ts {
                        1int
                    } else {
                        0int
                    }
                ],
                n as nat,
            ),
            forall|jj: int|
                0 <= jj < j ==> column_ok(
                    #[trigger] batch.columns@[jj],
                    column_cells(*batch, jj),
                ) && field_matches_column(
                    fields@[lead + jj],
                    batch.columns@[jj],
                    column_cells(*batch, jj),
                ),
            forall|jj: int|
                0 <= jj < fields@.len() ==> (#[trigger] fields@[jj]).wf()
                    && fields@[jj].values@.len() == n,
        decreases ncols - j,
    {
        let col = &batch.columns[j];
        let ghost cells = column_cells(*batch, j as int);
        proof {
            assert(cells.len() == n);
        }
        let mut values: Vec<Option<FrameValue>> = Vec::new();
        let ftype: FrameType;
        if str_eq(col.name.as_str(), "mz_timestamp") {
            ftype = FrameType::TimestampTz;
            let mut i: usize = 0;
            while i < n
                invariant
                    i <= n,
                    n == batch.rows@.len(),
                    0 <= j < batch.columns@.len(),
                    batch.wf(),
                    cells == column_cells(*batch, j as int),
                    batch.columns@[j as int].name@ == "mz_timestamp"@,
                    values@.len() == i,
                    forall|k: int|
                        0 <= k < i ==> (#[trigger] cells[k]) is Numeric && values@[k]
                            == ts_cell_value_spec(cells[k]),
                decreases n - i,
            {
                let row = &batch.rows[i];
                match &row[j] {
                    CellValue::Numeric { mantissa, scale } => {
                        match numeric_to_i64(*mantissa, *scale) {
                            Some(ms) => {
                                if -9223372036854775i64 <= ms && ms <= 9223372036854775i64 {
                                    values.push(Some(FrameValue::TimestampTz(ms * 1000)));
                                } else {
                                    values.push(None);
                                }
                            },
                            None => values.push(None),
                        }
                    },
                    _ => {
                        proof {
                            assert(cells[i as int] == batch.rows@[i as int]@[j as int]);
                            assert(!column_ok(batch.columns@[j as int], cells));
                            assert(!batch_convertible(*batch));
                        }
                        return Err(
                            Error::Data(
                                "a column value did not decode as its declared type".to_owned(),
                            ),
                        );
                    },
                }
                i += 1;
            }
        } else {
            match &col.ctype {
                ColumnType::Other(t) => {
                    ftype = FrameType::Text;
                    let mut diag = String::new();
                    diag.append("unsupported column type ");
                    diag.append(t.as_str());
                    let mut i: usize = 0;
                    while i < n
                        invariant
                            i <= n,
                            values@.len() == i,
                            diag@ == "unsupported column type "@ + t@,
                            forall|k: int|
                                0 <= k < i ==> ((#[trigger] values@[k]) matches Some(
                                    FrameValue::Text(s),
                                ) && s@ == "unsupported column type "@ + t@),
                        decreases n - i,
                    {
                        values.push(Some(FrameValue::Text(diag.clone())));
                        i += 1;
                    }
                },
                _ => {
                    ftype = column_frame_type(&col.ctype);
                    let mut i: usize = 0;
                    while i < n
                        invariant
                            i <= n,
                            n == batch.rows@.len(),
                            0 <= j < batch.columns@.len(),
                            batch.wf(),
                            cells == column_cells(*batch, j as int),
                            batch.columns@[j as int].name@ != "mz_timestamp"@,
                            !((#[trigger] batch.columns@[j as int].ctype) is Other),
                            col == &batch.columns@[j as int],
                            ftype == column_value_type(col.ctype),
                            values@.len() == i,
                            forall|k: int|
                                0 <= k < i ==> cell_ok(
                                    batch.columns@[j as int].ctype,
                                    #[trigger] cells[k],
                                ) && values@[k] == cell_value_spec(cells[k]),
                        decreases n - i,
                    {
                        let row = &batch.rows[i];
                        match convert_cell(&col.ctype, &row[j]) {
                            Some(v) => {
                                proof {
                                    assert(cells[i as int] == batch.rows@[i as int]@[j as int]);
                                }
                                values.push(v);
                            },
                            None => {
                                proof {
                                    assert(cells[i as int] == batch.rows@[i as int]@[j as int]);
                                    assert(!column_ok(batch.columns@[j as int], cells));
                                    assert(!batch_convertible(*batch));
                                }
                                return Err(
                                    Error::Data(
                                        "a column value did not decode as its declared type".to_owned(),
                                    ),
                                );
                            },
                        }
                        i += 1;
                    }
                },
            }
        }
        let field = Field { name: col.name.clone(), ftype, values };
        proof {
            assert(field.name@ == batch.columns@[j as int].name@);
            assert(field_matches_column(field, batch.columns@[j as int], cells));
            assert forall|k: int|
                0 <= k < field.values@.len() implies ((#[trigger] field.values@[k]) matches Some(v)
                ==> value_has_type(v, field.ftype)) by {
                if batch.columns@[j as int].name@ == "mz_timestamp"@ {
                } else {
                    match batch.columns@[j as int].ctype {
                        ColumnType::Other(_) => {},
                        _ => {
                            lemma_cell_value_typed(batch.columns@[j as int].ctype, cells[k]);
                        },
                    }
                }
            }
            assert(field.wf());
        }
        fields.push(field);
        j += 1;
    }
    let frame = Frame { name: "tail".to_owned(), channel: None, fields };
    proof {
        assert(converted_fields_ok(*batch, now_micros, frame.fields@));
        assert(frame.n_rows() == n as nat);
        assert(frame.wf());
    }
    Ok(frame)
}

/// Relies on chrono::Utc::now for the current wall-clock time, read as
/// microseconds since the Unix epoch. The result depends on the clock, so
/// nothing is promised of it.
#[verifier::external_body]
fn now_utc_micros() -> i64 {
    chrono::Utc::now().timestamp_micros()
}

/// Convert a batch of rows to a frame, stamping any synthesized
/// ingestion-time column with the current wall-clock time.
pub fn rows_to_frame(batch: &RowBatch) -> (r: Result<Frame, Error>)
    requires
        batch.wf(),
    ensures
        r is Ok <==> batch_convertible(*batch),
        match r {
            Ok(frame) => frame.wf() && exists|now_micros: i64|
                converted_frame_ok(*batch, now_micros, frame),
            Err(e) => e matches Error::Data(_),
        },
{
    let now = now_utc_micros();
    let r = rows_to_frame_at(batch, now);
    proof {
        match &r {
            Ok(frame) => {
                assert(converted_frame_ok(*batch, now, *frame));
                assert(exists|now_micros: i64| converted_frame_ok(*batch, now_micros, *frame));
            },
            Err(_) => {},
        }
    }
    r
}

} // verus!
