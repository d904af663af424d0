//! Parquet cell values and the estimate of the memory they occupy.

use vstd::prelude::*;
use vstd::utf8::encode_utf8;

verus! {

/// A value of one Parquet cell.
///
/// Floating-point payloads are carried as their IEEE-754 bit patterns, and
/// a 256-bit decimal as its little-endian two's-complement bytes.
#[derive(Debug, PartialEq)]
pub enum ParquetValue {
    Null,
    Boolean(bool),
    Int8(i8),
    Int16(i16),
    Int32(i32),
    Int64(i64),
    UInt8(u8),
    UInt16(u16),
    UInt32(u32),
    UInt64(u64),
    Float16(u32),
    Float32(u32),
    Float64(u64),
    String(String),
    Bytes(Vec<u8>),
    Uuid(u128),
    Date32(i32),
    Date64(i64),
    Decimal128(i128, i8),
    Decimal256(Vec<u8>, i8),
    TimestampSecond(i64, Option<String>),
    TimestampMillis(i64, Option<String>),
    TimestampMicros(i64, Option<String>),
    TimestampNanos(i64, Option<String>),
    TimeMillis(i32),
    TimeMicros(i64),
    TimeNanos(i64),
    List(Vec<ParquetValue>),
    MapEntries(Vec<(ParquetValue, ParquetValue)>),
    Record(Vec<(String, ParquetValue)>),
}

/// Number of bytes of the UTF-8 encoding of a text.
pub open spec fn text_bytes(s: Seq<char>) -> nat {
    encode_utf8(s).len()
}

/// Estimated size of an optional time-zone name.
pub open spec fn tz_size(tz: Option<String>) -> nat {
    match tz {
        Some(s) => text_bytes(s@) + 24,
        None => 0,
    }
}

/// Estimated memory size of a value, in bytes.
pub open spec fn value_size(v: ParquetValue) -> nat
    decreases v, 1nat,
{
    match v {
        ParquetValue::Null => 1,
        ParquetValue::Boolean(_) => 1,
        ParquetValue::Int8(_) => 1,
        ParquetValue::Int16(_) => 2,
        ParquetValue::Int32(_) => 4,
        ParquetValue::Int64(_) => 8,
        ParquetValue::UInt8(_) => 1,
        ParquetValue::UInt16(_) => 2,
        ParquetValue::UInt32(_) => 4,
        ParquetValue::UInt64(_) => 8,
        ParquetValue::Float16(_) => 4,
        ParquetValue::Float32(_) => 4,
        ParquetValue::Float64(_) => 8,
        ParquetValue::String(s) => text_bytes(s@) + 24,
        ParquetValue::Bytes(b) => b@.len() + 24,
        ParquetValue::Uuid(_) => 16,
        ParquetValue::Date32(_) => 4,
        ParquetValue::Date64(_) => 8,
        ParquetValue::Decimal128(_, _) => 17,
        ParquetValue::Decimal256(_, _) => 33,
        ParquetValue::TimestampSecond(_, tz) => 8 + tz_size(tz),
        ParquetValue::TimestampMillis(_, tz) => 8 + tz_size(tz),
        ParquetValue::TimestampMicros(_, tz) => 8 + tz_size(tz),
        ParquetValue::TimestampNanos(_, tz) => 8 + tz_size(tz),
        ParquetValue::TimeMillis(_) => 4,
        ParquetValue::TimeMicros(_) => 8,
        ParquetValue::TimeNanos(_) => 8,
        ParquetValue::List(items) => 24 + row_size(items@),
        ParquetValue::MapEntries(entries) => 48 + entries_size(entries@),
        ParquetValue::Record(fields) => 48 + fields_size(fields@),
    }
}

/// Sum of the estimated sizes of a sequence of values.
pub open spec fn row_size(s: Seq<ParquetValue>) -> nat
    decreases s, 0nat,
{
    if s.len() == 0 {
        0
    } else {
        row_size(s.drop_last()) + value_size(s.last())
    }
}

/// Sum of the estimated sizes of the keys and values of map entries.
pub open spec fn entries_size(s: Seq<(ParquetValue, ParquetValue)>) -> nat
    decreases s, 0nat,
{
    if s.len() == 0 {
        0
    } else {
        entries_size(s.drop_last()) + value_size(s.last().0) + value_size(s.last().1)
    }
}

/// Sum of the estimated sizes of record fields: name bytes, 24 bytes of
/// overhead per name, and the value.
pub open spec fn fields_size(s: Seq<(String, ParquetValue)>) -> nat
    decreases s, 0nat,
{
    if s.len() == 0 {
        0
    } else {
        fields_size(s.drop_last()) + text_bytes(s.last().0@) + 24 + value_size(s.last().1)
    }
}

/// Every value is estimated at one byte at least.
pub proof fn law_value_size_positive(v: ParquetValue)
    ensures
        value_size(v) >= 1,
{
}

/// The estimate of two rows laid end to end is the sum of their estimates.
pub proof fn law_row_size_concat(a: Seq<ParquetValue>, b: Seq<ParquetValue>)
    ensures
        row_size(a + b) == row_size(a) + row_size(b),
    decreases b.len(),
{
    if b.len() == 0 {
        assert(a + b =~= a);
    } else {
        law_row_size_concat(a, b.drop_last());
        assert((a + b).drop_last() =~= a + b.drop_last());
    }
}

/// A list is estimated at 24 bytes plus the estimate of its items as a row;
/// a map at 48 bytes plus the estimates of every key and value; a record at
/// 48 bytes plus, for every field, its name's bytes, 24 bytes and its value.
pub proof fn law_nested_size(
    items: Vec<ParquetValue>,
    entries: Vec<(ParquetValue, ParquetValue)>,
    fields: Vec<(String, ParquetValue)>,
)
    ensures
        value_size(ParquetValue::List(items)) == 24 + row_size(items@),
        value_size(ParquetValue::MapEntries(entries)) == 48 + row_size(
            entries@.map_values(|e: (ParquetValue, ParquetValue)| e.0),
        ) + row_size(entries@.map_values(|e: (ParquetValue, ParquetValue)| e.1)),
        value_size(ParquetValue::Record(fields)) == 48 + fields_size(fields@),
{
    lemma_entries_split(entries@);
}

proof fn lemma_entries_split(es: Seq<(ParquetValue, ParquetValue)>)
    ensures
        entries_size(es) == row_size(es.map_values(|e: (ParquetValue, ParquetValue)| e.0))
            + row_size(es.map_values(|e: (ParquetValue, ParquetValue)| e.1)),
    decreases es.len(),
{
    if es.len() > 0 {
        lemma_entries_split(es.drop_last());
        assert(es.map_values(|e: (ParquetValue, ParquetValue)| e.0).drop_last() =~= es.drop_last().map_values(
            |e: (ParquetValue, ParquetValue)| e.0,
        ));
        assert(es.map_values(|e: (ParquetValue, ParquetValue)| e.1).drop_last() =~= es.drop_last().map_values(
            |e: (ParquetValue, ParquetValue)| e.1,
        ));
    }
}

/// Fixed-width values are estimated at their width in bytes: one for null,
/// booleans and 8-bit integers, two for 16-bit integers, four for 32-bit
/// integers, half and single floats, dates and millisecond times, eight for
/// 64-bit integers, doubles, 64-bit dates and finer times, sixteen for a
/// UUID, and the decimals their width plus one byte of scale.
pub proof fn law_fixed_width_sizes(
    b: bool,
    i8v: i8,
    i16v: i16,
    i32v: i32,
    i64v: i64,
    u8v: u8,
    u16v: u16,
    u32v: u32,
    u64v: u64,
    u: u128,
    d: i128,
    big: Vec<u8>,
    scale: i8,
)
    ensures
        value_size(ParquetValue::Null) == 1,
        value_size(ParquetValue::Boolean(b)) == 1,
        value_size(ParquetValue::Int8(i8v)) == 1,
        value_size(ParquetValue::Int16(i16v)) == 2,
        value_size(ParquetValue::Int32(i32v)) == 4,
        value_size(ParquetValue::Int64(i64v)) == 8,
        value_size(ParquetValue::UInt8(u8v)) == 1,
        value_size(ParquetValue::UInt16(u16v)) == 2,
        value_size(ParquetValue::UInt32(u32v)) == 4,
        value_size(ParquetValue::UInt64(u64v)) == 8,
        value_size(ParquetValue::Float16(u32v)) == 4,
        value_size(ParquetValue::Float32(u32v)) == 4,
        value_size(ParquetValue::Float64(u64v)) == 8,
        value_size(ParquetValue::Uuid(u)) == 16,
        value_size(ParquetValue::Date32(i32v)) == 4,
        value_size(ParquetValue::Date64(i64v)) == 8,
        value_size(ParquetValue::Decimal128(d, scale)) == 16 + 1,
        value_size(ParquetValue::Decimal256(big, scale)) == 32 + 1,
        value_size(ParquetValue::TimeMillis(i32v)) == 4,
        value_size(ParquetValue::TimeMicros(i64v)) == 8,
        value_size(ParquetValue::TimeNanos(i64v)) == 8,
{
}

/// A text is estimated at its UTF-8 bytes plus 24, and a byte string at
/// its length plus 24.
pub proof fn law_text_sizes(s: String, bytes: Vec<u8>)
    ensures
        value_size(ParquetValue::String(s)) == text_bytes(s@) + 24,
        value_size(ParquetValue::Bytes(bytes)) == bytes@.len() + 24,
{
}

/// A timestamp of any unit is estimated at 8 bytes, plus, when it carries a
/// time zone, the zone's UTF-8 bytes and 24 bytes of overhead.
pub proof fn law_timestamp_size(t: i64, zone: String)
    ensures
        value_size(ParquetValue::TimestampSecond(t, Some(zone))) == 8 + text_bytes(zone@) + 24,
        value_size(ParquetValue::TimestampMillis(t, Some(zone))) == 8 + text_bytes(zone@) + 24,
        value_size(ParquetValue::TimestampMicros(t, Some(zone))) == 8 + text_bytes(zone@) + 24,
        value_size(ParquetValue::TimestampNanos(t, Some(zone))) == 8 + text_bytes(zone@) + 24,
        value_size(ParquetValue::TimestampSecond(t, None)) == 8,
        value_size(ParquetValue::TimestampMillis(t, None)) == 8,
        value_size(ParquetValue::TimestampMicros(t, None)) == 8,
        value_size(ParquetValue::TimestampNanos(t, None)) == 8,
{
}

/// An empty row is estimated at nothing, and a row of one value at that
/// value's estimate.
pub proof fn law_row_size_unit(v: ParquetValue)
    ensures
        row_size(Seq::<ParquetValue>::empty()) == 0,
        row_size(seq![v]) == value_size(v),
{
    assert(seq![v].drop_last() =~= Seq::<ParquetValue>::empty());
}

/// The estimate of a non-empty prefix adds the last value of the prefix.
proof fn lemma_row_size_take(s: Seq<ParquetValue>, i: int)
    requires
        0 <= i < s.len(),
    ensures
        row_size(s.take(i + 1)) == row_size(s.take(i)) + value_size(s[i]),
{
    assert(s.take(i + 1).drop_last() =~= s.take(i));
}

/// The estimate of a prefix never exceeds the estimate of the whole.
proof fn lemma_row_size_prefix(s: Seq<ParquetValue>, i: int)
    requires
        0 <= i <= s.len(),
    ensures
        row_size(s.take(i)) <= row_size(s),
    decreases s.len() - i,
{
    if i < s.len() {
        lemma_row_size_take(s, i);
        lemma_row_size_prefix(s, i + 1);
    } else {
        assert(s.take(i) =~= s);
    }
}

proof fn lemma_entries_size_take(s: Seq<(ParquetValue, ParquetValue)>, i: int)
    requires
        0 <= i < s.len(),
    ensures
        entries_size(s.take(i + 1)) == entries_size(s.take(i)) + value_size(s[i].0) + value_size(
            s[i].1,
        ),
{
    assert(s.take(i + 1).drop_last() =~= s.take(i));
}

proof fn lemma_entries_size_prefix(s: Seq<(ParquetValue, ParquetValue)>, i: int)
    requires
        0 <= i <= s.len(),
    ensures
        entries_size(s.take(i)) <= entries_size(s),
    decreases s.len() - i,
{
    if i < s.len() {
        lemma_entries_size_take(s, i);
        lemma_entries_size_prefix(s, i + 1);
    } else {
        assert(s.take(i) =~= s);
    }
}

proof fn lemma_fields_size_take(s: Seq<(String, ParquetValue)>, i: int)
    requires
        0 <= i < s.len(),
    ensures
        fields_size(s.take(i + 1)) == fields_size(s.take(i)) + text_bytes(s[i].0@) + 24
            + value_size(s[i].1),
{
    assert(s.take(i + 1).drop_last() =~= s.take(i));
}

proof fn lemma_fields_size_prefix(s: Seq<(String, ParquetValue)>, i: int)
    requires
        0 <= i <= s.len(),
    ensures
        fields_size(s.take(i)) <= fields_size(s),
    decreases s.len() - i,
{
    if i < s.len() {
        lemma_fields_size_take(s, i);
        lemma_fields_size_prefix(s, i + 1);
    } else {
        assert(s.take(i) =~= s);
    }
}

/// The estimate as a machine integer, or none when it does not fit.
pub open spec fn fitting(n: nat) -> Option<usize> {
    if n <= usize::MAX {
        Some(n as usize)
    } else {
        None
    }
}

/// Byte length of a text.
fn text_len(s: &String) -> (n: usize)
    ensures
        n == text_bytes(s@),
{
    let bytes = s.as_str().as_bytes();
    bytes.len()
}

/// Adds two estimates, or gives none when the sum does not fit.
fn add_fitting(a: Option<usize>, b: usize) -> (r: Option<usize>)
    ensures
        r == match a {
            Some(x) => fitting((x + b) as nat),
            None => None::<usize>,
        },
{
    match a {
        Some(x) => x.checked_add(b),
        None => None,
    }
}

fn checked_tz_size(tz: &Option<String>) -> (n: Option<usize>)
    ensures
        n == fitting(tz_size(*tz)),
{
    match tz {
        Some(s) => add_fitting(Some(text_len(s)), 24),
        None => Some(0),
    }
}

/// The estimated memory size of a value, in bytes, or none when it does
/// not fit in `usize`.
pub fn checked_value_size(value: &ParquetValue) -> (size: Option<usize>)
    ensures
        size == fitting(value_size(*value)),
    decreases value,
{
    match value {
        ParquetValue::Null => Some(1),
        ParquetValue::Boolean(_) => Some(1),
        ParquetValue::Int8(_) => Some(1),
        ParquetValue::Int16(_) => Some(2),
        ParquetValue::Int32(_) => Some(4),
        ParquetValue::Int64(_) => Some(8),
        ParquetValue::UInt8(_) => Some(1),
        ParquetValue::UInt16(_) => Some(2),
        ParquetValue::UInt32(_) => Some(4),
        ParquetValue::UInt64(_) => Some(8),
        ParquetValue::Float16(_) => Some(4),
        ParquetValue::Float32(_) => Some(4),
        ParquetValue::Float64(_) => Some(8),
        ParquetValue::String(s) => add_fitting(Some(text_len(s)), 24),
        ParquetValue::Bytes(b) => add_fitting(Some(b.len()), 24),
        ParquetValue::Uuid(_) => Some(16),
        ParquetValue::Date32(_) => Some(4),
        ParquetValue::Date64(_) => Some(8),
        ParquetValue::Decimal128(_, _) => Some(16 + 1),
        ParquetValue::Decimal256(_, _) => Some(32 + 1),
        ParquetValue::TimestampSecond(_, tz) => add_tz(checked_tz_size(tz)),
        ParquetValue::TimestampMillis(_, tz) => add_tz(checked_tz_size(tz)),
        ParquetValue::TimestampMicros(_, tz) => add_tz(checked_tz_size(tz)),
        ParquetValue::TimestampNanos(_, tz) => add_tz(checked_tz_size(tz)),
        ParquetValue::TimeMillis(_) => Some(4),
        ParquetValue::TimeMicros(_) => Some(8),
        ParquetValue::TimeNanos(_) => Some(8),
        ParquetValue::List(items) => {
            let mut total: usize = 24;
            let mut i: usize = 0;
            while i < items.len()
                invariant
                    0 <= i <= items.len(),
                    total == 24 + row_size(items@.take(i as int)),
                    value_size(*value) == 24 + row_size(items@),
                    forall|j: int| 0 <= j < items.len() ==> decreases_to!(*value => items@[j]),
                decreases items.len() - i,
            {
                proof {
                    lemma_row_size_take(items@, i as int);
                    lemma_row_size_prefix(items@, i as int + 1);
                }
                match add_fitting(checked_value_size(&items[i]), total) {
                    Some(t) => {
                        total = t;
                    },
                    None => {
                        return None;
                    },
                }
                i = i + 1;
            }
            proof {
                assert(items@.take(items.len() as int) =~= items@);
            }
            Some(total)
        },
        ParquetValue::MapEntries(entries) => {
            let mut total: usize = 48;
            let mut i: usize = 0;
            while i < entries.len()
                invariant
                    0 <= i <= entries.len(),
                    total == 48 + entries_size(entries@.take(i as int)),
                    value_size(*value) == 48 + entries_size(entries@),
                    forall|j: int|
                        0 <= j < entries.len() ==> decreases_to!(*value => entries@[j].0)
                            && decreases_to!(*value => entries@[j].1),
                decreases entries.len() - i,
            {
                proof {
                    lemma_entries_size_take(entries@, i as int);
                    lemma_entries_size_prefix(entries@, i as int + 1);
                }
                let with_key = add_fitting(checked_value_size(&entries[i].0), total);
                let with_value = match checked_value_size(&entries[i].1) {
                    Some(v) => add_fitting(with_key, v),
                    None => None,
                };
                match with_value {
                    Some(t) => {
                        total = t;
                    },
                    None => {
                        return None;
                    },
                }
                i = i + 1;
            }
            proof {
                assert(entries@.take(entries.len() as int) =~= entries@);
            }
            Some(total)
        },
        ParquetValue::Record(fields) => {
            let mut total: usize = 48;
            let mut i: usize = 0;
            while i < fields.len()
                invariant
                    0 <= i <= fields.len(),
                    total == 48 + fields_size(fields@.take(i as int)),
                    value_size(*value) == 48 + fields_size(fields@),
                    forall|j: int| 0 <= j < fields.len() ==> decreases_to!(*value => fields@[j].1),
                decreases fields.len() - i,
            {
                proof {
                    lemma_fields_size_take(fields@, i as int);
                    lemma_fields_size_prefix(fields@, i as int + 1);
                }
                let with_name = add_fitting(add_fitting(Some(total), text_len(&fields[i].0)), 24);
                let with_value = match checked_value_size(&fields[i].1) {
                    Some(v) => add_fitting(with_name, v),
                    None => None,
                };
                match with_value {
                    Some(t) => {
                        total = t;
                    },
                    None => {
                        return None;
                    },
                }
                i = i + 1;
            }
            proof {
                assert(fields@.take(fields.len() as int) =~= fields@);
            }
            Some(total)
        },
    }
}

/// Adds the eight bytes of a timestamp to the estimate of its time zone.
fn add_tz(tz: Option<usize>) -> (r: Option<usize>)
    ensures
        r == match tz {
            Some(x) => fitting((x + 8) as nat),
            None => None::<usize>,
        },
{
    add_fitting(tz, 8)
}

/// Estimate the memory size of a value, in bytes.
///
/// Fixed-width values count their width, texts and byte strings their
/// length plus 24 bytes, and nested values 24 (list) or 48 (map, record)
/// bytes plus the estimates of what they hold.
pub fn estimate_parquet_value_size(value: &ParquetValue) -> (size: usize)
    requires
        value_size(*value) <= usize::MAX,
    ensures
        size == value_size(*value),
{
    match checked_value_size(value) {
        Some(n) => n,
        None => {
            proof {
                assert(false);
            }
            0
        },
    }
}

/// The estimated memory size of a row, or none when it does not fit in
/// `usize`.
pub fn checked_row_size(row: &[ParquetValue]) -> (size: Option<usize>)
    ensures
        size == fitting(row_size(row@)),
{
    let mut total: usize = 0;
    let mut i: usize = 0;
    while i < row.len()
        invariant
            0 <= i <= row.len(),
            total == row_size(row@.take(i as int)),
        decreases row.len() - i,
    {
        proof {
            lemma_row_size_take(row@, i as int);
            lemma_row_size_prefix(row@, i as int + 1);
        }
        match add_fitting(checked_value_size(&row[i]), total) {
            Some(t) => {
                total = t;
            },
            None => {
                return None;
            },
        }
        i = i + 1;
    }
    proof {
        assert(row@.take(row.len() as int) =~= row@);
    }
    Some(total)
}

/// Estimate the memory size of a row: the sum of the estimates of its values.
pub fn estimate_row_size(row: &[ParquetValue]) -> (size: usize)
    requires
        row_size(row@) <= usize::MAX,
    ensures
        size == row_size(row@),
{
    match checked_row_size(row) {
        Some(n) => n,
        None => {
            proof {
                assert(false);
            }
            0
        },
    }
}

} // verus!
