//! The canonical encoding of the authority store's schema objects, which the
//! store fingerprints to detect a schema that differs from its migration.
//! The rows come from the database in `(type, name)` order; each names the
//! byte lengths of its type, name, table name and SQL text, and the texts
//! themselves when they were within their bounds.
use vstd::prelude::*;

use crate::managed::{frame, push_frame, utf8};

verus! {

/// The largest type text of a schema object, in bytes.
pub const MAX_SCHEMA_TYPE_BYTES: i64 = 32;

/// The largest name or table name of a schema object, in bytes.
pub const MAX_SCHEMA_NAME_BYTES: i64 = 256;

/// The largest SQL text of a schema object, in bytes.
pub const MAX_SCHEMA_SQL_BYTES: i64 = 65536;

/// The most schema objects a store may hold.
pub const MAX_SCHEMA_OBJECTS: i64 = 256;

/// The largest canonical encoding of all schema objects, in bytes.
pub const MAX_SCHEMA_FINGERPRINT_BYTES: i64 = 4194304;

/// One schema object as read: the byte length of each text, and the text
/// when it was within its bound.
#[derive(Debug)]
pub struct SchemaRow {
    pub type_len: i64,
    pub type_text: Option<String>,
    pub name_len: i64,
    pub name: Option<String>,
    pub table_len: i64,
    pub table_name: Option<String>,
    pub sql_len: i64,
    pub sql: Option<String>,
}

/// Why the schema objects cannot be fingerprinted.
#[derive(Clone, Copy, Debug, PartialEq, Eq)]
pub enum SchemaFault {
    NegativeObjectCount,
    NegativeByteCount,
    ExceedsAggregateBounds,
    ObjectExceedsBound,
    WithheldByPreflight,
    ChangedDuringBoundedValidation,
    ChangedDuringValidation,
    CapacityExceeded,
}

/// The text reported for a schema fault.
pub open spec fn schema_fault_message(f: SchemaFault) -> Seq<char> {
    match f {
        SchemaFault::NegativeObjectCount => "negative SQLite schema object count"@,
        SchemaFault::NegativeByteCount => "negative SQLite schema byte count"@,
        SchemaFault::ExceedsAggregateBounds => "SQLite schema exceeds aggregate fingerprint validation bounds"@,
        SchemaFault::ObjectExceedsBound => "SQLite schema object exceeds validation byte bound"@,
        SchemaFault::WithheldByPreflight => "SQLite schema object withheld by length preflight"@,
        SchemaFault::ChangedDuringBoundedValidation => "SQLite schema changed during bounded fingerprint validation"@,
        SchemaFault::ChangedDuringValidation => "SQLite schema changed during fingerprint validation"@,
        SchemaFault::CapacityExceeded => "capacity exceeded"@,
    }
}

impl SchemaFault {
    /// The text reported for this fault.
    pub fn message(&self) -> (r: &'static str)
        ensures
            r@ == schema_fault_message(*self),
    {
        match self {
            SchemaFault::NegativeObjectCount => "negative SQLite schema object count",
            SchemaFault::NegativeByteCount => "negative SQLite schema byte count",
            SchemaFault::ExceedsAggregateBounds => "SQLite schema exceeds aggregate fingerprint validation bounds",
            SchemaFault::ObjectExceedsBound => "SQLite schema object exceeds validation byte bound",
            SchemaFault::WithheldByPreflight => "SQLite schema object withheld by length preflight",
            SchemaFault::ChangedDuringBoundedValidation => "SQLite schema changed during bounded fingerprint validation",
            SchemaFault::ChangedDuringValidation => "SQLite schema changed during fingerprint validation",
            SchemaFault::CapacityExceeded => "capacity exceeded",
        }
    }
}

/// Appending one text, framed by its length, to the encoding so far: a text
/// withheld by the length preflight is refused, and so is an encoding that
/// would pass the aggregate bound.
pub open spec fn field_step(acc: Result<Seq<u8>, SchemaFault>, v: Option<Seq<char>>) -> Result<Seq<u8>, SchemaFault> {
    match acc {
        Err(f) => Err(f),
        Ok(enc) => match v {
            None => Err(SchemaFault::WithheldByPreflight),
            Some(t) => if enc.len() + 8 + utf8(t).len() > usize::MAX {
                Err(SchemaFault::CapacityExceeded)
            } else if enc.len() + 8 + utf8(t).len() > MAX_SCHEMA_FINGERPRINT_BYTES {
                Err(SchemaFault::ExceedsAggregateBounds)
            } else {
                Ok(enc + frame(utf8(t)))
            },
        },
    }
}

/// Whether the `seen`-th object breaks the object count or a length bound.
pub open spec fn row_out_of_bounds(seen: int, row: SchemaRow) -> bool {
    seen > MAX_SCHEMA_OBJECTS || row.type_len < 0 || row.type_len > MAX_SCHEMA_TYPE_BYTES || row.name_len < 0
        || row.name_len > MAX_SCHEMA_NAME_BYTES || row.table_len < 0 || row.table_len > MAX_SCHEMA_NAME_BYTES
        || row.sql_len < 0 || row.sql_len > MAX_SCHEMA_SQL_BYTES
}

/// The text of an optional string.
pub open spec fn opt_text(v: Option<String>) -> Option<Seq<char>> {
    match v {
        Some(s) => Some(s@),
        None => None,
    }
}

/// Encoding the `seen`-th object after `enc`, within an announced total of `cap` bytes.
#[verifier::opaque]
pub open spec fn row_step(enc: Seq<u8>, seen: int, row: SchemaRow, cap: int) -> Result<Seq<u8>, SchemaFault> {
    if row_out_of_bounds(seen, row) {
        Err(SchemaFault::ObjectExceedsBound)
    } else {
        let r = field_step(
            field_step(
                field_step(field_step(Ok(enc), opt_text(row.type_text)), opt_text(row.name)),
                opt_text(row.table_name),
            ),
            opt_text(row.sql),
        );
        match r {
            Err(f) => Err(f),
            Ok(e) => if e.len() > cap || e.len() > MAX_SCHEMA_FINGERPRINT_BYTES {
                Err(SchemaFault::ChangedDuringBoundedValidation)
            } else {
                Ok(e)
            },
        }
    }
}

/// The encoding of the first `k` objects.
pub open spec fn rows_encoding(rows: Seq<SchemaRow>, k: int, cap: int) -> Result<Seq<u8>, SchemaFault>
    decreases k,
{
    if k <= 0 {
        Ok(Seq::empty())
    } else {
        match rows_encoding(rows, k - 1, cap) {
            Err(f) => Err(f),
            Ok(enc) => row_step(enc, k, rows[k - 1], cap),
        }
    }
}

/// The canonical encoding of the schema objects, given the object count and
/// aggregate byte count announced for them: both must be non-negative and
/// within their bounds, every object must be within its bounds and wholly
/// read, and the objects must be exactly the announced ones.
pub open spec fn schema_encoding(object_count: i64, aggregate_bytes: i64, rows: Seq<SchemaRow>) -> Result<
    Seq<u8>,
    SchemaFault,
> {
    if object_count < 0 {
        Err(SchemaFault::NegativeObjectCount)
    } else if aggregate_bytes < 0 {
        Err(SchemaFault::NegativeByteCount)
    } else if object_count > MAX_SCHEMA_OBJECTS || aggregate_bytes > MAX_SCHEMA_FINGERPRINT_BYTES {
        Err(SchemaFault::ExceedsAggregateBounds)
    } else {
        match rows_encoding(rows, rows.len() as int, aggregate_bytes as int) {
            Err(f) => Err(f),
            Ok(enc) => if rows.len() != object_count || enc.len() != aggregate_bytes {
                Err(SchemaFault::ChangedDuringValidation)
            } else {
                Ok(enc)
            },
        }
    }
}

proof fn lemma_fault_persists(rows: Seq<SchemaRow>, k: int, m: int, cap: int, f: SchemaFault)
    requires
        0 < k <= m,
        rows_encoding(rows, k, cap) == Err::<Seq<u8>, SchemaFault>(f),
    ensures
        rows_encoding(rows, m, cap) == Err::<Seq<u8>, SchemaFault>(f),
    decreases m - k,
{
    if m > k {
        lemma_fault_persists(rows, k, m - 1, cap, f);
    }
}

fn append_field(out: &mut Vec<u8>, v: &Option<String>) -> (r: Result<(), SchemaFault>)
    requires
        old(out)@.len() <= MAX_SCHEMA_FINGERPRINT_BYTES,
    ensures
        match field_step(Ok(old(out)@), opt_text(*v)) {
            Ok(e) => r is Ok && final(out)@ == e && e.len() <= MAX_SCHEMA_FINGERPRINT_BYTES,
            Err(f) => r == Err::<(), SchemaFault>(f),
        },
{
    match v {
        None => Err(SchemaFault::WithheldByPreflight),
        Some(text) => {
            let bytes = text.as_str().as_bytes();
            if bytes.len() > usize::MAX - 8 - out.len() {
                return Err(SchemaFault::CapacityExceeded);
            }
            if out.len() + 8 + bytes.len() > MAX_SCHEMA_FINGERPRINT_BYTES as usize {
                return Err(SchemaFault::ExceedsAggregateBounds);
            }
            push_frame(out, bytes);
            Ok(())
        },
    }
}

fn encode_row(out: &mut Vec<u8>, seen: usize, row: &SchemaRow, cap: usize) -> (r: Result<(), SchemaFault>)
    requires
        old(out)@.len() <= MAX_SCHEMA_FINGERPRINT_BYTES,
        cap <= MAX_SCHEMA_FINGERPRINT_BYTES,
    ensures
        match row_step(old(out)@, seen as int, *row, cap as int) {
            Ok(e) => r is Ok && final(out)@ == e && e.len() <= MAX_SCHEMA_FINGERPRINT_BYTES,
            Err(f) => r == Err::<(), SchemaFault>(f),
        },
        r is Ok ==> seen <= 256,
{
    reveal(row_step);
    if seen > 256 || row.type_len < 0 || row.type_len > MAX_SCHEMA_TYPE_BYTES || row.name_len < 0
        || row.name_len > MAX_SCHEMA_NAME_BYTES || row.table_len < 0 || row.table_len > MAX_SCHEMA_NAME_BYTES
        || row.sql_len < 0 || row.sql_len > MAX_SCHEMA_SQL_BYTES {
        return Err(SchemaFault::ObjectExceedsBound);
    }
    let ghost e0 = out@;
    match append_field(out, &row.type_text) {
        Err(f) => {
            return Err(f);
        },
        Ok(()) => {},
    }
    let ghost e1 = out@;
    match append_field(out, &row.name) {
        Err(f) => {
            return Err(f);
        },
        Ok(()) => {},
    }
    let ghost e2 = out@;
    match append_field(out, &row.table_name) {
        Err(f) => {
            return Err(f);
        },
        Ok(()) => {},
    }
    match append_field(out, &row.sql) {
        Err(f) => {
            return Err(f);
        },
        Ok(()) => {},
    }
    if out.len() > cap || out.len() > MAX_SCHEMA_FINGERPRINT_BYTES as usize {
        return Err(SchemaFault::ChangedDuringBoundedValidation);
    }
    Ok(())
}

/// Encodes the schema objects canonically, as `schema_encoding` says: each
/// text framed by its length, objects in the order read.
pub fn schema_canonical_encoding(object_count: i64, aggregate_bytes: i64, rows: &[SchemaRow]) -> (r: Result<
    Vec<u8>,
    SchemaFault,
>)
    ensures
        match schema_encoding(object_count, aggregate_bytes, rows@) {
            Ok(e) => r matches Ok(v) && v@ == e,
            Err(f) => r == Err::<Vec<u8>, SchemaFault>(f),
        },
{
    if object_count < 0 {
        return Err(SchemaFault::NegativeObjectCount);
    }
    if aggregate_bytes < 0 {
        return Err(SchemaFault::NegativeByteCount);
    }
    if object_count > MAX_SCHEMA_OBJECTS || aggregate_bytes > MAX_SCHEMA_FINGERPRINT_BYTES {
        return Err(SchemaFault::ExceedsAggregateBounds);
    }
    let cap = aggregate_bytes as usize;
    let mut encoded: Vec<u8> = Vec::new();
    let mut i: usize = 0;
    while i < rows.len()
        invariant
            i <= rows@.len(),
            i <= 256,
            0 <= object_count <= MAX_SCHEMA_OBJECTS,
            0 <= aggregate_bytes <= MAX_SCHEMA_FINGERPRINT_BYTES,
            cap == aggregate_bytes,
            rows_encoding(rows@, i as int, aggregate_bytes as int) == Ok::<Seq<u8>, SchemaFault>(encoded@),
            encoded@.len() <= MAX_SCHEMA_FINGERPRINT_BYTES,
        decreases rows@.len() - i,
    {
        let row = &rows[i];
        let ghost before = encoded@;
        assert(rows@[i as int] == *row);
        assert(rows_encoding(rows@, i + 1, aggregate_bytes as int) == row_step(before, i + 1, *row, aggregate_bytes as int));
        match encode_row(&mut encoded, i + 1, row, cap) {
            Err(f) => {
                proof {
                    lemma_fault_persists(rows@, i + 1, rows@.len() as int, aggregate_bytes as int, f);
                }
                return Err(f);
            },
            Ok(()) => {},
        }
        i = i + 1;
    }
    if i as i64 != object_count || encoded.len() as i64 != aggregate_bytes {
        return Err(SchemaFault::ChangedDuringValidation);
    }
    Ok(encoded)
}

} // verus!
