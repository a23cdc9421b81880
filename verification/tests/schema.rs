use linura::schema::{schema_canonical_encoding, SchemaFault, SchemaRow};

fn row(kind: &str, name: &str, table: &str, sql: &str) -> SchemaRow {
    SchemaRow {
        type_len: kind.len() as i64,
        type_text: Some(kind.to_string()),
        name_len: name.len() as i64,
        name: Some(name.to_string()),
        table_len: table.len() as i64,
        table_name: Some(table.to_string()),
        sql_len: sql.len() as i64,
        sql: Some(sql.to_string()),
    }
}

fn framed(parts: &[&str]) -> Vec<u8> {
    let mut out = Vec::new();
    for part in parts {
        out.extend_from_slice(&(part.len() as u64).to_be_bytes());
        out.extend_from_slice(part.as_bytes());
    }
    out
}

#[test]
fn schema_objects_encode_as_framed_texts_in_order() {
    let rows = vec![row("index", "i", "t", "CREATE INDEX i"), row("table", "t", "t", "CREATE TABLE t")];
    let expected = framed(&["index", "i", "t", "CREATE INDEX i", "table", "t", "t", "CREATE TABLE t"]);
    let total = expected.len() as i64;
    assert_eq!(schema_canonical_encoding(2, total, &rows), Ok(expected));
}

#[test]
fn schema_encoding_fails_closed() {
    let rows = vec![row("table", "t", "t", "CREATE TABLE t")];
    let total = framed(&["table", "t", "t", "CREATE TABLE t"]).len() as i64;
    assert_eq!(schema_canonical_encoding(-1, total, &rows), Err(SchemaFault::NegativeObjectCount));
    assert_eq!(schema_canonical_encoding(1, -1, &rows), Err(SchemaFault::NegativeByteCount));
    assert_eq!(schema_canonical_encoding(257, total, &rows), Err(SchemaFault::ExceedsAggregateBounds));
    assert_eq!(schema_canonical_encoding(2, total, &rows), Err(SchemaFault::ChangedDuringValidation));
    assert_eq!(schema_canonical_encoding(1, total - 1, &rows), Err(SchemaFault::ChangedDuringBoundedValidation));
    let mut withheld = row("table", "t", "t", "CREATE TABLE t");
    withheld.sql = None;
    assert_eq!(schema_canonical_encoding(1, total, &[withheld]), Err(SchemaFault::WithheldByPreflight));
    let mut long = row("table", "t", "t", "CREATE TABLE t");
    long.type_len = 33;
    assert_eq!(schema_canonical_encoding(1, total, &[long]), Err(SchemaFault::ObjectExceedsBound));
    assert_eq!(
        SchemaFault::ChangedDuringValidation.message(),
        "SQLite schema changed during fingerprint validation"
    );
}
