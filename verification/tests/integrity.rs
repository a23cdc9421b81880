use linura::integrity::{canonical_field, canonical_optional, IntegrityKeyError, SqliteIntegrityKey};
use sha2::{Digest, Sha256};

fn key() -> SqliteIntegrityKey {
    SqliteIntegrityKey::new((1u8..=32).collect()).unwrap_or_else(|error| panic!("{error:?}"))
}

fn framed(out: &mut Vec<u8>, bytes: &[u8]) {
    out.extend_from_slice(&(bytes.len() as u64).to_be_bytes());
    out.extend_from_slice(bytes);
}

fn expected_tag(key: &[u8], domain: &str, canonical: &[u8]) -> Vec<u8> {
    let mut block = [0u8; 64];
    block[..key.len()].copy_from_slice(key);
    let mut inner = Vec::new();
    inner.extend(block.iter().map(|b| b ^ 0x36));
    framed(&mut inner, b"linura.sqlite.record-integrity.v1");
    framed(&mut inner, domain.as_bytes());
    framed(&mut inner, canonical);
    let inner_digest = Sha256::digest(&inner);
    let mut outer = Vec::new();
    outer.extend(block.iter().map(|b| b ^ 0x5c));
    outer.extend_from_slice(&inner_digest);
    Sha256::digest(&outer).to_vec()
}

#[test]
fn integrity_key_must_be_32_nonzero_bytes() {
    assert!(matches!(SqliteIntegrityKey::new(vec![7; 31]), Err(IntegrityKeyError::AuthorityRejected)));
    assert!(matches!(SqliteIntegrityKey::new(vec![0; 32]), Err(IntegrityKeyError::AuthorityRejected)));
    let mut one = vec![0; 32];
    one[31] = 1;
    assert!(SqliteIntegrityKey::new(one).is_ok());
}

#[test]
fn record_tag_is_hmac_sha256_of_framed_domain_and_record() {
    let key = key();
    let tag = key.tag("transaction", b"record").unwrap_or_else(|error| panic!("{error:?}"));
    let bytes: Vec<u8> = (1u8..=32).collect();
    assert_eq!(tag, expected_tag(&bytes, "transaction", b"record"));
    assert_eq!(tag.len(), 32);
    assert!(key.verify("transaction", b"record", &tag));
    assert!(!key.verify("audit", b"record", &tag));
    assert!(!key.verify("transaction", b"record!", &tag));
    let mut altered = tag.clone();
    altered[0] ^= 1;
    assert!(!key.verify("transaction", b"record", &altered));
    assert!(!key.verify("transaction", b"record", &tag[..31]));
}

#[test]
fn canonical_fields_are_length_framed() {
    let mut buffer = Vec::new();
    canonical_field(&mut buffer, b"ab");
    assert_eq!(buffer, vec![0, 0, 0, 0, 0, 0, 0, 2, b'a', b'b']);
    let mut some = Vec::new();
    canonical_optional(&mut some, Some("x"));
    assert_eq!(some, vec![0, 0, 0, 0, 0, 0, 0, 1, 1, 0, 0, 0, 0, 0, 0, 0, 1, b'x']);
    let mut none = Vec::new();
    canonical_optional(&mut none, None);
    assert_eq!(none, vec![0, 0, 0, 0, 0, 0, 0, 1, 0]);
}
