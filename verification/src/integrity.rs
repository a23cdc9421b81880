//! Authentication of stored records: a secret 256-bit key, an HMAC-SHA256
//! tag over a domain-separated, length-framed record, and its constant-time
//! check.
use vstd::prelude::*;

use crate::managed::{frame, push_frame, sha256, sha256_digest, utf8};

verus! {

/// The length of a record integrity key in bytes.
pub const INTEGRITY_KEY_BYTES: usize = 32;

/// The length of a record tag in bytes.
pub const INTEGRITY_TAG_BYTES: usize = 32;

/// The block length of SHA-256 in bytes.
pub const SHA256_BLOCK_BYTES: usize = 64;

/// Why a record integrity key was refused.
#[derive(Debug, PartialEq, Eq)]
pub enum IntegrityKeyError {
    AuthorityRejected,
}

/// Whether every byte is zero.
pub open spec fn all_zero(b: Seq<u8>) -> bool {
    forall|i: int| 0 <= i < b.len() ==> b[i] == 0
}

/// The HMAC key block: the key, or its digest when longer than a block,
/// padded with zeros to a block.
pub open spec fn key_block(key: Seq<u8>) -> Seq<u8> {
    let k = if key.len() > SHA256_BLOCK_BYTES {
        sha256_digest(key)
    } else {
        key
    };
    Seq::new(
        SHA256_BLOCK_BYTES as nat,
        |i: int|
            if i < k.len() {
                k[i]
            } else {
                0u8
            },
    )
}

/// A block with every byte exclusive-or'ed with `pad`.
pub open spec fn padded(block: Seq<u8>, pad: u8) -> Seq<u8> {
    Seq::new(block.len(), |i: int| block[i] ^ pad)
}

/// Fields framed by their lengths, in order.
pub open spec fn framed_fields(fields: Seq<Seq<u8>>) -> Seq<u8>
    decreases fields.len(),
{
    if fields.len() == 0 {
        Seq::empty()
    } else {
        framed_fields(fields.drop_last()) + frame(fields.last())
    }
}

/// HMAC-SHA256 of the length-framed fields under `key`.
pub open spec fn hmac_sha256_spec(key: Seq<u8>, fields: Seq<Seq<u8>>) -> Seq<u8> {
    let block = key_block(key);
    sha256_digest(padded(block, 0x5c) + sha256_digest(padded(block, 0x36) + framed_fields(fields)))
}

/// The tag of a canonical record in a record domain.
pub open spec fn record_tag(key: Seq<u8>, domain: Seq<char>, canonical: Seq<u8>) -> Seq<u8> {
    hmac_sha256_spec(key, seq![utf8("linura.sqlite.record-integrity.v1"@), utf8(domain), canonical])
}

/// Appends each byte of `block` exclusive-or'ed with `pad`.
fn push_padded(out: &mut Vec<u8>, block: &Vec<u8>, pad: u8)
    ensures
        final(out)@ == old(out)@ + padded(block@, pad),
{
    let ghost start = out@;
    let mut i: usize = 0;
    while i < block.len()
        invariant
            i <= block@.len(),
            out@ == start + padded(block@, pad).take(i as int),
        decreases block@.len() - i,
    {
        out.push(block[i] ^ pad);
        assert(padded(block@, pad).take(i + 1) =~= padded(block@, pad).take(i as int).push(block@[i as int] ^ pad));
        i = i + 1;
    }
    assert(padded(block@, pad).take(i as int) =~= padded(block@, pad));
}

/// The HMAC key block of `key`.
fn make_key_block(key: &[u8]) -> (r: Vec<u8>)
    ensures
        r@ == key_block(key@),
{
    let digest;
    let k: &[u8] = if key.len() > SHA256_BLOCK_BYTES {
        digest = sha256(key);
        digest.as_slice()
    } else {
        key
    };
    let ghost kg = if key@.len() > SHA256_BLOCK_BYTES {
        sha256_digest(key@)
    } else {
        key@
    };
    assert(k@ == kg);
    let ghost kb = Seq::new(
        SHA256_BLOCK_BYTES as nat,
        |j: int|
            if j < kg.len() {
                kg[j]
            } else {
                0u8
            },
    );
    assert(key_block(key@) == kb);
    let mut block: Vec<u8> = Vec::new();
    let mut i: usize = 0;
    while i < SHA256_BLOCK_BYTES
        invariant
            i <= SHA256_BLOCK_BYTES,
            k@ == kg,
            kg.len() <= SHA256_BLOCK_BYTES,
            block@ == key_block(key@).take(i as int),
            key_block(key@) == kb,
            kb.len() == SHA256_BLOCK_BYTES,
            forall|j: int| 0 <= j < SHA256_BLOCK_BYTES ==> #[trigger] kb[j] == if j < kg.len() {
                kg[j]
            } else {
                0u8
            },
        decreases SHA256_BLOCK_BYTES - i,
    {
        let b = if i < k.len() {
            k[i]
        } else {
            0u8
        };
        block.push(b);
        assert(kb[i as int] == b);
        assert(key_block(key@).take(i + 1) =~= key_block(key@).take(i as int).push(b));
        i = i + 1;
    }
    assert(key_block(key@).take(i as int) =~= key_block(key@));
    block
}

/// HMAC-SHA256 under `key` of three length-framed fields.
fn hmac_sha256(key: &[u8], first: &[u8], second: &[u8], third: &[u8]) -> (r: Vec<u8>)
    ensures
        r@ == hmac_sha256_spec(key@, seq![first@, second@, third@]),
        r@.len() == INTEGRITY_TAG_BYTES,
{
    let block = make_key_block(key);
    let mut inner: Vec<u8> = Vec::new();
    push_padded(&mut inner, &block, 0x36);
    let ghost p = inner@;
    push_frame(&mut inner, first);
    push_frame(&mut inner, second);
    push_frame(&mut inner, third);
    proof {
        let f = seq![first@, second@, third@];
        let f2 = seq![first@, second@];
        let f1 = seq![first@];
        assert(f.drop_last() =~= f2);
        assert(f2.drop_last() =~= f1);
        assert(f1.drop_last() =~= Seq::<Seq<u8>>::empty());
        reveal_with_fuel(framed_fields, 4);
        assert(f1.last() == first@);
        assert(f2.last() == second@);
        assert(f.last() == third@);
        assert(framed_fields(f1) =~= frame(first@));
        assert(framed_fields(f2) =~= frame(first@) + frame(second@));
        assert(framed_fields(f) =~= frame(first@) + frame(second@) + frame(third@));
        assert(inner@ =~= p + frame(first@) + frame(second@) + frame(third@));
        assert(inner@ =~= padded(key_block(key@), 0x36) + framed_fields(f));
    }
    let inner_digest = sha256(inner.as_slice());
    let mut outer: Vec<u8> = Vec::new();
    push_padded(&mut outer, &block, 0x5c);
    let ghost before = outer@;
    let mut i: usize = 0;
    while i < inner_digest.len()
        invariant
            i <= inner_digest@.len(),
            outer@ == before + inner_digest@.take(i as int),
        decreases inner_digest@.len() - i,
    {
        outer.push(inner_digest[i]);
        assert(inner_digest@.take(i + 1) =~= inner_digest@.take(i as int).push(inner_digest@[i as int]));
        i = i + 1;
    }
    assert(inner_digest@.take(i as int) =~= inner_digest@);
    sha256(outer.as_slice())
}

proof fn lemma_or_xor_zero(d: u8, a: u8, b: u8)
    ensures
        ((d | (a ^ b)) == 0) == (d == 0 && a == b),
{
    assert(((d | (a ^ b)) == 0) == (d == 0 && a == b)) by (bit_vector);
}

/// Whether two tags of the expected length are equal, looking at every byte.
fn constant_time_eq(expected: &[u8], actual: &[u8]) -> (r: bool)
    requires
        expected@.len() == actual@.len(),
    ensures
        r == (expected@ == actual@),
{
    let mut difference: u8 = 0;
    let mut i: usize = 0;
    while i < expected.len()
        invariant
            i <= expected@.len(),
            expected@.len() == actual@.len(),
            (difference == 0) == (forall|j: int| 0 <= j < i ==> expected@[j] == actual@[j]),
        decreases expected@.len() - i,
    {
        proof {
            lemma_or_xor_zero(difference, expected@[i as int], actual@[i as int]);
        }
        difference = difference | (expected[i] ^ actual[i]);
        i = i + 1;
    }
    if difference == 0 {
        assert(expected@ =~= actual@);
    }
    difference == 0
}

/// The independent secret that authenticates stored records: exactly 32
/// bytes, not all zero.
pub struct SqliteIntegrityKey {
    bytes: Vec<u8>,
}

impl SqliteIntegrityKey {
    #[verifier::type_invariant]
    closed spec fn inv(self) -> bool {
        self.bytes@.len() == INTEGRITY_KEY_BYTES && !all_zero(self.bytes@)
    }

    /// The key bytes.
    pub closed spec fn key_spec(self) -> Seq<u8> {
        self.bytes@
    }

    /// Accepts a key of exactly 32 bytes that are not all zero.
    pub fn new(bytes: Vec<u8>) -> (r: Result<Self, IntegrityKeyError>)
        ensures
            r is Ok <==> (bytes@.len() == INTEGRITY_KEY_BYTES && !all_zero(bytes@)),
            r matches Ok(k) ==> k.key_spec() == bytes@,
            r matches Err(e) ==> e == IntegrityKeyError::AuthorityRejected,
    {
        if bytes.len() != INTEGRITY_KEY_BYTES {
            return Err(IntegrityKeyError::AuthorityRejected);
        }
        let mut i: usize = 0;
        let mut nonzero = false;
        while i < bytes.len()
            invariant
                i <= bytes@.len(),
                nonzero == exists|j: int| 0 <= j < i && #[trigger] bytes@[j] != 0,
            decreases bytes@.len() - i,
        {
            if bytes[i] != 0 {
                nonzero = true;
            }
            i = i + 1;
        }
        if !nonzero {
            assert(all_zero(bytes@)) by {
                assert forall|j: int| 0 <= j < bytes@.len() implies bytes@[j] == 0 by {
                    if bytes@[j] != 0 {
                        assert(exists|k: int| 0 <= k < i && #[trigger] bytes@[k] != 0);
                    }
                }
            }
        }
        if !nonzero {
            return Err(IntegrityKeyError::AuthorityRejected);
        }
        Ok(SqliteIntegrityKey { bytes })
    }

    /// The tag of a canonical record in a record domain.
    pub fn tag(&self, record_domain: &str, canonical: &[u8]) -> (r: Result<Vec<u8>, IntegrityKeyError>)
        ensures
            r matches Ok(t) && t@ == record_tag(self.key_spec(), record_domain@, canonical@)
                && t@.len() == INTEGRITY_TAG_BYTES,
    {
        Ok(hmac_sha256(
            self.bytes.as_slice(),
            "linura.sqlite.record-integrity.v1".as_bytes(),
            record_domain.as_bytes(),
            canonical,
        ))
    }

    /// Whether `tag` is the tag of the canonical record in the record domain.
    pub fn verify(&self, record_domain: &str, canonical: &[u8], tag: &[u8]) -> (r: bool)
        ensures
            r == (tag@.len() == INTEGRITY_TAG_BYTES && tag@ == record_tag(self.key_spec(), record_domain@, canonical@)),
    {
        if tag.len() != INTEGRITY_TAG_BYTES {
            return false;
        }
        let expected = match self.tag(record_domain, canonical) {
            Ok(t) => t,
            Err(_) => {
                return false;
            },
        };
        constant_time_eq(expected.as_slice(), tag)
    }
}

/// Appends a field framed by its length.
pub fn canonical_field(buffer: &mut Vec<u8>, bytes: &[u8])
    ensures
        final(buffer)@ == old(buffer)@ + frame(bytes@),
{
    push_frame(buffer, bytes);
}

/// Appends an optional text: a framed one, then the framed text, when it is
/// there; a framed zero when it is not.
pub fn canonical_optional(buffer: &mut Vec<u8>, value: Option<&str>)
    ensures
        final(buffer)@ == match value {
            Some(v) => old(buffer)@ + frame(seq![1u8]) + frame(utf8(v@)),
            None => old(buffer)@ + frame(seq![0u8]),
        },
{
    match value {
        Some(v) => {
            let one: [u8; 1] = [1];
            assert(one@ =~= seq![1u8]);
            canonical_field(buffer, one.as_slice());
            canonical_field(buffer, v.as_bytes());
        },
        None => {
            let zero: [u8; 1] = [0];
            assert(zero@ =~= seq![0u8]);
            canonical_field(buffer, zero.as_slice());
        },
    }
}

} // verus!
