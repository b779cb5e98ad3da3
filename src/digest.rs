use vstd::prelude::*;
use vstd::arithmetic::div_mod::{lemma_add_mod_noop, lemma_mul_mod_noop_left, lemma_mod_bound};
use crate::error::RimError;
use sha2::Digest;
use vstd::utf8::encode_utf8;

verus! {

/// The 32 bytes of the SHA-256 digest of `data`.
pub uninterp spec fn sha256_of(data: Seq<u8>) -> Seq<u8>;

/// Relies on `sha2::Sha256::digest`: the digest is a function of the bytes
/// alone and is 32 bytes long.
#[verifier::external_body]
fn sha256_digest(data: &[u8]) -> (r: Vec<u8>)
    ensures
        r@ == sha256_of(data@),
        r@.len() == 32,
{
    sha2::Sha256::digest(data).to_vec()
}

/// The lower-case hexadecimal digit for a value below sixteen.
pub open spec fn hex_digit(v: u8) -> char {
    if v < 10 {
        (('0' as u8) + v) as char
    } else {
        (('a' as u8) + (v - 10)) as char
    }
}

/// Lower-case hexadecimal text of `b`, two digits per byte, high nibble first.
pub open spec fn hex_of(b: Seq<u8>) -> Seq<char>
    decreases b.len(),
{
    if b.len() == 0 {
        Seq::empty()
    } else {
        hex_of(b.drop_last()) + seq![hex_digit(b.last() / 16), hex_digit(b.last() % 16)]
    }
}

/// Relies on `hex::encode`: two lower-case digits for each byte, in order.
#[verifier::external_body]
fn hex_encode(b: &[u8]) -> (r: String)
    ensures
        r@ == hex_of(b@),
{
    hex::encode(b)
}

/// Hexadecimal SHA-256 of `data`: the content address of a part.
pub open spec fn content_hash(data: Seq<u8>) -> Seq<char> {
    hex_of(sha256_of(data))
}

/// Compute the lower-case hexadecimal SHA-256 of `data`.
pub fn compute_hash(data: &[u8]) -> (r: String)
    ensures
        r@ == content_hash(data@),
{
    let digest = sha256_digest(data);
    hex_encode(digest.as_slice())
}

/// Compare a computed hash with the expected one.
pub fn check_hash(actual: String, expected: &str) -> (r: Result<(), RimError>)
    ensures
        r is Ok <==> actual@ == expected@,
        r matches Err(RimError::HashMismatch { expected: e, actual: a }) ==> e@ == expected@ && a@ == actual@,
{
    let expected_owned = String::from_str(expected);
    if actual == expected_owned {
        Ok(())
    } else {
        Err(RimError::HashMismatch { expected: expected_owned, actual })
    }
}

/// Verify that `data` hashes to `expected_hash`.
pub fn verify_hash(data: &[u8], expected_hash: &str) -> (r: Result<(), RimError>)
    ensures
        r is Ok <==> content_hash(data@) == expected_hash@,
        r matches Err(RimError::HashMismatch { expected: e, actual: a }) ==> e@ == expected_hash@ && a@ == content_hash(data@),
{
    let actual = compute_hash(data);
    check_hash(actual, expected_hash)
}

/// Value of `b` read as a big-endian unsigned integer.
pub open spec fn be_value(b: Seq<u8>) -> nat
    decreases b.len(),
{
    if b.len() == 0 {
        0
    } else {
        be_value(b.drop_last()) * 256 + b.last() as nat
    }
}

/// The slot of a key whose SHA-256 digest is `digest`.
pub open spec fn slot_of_digest_spec(digest: Seq<u8>, total_slots: u16) -> int {
    (be_value(digest) % (total_slots as nat)) as int
}

/// Reduce a digest, read as a big-endian integer, modulo the slot count.
pub fn slot_of_digest(digest: &[u8], total_slots: u16) -> (r: u16)
    requires
        total_slots > 0,
    ensures
        r as int == slot_of_digest_spec(digest@, total_slots),
        r < total_slots,
{
    let n = total_slots as u32;
    let mut acc: u32 = 0;
    let mut i: usize = 0;
    assert(digest@.take(0).len() == 0);
    assert(be_value(digest@.take(0)) == 0);
    assert(0nat % (n as nat) == 0) by (nonlinear_arith) requires n > 0;
    while i < digest.len()
        invariant
            0 < n <= 65535,
            n == total_slots as u32,
            i <= digest@.len(),
            acc < n,
            acc as nat == be_value(digest@.take(i as int)) % (n as nat),
        decreases digest@.len() - i,
    {
        let b = digest[i];
        proof {
            let pre = digest@.take(i as int);
            let next = digest@.take(i as int + 1);
            assert(next.drop_last() == pre);
            assert(next.last() == b);
            let v = be_value(pre) as int;
            lemma_mul_mod_noop_left(v, 256, n as int);
            lemma_add_mod_noop(v * 256, b as int, n as int);
            lemma_add_mod_noop((v % (n as int)) * 256, b as int, n as int);
            lemma_mod_bound(((acc as int) * 256 + b as int), n as int);
            assert(((v % (n as int)) * 256 % (n as int)) == (v * 256) % (n as int));
        }
        acc = (acc * 256 + b as u32) % n;
        i = i + 1;
    }
    proof {
        assert(digest@.take(digest@.len() as int) == digest@);
    }
    acc as u16
}

/// The slot of a path: the SHA-256 of its UTF-8 bytes modulo the slot count.
pub open spec fn slot_for_key_spec(path: Seq<char>, total_slots: u16) -> int {
    slot_of_digest_spec(sha256_of(encode_utf8(path)), total_slots)
}

/// Place a key in one of `total_slots` slots: its SHA-256, read as a
/// big-endian integer, modulo the slot count.
pub fn slot_for_key(path: &str, total_slots: u16) -> (r: u16)
    requires
        total_slots > 0,
    ensures
        r as int == slot_for_key_spec(path@, total_slots),
        r < total_slots,
{
    let digest = sha256_digest(path.as_bytes());
    slot_of_digest(digest.as_slice(), total_slots)
}

/// Slot placement is a function of the path and the slot count alone: equal
/// inputs give equal slots, on every node and after every restart, and the
/// slot is below the slot count.
pub proof fn lemma_slot_for_key_deterministic(p: Seq<char>, q: Seq<char>, total_slots: u16)
    requires
        total_slots > 0,
        p == q,
    ensures
        slot_for_key_spec(p, total_slots) == slot_for_key_spec(q, total_slots),
        0 <= slot_for_key_spec(p, total_slots) < total_slots,
{
}

} // verus!
