//! Streaming digest engine: one accumulator per supported algorithm, fed
//! chunk by chunk and finalized exactly once into the canonical lowercase hex
//! encoding.
//!
//! The five algorithm implementations come from their upstream crates and are
//! reached only through the trusted wrappers below. Each wrapper's contract
//! tracks the exact byte sequence fed so far, so the verified layer proves
//! that feeding chunks in order yields the digest of their concatenation.

use crate::algorithm::HashAlgorithm;
use sha2::Digest;
use vstd::prelude::*;

verus! {

/// The bytes fed so far into a SHA-256 accumulator.
pub uninterp spec fn sha256_fed(h: Sha256State) -> Seq<u8>;

/// The bytes fed so far into an MD5 accumulator.
pub uninterp spec fn md5_fed(h: md5::Context) -> Seq<u8>;

/// The bytes fed so far into a CRC32 accumulator.
pub uninterp spec fn crc32_fed(h: crc32fast::Hasher) -> Seq<u8>;

/// The bytes fed so far into a BLAKE2s-256 accumulator.
pub uninterp spec fn blake2_fed(h: Blake2State) -> Seq<u8>;

/// The bytes fed so far into an XXH3-64 accumulator.
pub uninterp spec fn xxh3_fed(h: xxhash_rust::xxh3::Xxh3) -> Seq<u8>;

/// The SHA-256 digest of a byte sequence, as 64 lowercase hex characters.
pub uninterp spec fn sha256_digest(bytes: Seq<u8>) -> Seq<char>;

/// The MD5 digest of a byte sequence, as 32 lowercase hex characters.
pub uninterp spec fn md5_digest(bytes: Seq<u8>) -> Seq<char>;

/// The CRC32 (IEEE) checksum of a byte sequence, as 8 zero-padded lowercase
/// hex characters.
pub uninterp spec fn crc32_digest(bytes: Seq<u8>) -> Seq<char>;

/// The BLAKE2s-256 digest of a byte sequence, as 64 lowercase hex characters.
pub uninterp spec fn blake2_digest(bytes: Seq<u8>) -> Seq<char>;

/// The XXH3-64 hash of a byte sequence, as 16 zero-padded lowercase hex
/// characters.
pub uninterp spec fn xxh3_digest(bytes: Seq<u8>) -> Seq<char>;

/// A lowercase hex digit: '0' to '9' or 'a' to 'f'.
pub open spec fn is_lower_hex_digit(c: char) -> bool {
    (('0' as int) <= (c as int) && (c as int) <= ('9' as int)) || (('a' as int) <= (c as int) && (c
        as int) <= ('f' as int))
}

/// Every character of the string is a lowercase hex digit.
pub open spec fn lower_hex(s: Seq<char>) -> bool {
    forall|i: int| 0 <= i < s.len() ==> is_lower_hex_digit(#[trigger] s[i])
}

/// SHA-256 accumulator state. `sha2::Sha256` is an alias into generic
/// hasher machinery that cannot be declared directly, so it sits in an
/// opaque struct of our own.
#[verifier::external_body]
pub struct Sha256State {
    inner: sha2::Sha256,
}

/// BLAKE2s-256 accumulator state, opaque for the same reason as
/// [`Sha256State`].
#[verifier::external_body]
pub struct Blake2State {
    inner: blake2::Blake2s256,
}

#[verifier::external_type_specification]
#[verifier::external_body]
pub struct ExMd5Context(md5::Context);

#[verifier::external_type_specification]
#[verifier::external_body]
pub struct ExCrc32Hasher(crc32fast::Hasher);

#[verifier::external_type_specification]
#[verifier::external_body]
pub struct ExXxh3(xxhash_rust::xxh3::Xxh3);

/// Relies on sha2's `Sha256::new`: a fresh accumulator has consumed no bytes.
#[verifier::external_body]
fn sha256_new() -> (h: Sha256State)
    ensures
        sha256_fed(h) == Seq::<u8>::empty(),
{
    Sha256State { inner: sha2::Sha256::new() }
}

/// Relies on sha2's `Digest::update`: appends the chunk to the bytes the
/// accumulator has consumed.
#[verifier::external_body]
fn sha256_update(h: &mut Sha256State, chunk: &[u8])
    ensures
        sha256_fed(*final(h)) == sha256_fed(*old(h)) + chunk@,
{
    h.inner.update(chunk);
}

/// Relies on sha2's `Digest::finalize` (the 32-byte SHA-256 digest of all
/// consumed bytes) and generic-array's `LowerHex` (two lowercase hex digits
/// per byte, so 64 characters).
#[verifier::external_body]
fn sha256_finalize_hex(h: Sha256State) -> (r: String)
    ensures
        r@ == sha256_digest(sha256_fed(h)),
        r@.len() == 64,
        lower_hex(r@),
{
    format!("{:x}", h.inner.finalize())
}

/// Relies on md5's `Context::new`: a fresh accumulator has consumed no bytes.
#[verifier::external_body]
fn md5_new() -> (h: md5::Context)
    ensures
        md5_fed(h) == Seq::<u8>::empty(),
{
    md5::Context::new()
}

/// Relies on md5's `Context::consume`: appends the chunk to the bytes the
/// accumulator has consumed.
#[verifier::external_body]
fn md5_update(h: &mut md5::Context, chunk: &[u8])
    ensures
        md5_fed(*final(h)) == md5_fed(*old(h)) + chunk@,
{
    h.consume(chunk);
}

/// Relies on md5's `Context::compute` (the 16-byte MD5 digest of all
/// consumed bytes) and md5's `LowerHex` for `Digest` (two lowercase hex
/// digits per byte, so 32 characters).
#[verifier::external_body]
fn md5_finalize_hex(h: md5::Context) -> (r: String)
    ensures
        r@ == md5_digest(md5_fed(h)),
        r@.len() == 32,
        lower_hex(r@),
{
    format!("{:x}", h.compute())
}

/// Relies on crc32fast's `Hasher::new`: a fresh accumulator has consumed no
/// bytes.
#[verifier::external_body]
fn crc32_new() -> (h: crc32fast::Hasher)
    ensures
        crc32_fed(h) == Seq::<u8>::empty(),
{
    crc32fast::Hasher::new()
}

/// Relies on crc32fast's `Hasher::update`: appends the chunk to the bytes
/// the accumulator has consumed.
#[verifier::external_body]
fn crc32_update(h: &mut crc32fast::Hasher, chunk: &[u8])
    ensures
        crc32_fed(*final(h)) == crc32_fed(*old(h)) + chunk@,
{
    h.update(chunk);
}

/// Relies on crc32fast's `Hasher::finalize` (the CRC32 checksum of all
/// consumed bytes as a `u32`) and std's zero-padded `{:08x}` formatting
/// (8 lowercase hex characters).
#[verifier::external_body]
fn crc32_finalize_hex(h: crc32fast::Hasher) -> (r: String)
    ensures
        r@ == crc32_digest(crc32_fed(h)),
        r@.len() == 8,
        lower_hex(r@),
{
    format!("{:08x}", h.finalize())
}

/// Relies on blake2's `Blake2s256::new` (via `Digest`): a fresh accumulator
/// has consumed no bytes.
#[verifier::external_body]
fn blake2_new() -> (h: Blake2State)
    ensures
        blake2_fed(h) == Seq::<u8>::empty(),
{
    Blake2State { inner: blake2::Blake2s256::new() }
}

/// Relies on blake2's `Digest::update`: appends the chunk to the bytes the
/// accumulator has consumed.
#[verifier::external_body]
fn blake2_update(h: &mut Blake2State, chunk: &[u8])
    ensures
        blake2_fed(*final(h)) == blake2_fed(*old(h)) + chunk@,
{
    h.inner.update(chunk);
}

/// Relies on blake2's `Digest::finalize` (the 32-byte BLAKE2s-256 digest of
/// all consumed bytes) and generic-array's `LowerHex` (two lowercase hex
/// digits per byte, so 64 characters).
#[verifier::external_body]
fn blake2_finalize_hex(h: Blake2State) -> (r: String)
    ensures
        r@ == blake2_digest(blake2_fed(h)),
        r@.len() == 64,
        lower_hex(r@),
{
    format!("{:x}", h.inner.finalize())
}

/// Relies on xxhash-rust's `Xxh3::new`: a fresh accumulator (default seed
/// and secret) has consumed no bytes.
#[verifier::external_body]
fn xxh3_new() -> (h: xxhash_rust::xxh3::Xxh3)
    ensures
        xxh3_fed(h) == Seq::<u8>::empty(),
{
    xxhash_rust::xxh3::Xxh3::new()
}

/// Relies on xxhash-rust's `Xxh3::update`: appends the chunk to the bytes
/// the accumulator has consumed.
#[verifier::external_body]
fn xxh3_update(h: &mut xxhash_rust::xxh3::Xxh3, chunk: &[u8])
    ensures
        xxh3_fed(*final(h)) == xxh3_fed(*old(h)) + chunk@,
{
    h.update(chunk);
}

/// Relies on xxhash-rust's `Xxh3::digest` (the 64-bit XXH3 hash of all
/// consumed bytes) and std's zero-padded `{:016x}` formatting (16 lowercase
/// hex characters).
#[verifier::external_body]
fn xxh3_finalize_hex(h: xxhash_rust::xxh3::Xxh3) -> (r: String)
    ensures
        r@ == xxh3_digest(xxh3_fed(h)),
        r@.len() == 16,
        lower_hex(r@),
{
    format!("{:016x}", h.digest())
}

/// The canonical hex digest a given algorithm assigns to a byte sequence.
pub open spec fn digest_of(alg: HashAlgorithm, bytes: Seq<u8>) -> Seq<char> {
    match alg {
        HashAlgorithm::Sha256 => sha256_digest(bytes),
        HashAlgorithm::Md5 => md5_digest(bytes),
        HashAlgorithm::Crc32 => crc32_digest(bytes),
        HashAlgorithm::Blake2 => blake2_digest(bytes),
        HashAlgorithm::Xxh3 => xxh3_digest(bytes),
    }
}

/// A streaming digest in progress: initialize with [`StreamingDigest::new`],
/// feed chunks in order with [`StreamingDigest::update`], finalize exactly
/// once with [`StreamingDigest::finalize_hex`]. Taking `self` by value on
/// finalization makes reuse after finalization impossible.
pub enum StreamingDigest {
    Sha256(Sha256State),
    Md5(md5::Context),
    Crc32(crc32fast::Hasher),
    Blake2(Blake2State),
    Xxh3(xxhash_rust::xxh3::Xxh3),
}

impl StreamingDigest {
    /// Which algorithm this accumulator computes.
    pub open spec fn algorithm(self) -> HashAlgorithm {
        match self {
            StreamingDigest::Sha256(_) => HashAlgorithm::Sha256,
            StreamingDigest::Md5(_) => HashAlgorithm::Md5,
            StreamingDigest::Crc32(_) => HashAlgorithm::Crc32,
            StreamingDigest::Blake2(_) => HashAlgorithm::Blake2,
            StreamingDigest::Xxh3(_) => HashAlgorithm::Xxh3,
        }
    }

    /// The bytes fed so far, in order.
    pub open spec fn fed(self) -> Seq<u8> {
        match self {
            StreamingDigest::Sha256(h) => sha256_fed(h),
            StreamingDigest::Md5(h) => md5_fed(h),
            StreamingDigest::Crc32(h) => crc32_fed(h),
            StreamingDigest::Blake2(h) => blake2_fed(h),
            StreamingDigest::Xxh3(h) => xxh3_fed(h),
        }
    }

    pub fn new(alg: HashAlgorithm) -> (h: StreamingDigest)
        ensures
            h.algorithm() == alg,
            h.fed() == Seq::<u8>::empty(),
    {
        match alg {
            HashAlgorithm::Sha256 => StreamingDigest::Sha256(sha256_new()),
            HashAlgorithm::Md5 => StreamingDigest::Md5(md5_new()),
            HashAlgorithm::Crc32 => StreamingDigest::Crc32(crc32_new()),
            HashAlgorithm::Blake2 => StreamingDigest::Blake2(blake2_new()),
            HashAlgorithm::Xxh3 => StreamingDigest::Xxh3(xxh3_new()),
        }
    }

    pub fn update(&mut self, chunk: &[u8])
        ensures
            final(self).algorithm() == old(self).algorithm(),
            final(self).fed() == old(self).fed() + chunk@,
    {
        match self {
            StreamingDigest::Sha256(h) => sha256_update(h, chunk),
            StreamingDigest::Md5(h) => md5_update(h, chunk),
            StreamingDigest::Crc32(h) => crc32_update(h, chunk),
            StreamingDigest::Blake2(h) => blake2_update(h, chunk),
            StreamingDigest::Xxh3(h) => xxh3_update(h, chunk),
        }
    }

    pub fn finalize_hex(self) -> (r: String)
        ensures
            r@ == digest_of(self.algorithm(), self.fed()),
            r@.len() == self.algorithm().spec_hex_width(),
            lower_hex(r@),
    {
        match self {
            StreamingDigest::Sha256(h) => sha256_finalize_hex(h),
            StreamingDigest::Md5(h) => md5_finalize_hex(h),
            StreamingDigest::Crc32(h) => crc32_finalize_hex(h),
            StreamingDigest::Blake2(h) => blake2_finalize_hex(h),
            StreamingDigest::Xxh3(h) => xxh3_finalize_hex(h),
        }
    }
}

/// Digest a byte slice held whole in memory.
pub fn digest_bytes(alg: HashAlgorithm, data: &[u8]) -> (r: String)
    ensures
        r@ == digest_of(alg, data@),
        r@.len() == alg.spec_hex_width(),
        lower_hex(r@),
{
    let mut h = StreamingDigest::new(alg);
    h.update(data);
    proof {
        assert(Seq::<u8>::empty() + data@ =~= data@);
    }
    h.finalize_hex()
}

/// The concatenation, in order, of a sequence of byte chunks.
pub open spec fn concat_bytes(chunks: Seq<Seq<u8>>) -> Seq<u8>
    decreases chunks.len(),
{
    if chunks.len() == 0 {
        Seq::empty()
    } else {
        concat_bytes(chunks.drop_last()) + chunks.last()
    }
}

/// Law of the streaming accumulator: feeding any partition of a byte
/// sequence chunk by chunk, in order, produces the digest of the whole
/// sequence. The chunk boundaries do not matter.
pub fn digest_chunks(alg: HashAlgorithm, chunks: &Vec<Vec<u8>>) -> (r: String)
    ensures
        r@ == digest_of(alg, concat_bytes(chunks@.map_values(|c: Vec<u8>| c@))),
        r@.len() == alg.spec_hex_width(),
        lower_hex(r@),
{
    let ghost views = chunks@.map_values(|c: Vec<u8>| c@);
    let mut h = StreamingDigest::new(alg);
    proof {
        assert(views.take(0) =~= Seq::<Seq<u8>>::empty());
    }
    let mut i: usize = 0;
    while i < chunks.len()
        invariant
            i <= chunks.len(),
            views == chunks@.map_values(|c: Vec<u8>| c@),
            h.algorithm() == alg,
            h.fed() == concat_bytes(views.take(i as int)),
        decreases chunks.len() - i,
    {
        h.update(chunks[i].as_slice());
        proof {
            assert(views.take(i + 1).drop_last() =~= views.take(i as int));
            assert(views.take(i + 1).last() == chunks@[i as int]@);
        }
        i += 1;
    }
    proof {
        assert(views.take(chunks@.len() as int) =~= views);
    }
    h.finalize_hex()
}

} // verus!
