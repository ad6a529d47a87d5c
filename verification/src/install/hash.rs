//! Streaming checksums and their hexadecimal form.

use sha2::Digest;
use vstd::prelude::*;

verus! {

/// A SHA-256 computation under way.
#[verifier::external_type_specification]
#[verifier::external_body]
pub struct ExSha256(sha2::Sha256);

/// A BLAKE3 computation under way.
#[verifier::external_type_specification]
#[verifier::external_body]
pub struct ExBlake3(blake3::Hasher);

/// The bytes a SHA-256 computation has taken in.
pub uninterp spec fn sha256_input(hasher: sha2::Sha256) -> Seq<u8>;

/// The bytes a BLAKE3 computation has taken in.
pub uninterp spec fn blake3_input(hasher: blake3::Hasher) -> Seq<u8>;

/// The SHA-256 digest of a byte string.
pub uninterp spec fn sha256(bytes: Seq<u8>) -> Seq<u8>;

/// The BLAKE3 digest of a byte string.
pub uninterp spec fn blake3_digest(bytes: Seq<u8>) -> Seq<u8>;

/// Longest input, in bytes: its length in bits fits 64 bits.
pub const MAX_INPUT: u64 = 0x1fff_ffff_ffff_ffff;

/// Calls `Sha256::new`: a computation that has taken in nothing.
#[verifier::external_body]
fn sha256_new() -> (hasher: sha2::Sha256)
    ensures
        sha256_input(hasher) == Seq::<u8>::empty(),
{
    sha2::Sha256::new()
}

/// Calls `Digest::update` of SHA-256: the bytes are taken in behind the
/// earlier ones. The length counter of the crate holds up to `MAX_INPUT`
/// bytes.
#[verifier::external_body]
fn sha256_update(hasher: &mut sha2::Sha256, bytes: &[u8])
    requires
        sha256_input(*old(hasher)).len() + bytes@.len() <= MAX_INPUT,
    ensures
        sha256_input(*final(hasher)) == sha256_input(*old(hasher)) + bytes@,
{
    hasher.update(bytes)
}

/// Calls `Digest::finalize` of SHA-256: the 32-byte digest of what was taken
/// in.
#[verifier::external_body]
fn sha256_finalize(hasher: sha2::Sha256) -> (digest: Vec<u8>)
    requires
        sha256_input(hasher).len() <= MAX_INPUT,
    ensures
        digest@ == sha256(sha256_input(hasher)),
        digest@.len() == 32,
{
    hasher.finalize().to_vec()
}

/// Calls `blake3::Hasher::new`: a computation that has taken in nothing.
#[verifier::external_body]
fn blake3_new() -> (hasher: blake3::Hasher)
    ensures
        blake3_input(hasher) == Seq::<u8>::empty(),
{
    blake3::Hasher::new()
}

/// Calls `blake3::Hasher::update`: the bytes are taken in behind the earlier
/// ones. The input is kept within `MAX_INPUT` bytes, as for SHA-256.
#[verifier::external_body]
fn blake3_update(hasher: &mut blake3::Hasher, bytes: &[u8])
    requires
        blake3_input(*old(hasher)).len() + bytes@.len() <= MAX_INPUT,
    ensures
        blake3_input(*final(hasher)) == blake3_input(*old(hasher)) + bytes@,
{
    let _ = hasher.update(bytes);
}

/// Calls `blake3::Hasher::finalize`: the 32-byte digest of what was taken in.
#[verifier::external_body]
fn blake3_finalize(hasher: &blake3::Hasher) -> (digest: Vec<u8>)
    ensures
        digest@ == blake3_digest(blake3_input(*hasher)),
        digest@.len() == 32,
{
    hasher.finalize().as_bytes().to_vec()
}

/// One hexadecimal digit, in lower case.
pub open spec fn hex_digit(value: int) -> char {
    if value < 10 {
        (48 + value) as u8 as char
    } else {
        (87 + value) as u8 as char
    }
}

/// A byte string in lower-case hexadecimal, two digits per byte.
pub open spec fn hex(bytes: Seq<u8>) -> Seq<char>
    decreases bytes.len(),
{
    if bytes.len() == 0 {
        Seq::empty()
    } else {
        hex(bytes.drop_last()).push(hex_digit(bytes.last() as int / 16)).push(
            hex_digit(bytes.last() as int % 16),
        )
    }
}

fn to_hex_digit(value: u8) -> (digit: char)
    requires
        value < 16,
    ensures
        digit == hex_digit(value as int),
{
    if value < 10 {
        (48 + value) as char
    } else {
        (87 + value) as char
    }
}

/// Writes a byte string in lower-case hexadecimal.
pub fn to_hex(bytes: &Vec<u8>) -> (text: String)
    ensures
        text@ == hex(bytes@),
{
    let mut text: String = String::new();
    let mut at: usize = 0;
    while at < bytes.len()
        invariant
            at <= bytes@.len(),
            text@ == hex(bytes@.take(at as int)),
        decreases bytes@.len() - at,
    {
        let byte: u8 = bytes[at];
        assert(bytes@.take(at + 1).drop_last() =~= bytes@.take(at as int));
        text.push(to_hex_digit(byte / 16));
        text.push(to_hex_digit(byte % 16));
        at += 1;
    }
    assert(bytes@.take(at as int) =~= bytes@);
    text
}

proof fn hex_digit_distinct(left: int, right: int)
    requires
        0 <= left < 16,
        0 <= right < 16,
        hex_digit(left) == hex_digit(right),
    ensures
        left == right,
{
}

proof fn hex_len(bytes: Seq<u8>)
    ensures
        hex(bytes).len() == 2 * bytes.len(),
    decreases bytes.len(),
{
    if bytes.len() > 0 {
        hex_len(bytes.drop_last());
    }
}

/// Different byte strings have different hexadecimal forms.
pub proof fn hex_is_injective(left: Seq<u8>, right: Seq<u8>)
    requires
        hex(left) == hex(right),
    ensures
        left == right,
    decreases left.len(),
{
    hex_len(left);
    hex_len(right);
    if left.len() > 0 {
        let n = hex(left).len() as int;
        let a = hex(left.drop_last()).push(hex_digit(left.last() as int / 16));
        let b = hex(right.drop_last()).push(hex_digit(right.last() as int / 16));
        assert(hex(left).drop_last() =~= a);
        assert(hex(right).drop_last() =~= b);
        assert(hex(left)[n - 1] == hex_digit(left.last() as int % 16));
        assert(hex(right)[n - 1] == hex_digit(right.last() as int % 16));
        assert(a[n - 2] == hex_digit(left.last() as int / 16));
        assert(b[n - 2] == hex_digit(right.last() as int / 16));
        hex_digit_distinct(left.last() as int % 16, right.last() as int % 16);
        hex_digit_distinct(left.last() as int / 16, right.last() as int / 16);
        assert(a.drop_last() =~= hex(left.drop_last()));
        assert(b.drop_last() =~= hex(right.drop_last()));
        hex_is_injective(left.drop_last(), right.drop_last());
        assert(left =~= left.drop_last().push(left.last()));
        assert(right =~= right.drop_last().push(right.last()));
    } else {
        assert(left =~= right);
    }
}

/// The supported checksum algorithms.
#[derive(Clone, Copy, Debug, PartialEq, Eq, Structural)]
pub enum Algorithm {
    Sha256,
    Blake3,
}

/// The digest of a byte string under an algorithm.
pub open spec fn digest_of(algorithm: Algorithm, bytes: Seq<u8>) -> Seq<u8> {
    match algorithm {
        Algorithm::Sha256 => sha256(bytes),
        Algorithm::Blake3 => blake3_digest(bytes),
    }
}

enum State {
    Sha256(sha2::Sha256),
    Blake3(blake3::Hasher),
}

/// A checksum computed chunk by chunk.
pub struct FileHasher {
    state: State,
    taken: u64,
}

impl FileHasher {
    pub closed spec fn algorithm(self) -> Algorithm {
        match self.state {
            State::Sha256(_) => Algorithm::Sha256,
            State::Blake3(_) => Algorithm::Blake3,
        }
    }

    /// The bytes taken in so far.
    pub closed spec fn input(self) -> Seq<u8> {
        match self.state {
            State::Sha256(hasher) => sha256_input(hasher),
            State::Blake3(hasher) => blake3_input(hasher),
        }
    }

    /// The length of the input is known and within bounds.
    pub closed spec fn wf(self) -> bool {
        self.taken == self.input().len() && self.taken <= MAX_INPUT
    }

    pub fn new(algorithm: Algorithm) -> (hasher: FileHasher)
        ensures
            hasher.wf(),
            hasher.algorithm() == algorithm,
            hasher.input() == Seq::<u8>::empty(),
    {
        match algorithm {
            Algorithm::Sha256 => FileHasher { state: State::Sha256(sha256_new()), taken: 0 },
            Algorithm::Blake3 => FileHasher { state: State::Blake3(blake3_new()), taken: 0 },
        }
    }

    /// Takes in a chunk. The result tells whether it fitted; an input beyond
    /// `MAX_INPUT` bytes is left as it was.
    pub fn update(&mut self, bytes: &[u8]) -> (fitted: bool)
        requires
            old(self).wf(),
        ensures
            final(self).wf(),
            final(self).algorithm() == old(self).algorithm(),
            fitted == (old(self).input().len() + bytes@.len() <= MAX_INPUT),
            final(self).input() == if fitted {
                old(self).input() + bytes@
            } else {
                old(self).input()
            },
    {
        let count: u64 = bytes.len() as u64;
        if count > MAX_INPUT - self.taken {
            return false;
        }
        match &mut self.state {
            State::Sha256(hasher) => sha256_update(hasher, bytes),
            State::Blake3(hasher) => blake3_update(hasher, bytes),
        }
        self.taken = self.taken + count;
        true
    }

    /// The digest of everything taken in, in hexadecimal.
    pub fn finish(self) -> (text: String)
        requires
            self.wf(),
        ensures
            text@ == hex(digest_of(self.algorithm(), self.input())),
    {
        match self.state {
            State::Sha256(hasher) => to_hex(&sha256_finalize(hasher)),
            State::Blake3(hasher) => to_hex(&blake3_finalize(&hasher)),
        }
    }
}

/// A digit is written as `0` to `9`, then `a` to `f`.
pub proof fn hex_digits_are_small_letters(value: int)
    requires
        0 <= value < 16,
    ensures
        value < 10 ==> hex_digit(value) as u32 == '0' as u32 + value,
        value >= 10 ==> hex_digit(value) as u32 == 'a' as u32 + (value - 10),
{
}

/// Each byte becomes two digits, the higher one first, at its own place.
pub proof fn hex_is_byte_by_byte(bytes: Seq<u8>, at: int)
    requires
        0 <= at < bytes.len(),
    ensures
        hex(bytes).len() == 2 * bytes.len(),
        hex(bytes)[2 * at] == hex_digit(bytes[at] as int / 16),
        hex(bytes)[2 * at + 1] == hex_digit(bytes[at] as int % 16),
    decreases bytes.len(),
{
    hex_len(bytes);
    hex_len(bytes.drop_last());
    if at < bytes.len() - 1 {
        hex_is_byte_by_byte(bytes.drop_last(), at);
        assert(bytes.drop_last()[at] == bytes[at]);
    }
}

/// Each algorithm stands for its own digest.
pub proof fn digests_by_algorithm(bytes: Seq<u8>)
    ensures
        digest_of(Algorithm::Sha256, bytes) == sha256(bytes),
        digest_of(Algorithm::Blake3, bytes) == blake3_digest(bytes),
{
}

} // verus!
