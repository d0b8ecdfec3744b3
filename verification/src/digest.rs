//! SHA-2 digests of file contents, fed chunk by chunk, and their comparison
//! with the digest that a site publishes.

use crate::checksums::{CheckSums, CheckSumsView};
use crate::text::same_text;
use sha2::Digest;
use vstd::prelude::*;

verus! {

/// `sha2::Sha256`, the SHA-256 hasher, taken as it is: nothing is known of
/// what it holds but what [`sha256_absorbed`] names.
#[verifier::external_type_specification]
#[verifier::external_body]
pub struct ExSha256(sha2::Sha256);

/// `sha2::Sha512`, the SHA-512 hasher, taken as it is: nothing is known of
/// what it holds but what [`sha512_absorbed`] names.
#[verifier::external_type_specification]
#[verifier::external_body]
pub struct ExSha512(sha2::Sha512);

/// The bytes that a SHA-256 hasher has been fed so far, in order.
pub uninterp spec fn sha256_absorbed(hasher: sha2::Sha256) -> Seq<u8>;

/// The bytes that a SHA-512 hasher has been fed so far, in order.
pub uninterp spec fn sha512_absorbed(hasher: sha2::Sha512) -> Seq<u8>;

/// The SHA-256 digest of `data`, 32 bytes.
pub uninterp spec fn sha256_digest(data: Seq<u8>) -> Seq<u8>;

/// The SHA-512 digest of `data`, 64 bytes.
pub uninterp spec fn sha512_digest(data: Seq<u8>) -> Seq<u8>;

/// Size of the chunks in which a file is read for verification: 16 MiB.
pub const VERIFY_CHUNK_SIZE: usize = 16_777_216;

/// The lowercase hexadecimal digit of `nibble`, a value below 16.
pub open spec fn hex_char(nibble: int) -> char {
    if nibble < 10 {
        crate::timestamp::digit(nibble)
    } else if nibble == 10 {
        'a'
    } else if nibble == 11 {
        'b'
    } else if nibble == 12 {
        'c'
    } else if nibble == 13 {
        'd'
    } else if nibble == 14 {
        'e'
    } else {
        'f'
    }
}

/// `data` in lowercase hexadecimal: two digits for each byte, the high
/// half first.
pub open spec fn hex_lower(data: Seq<u8>) -> Seq<char> {
    Seq::new(
        2 * data.len(),
        |i: int|
            if i % 2 == 0 {
                hex_char(data[i / 2] as int / 16)
            } else {
                hex_char(data[i / 2] as int % 16)
            },
    )
}

/// What comparing the digest of `content` with `checksum` gives: nothing
/// where no digest is published, else whether the lowercase hexadecimal
/// digest of the content is the published one.
pub open spec fn verification_of(checksum: CheckSumsView, content: Seq<u8>) -> Option<bool> {
    match checksum {
        CheckSumsView::Missing => None,
        CheckSumsView::Sha256(expected) => Some(hex_lower(sha256_digest(content)) == expected),
        CheckSumsView::Sha512(expected) => Some(hex_lower(sha512_digest(content)) == expected),
    }
}

/// `sha2::Sha256::new`: a hasher that has been fed nothing.
#[verifier::external_body]
fn sha256_start() -> (hasher: sha2::Sha256)
    ensures
        sha256_absorbed(hasher) == Seq::<u8>::empty(),
{
    sha2::Sha256::new()
}

/// `Digest::update` on a SHA-256 hasher: feeding in pieces is feeding the
/// pieces joined.
#[verifier::external_body]
fn sha256_feed(hasher: &mut sha2::Sha256, data: &[u8])
    ensures
        sha256_absorbed(*final(hasher)) == sha256_absorbed(*old(hasher)) + data@,
{
    hasher.update(data)
}

/// `Digest::finalize` on a SHA-256 hasher: the digest of all it was fed.
#[verifier::external_body]
fn sha256_finish(hasher: sha2::Sha256) -> (digest: Vec<u8>)
    ensures
        digest@ == sha256_digest(sha256_absorbed(hasher)),
        digest@.len() == 32,
{
    hasher.finalize().to_vec()
}

/// `sha2::Sha512::new`: a hasher that has been fed nothing.
#[verifier::external_body]
fn sha512_start() -> (hasher: sha2::Sha512)
    ensures
        sha512_absorbed(hasher) == Seq::<u8>::empty(),
{
    sha2::Sha512::new()
}

/// `Digest::update` on a SHA-512 hasher: feeding in pieces is feeding the
/// pieces joined.
#[verifier::external_body]
fn sha512_feed(hasher: &mut sha2::Sha512, data: &[u8])
    ensures
        sha512_absorbed(*final(hasher)) == sha512_absorbed(*old(hasher)) + data@,
{
    hasher.update(data)
}

/// `Digest::finalize` on a SHA-512 hasher: the digest of all it was fed.
#[verifier::external_body]
fn sha512_finish(hasher: sha2::Sha512) -> (digest: Vec<u8>)
    ensures
        digest@ == sha512_digest(sha512_absorbed(hasher)),
        digest@.len() == 64,
{
    hasher.finalize().to_vec()
}

/// `base16ct::lower::encode_string`: two lowercase hexadecimal digits for
/// each byte, the high half first. It panics on an input longer than half
/// of `usize::MAX`, which `requires` leaves out.
#[verifier::external_body]
fn encode_hex(data: &[u8]) -> (text: String)
    requires
        data@.len() <= usize::MAX / 2,
    ensures
        text@ == hex_lower(data@),
{
    base16ct::lower::encode_string(data)
}

enum Hasher {
    Sha256(sha2::Sha256, String),
    Sha512(sha2::Sha512, String),
    Unchecked(Ghost<Seq<u8>>),
}

/// The verification of one file in progress: it is fed the file's content
/// chunk by chunk and then tells whether the content has the published
/// digest.
pub struct FileVerifier {
    hasher: Hasher,
}

impl FileVerifier {
    /// The published digest that the content is held against.
    pub closed spec fn expected(&self) -> CheckSumsView {
        match self.hasher {
            Hasher::Sha256(_, expected) => CheckSumsView::Sha256(expected@),
            Hasher::Sha512(_, expected) => CheckSumsView::Sha512(expected@),
            Hasher::Unchecked(_) => CheckSumsView::Missing,
        }
    }

    /// The content fed so far.
    pub closed spec fn absorbed(&self) -> Seq<u8> {
        match self.hasher {
            Hasher::Sha256(hasher, _) => sha256_absorbed(hasher),
            Hasher::Sha512(hasher, _) => sha512_absorbed(hasher),
            Hasher::Unchecked(content) => content@,
        }
    }

    /// Starts the verification of a file against `checksum`.
    pub fn new(checksum: &CheckSums) -> (r: FileVerifier)
        ensures
            r.expected() == checksum@,
            r.absorbed() == Seq::<u8>::empty(),
    {
        let hasher = match checksum {
            CheckSums::Sha256(expected) => Hasher::Sha256(sha256_start(), expected.clone()),
            CheckSums::Sha512(expected) => Hasher::Sha512(sha512_start(), expected.clone()),
            CheckSums::Missing => Hasher::Unchecked(Ghost(Seq::empty())),
        };
        FileVerifier { hasher }
    }

    /// Feeds the next chunk of the file.
    pub fn update(&mut self, chunk: &[u8])
        ensures
            final(self).expected() == old(self).expected(),
            final(self).absorbed() == old(self).absorbed() + chunk@,
    {
        match &mut self.hasher {
            Hasher::Sha256(hasher, _) => sha256_feed(hasher, chunk),
            Hasher::Sha512(hasher, _) => sha512_feed(hasher, chunk),
            Hasher::Unchecked(content) => {
                proof {
                    *content.borrow_mut() = content@ + chunk@;
                }
            },
        }
    }

    /// Ends the verification: nothing where no digest is published, else
    /// whether the content fed has the published digest.
    pub fn finish(self) -> (r: Option<bool>)
        ensures
            r == verification_of(self.expected(), self.absorbed()),
    {
        match self.hasher {
            Hasher::Sha256(hasher, expected) => {
                let digest = sha256_finish(hasher);
                let text = encode_hex(digest.as_slice());
                Some(same_text(text.as_str(), expected.as_str()))
            },
            Hasher::Sha512(hasher, expected) => {
                let digest = sha512_finish(hasher);
                let text = encode_hex(digest.as_slice());
                Some(same_text(text.as_str(), expected.as_str()))
            },
            Hasher::Unchecked(_) => None,
        }
    }
}

/// Verifies `content`, the whole content of a file, against `checksum`:
/// nothing where no digest is published, else whether the content has the
/// published digest.
pub fn verify_file(content: &[u8], checksum: &CheckSums) -> (r: Option<bool>)
    ensures
        r == verification_of(checksum@, content@),
{
    let mut verifier = FileVerifier::new(checksum);
    verifier.update(content);
    assert(Seq::<u8>::empty() + content@ == content@);
    verifier.finish()
}

} // verus!
