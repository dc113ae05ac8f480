use vstd::prelude::*;
use crate::text::str_eq;
use sha2::Digest;
use vstd::string::StringSliceAdditionalSpecFns;

verus! {

/// The digest algorithm by which a recorded hash is checked.
#[derive(Debug, PartialEq, Eq, Structural)]
pub enum HashKind {
    /// SHA-1, for a hash of 40 hexadecimal digits.
    Sha1,
    /// SHA-512, for any other hash.
    Sha512,
}

/// The SHA-1 digest of some bytes, as the `sha1` crate computes it.
pub uninterp spec fn sha1_of(data: Seq<u8>) -> Seq<u8>;

/// The SHA-512 digest of some bytes, as the `sha2` crate computes it.
pub uninterp spec fn sha512_of(data: Seq<u8>) -> Seq<u8>;

/// Calls `sha1::Sha1::digest`; its result is named `sha1_of`, of the data alone,
/// and is 20 bytes long (the crate's `OutputSize` for SHA-1).
#[verifier::external_body]
fn sha1_digest(data: &[u8]) -> (r: Vec<u8>)
    ensures
        r@ == sha1_of(data@),
        r@.len() == 20,
{
    sha1::Sha1::digest(data).to_vec()
}

/// Calls `sha2::Sha512::digest`; its result is named `sha512_of`, of the data
/// alone, and is 64 bytes long (the crate's `OutputSize` for SHA-512).
#[verifier::external_body]
fn sha512_digest(data: &[u8]) -> (r: Vec<u8>)
    ensures
        r@ == sha512_of(data@),
        r@.len() == 64,
{
    sha2::Sha512::digest(data).to_vec()
}

/// The lowercase hexadecimal digit of a value below 16.
pub open spec fn hex_digit(n: int) -> char {
    if n < 10 {
        (48 + n) as char
    } else {
        (87 + n) as char
    }
}

/// Bytes written as lowercase hexadecimal, two digits per byte, high half first.
pub open spec fn hex_lower(data: Seq<u8>) -> Seq<char>
    decreases data.len(),
{
    if data.len() == 0 {
        Seq::empty()
    } else {
        hex_lower(data.drop_last()) + seq![hex_digit(data.last() as int / 16), hex_digit(data.last() as int % 16)]
    }
}

/// Calls `hex::encode`, which writes each byte as two lowercase hexadecimal
/// digits, the high half first.
#[verifier::external_body]
fn hex_encode(data: &[u8]) -> (r: String)
    ensures
        r@ == hex_lower(data@),
{
    hex::encode(data)
}

/// The digest of `data` by `kind`.
pub open spec fn digest_of(data: Seq<u8>, kind: HashKind) -> Seq<u8> {
    match kind {
        HashKind::Sha1 => sha1_of(data),
        HashKind::Sha512 => sha512_of(data),
    }
}

/// Whether a recorded hash is a SHA-1 one: 40 bytes long.
pub open spec fn kind_of(expected: &str) -> HashKind {
    if expected.spec_bytes().len() as usize == 40 {
        HashKind::Sha1
    } else {
        HashKind::Sha512
    }
}

/// The algorithm that checks a recorded hash: SHA-1 for 40 bytes, else SHA-512.
pub fn hash_kind_for(expected: &str) -> (r: HashKind)
    ensures
        r == kind_of(expected),
{
    if expected.len() == 40 {
        HashKind::Sha1
    } else {
        HashKind::Sha512
    }
}

/// The digest of `data` by `kind`, in lowercase hexadecimal.
pub fn digest_hex(data: &[u8], kind: HashKind) -> (r: String)
    ensures
        r@ == hex_lower(digest_of(data@, kind)),
{
    let d = match kind {
        HashKind::Sha1 => sha1_digest(data),
        HashKind::Sha512 => sha512_digest(data),
    };
    hex_encode(d.as_slice())
}

/// A downloaded file whose digest differs from the recorded hash.
#[derive(Debug)]
pub struct HashMismatch {
    pub expected: String,
    pub actual: String,
}

impl HashMismatch {
    /// The message shown to the user.
    pub fn message(&self) -> (r: String)
        ensures
            r@ == "Hash mismatch! Expected: "@ + self.expected@ + ", got: "@ + self.actual@,
    {
        let a = crate::text::concat("Hash mismatch! Expected: ", self.expected.as_str());
        let b = crate::text::concat(a.as_str(), ", got: ");
        crate::text::concat(b.as_str(), self.actual.as_str())
    }
}

/// Checks downloaded bytes against the recorded hash, if there is one: the
/// digest that the hash's length picks, in lowercase hexadecimal, must equal it.
pub fn check_download(data: &[u8], expected: Option<&str>) -> (r: Result<(), HashMismatch>)
    ensures
        match expected {
            None => r is Ok,
            Some(e) => {
                let actual = hex_lower(digest_of(data@, kind_of(e)));
                &&& (actual == e@ ==> r is Ok)
                &&& (actual != e@ ==> (r matches Err(m) && m.expected@ == e@ && m.actual@ == actual))
            },
        },
{
    match expected {
        None => Ok(()),
        Some(e) => {
            let actual = digest_hex(data, hash_kind_for(e));
            digest_verdict(actual, e)
        },
    }
}

/// The verdict on a computed digest `actual` (lowercase hexadecimal) against the
/// recorded hash `expected`: accepted when they are equal, else a mismatch that
/// carries both.
pub fn digest_verdict(actual: String, expected: &str) -> (r: Result<(), HashMismatch>)
    ensures
        actual@ == expected@ ==> r is Ok,
        actual@ != expected@ ==> (r matches Err(m) && m.expected@ == expected@ && m.actual@ == actual@),
{
    if str_eq(actual.as_str(), expected) {
        Ok(())
    } else {
        Err(HashMismatch { expected: expected.to_owned(), actual })
    }
}

} // verus!
