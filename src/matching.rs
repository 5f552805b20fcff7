//! Identifying the played media: the hash of its leading bytes, and the
//! choice among the episodes that the comment service matched.

use vstd::prelude::*;

verus! {

/// How many leading bytes of the media file identify it.
pub const HASH_PREFIX_BYTES: usize = 16777216;

/// The MD5 digest of `data`.
pub uninterp spec fn md5_of(data: Seq<u8>) -> Seq<u8>;

/// Lowercase hexadecimal digit of `n` (below 16).
pub open spec fn hex_digit(n: u8) -> char {
    if n < 10 {
        ((48 + n) as u8) as char
    } else {
        ((87 + n) as u8) as char
    }
}

/// Two lowercase hexadecimal digits per byte, high nibble first.
pub open spec fn hex_lower(b: Seq<u8>) -> Seq<char>
    decreases b.len(),
{
    if b.len() == 0 {
        Seq::empty()
    } else {
        seq![hex_digit(b[0] / 16), hex_digit(b[0] % 16)] + hex_lower(b.drop_first())
    }
}

/// Relies on md-5's `Digest::digest`: the 16-byte MD5 digest of `data`.
#[verifier::external_body]
fn md5_digest(data: &[u8]) -> (r: Vec<u8>)
    ensures
        r@ == md5_of(data@),
        r@.len() == 16,
{
    <md5::Md5 as md5::Digest>::digest(data).to_vec()
}

/// Relies on `hex::encode`: two lowercase digits per byte, in order.
#[verifier::external_body]
fn hex_encode(b: &[u8]) -> (r: String)
    ensures
        r@ == hex_lower(b@),
{
    hex::encode(b)
}

/// The bytes that identify a media file whose content starts with `data`.
pub open spec fn hashed_prefix(data: Seq<u8>) -> Seq<u8> {
    if data.len() <= HASH_PREFIX_BYTES { data } else { data.subrange(0, HASH_PREFIX_BYTES as int) }
}

/// The identifying hash of a media file whose content starts with `data`:
/// the MD5 of its first `HASH_PREFIX_BYTES` bytes, in lowercase hexadecimal.
pub fn media_hash(data: &[u8]) -> (r: String)
    ensures
        r@ == hex_lower(md5_of(hashed_prefix(data@))),
{
    let n = data.len();
    let head = if n <= HASH_PREFIX_BYTES {
        data
    } else {
        vstd::slice::slice_subrange(data, 0, HASH_PREFIX_BYTES)
    };
    let digest = md5_digest(head);
    hex_encode(digest.as_slice())
}

/// Why no single episode could be chosen.
#[derive(Clone, Copy, Debug, PartialEq, Eq, Structural)]
pub enum MatchError {
    /// More than one episode matched.
    Ambiguous,
    /// No episode matched.
    NotFound,
}

impl MatchError {
    /// The message shown to the user.
    pub fn message(&self) -> (r: &'static str)
        ensures
            *self == MatchError::Ambiguous ==> r@ == "multiple matching episodes"@,
            *self == MatchError::NotFound ==> r@ == "no matching episode"@,
    {
        match self {
            MatchError::Ambiguous => "multiple matching episodes",
            MatchError::NotFound => "no matching episode",
        }
    }
}

/// Chooses the episode from the service's answer: exactly one match, flagged
/// as matched.
pub fn pick_episode(is_matched: bool, episodes: &Vec<u64>) -> (r: Result<u64, MatchError>)
    ensures
        episodes.len() > 1 ==> r == Err::<u64, MatchError>(MatchError::Ambiguous),
        episodes.len() <= 1 && !(is_matched && episodes.len() == 1) ==> r == Err::<u64, MatchError>(
            MatchError::NotFound,
        ),
        is_matched && episodes.len() == 1 ==> r == Ok::<u64, MatchError>(episodes[0]),
{
    if episodes.len() > 1 {
        Err(MatchError::Ambiguous)
    } else if !is_matched || episodes.len() == 0 {
        Err(MatchError::NotFound)
    } else {
        Ok(episodes[0])
    }
}

} // verus!
