//! Hex-encoded block hashes: an exact model of hex decoding and the parser
//! for operator-supplied block hashes.

use vstd::prelude::*;

use crate::point::{BlockHash, BLOCK_HASH_BYTES};

verus! {

/// The value of one hex digit, upper or lower case.
pub open spec fn hex_digit(c: char) -> Option<u8> {
    if '0' <= c && c <= '9' {
        Some((c as u8 - '0' as u8) as u8)
    } else if 'a' <= c && c <= 'f' {
        Some((c as u8 - 'a' as u8 + 10) as u8)
    } else if 'A' <= c && c <= 'F' {
        Some((c as u8 - 'A' as u8 + 10) as u8)
    } else {
        None
    }
}

/// The bytes a hex string denotes: two digits to a byte, high digit first;
/// nothing when a character is no hex digit or the length is odd.
pub open spec fn hex_decode(s: Seq<char>) -> Option<Seq<u8>>
    decreases s.len(),
{
    if s.len() == 0 {
        Some(Seq::empty())
    } else if s.len() == 1 {
        None
    } else {
        match (hex_digit(s[0]), hex_digit(s[1]), hex_decode(s.skip(2))) {
            (Some(hi), Some(lo), Some(rest)) => Some(seq![(16 * hi + lo) as u8] + rest),
            _ => None,
        }
    }
}

/// Relies on `hex::decode`: each output byte is built from two hex digits of
/// either case, high digit first; an odd-length or non-hex input is refused.
#[verifier::external_body]
fn hex_decode_bytes(s: &str) -> (r: Option<Vec<u8>>)
    ensures
        match r {
            Some(v) => hex_decode(s@) == Some(v@),
            None => hex_decode(s@) is None,
        },
{
    hex::decode(s).ok()
}

/// Why a block-hash string was refused.
#[derive(Clone, Copy, Debug, PartialEq, Eq, Structural)]
pub enum BlockHashError {
    /// The input is not a hex string.
    NotHex,
    /// The input is hex but denotes the wrong number of bytes: the length a
    /// block hash must have, and the length that was found.
    WrongLength { expected: usize, found: usize },
}

/// Parses a hex-encoded block hash: accepts exactly a valid hex string
/// denoting the fixed hash length; a refusal says whether the input was not
/// hex, or names the expected and found lengths.
pub fn parse_block_hash(bh: &str) -> (r: Result<BlockHash, BlockHashError>)
    ensures
        match r {
            Ok(h) => h.wf() && hex_decode(bh@) == Some(h@),
            Err(e) => match e {
                BlockHashError::NotHex => hex_decode(bh@) is None,
                BlockHashError::WrongLength { expected, found } => expected == BLOCK_HASH_BYTES
                    && match hex_decode(bh@) {
                        Some(b) => b.len() == found && found != BLOCK_HASH_BYTES,
                        None => false,
                    },
            },
        },
{
    match hex_decode_bytes(bh) {
        Some(bytes) => {
            if bytes.len() == BLOCK_HASH_BYTES {
                Ok(BlockHash { bytes })
            } else {
                Err(BlockHashError::WrongLength { expected: BLOCK_HASH_BYTES, found: bytes.len() })
            }
        },
        None => Err(BlockHashError::NotHex),
    }
}

} // verus!
