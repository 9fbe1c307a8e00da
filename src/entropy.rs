//! Random integers from the bytes that an entropy provider hands back. The
//! request itself is made by the caller; what is decided here is how its
//! reply becomes an integer or an error.

use vstd::prelude::*;

use byteorder::{BigEndian, ByteOrder};

verus! {

/// Why no random integer could be had from a reply.
#[derive(Clone, Debug, PartialEq, Eq)]
pub enum RandomError {
    /// The provider refused the request; its message, unchanged.
    Rejected(String),
    /// The reply held `len` bytes where the integer needs `needed`.
    TooShort { len: usize, needed: usize },
}

/// The integer that the first 8 bytes of `b` hold big-endian.
pub open spec fn be_u64_of(b: Seq<u8>) -> u64 {
    (b[0] as u64) << 56u64 | (b[1] as u64) << 48u64 | (b[2] as u64) << 40u64 | (b[3] as u64)
        << 32u64 | (b[4] as u64) << 24u64 | (b[5] as u64) << 16u64 | (b[6] as u64) << 8u64 | (
    b[7] as u64)
}

/// The integer that the first 4 bytes of `b` hold big-endian.
pub open spec fn be_u32_of(b: Seq<u8>) -> u32 {
    (b[0] as u32) << 24u32 | (b[1] as u32) << 16u32 | (b[2] as u32) << 8u32 | (b[3] as u32)
}

/// Relies on byteorder's `BigEndian::read_u64`: it reads the first 8 bytes of
/// `buf` most significant first, and panics on a shorter buffer.
#[verifier::external_body]
fn read_be_u64(buf: &[u8]) -> (r: u64)
    requires
        buf@.len() >= 8,
    ensures
        r == be_u64_of(buf@),
{
    BigEndian::read_u64(buf)
}

/// Relies on byteorder's `BigEndian::read_u32`: it reads the first 4 bytes of
/// `buf` most significant first, and panics on a shorter buffer.
#[verifier::external_body]
fn read_be_u32(buf: &[u8]) -> (r: u32)
    requires
        buf@.len() >= 4,
    ensures
        r == be_u32_of(buf@),
{
    BigEndian::read_u32(buf)
}

/// Turns the provider's reply into a `u64`: the first 8 bytes read
/// big-endian. A refusal comes back with the provider's message; a reply of
/// fewer than 8 bytes is a decoding error.
pub fn decode_random_u64(reply: Result<Vec<u8>, String>) -> (r: Result<u64, RandomError>)
    ensures
        match reply {
            Ok(bytes) => if bytes@.len() >= 8 {
                r == Ok::<u64, RandomError>(be_u64_of(bytes@))
            } else {
                r == Err::<u64, RandomError>(
                    RandomError::TooShort { len: bytes@.len() as usize, needed: 8 },
                )
            },
            Err(message) => r == Err::<u64, RandomError>(RandomError::Rejected(message)),
        },
{
    match reply {
        Ok(bytes) => {
            if bytes.len() < 8 {
                Err(RandomError::TooShort { len: bytes.len(), needed: 8 })
            } else {
                Ok(read_be_u64(bytes.as_slice()))
            }
        },
        Err(message) => Err(RandomError::Rejected(message)),
    }
}

/// Turns the provider's reply into a `u32`: the first 4 bytes read
/// big-endian. A refusal comes back with the provider's message; a reply of
/// fewer than 4 bytes is a decoding error.
pub fn decode_random_u32(reply: Result<Vec<u8>, String>) -> (r: Result<u32, RandomError>)
    ensures
        match reply {
            Ok(bytes) => if bytes@.len() >= 4 {
                r == Ok::<u32, RandomError>(be_u32_of(bytes@))
            } else {
                r == Err::<u32, RandomError>(
                    RandomError::TooShort { len: bytes@.len() as usize, needed: 4 },
                )
            },
            Err(message) => r == Err::<u32, RandomError>(RandomError::Rejected(message)),
        },
{
    match reply {
        Ok(bytes) => {
            if bytes.len() < 4 {
                Err(RandomError::TooShort { len: bytes.len(), needed: 4 })
            } else {
                Ok(read_be_u32(bytes.as_slice()))
            }
        },
        Err(message) => Err(RandomError::Rejected(message)),
    }
}

} // verus!
