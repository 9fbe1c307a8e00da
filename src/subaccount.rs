//! Subaccount layouts: an identifier embedded with its length, and unsigned
//! integers stored little-endian in the low-order bytes.

use vstd::prelude::*;
use vstd::slice::slice_to_vec;

pub use candid::Principal;
pub use icrc_ledger_types::icrc1::account::Subaccount;

verus! {

#[verifier::external_type_specification]
#[verifier::external_body]
pub struct ExPrincipal(Principal);

/// Relies on candid's `Principal::as_slice`: the significant bytes of the
/// principal, of which there are at most 29 (the length of its backing array,
/// which every constructor respects).
#[verifier::external_body]
fn principal_bytes(principal: &Principal) -> (r: &[u8])
    ensures
        r@.len() <= 29,
{
    principal.as_slice()
}

/// A principal identifier: an opaque sequence of bytes naming an actor.
/// Identities issued by the platform are at most
/// [`PrincipalId::MAX_LENGTH_IN_BYTES`] long; no bound is imposed here.
#[derive(Clone, Debug, PartialEq, Eq)]
pub struct PrincipalId {
    bytes: Vec<u8>,
}

impl View for PrincipalId {
    type V = Seq<u8>;

    closed spec fn view(&self) -> Seq<u8> {
        self.bytes@
    }
}

impl PrincipalId {
    /// The longest identifier that fits the Ethereum-style address layout.
    pub const MAX_LENGTH_IN_BYTES: usize = 29;

    /// The identifier made of a copy of `bytes`.
    pub fn from_slice(bytes: &[u8]) -> (r: PrincipalId)
        ensures
            r@ == bytes@,
    {
        PrincipalId { bytes: slice_to_vec(bytes) }
    }

    /// The identifier made of the significant bytes of a platform principal;
    /// it always fits the address layout.
    pub fn from_principal(principal: &Principal) -> (r: PrincipalId)
        ensures
            r@.len() <= Self::MAX_LENGTH_IN_BYTES,
    {
        PrincipalId::from_slice(principal_bytes(principal))
    }

    /// The identifier's bytes.
    pub fn as_slice(&self) -> (r: &[u8])
        ensures
            r@ == self@,
    {
        self.bytes.as_slice()
    }

    /// The number of bytes of the identifier.
    pub fn len(&self) -> (r: usize)
        ensures
            r == self@.len(),
    {
        self.bytes.len()
    }
}

/// Why an identifier could not be encoded.
#[derive(Clone, Debug, PartialEq, Eq, Structural)]
pub enum AddressError {
    /// The identifier is longer than [`PrincipalId::MAX_LENGTH_IN_BYTES`].
    IdentifierTooLong { len: usize },
}

/// The subaccount that embeds `id`: its length in byte 0, its bytes in
/// 1..=len, zero after them.
pub open spec fn id_subaccount(id: Seq<u8>) -> Seq<u8> {
    Seq::new(
        32,
        |i: int|
            if i == 0 {
                id.len() as u8
            } else if i <= id.len() {
                id[i - 1]
            } else {
                0u8
            },
    )
}

/// The lowercase hexadecimal digit of value `d` (0 <= d < 16).
pub open spec fn hex_digit(d: int) -> char {
    seq!['0', '1', '2', '3', '4', '5', '6', '7', '8', '9', 'a', 'b', 'c', 'd', 'e', 'f'][d]
}

/// Two lowercase hexadecimal digits for each byte of `b`, high nibble first.
pub open spec fn hex_lower(b: Seq<u8>) -> Seq<char> {
    Seq::new(
        2 * b.len(),
        |i: int|
            if i % 2 == 0 {
                hex_digit(b[i / 2] as int / 16)
            } else {
                hex_digit(b[i / 2] as int % 16)
            },
    )
}

/// The value of a lowercase hexadecimal digit.
pub open spec fn hex_value(c: char) -> int {
    if c == '0' { 0 }
    else if c == '1' { 1 }
    else if c == '2' { 2 }
    else if c == '3' { 3 }
    else if c == '4' { 4 }
    else if c == '5' { 5 }
    else if c == '6' { 6 }
    else if c == '7' { 7 }
    else if c == '8' { 8 }
    else if c == '9' { 9 }
    else if c == 'a' { 10 }
    else if c == 'b' { 11 }
    else if c == 'c' { 12 }
    else if c == 'd' { 13 }
    else if c == 'e' { 14 }
    else { 15 }
}

/// The bytes that the pairs of digits of `s` stand for.
pub open spec fn hex_decode(s: Seq<char>) -> Seq<u8> {
    Seq::new(s.len() / 2, |i: int| (16 * hex_value(s[2 * i]) + hex_value(s[2 * i + 1])) as u8)
}

/// The address string of `id`: `0x` and the hexadecimal form of its
/// subaccount.
pub open spec fn eth_address_of(id: Seq<u8>) -> Seq<char> {
    seq!['0', 'x'] + hex_lower(id_subaccount(id))
}

/// Relies on hex::encode: two lowercase digits for each byte, high nibble
/// first, in the order of the bytes.
#[verifier::external_body]
fn encode_hex(bytes: &[u8; 32]) -> (r: String)
    ensures
        r@ == hex_lower(bytes@),
{
    hex::encode(bytes)
}

/// Embeds the identifier in a subaccount: its length in byte 0, its bytes
/// from byte 1 on, zero after them. The identifier must fit beside its length
/// byte, that is hold at most 31 bytes.
pub fn principal_to_subaccount(principal_id: &PrincipalId) -> (r: Subaccount)
    requires
        principal_id@.len() <= 31,
    ensures
        r@ == id_subaccount(principal_id@),
{
    let id = principal_id.as_slice();
    let n = id.len();
    let mut subaccount: [u8; 32] = [0u8; 32];
    subaccount.set(0, n as u8);
    let mut i: usize = 0;
    while i < n
        invariant
            n == id@.len(),
            n <= 31,
            i <= n,
            subaccount[0] == n as u8,
            forall|j: int| 1 <= j <= i ==> subaccount[j] == id@[j - 1],
            forall|j: int| i < j < 32 ==> subaccount[j] == 0,
        decreases n - i,
    {
        subaccount.set(i + 1, id[i]);
        i = i + 1;
    }
    assert(subaccount@ =~= id_subaccount(id@));
    subaccount
}

/// The Ethereum-style address of the identifier: `0x` followed by the 64
/// lowercase hexadecimal digits of its subaccount. An identifier longer than
/// [`PrincipalId::MAX_LENGTH_IN_BYTES`] is refused.
pub fn principal_to_eth_address(principal: PrincipalId) -> (r: Result<String, AddressError>)
    ensures
        principal@.len() <= 29 <==> r is Ok,
        r matches Ok(s) ==> s@ == eth_address_of(principal@),
        r matches Err(e) ==> e == (AddressError::IdentifierTooLong { len: principal@.len() as usize }),
{
    let n = principal.len();
    if n > PrincipalId::MAX_LENGTH_IN_BYTES {
        return Err(AddressError::IdentifierTooLong { len: n });
    }
    let fixed_bytes = principal_to_subaccount(&principal);
    let digits = encode_hex(&fixed_bytes);
    let address = String::from_str("0x").concat(digits.as_str());
    proof {
        reveal_strlit("0x");
    }
    assert(address@ =~= eth_address_of(principal@));
    Ok(address)
}

/// Each lowercase hexadecimal digit reads back as the value it was made for.
pub proof fn lemma_hex_digit_value(d: int)
    requires
        0 <= d < 16,
    ensures
        hex_value(hex_digit(d)) == d,
{
    let digits = seq!['0', '1', '2', '3', '4', '5', '6', '7', '8', '9', 'a', 'b', 'c', 'd', 'e', 'f'];
    assert(digits[0] == '0' && digits[1] == '1' && digits[2] == '2' && digits[3] == '3');
    assert(digits[4] == '4' && digits[5] == '5' && digits[6] == '6' && digits[7] == '7');
    assert(digits[8] == '8' && digits[9] == '9' && digits[10] == 'a' && digits[11] == 'b');
    assert(digits[12] == 'c' && digits[13] == 'd' && digits[14] == 'e' && digits[15] == 'f');
}

/// Decoding the hexadecimal form of a byte sequence gives back the bytes.
pub proof fn lemma_hex_round_trip(b: Seq<u8>)
    ensures
        hex_decode(hex_lower(b)) == b,
{
    let h = hex_lower(b);
    assert forall|i: int| 0 <= i < b.len() implies hex_decode(h)[i] == b[i] by {
        let x = b[i] as int;
        assert((2 * i) / 2 == i && (2 * i) % 2 == 0);
        assert((2 * i + 1) / 2 == i && (2 * i + 1) % 2 == 1);
        lemma_hex_digit_value(x / 16);
        lemma_hex_digit_value(x % 16);
        assert(16 * (x / 16) + x % 16 == x);
    }
    assert(hex_decode(h) =~= b);
}

/// For an identifier of at most 29 bytes, the address has 66 characters,
/// starts with `0x`, and the digits after it decode to the identifier's
/// subaccount.
pub proof fn lemma_eth_address_layout(id: Seq<u8>)
    requires
        id.len() <= 29,
    ensures
        eth_address_of(id).len() == 66,
        eth_address_of(id).subrange(0, 2) == seq!['0', 'x'],
        hex_decode(eth_address_of(id).subrange(2, 66)) == id_subaccount(id),
{
    let a = eth_address_of(id);
    let h = hex_lower(id_subaccount(id));
    assert(a.subrange(0, 2) =~= seq!['0', 'x']);
    assert(a.subrange(2, 66) =~= h);
    lemma_hex_round_trip(id_subaccount(id));
}

/// Identifiers that fit a subaccount are embedded without collision: equal
/// subaccounts come from equal identifiers.
pub proof fn lemma_id_subaccount_injective(a: Seq<u8>, b: Seq<u8>)
    requires
        a.len() <= 31,
        b.len() <= 31,
        id_subaccount(a) == id_subaccount(b),
    ensures
        a == b,
{
    assert(id_subaccount(a)[0] == a.len() as u8);
    assert(id_subaccount(b)[0] == b.len() as u8);
    assert(a.len() == b.len());
    assert forall|i: int| 0 <= i < a.len() implies a[i] == b[i] by {
        assert(id_subaccount(a)[i + 1] == a[i]);
        assert(id_subaccount(b)[i + 1] == b[i]);
    }
    assert(a =~= b);
}

/// Byte `i` (counted from the least significant) of `n`.
pub open spec fn le_byte_u64(n: u64, i: int) -> u8 {
    #[verifier::truncate] ((n >> (8 * i) as u64) as u8)
}

/// The subaccount that holds `n` little-endian in bytes 0..8, zero elsewhere.
pub open spec fn u64_subaccount(n: u64) -> Seq<u8> {
    Seq::new(32, |i: int| if i < 8 { le_byte_u64(n, i) } else { 0u8 })
}

/// Encodes `num` little-endian in the first 8 bytes; the other 24 are zero.
pub fn convert_u64_to_subaccount(num: u64) -> (r: Subaccount)
    ensures
        r@ == u64_subaccount(num),
{
    let mut buffer: [u8; 32] = [0u8; 32];
    let mut i: usize = 0;
    while i < 8
        invariant
            i <= 8,
            forall|j: int| 0 <= j < i ==> buffer[j] == le_byte_u64(num, j),
            forall|j: int| i <= j < 32 ==> buffer[j] == 0,
        decreases 8 - i,
    {
        buffer.set(i, (num >> (8 * i) as u64) as u8);
        i = i + 1;
    }
    assert(buffer@ =~= u64_subaccount(num));
    buffer
}

/// Byte `i` (counted from the least significant) of `n`.
pub open spec fn le_byte_u32(n: u32, i: int) -> u8 {
    #[verifier::truncate] ((n >> (8 * i) as u32) as u8)
}

/// The subaccount that holds `n` little-endian in bytes 0..4, zero elsewhere.
pub open spec fn u32_subaccount(n: u32) -> Seq<u8> {
    Seq::new(32, |i: int| if i < 4 { le_byte_u32(n, i) } else { 0u8 })
}

/// The integer that the first 8 bytes of `b` hold little-endian.
pub open spec fn le_u64_of(b: Seq<u8>) -> u64 {
    (b[0] as u64) | (b[1] as u64) << 8u64 | (b[2] as u64) << 16u64 | (b[3] as u64) << 24u64
        | (b[4] as u64) << 32u64 | (b[5] as u64) << 40u64 | (b[6] as u64) << 48u64 | (b[7] as u64)
        << 56u64
}

/// The integer that the first 4 bytes of `b` hold little-endian.
pub open spec fn le_u32_of(b: Seq<u8>) -> u32 {
    (b[0] as u32) | (b[1] as u32) << 8u32 | (b[2] as u32) << 16u32 | (b[3] as u32) << 24u32
}

/// Encodes `num` little-endian in the first 4 bytes; the other 28 are zero.
pub fn convert_u32_to_subaccount(num: u32) -> (r: Subaccount)
    ensures
        r@ == u32_subaccount(num),
{
    let mut buffer: [u8; 32] = [0u8; 32];
    let mut i: usize = 0;
    while i < 4
        invariant
            i <= 4,
            forall|j: int| 0 <= j < i ==> buffer[j] == le_byte_u32(num, j),
            forall|j: int| i <= j < 32 ==> buffer[j] == 0,
        decreases 4 - i,
    {
        buffer.set(i, (num >> (8 * i) as u32) as u8);
        i = i + 1;
    }
    assert(buffer@ =~= u32_subaccount(num));
    buffer
}

/// Decoding the first 8 bytes of a `u64` subaccount little-endian gives back
/// the integer that was encoded.
pub proof fn lemma_u64_subaccount_round_trip(n: u64)
    ensures
        le_u64_of(u64_subaccount(n).subrange(0, 8)) == n,
{
    let b = u64_subaccount(n).subrange(0, 8);
    assert(b[0] == #[verifier::truncate] ((n >> 0u64) as u8));
    assert(b[1] == #[verifier::truncate] ((n >> 8u64) as u8));
    assert(b[2] == #[verifier::truncate] ((n >> 16u64) as u8));
    assert(b[3] == #[verifier::truncate] ((n >> 24u64) as u8));
    assert(b[4] == #[verifier::truncate] ((n >> 32u64) as u8));
    assert(b[5] == #[verifier::truncate] ((n >> 40u64) as u8));
    assert(b[6] == #[verifier::truncate] ((n >> 48u64) as u8));
    assert(b[7] == #[verifier::truncate] ((n >> 56u64) as u8));
    assert(n == (((n >> 0u64) as u8) as u64) | (((n >> 8u64) as u8) as u64) << 8u64 | (((n >> 16u64) as u8)
        as u64) << 16u64 | (((n >> 24u64) as u8) as u64) << 24u64 | (((n >> 32u64) as u8) as u64)
        << 32u64 | (((n >> 40u64) as u8) as u64) << 40u64 | (((n >> 48u64) as u8) as u64) << 48u64
        | (((n >> 56u64) as u8) as u64) << 56u64) by (bit_vector);
}

/// Decoding the first 4 bytes of a `u32` subaccount little-endian gives back
/// the integer that was encoded.
pub proof fn lemma_u32_subaccount_round_trip(n: u32)
    ensures
        le_u32_of(u32_subaccount(n).subrange(0, 4)) == n,
{
    let b = u32_subaccount(n).subrange(0, 4);
    assert(b[0] == #[verifier::truncate] ((n >> 0u32) as u8));
    assert(b[1] == #[verifier::truncate] ((n >> 8u32) as u8));
    assert(b[2] == #[verifier::truncate] ((n >> 16u32) as u8));
    assert(b[3] == #[verifier::truncate] ((n >> 24u32) as u8));
    assert(n == (((n >> 0u32) as u8) as u32) | (((n >> 8u32) as u8) as u32) << 8u32 | (((n >> 16u32) as u8)
        as u32) << 16u32 | (((n >> 24u32) as u8) as u32) << 24u32) by (bit_vector);
}

/// The integer zero is encoded as the all-zero subaccount, whatever its width.
pub proof fn lemma_zero_subaccounts()
    ensures
        u64_subaccount(0) == Seq::new(32, |i: int| 0u8),
        u32_subaccount(0) == Seq::new(32, |i: int| 0u8),
{
    assert forall|i: int| 0 <= i < 8 implies le_byte_u64(0, i) == 0 by {
        assert(forall|s: u64| (0u64 >> s) as u8 == 0) by (bit_vector);
    }
    assert forall|i: int| 0 <= i < 4 implies le_byte_u32(0, i) == 0 by {
        assert(forall|s: u32| (0u32 >> s) as u8 == 0) by (bit_vector);
    }
    assert(u64_subaccount(0) =~= Seq::new(32, |i: int| 0u8));
    assert(u32_subaccount(0) =~= Seq::new(32, |i: int| 0u8));
}

} // verus!
