//! The calls this library makes into std and into outside crates, each behind
//! a contract that states what the called function documents.

use itertools::Itertools;
use vstd::prelude::*;

use crate::entry::{first_per_module, RouterTemplateInputs};

verus! {

/// What `char::is_uppercase` answers for a character.
pub uninterp spec fn is_upper(c: char) -> bool;

/// What `str::to_uppercase` returns for a character sequence.
pub uninterp spec fn upper_of(s: Seq<char>) -> Seq<char>;

/// What `str::to_lowercase` returns for a character sequence.
pub uninterp spec fn lower_of(s: Seq<char>) -> Seq<char>;

/// What `str::split_whitespace` yields for a character sequence, in order.
pub uninterp spec fn words_of(s: Seq<char>) -> Seq<Seq<char>>;

/// Relies on `char::is_uppercase`: whether `c` has the Unicode Uppercase
/// property, a function of `c` alone.
#[verifier::external_body]
pub(crate) fn is_uppercase(c: char) -> (r: bool)
    ensures
        r == is_upper(c),
{
    c.is_uppercase()
}

/// Relies on `str::to_uppercase`: the uppercase mapping of the characters,
/// a function of them alone; an empty string stays empty.
#[verifier::external_body]
pub(crate) fn uppercase(s: &str) -> (r: String)
    ensures
        r@ == upper_of(s@),
        s@.len() == 0 ==> r@.len() == 0,
{
    s.to_uppercase()
}

/// Relies on `str::to_lowercase`: the lowercase mapping of the characters,
/// a function of them alone; an empty string stays empty.
#[verifier::external_body]
pub(crate) fn lowercase(s: &str) -> (r: String)
    ensures
        r@ == lower_of(s@),
        s@.len() == 0 ==> r@.len() == 0,
{
    s.to_lowercase()
}

/// Relies on `str::split_whitespace`: the maximal runs of non-whitespace
/// characters, in order.
#[verifier::external_body]
pub(crate) fn split_words(s: &str) -> (r: Vec<String>)
    ensures
        r@.map_values(|w: String| w@) == words_of(s@),
{
    s.split_whitespace().map(|w| w.to_string()).collect()
}

} // verus!

verus! {

/// What `alloy_primitives::keccak256` returns for a byte sequence.
pub uninterp spec fn keccak256_of(data: Seq<u8>) -> Seq<u8>;

/// What `Address::to_checksum(None)` returns for an address: the mixed-case
/// EIP-55 text of its bytes.
pub uninterp spec fn checksum_of(address: Seq<u8>) -> Seq<char>;

/// Relies on `alloy_primitives::keccak256`: the 32-byte Keccak-256 digest of
/// the bytes, a function of them alone.
#[verifier::external_body]
pub(crate) fn keccak256(data: &[u8]) -> (r: [u8; 32])
    ensures
        r@ == keccak256_of(data@),
{
    alloy_primitives::keccak256(data).0
}

/// Relies on `Address::create2_from_code`: the CREATE2 address
/// `keccak256(0xff ++ deployer ++ salt ++ keccak256(init_code))[12..]`.
#[verifier::external_body]
pub(crate) fn create2_address(deployer: &[u8; 20], salt: &[u8; 32], init_code: &[u8]) -> (r: [u8; 20])
    ensures
        r@ == keccak256_of(seq![0xffu8] + deployer@ + salt@ + keccak256_of(init_code@)).subrange(12, 32),
{
    alloy_primitives::Address::from(*deployer).create2_from_code(salt, init_code).0.0
}

/// Relies on `Address::to_checksum` with no chain id: the EIP-55 checksummed
/// text of the address, a function of its bytes alone.
#[verifier::external_body]
pub(crate) fn checksum_text(address: &[u8; 20]) -> (r: String)
    ensures
        r@ == checksum_of(address@),
{
    alloy_primitives::Address::from(*address).to_checksum(None)
}

/// The lowercase hexadecimal digit for a value below 16.
pub open spec fn hex_digit(v: u8) -> char {
    if v < 10 {
        (('0' as u8) + v) as char
    } else {
        (('a' as u8) + (v - 10)) as char
    }
}

/// Two lowercase hexadecimal digits per byte, high nibble first.
pub open spec fn hex_of(b: Seq<u8>) -> Seq<char>
    decreases b.len(),
{
    if b.len() == 0 {
        Seq::empty()
    } else {
        hex_of(b.drop_last()) + seq![hex_digit(b.last() / 16), hex_digit(b.last() % 16)]
    }
}

/// Relies on `const_hex::encode_prefixed`: `0x` followed by two lowercase
/// hexadecimal digits per byte.
#[verifier::external_body]
pub(crate) fn hex_with_prefix(b: &[u8]) -> (r: String)
    ensures
        r@ == seq!['0', 'x'] + hex_of(b@),
{
    const_hex::encode_prefixed(b)
}

} // verus!

verus! {

/// Relies on `itertools::Itertools::unique_by`, keyed by module name: it
/// yields, in order, each entry whose key it has not yielded before.
#[verifier::external_body]
pub(crate) fn unique_by_module(entries: Vec<RouterTemplateInputs>) -> (r: Vec<RouterTemplateInputs>)
    ensures
        r@ == first_per_module(entries@),
{
    entries.into_iter().unique_by(|m| m.contract_name.clone()).collect()
}

} // verus!
