//! Hexadecimal text for hashes and addresses.

use vstd::prelude::*;

verus! {

/// The sixteen lower-case hexadecimal digits, by value.
pub open spec fn hex_digits() -> Seq<char> {
    seq!['0', '1', '2', '3', '4', '5', '6', '7', '8', '9', 'a', 'b', 'c', 'd', 'e', 'f']
}

/// The lower-case hexadecimal text of `bytes`: two digits for each byte, the
/// high half first.
pub open spec fn hex_string(bytes: Seq<u8>) -> Seq<char> {
    Seq::new(
        2 * bytes.len(),
        |i: int|
            if i % 2 == 0 {
                hex_digits()[(bytes[i / 2] / 16) as int]
            } else {
                hex_digits()[(bytes[i / 2] % 16) as int]
            },
    )
}

/// The hexadecimal text of `bytes` behind the prefix `0x`.
pub open spec fn hex_prefixed(bytes: Seq<u8>) -> Seq<char> {
    seq!['0', 'x'] + hex_string(bytes)
}

/// Calls `hex::encode`, which writes each byte as two digits out of
/// `0123456789abcdef`, the high four bits first, in the order of the bytes.
#[verifier::external_body]
fn hex_encode(bytes: &Vec<u8>) -> (text: String)
    ensures
        text@ == hex_string(bytes@),
{
    hex::encode(bytes)
}

/// The text `0x` followed by the lower-case hexadecimal digits of `bytes`.
pub fn to_prefixed_hex(bytes: &Vec<u8>) -> (text: String)
    ensures
        text@ == hex_prefixed(bytes@),
{
    let digits = hex_encode(bytes);
    let prefix = String::from_str("0x");
    proof {
        reveal_strlit("0x");
        assert("0x"@ =~= seq!['0', 'x']);
    }
    prefix.concat(digits.as_str())
}

/// The 20 bytes that a text stands for as the address of an account on an
/// EVM chain, where it stands for one.
pub uninterp spec fn evm_address_of(text: Seq<char>) -> Option<Seq<u8>>;

/// Calls `str::parse` for `ethers::abi::Address`. Which texts that function
/// reads as an address is not stated here: what it returns has a name,
/// [`evm_address_of`], and depends on the text alone. An address that was
/// read has 20 bytes, the size of the type.
#[verifier::external_body]
pub(crate) fn parse_evm_address(text: &str) -> (address: Option<Vec<u8>>)
    ensures
        match address {
            Some(a) => evm_address_of(text@) == Some(a@) && a@.len() == 20,
            None => evm_address_of(text@) is None,
        },
{
    match text.parse::<ethers::abi::Address>() {
        Ok(a) => Some(a.as_bytes().to_vec()),
        Err(_) => None,
    }
}

} // verus!
