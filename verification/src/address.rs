//! The recipient: a 32-byte account address, read once from its textual form.

use solana_sdk::pubkey::{ParsePubkeyError, Pubkey};
use vstd::prelude::*;

verus! {

/// Why a textual address was not accepted.
#[derive(Clone, Copy, Debug, PartialEq, Eq, Structural)]
pub enum AddressError {
    /// The text is too long, or does not decode to exactly 32 bytes.
    WrongSize,
    /// The text is not base58.
    Invalid,
}

/// A validated destination of transfers.
#[derive(Clone, Copy, Debug)]
pub struct Address {
    pub bytes: [u8; 32],
}

/// What `Pubkey::from_str` of `solana_sdk` makes of a text: the 32 bytes of
/// the key, or the reason for which it refuses the text.
pub uninterp spec fn pubkey_from_text(text: Seq<char>) -> Result<Seq<u8>, AddressError>;

/// Calls `solana_sdk`'s `Pubkey::from_str` (through `str::parse`) and hands
/// back the key's bytes, or which of its two errors came. Nothing is claimed
/// beyond the name `pubkey_from_text` for that outcome.
#[verifier::external_body]
fn decode_pubkey(text: &str) -> (decoded: Result<[u8; 32], AddressError>)
    ensures
        match decoded {
            Ok(bytes) => pubkey_from_text(text@) == Ok::<Seq<u8>, AddressError>(bytes@),
            Err(e) => pubkey_from_text(text@) == Err::<Seq<u8>, AddressError>(e),
        },
{
    match text.parse::<Pubkey>() {
        Ok(key) => Ok(key.to_bytes()),
        Err(ParsePubkeyError::WrongSize) => Err(AddressError::WrongSize),
        Err(ParsePubkeyError::Invalid) => Err(AddressError::Invalid),
    }
}

impl View for Address {
    type V = Seq<u8>;

    open spec fn view(&self) -> Seq<u8> {
        self.bytes@
    }
}

/// The outcome of reading an address, over byte sequences.
pub open spec fn parsed_view(parsed: Result<Address, AddressError>) -> Result<Seq<u8>, AddressError> {
    match parsed {
        Ok(address) => Ok(address@),
        Err(e) => Err(e),
    }
}

impl Address {
    /// The address with the given bytes.
    pub fn from_bytes(bytes: [u8; 32]) -> (address: Address)
        ensures
            address.bytes == bytes,
    {
        Address { bytes }
    }

    /// Reads an address from its base58 text.
    pub fn parse(text: &str) -> (parsed: Result<Address, AddressError>)
        ensures
            parsed_view(parsed) == pubkey_from_text(text@),
    {
        match decode_pubkey(text) {
            Ok(bytes) => Ok(Address { bytes }),
            Err(e) => Err(e),
        }
    }
}

} // verus!
