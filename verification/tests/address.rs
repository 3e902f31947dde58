use block_transfer::address::{Address, AddressError};
use solana_sdk::pubkey::Pubkey;

#[test]
fn system_program_address_is_all_zero() {
    let parsed = Address::parse("11111111111111111111111111111111").unwrap();
    assert_eq!(parsed.bytes, [0u8; 32]);
}

#[test]
fn parse_gives_the_bytes_of_the_key() {
    let mut bytes = [0u8; 32];
    for (i, b) in bytes.iter_mut().enumerate() {
        *b = (i * 7 + 3) as u8;
    }
    let text = Pubkey::from(bytes).to_string();
    let parsed = Address::parse(&text).unwrap();
    assert_eq!(parsed.bytes, bytes);
    assert_ne!(parsed.bytes.to_vec(), text.as_bytes().to_vec());
}

#[test]
fn known_address_parses() {
    let parsed = Address::parse("SysvarC1ock11111111111111111111111111111111").unwrap();
    assert_eq!(Pubkey::from(parsed.bytes), solana_sdk::sysvar::clock::id());
}

#[test]
fn text_that_is_not_base58_is_invalid() {
    assert_eq!(Address::parse("not-an-address!").unwrap_err(), AddressError::Invalid);
    assert_eq!(Address::parse("0OIl").unwrap_err(), AddressError::Invalid);
}

#[test]
fn wrong_length_is_reported() {
    assert_eq!(Address::parse("abc").unwrap_err(), AddressError::WrongSize);
    assert_eq!(Address::parse("").unwrap_err(), AddressError::WrongSize);
    let long = "1".repeat(45);
    assert_eq!(Address::parse(&long).unwrap_err(), AddressError::WrongSize);
}

#[test]
fn from_bytes_keeps_the_bytes() {
    assert_eq!(Address::from_bytes([9u8; 32]).bytes, [9u8; 32]);
}
