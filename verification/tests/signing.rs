use block_transfer::address::Address;
use block_transfer::signing::{SenderIdentity, TransferOrder};
use solana_sdk::program_utils::limited_deserialize;
use solana_sdk::pubkey::Pubkey;
use solana_sdk::signature::{keypair_from_seed, Keypair, Signature};
use solana_sdk::signer::Signer;
use solana_sdk::system_instruction;
use solana_sdk::system_program;
use solana_sdk::transaction::Transaction;

fn keypair() -> Keypair {
    keypair_from_seed(&[42u8; 32]).unwrap()
}

fn material(keypair: &Keypair) -> Vec<u8> {
    format!("{:?}", keypair.to_bytes().to_vec()).into_bytes()
}

fn order(lamports: u64) -> TransferOrder {
    TransferOrder {
        sender: SenderIdentity::from_key_material(&material(&keypair())).unwrap(),
        recipient: Address::from_bytes([5u8; 32]),
        lamports,
    }
}

#[test]
fn identity_is_read_from_key_material() {
    let identity = SenderIdentity::from_key_material(&material(&keypair())).unwrap();
    assert_eq!(identity.public_key(), keypair().pubkey().to_bytes());
}

#[test]
fn key_material_that_is_no_json_is_refused() {
    assert!(SenderIdentity::from_key_material(b"not json").is_err());
    assert!(SenderIdentity::from_key_material(b"").is_err());
}

#[test]
fn key_material_of_wrong_length_is_refused() {
    assert!(SenderIdentity::from_key_material(b"[1, 2, 3]").is_err());
}

#[test]
fn key_material_with_foreign_public_key_is_refused() {
    let mut bytes = keypair().to_bytes().to_vec();
    let other = keypair_from_seed(&[1u8; 32]).unwrap().to_bytes();
    bytes[32..].copy_from_slice(&other[32..]);
    let text = format!("{:?}", bytes).into_bytes();
    assert!(SenderIdentity::from_key_material(&text).is_err());
}

#[test]
fn signature_verifies_under_the_sender_key() {
    let signed = order(1_000).sign(&[3u8; 32]);
    let signature = Signature::from(signed.signature);
    assert!(signature.verify(&keypair().pubkey().to_bytes(), &signed.message));
}

#[test]
fn signed_transfer_is_what_the_ledger_expects() {
    let signed = order(123_456_789).sign(&[3u8; 32]);
    let payer = keypair().pubkey();
    let expected = Transaction::new_signed_with_payer(
        &[system_instruction::transfer(&payer, &Pubkey::from([5u8; 32]), 123_456_789)],
        Some(&payer),
        &[&keypair()],
        solana_sdk::hash::Hash::new_from_array([3u8; 32]),
    );
    assert_eq!(signed.message, expected.message_data());
    assert_eq!(Signature::from(signed.signature), expected.signatures[0]);
}

#[test]
fn signed_transfer_reads_back_as_one_transfer() {
    let signed = order(77).sign(&[9u8; 32]);
    let mut wire = vec![1u8];
    wire.extend_from_slice(&signed.signature);
    wire.extend_from_slice(&signed.message);
    let tx: Transaction = limited_deserialize(&wire).unwrap();
    assert!(tx.verify().is_ok());
    assert_eq!(tx.message.recent_blockhash, solana_sdk::hash::Hash::new_from_array([9u8; 32]));
    assert_eq!(tx.message.header.num_required_signatures, 1);
    assert_eq!(tx.message.account_keys[0], keypair().pubkey());
    assert_eq!(tx.message.account_keys[1], Pubkey::from([5u8; 32]));
    assert_eq!(tx.message.instructions.len(), 1);
    let instruction = &tx.message.instructions[0];
    assert_eq!(tx.message.account_keys[instruction.program_id_index as usize], system_program::id());
    assert_eq!(instruction.accounts, vec![0u8, 1u8]);
    let mut data = vec![2u8, 0, 0, 0];
    data.extend_from_slice(&77u64.to_le_bytes());
    assert_eq!(instruction.data, data);
}

#[test]
fn each_anchor_gives_its_own_transfer() {
    let order = order(5);
    let first = order.sign(&[1u8; 32]);
    let second = order.sign(&[2u8; 32]);
    assert_ne!(first.message, second.message);
    assert_ne!(first.signature, second.signature);
    let again = order.sign(&[1u8; 32]);
    assert_eq!(first.message, again.message);
    assert_eq!(first.signature, again.signature);
}

#[test]
fn amount_is_carried_in_the_message() {
    let small = order(1).sign(&[1u8; 32]);
    let large = order(2).sign(&[1u8; 32]);
    assert_ne!(small.message, large.message);
}

#[test]
fn instruction_is_a_system_transfer() {
    let instruction = order(1_000_000_007).instruction();
    assert_eq!(instruction.program, [0u8; 32]);
    assert_eq!(instruction.program, system_program::id().to_bytes());
    assert_eq!(instruction.accounts.len(), 2);
    assert_eq!(instruction.accounts[0].key, keypair().pubkey().to_bytes());
    assert!(instruction.accounts[0].signer);
    assert!(instruction.accounts[0].writable);
    assert_eq!(instruction.accounts[1].key, [5u8; 32]);
    assert!(!instruction.accounts[1].signer);
    assert!(instruction.accounts[1].writable);
    let mut data = vec![2u8, 0, 0, 0];
    data.extend_from_slice(&1_000_000_007u64.to_le_bytes());
    assert_eq!(instruction.data, data);
}
