//! The sender's identity and the one thing it is used for: signing a transfer
//! of a fixed amount to a fixed recipient over a validity anchor.

use crate::address::Address;
use solana_sdk::instruction::{AccountMeta, Instruction};
use solana_sdk::pubkey::Pubkey;
use solana_sdk::signature::{read_keypair, Keypair};
use solana_sdk::system_instruction;
use solana_sdk::transaction::Transaction;
use vstd::bytes::{lemma_auto_spec_u64_to_from_le_bytes, spec_u64_to_le_bytes};
use vstd::prelude::*;

verus! {

/// What `read_keypair` of `solana_sdk` makes of the contents of a key file:
/// the 64 bytes of the key pair (secret key, then public key), or nothing
/// where it refuses the contents.
pub uninterp spec fn keypair_from_json(material: Seq<u8>) -> Option<Seq<u8>>;

/// What `Transaction::new_signed_with_payer` of `solana_sdk` produces for one
/// instruction and a payer, with the key pair as the only signer: the
/// signature and the serialized message that it signs. An account is given
/// as its key and its signer and writable marks.
pub uninterp spec fn signed_with_payer(
    keypair: Seq<u8>,
    payer: Seq<u8>,
    program: Seq<u8>,
    accounts: Seq<(Seq<u8>, bool, bool)>,
    data: Seq<u8>,
    anchor: Seq<u8>,
) -> (Seq<u8>, Seq<u8>);

/// The bytes are a key pair that the key reader has handed out.
pub open spec fn is_loaded_keypair(bytes: Seq<u8>) -> bool {
    exists|material: Seq<u8>| #[trigger] keypair_from_json(material) == Some(bytes)
}

/// An account that an instruction touches.
#[derive(Clone, Copy, Debug)]
pub struct AccountRef {
    pub key: [u8; 32],
    pub signer: bool,
    pub writable: bool,
}

/// One instruction, as plain values.
#[derive(Debug)]
pub struct TransferInstruction {
    pub program: [u8; 32],
    pub accounts: Vec<AccountRef>,
    pub data: Vec<u8>,
}

/// A signed single-instruction transaction: its one signature and the
/// serialized message under it.
#[derive(Debug)]
pub struct SignedTransfer {
    pub signature: [u8; 64],
    pub message: Vec<u8>,
}

impl View for SignedTransfer {
    type V = (Seq<u8>, Seq<u8>);

    open spec fn view(&self) -> (Seq<u8>, Seq<u8>) {
        (self.signature@, self.message@)
    }
}

/// The signing key pair of the process. A value of this type always holds a
/// key pair that was read from key material, so signing with it cannot fail.
pub struct SenderIdentity {
    keypair: [u8; 64],
}

impl View for SenderIdentity {
    type V = Seq<u8>;

    closed spec fn view(&self) -> Seq<u8> {
        self.keypair@
    }
}

/// The accounts of an instruction, each as its key and its two marks.
pub open spec fn account_views(accounts: Seq<AccountRef>) -> Seq<(Seq<u8>, bool, bool)> {
    accounts.map_values(|a: AccountRef| (a.key@, a.signer, a.writable))
}

/// The address of the system program: 32 zero bytes.
pub open spec fn system_program() -> Seq<u8> {
    Seq::new(32, |i: int| 0u8)
}

/// The accounts of a transfer: the source signs and is debited, the
/// destination is credited.
pub open spec fn transfer_accounts(from: Seq<u8>, to: Seq<u8>) -> Seq<(Seq<u8>, bool, bool)> {
    seq![(from, true, true), (to, false, true)]
}

/// The data of a transfer: the number 2 for the kind of instruction, in four
/// bytes, then the amount in eight, both little-endian.
pub open spec fn transfer_data(lamports: u64) -> Seq<u8> {
    seq![2u8, 0u8, 0u8, 0u8] + spec_u64_to_le_bytes(lamports)
}

/// The public key of a key pair: its last 32 bytes.
pub open spec fn public_key_of(keypair: Seq<u8>) -> Seq<u8> {
    keypair.subrange(32, 64)
}

/// The signed transfer of `lamports` from the key pair's account to
/// `recipient` over `anchor`, with the sender paying the fee.
pub open spec fn signed_transfer(
    keypair: Seq<u8>,
    recipient: Seq<u8>,
    lamports: u64,
    anchor: Seq<u8>,
) -> (Seq<u8>, Seq<u8>) {
    signed_with_payer(
        keypair,
        public_key_of(keypair),
        system_program(),
        transfer_accounts(public_key_of(keypair), recipient),
        transfer_data(lamports),
        anchor,
    )
}

/// Calls `solana_sdk`'s `read_keypair` on the contents of a key file and
/// hands back the key pair's 64 bytes, or the text of its error. Its outcome
/// is named `keypair_from_json`; the error's text is not part of the claim.
#[verifier::external_body]
fn read_keypair_bytes(material: &[u8]) -> (read: Result<[u8; 64], String>)
    ensures
        match read {
            Ok(bytes) => keypair_from_json(material@) == Some(bytes@),
            Err(_) => keypair_from_json(material@) is None,
        },
{
    let mut reader = material;
    match read_keypair(&mut reader) {
        Ok(keypair) => Ok(keypair.to_bytes()),
        Err(e) => Err(e.to_string()),
    }
}

/// Calls `solana_sdk`'s `system_instruction::transfer` and hands back the
/// instruction as plain values. As that function's source shows: the program
/// is the system program, the source account signs and is writable, the
/// destination is writable and does not sign, and the data is the bincode
/// form of `SystemInstruction::Transfer`, the third variant of its enum.
#[verifier::external_body]
fn system_transfer(from: &[u8; 32], to: &[u8; 32], lamports: u64) -> (ix: TransferInstruction)
    ensures
        ix.program@ == system_program(),
        account_views(ix.accounts@) == transfer_accounts(from@, to@),
        ix.data@ == transfer_data(lamports),
{
    let ix = system_instruction::transfer(&Pubkey::from(*from), &Pubkey::from(*to), lamports);
    TransferInstruction {
        program: ix.program_id.to_bytes(),
        accounts: ix.accounts.iter().map(|a| AccountRef {
            key: a.pubkey.to_bytes(),
            signer: a.is_signer,
            writable: a.is_writable,
        }).collect(),
        data: ix.data,
    }
}

/// Calls `solana_sdk`'s `Transaction::new_signed_with_payer` with the given
/// instruction and payer and the key pair as the only signer, and hands back
/// the signature and the serialized message. Its outcome is named
/// `signed_with_payer`; nothing else is claimed of it.
///
/// That function panics where a required signature is missing, so the payer
/// and every account that signs must be the key pair's own. The key pair
/// must be one that the key reader handed out: `Keypair::from_bytes` accepts
/// those again. With at most two accounts the message's one-byte key indices
/// cannot overflow, and the data must fit the two-byte length under which
/// the message is serialized.
#[verifier::external_body]
fn sign_with_payer(
    keypair: &[u8; 64],
    payer: &[u8; 32],
    ix: &TransferInstruction,
    anchor: &[u8; 32],
) -> (signed: SignedTransfer)
    requires
        is_loaded_keypair(keypair@),
        payer@ == public_key_of(keypair@),
        ix.accounts@.len() <= 2,
        ix.data@.len() <= 0xffff,
        forall|i: int|
            0 <= i < ix.accounts@.len() && (#[trigger] ix.accounts@[i]).signer
                ==> ix.accounts@[i].key@ == public_key_of(keypair@),
    ensures
        signed@ == signed_with_payer(
            keypair@,
            payer@,
            ix.program@,
            account_views(ix.accounts@),
            ix.data@,
            anchor@,
        ),
{
    let signer = Keypair::from_bytes(keypair).unwrap();
    let payer = Pubkey::from(*payer);
    let accounts = ix.accounts.iter().map(|a| AccountMeta {
        pubkey: Pubkey::from(a.key),
        is_signer: a.signer,
        is_writable: a.writable,
    }).collect();
    let one = Instruction { program_id: Pubkey::from(ix.program), accounts, data: ix.data.clone() };
    let blockhash = solana_sdk::hash::Hash::new_from_array(*anchor);
    let tx = Transaction::new_signed_with_payer(&[one], Some(&payer), &[&signer], blockhash);
    SignedTransfer { signature: tx.signatures[0].into(), message: tx.message_data() }
}

impl SenderIdentity {
    #[verifier::type_invariant]
    spec fn loaded(self) -> bool {
        is_loaded_keypair(self.keypair@)
    }

    /// Reads the identity from the contents of a key file.
    pub fn from_key_material(material: &[u8]) -> (read: Result<SenderIdentity, String>)
        ensures
            match read {
                Ok(identity) => keypair_from_json(material@) == Some(identity@),
                Err(_) => keypair_from_json(material@) is None,
            },
    {
        match read_keypair_bytes(material) {
            Ok(keypair) => Ok(SenderIdentity { keypair }),
            Err(reason) => Err(reason),
        }
    }

    /// The account that the identity signs for.
    pub fn public_key(&self) -> (key: [u8; 32])
        ensures
            key@ == public_key_of(self@),
    {
        let mut key: [u8; 32] = [0u8; 32];
        let mut i: usize = 0;
        while i < 32
            invariant
                i <= 32,
                forall|j: int| 0 <= j < i ==> key@[j] == self.keypair@[32 + j],
            decreases 32 - i,
        {
            key.set(i, self.keypair[32 + i]);
            i = i + 1;
        }
        assert(key@ =~= public_key_of(self@));
        key
    }
}

/// What is sent on every trigger: fixed when the process starts.
pub struct TransferOrder {
    pub sender: SenderIdentity,
    pub recipient: Address,
    pub lamports: u64,
}

/// A transfer order over byte sequences.
pub struct OrderView {
    pub keypair: Seq<u8>,
    pub recipient: Seq<u8>,
    pub lamports: u64,
}

impl View for TransferOrder {
    type V = OrderView;

    open spec fn view(&self) -> OrderView {
        OrderView { keypair: self.sender@, recipient: self.recipient@, lamports: self.lamports }
    }
}

impl OrderView {
    /// The signed transfer that this order gives over `anchor`.
    pub open spec fn signed_over(self, anchor: Seq<u8>) -> (Seq<u8>, Seq<u8>) {
        signed_transfer(self.keypair, self.recipient, self.lamports, anchor)
    }
}

/// An instruction over byte sequences: its program, its accounts and its data.
pub open spec fn instruction_view(ix: TransferInstruction) -> (
    Seq<u8>,
    Seq<(Seq<u8>, bool, bool)>,
    Seq<u8>,
) {
    (ix.program@, account_views(ix.accounts@), ix.data@)
}

impl TransferOrder {
    /// The one instruction of the transfer: the system program moves
    /// `lamports` from the sender's account, which signs, to the recipient's.
    pub fn instruction(&self) -> (ix: TransferInstruction)
        ensures
            instruction_view(ix) == (
                system_program(),
                transfer_accounts(public_key_of(self@.keypair), self@.recipient),
                transfer_data(self.lamports),
            ),
    {
        let from = self.sender.public_key();
        system_transfer(&from, &self.recipient.bytes, self.lamports)
    }

    /// Builds and signs the transfer over a freshly fetched anchor: one
    /// instruction moving `lamports` from the sender to the recipient, the
    /// sender paying the fee.
    pub fn sign(&self, anchor: &[u8; 32]) -> (signed: SignedTransfer)
        ensures
            signed@ == self@.signed_over(anchor@),
    {
        proof {
            use_type_invariant(&self.sender);
        }
        let payer = self.sender.public_key();
        let ix = self.instruction();
        assert(ix.data@.len() == 12) by {
            lemma_auto_spec_u64_to_from_le_bytes();
        }
        assert(ix.accounts@.len() == 2 && forall|i: int|
            0 <= i < 2 && (#[trigger] ix.accounts@[i]).signer ==> ix.accounts@[i].key@
                == public_key_of(self.sender@)) by {
            let views = account_views(ix.accounts@);
            assert(views.len() == 2);
            assert(views[0] == (ix.accounts@[0].key@, ix.accounts@[0].signer, ix.accounts@[0].writable));
            assert(views[1] == (ix.accounts@[1].key@, ix.accounts@[1].signer, ix.accounts@[1].writable));
        }
        sign_with_payer(&self.sender.keypair, &payer, &ix, anchor)
    }
}

} // verus!
