use block_transfer::address::AddressError;
use block_transfer::amount::AmountError;
use block_transfer::bootstrap::{
    assemble, boot, boot_step, prepare, BlockFilter, BootAction, BootEvent, BootState, Config,
    StartupError, FILTER_NAME,
};
use block_transfer::address::Address;
use block_transfer::signing::SenderIdentity;
use solana_sdk::pubkey::Pubkey;
use solana_sdk::signature::keypair_from_seed;
use solana_sdk::signer::Signer;

fn material() -> Vec<u8> {
    let keypair = keypair_from_seed(&[42u8; 32]).unwrap();
    format!("{:?}", keypair.to_bytes().to_vec()).into_bytes()
}

fn config(recipient: &str, amount: &str) -> Config {
    Config {
        geyser_url: "http://updates.example:10000".to_string(),
        rpc_url: "http://ledger.example:8899".to_string(),
        sender_keypair_path: "sender.json".to_string(),
        recipient_address: recipient.to_string(),
        amount_sol: amount.to_string(),
    }
}

fn recipient() -> String {
    Pubkey::from([5u8; 32]).to_string()
}

/// Runs the start up to the key material and hands that in.
fn start_with(config: Config, material: Result<Vec<u8>, String>) -> (BootState, BootAction) {
    let first = boot();
    assert!(matches!(first.action, BootAction::ReadConfig));
    let second = boot_step(first.state, BootEvent::Config(Ok(config)));
    assert!(matches!(second.action, BootAction::ReadKeyMaterial { ref path } if path == "sender.json"));
    let third = boot_step(second.state, BootEvent::KeyMaterial(material));
    (third.state, third.action)
}

#[test]
fn valid_configuration_starts_up() {
    let (state, action) = start_with(config(&recipient(), "0.123456789"), Ok(material()));
    assert!(matches!(state, BootState::Connecting));
    let BootAction::Connect { update_source, ledger_node, order } = action else {
        panic!("no connection was asked for");
    };
    assert_eq!(update_source, "http://updates.example:10000");
    assert_eq!(ledger_node, "http://ledger.example:8899");
    assert_eq!(order.lamports, 123_456_789);
    assert_eq!(order.recipient.bytes, [5u8; 32]);
    assert_eq!(
        order.sender.public_key(),
        keypair_from_seed(&[42u8; 32]).unwrap().pubkey().to_bytes()
    );
    let subscribing = boot_step(state, BootEvent::Connected(Ok(())));
    assert!(matches!(subscribing.state, BootState::Subscribing));
    assert!(matches!(
        subscribing.action,
        BootAction::Subscribe(BlockFilter { include_transactions: Some(true), include_entries: Some(true) })
    ));
    let running = boot_step(subscribing.state, BootEvent::Subscribed(Ok(())));
    assert!(matches!(running.state, BootState::Running));
    assert!(matches!(running.action, BootAction::Run));
}

#[test]
fn filter_is_registered_as_default() {
    assert_eq!(FILTER_NAME, "default");
}

#[test]
fn unparsable_recipient_fails_before_any_connection() {
    let (state, action) = start_with(config("not-an-address!", "1"), Ok(material()));
    assert!(matches!(state, BootState::Failed));
    assert!(matches!(action, BootAction::Abort(StartupError::Recipient(AddressError::Invalid))));
    let later = boot_step(state, BootEvent::Connected(Ok(())));
    assert!(matches!(later.state, BootState::Failed));
    assert!(matches!(later.action, BootAction::Abort(StartupError::OutOfTurn)));
}

#[test]
fn unreadable_configuration_fails_first() {
    let failed = boot_step(boot().state, BootEvent::Config(Err("no such file".to_string())));
    assert!(matches!(failed.state, BootState::Failed));
    assert!(matches!(failed.action, BootAction::Abort(StartupError::Config(ref r)) if r == "no such file"));
}

#[test]
fn unreadable_key_file_fails() {
    let (state, action) = start_with(config(&recipient(), "1"), Err("permission denied".to_string()));
    assert!(matches!(state, BootState::Failed));
    assert!(matches!(action, BootAction::Abort(StartupError::KeyMaterial(ref r)) if r == "permission denied"));
}

#[test]
fn key_material_is_looked_at_before_the_recipient() {
    let (state, action) = start_with(config("not-an-address!", "x"), Ok(b"[1, 2]".to_vec()));
    assert!(matches!(state, BootState::Failed));
    assert!(matches!(action, BootAction::Abort(StartupError::KeyMaterial(_))));
}

#[test]
fn recipient_is_looked_at_before_the_amount() {
    let (_, action) = start_with(config("abc", "x"), Ok(material()));
    assert!(matches!(action, BootAction::Abort(StartupError::Recipient(AddressError::WrongSize))));
}

#[test]
fn invalid_amount_fails() {
    let (state, action) = start_with(config(&recipient(), "one"), Ok(material()));
    assert!(matches!(state, BootState::Failed));
    assert!(matches!(action, BootAction::Abort(StartupError::Amount(AmountError::Malformed))));
    let (_, action) = start_with(config(&recipient(), "18446744074"), Ok(material()));
    assert!(matches!(action, BootAction::Abort(StartupError::Amount(AmountError::TooLarge))));
}

#[test]
fn failed_connection_is_fatal() {
    let (state, _) = start_with(config(&recipient(), "1"), Ok(material()));
    let failed = boot_step(state, BootEvent::Connected(Err("refused".to_string())));
    assert!(matches!(failed.state, BootState::Failed));
    assert!(matches!(failed.action, BootAction::Abort(StartupError::Subscription(ref r)) if r == "refused"));
}

#[test]
fn refused_subscription_is_fatal() {
    let (state, _) = start_with(config(&recipient(), "1"), Ok(material()));
    let subscribing = boot_step(state, BootEvent::Connected(Ok(())));
    let failed = boot_step(subscribing.state, BootEvent::Subscribed(Err("denied".to_string())));
    assert!(matches!(failed.state, BootState::Failed));
    assert!(matches!(failed.action, BootAction::Abort(StartupError::Subscription(ref r)) if r == "denied"));
}

#[test]
fn event_out_of_turn_is_fatal() {
    let failed = boot_step(boot().state, BootEvent::Subscribed(Ok(())));
    assert!(matches!(failed.state, BootState::Failed));
    assert!(matches!(failed.action, BootAction::Abort(StartupError::OutOfTurn)));
}

#[test]
fn running_stays_running() {
    let again = boot_step(BootState::Running, BootEvent::Connected(Ok(())));
    assert!(matches!(again.state, BootState::Running));
    assert!(matches!(again.action, BootAction::Run));
}

#[test]
fn same_configuration_gives_the_same_outcome() {
    for _ in 0..3 {
        let outcome = prepare(&config("abc", "1"), &material());
        assert!(matches!(outcome, Err(StartupError::Recipient(AddressError::WrongSize))));
        let outcome = prepare(&config(&recipient(), "2.5"), &material());
        assert!(matches!(outcome, Ok(ref order) if order.lamports == 2_500_000_000));
    }
}

#[test]
fn assemble_reports_the_first_failure() {
    let identity = || SenderIdentity::from_key_material(&material());
    let address = Address::from_bytes([1u8; 32]);
    let outcome = assemble(Err("unreadable".to_string()), Err(AddressError::Invalid), Err(AmountError::TooLarge));
    assert!(matches!(outcome, Err(StartupError::KeyMaterial(ref r)) if r == "unreadable"));
    let outcome = assemble(identity(), Err(AddressError::Invalid), Err(AmountError::TooLarge));
    assert!(matches!(outcome, Err(StartupError::Recipient(AddressError::Invalid))));
    let outcome = assemble(identity(), Ok(address), Err(AmountError::TooLarge));
    assert!(matches!(outcome, Err(StartupError::Amount(AmountError::TooLarge))));
    let outcome = assemble(identity(), Ok(address), Ok(9));
    assert!(matches!(outcome, Ok(ref order) if order.lamports == 9 && order.recipient.bytes == [1u8; 32]));
}
