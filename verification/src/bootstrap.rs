//! Starting up: the configuration is read, the key material is loaded, the
//! recipient and the amount are validated, and only then is the update
//! source connected to and subscribed at. The first thing that fails ends
//! the start, and nothing after it is tried.

use crate::address::{pubkey_from_text, Address, AddressError};
use crate::amount::{amount_of, parse_amount, AmountError};
use crate::signing::{keypair_from_json, OrderView, SenderIdentity, TransferOrder};
use vstd::prelude::*;

verus! {

/// The configuration of the process, as read.
#[derive(Debug)]
pub struct Config {
    /// Where the update source listens.
    pub geyser_url: String,
    /// Where the ledger node listens.
    pub rpc_url: String,
    /// The file that holds the sender's key material.
    pub sender_keypair_path: String,
    /// The recipient's address, as text.
    pub recipient_address: String,
    /// The amount to transfer, a decimal number of major units.
    pub amount_sol: String,
}

/// The configured values that are validated before any connection is made,
/// in the order in which they are looked at.
#[derive(Clone, Copy, Debug, PartialEq, Eq, Structural)]
pub enum Field {
    KeyMaterial,
    Recipient,
    Amount,
}

/// Why the process did not start.
#[derive(Debug)]
pub enum StartupError {
    /// The configuration could not be read.
    Config(String),
    /// The key material could not be read, or is no key pair.
    KeyMaterial(String),
    /// The recipient's address is not valid.
    Recipient(AddressError),
    /// The amount is not valid.
    Amount(AmountError),
    /// The subscription could not be opened.
    Subscription(String),
    /// Something was handed in that the start was not waiting for.
    OutOfTurn,
}

impl StartupError {
    /// The validated field that the error is about, if it is about one.
    pub open spec fn field(self) -> Option<Field> {
        match self {
            StartupError::KeyMaterial(_) => Some(Field::KeyMaterial),
            StartupError::Recipient(_) => Some(Field::Recipient),
            StartupError::Amount(_) => Some(Field::Amount),
            _ => None,
        }
    }
}

/// Which blocks the subscription asks for, and with what detail.
#[derive(Clone, Copy, Debug, PartialEq, Eq, Structural)]
pub struct BlockFilter {
    pub include_transactions: Option<bool>,
    pub include_entries: Option<bool>,
}

/// The name under which the one filter is registered.
pub const FILTER_NAME: &'static str = "default";

/// The filter of this process: every block, with its transactions and entries.
pub open spec fn every_block() -> BlockFilter {
    BlockFilter { include_transactions: Some(true), include_entries: Some(true) }
}

/// The first of the validated fields that is not valid, if there is one.
pub open spec fn first_invalid(material: Seq<u8>, recipient: Seq<char>, amount: Seq<char>) -> Option<
    Field,
> {
    if keypair_from_json(material) is None {
        Some(Field::KeyMaterial)
    } else if pubkey_from_text(recipient) is Err {
        Some(Field::Recipient)
    } else if amount_of(amount) is Err {
        Some(Field::Amount)
    } else {
        None
    }
}

/// The order that valid fields give.
pub open spec fn valid_order(material: Seq<u8>, recipient: Seq<char>, amount: Seq<char>) -> OrderView {
    OrderView {
        keypair: keypair_from_json(material)->Some_0,
        recipient: pubkey_from_text(recipient)->Ok_0,
        lamports: amount_of(amount)->Ok_0,
    }
}

/// The outcome of validating the three fields matches an order or an error.
pub open spec fn validated(
    material: Seq<u8>,
    recipient: Seq<char>,
    amount: Seq<char>,
    outcome: Result<TransferOrder, StartupError>,
) -> bool {
    match outcome {
        Ok(order) => first_invalid(material, recipient, amount) is None && order@ == valid_order(
            material,
            recipient,
            amount,
        ),
        Err(e) => {
            &&& e.field() is Some
            &&& e.field() == first_invalid(material, recipient, amount)
            &&& e matches StartupError::Recipient(why) ==> pubkey_from_text(recipient) == Err::<
                Seq<u8>,
                AddressError,
            >(why)
            &&& e matches StartupError::Amount(why) ==> amount_of(amount) == Err::<u64, AmountError>(
                why,
            )
        },
    }
}

/// Puts the order together from the three fields as they were read: the
/// first that failed, in the order sender, recipient, amount, gives the
/// error; with none failed the order holds the three values.
pub fn assemble(
    sender: Result<SenderIdentity, String>,
    recipient: Result<Address, AddressError>,
    amount: Result<u64, AmountError>,
) -> (outcome: Result<TransferOrder, StartupError>)
    ensures
        match (sender, recipient, amount) {
            (Err(reason), _, _) => outcome == Err::<TransferOrder, StartupError>(
                StartupError::KeyMaterial(reason),
            ),
            (Ok(_), Err(why), _) => outcome == Err::<TransferOrder, StartupError>(
                StartupError::Recipient(why),
            ),
            (Ok(_), Ok(_), Err(why)) => outcome == Err::<TransferOrder, StartupError>(
                StartupError::Amount(why),
            ),
            (Ok(s), Ok(r), Ok(a)) => outcome == Ok::<TransferOrder, StartupError>(
                TransferOrder { sender: s, recipient: r, lamports: a },
            ),
        },
{
    match sender {
        Err(reason) => Err(StartupError::KeyMaterial(reason)),
        Ok(s) => match recipient {
            Err(why) => Err(StartupError::Recipient(why)),
            Ok(r) => match amount {
                Err(why) => Err(StartupError::Amount(why)),
                Ok(a) => Ok(TransferOrder { sender: s, recipient: r, lamports: a }),
            },
        },
    }
}

/// Validates what the configuration holds against the key material that was
/// read from the configured file, and gives the order to dispatch or the
/// first field that is not valid.
pub fn prepare(config: &Config, material: &[u8]) -> (outcome: Result<TransferOrder, StartupError>)
    ensures
        validated(material@, config.recipient_address@, config.amount_sol@, outcome),
{
    let sender = SenderIdentity::from_key_material(material);
    let recipient = Address::parse(config.recipient_address.as_str());
    let amount = parse_amount(config.amount_sol.as_str());
    assemble(sender, recipient, amount)
}

/// Where the start stands.
#[derive(Debug)]
pub enum BootState {
    AwaitingConfig,
    AwaitingKeyMaterial(Config),
    Connecting,
    Subscribing,
    Running,
    Failed,
}

/// What the driver hands in while starting.
#[derive(Debug)]
pub enum BootEvent {
    /// The configuration, or why it could not be read.
    Config(Result<Config, String>),
    /// The contents of the key file, or why it could not be read.
    KeyMaterial(Result<Vec<u8>, String>),
    /// The connection to the update source stands, or does not.
    Connected(Result<(), String>),
    /// The one subscribe request was sent and accepted, or was not.
    Subscribed(Result<(), String>),
}

/// What the driver is to do next while starting.
pub enum BootAction {
    ReadConfig,
    ReadKeyMaterial { path: String },
    /// Open the ledger node's client and connect to the update source. The
    /// order is handed out here: from now on the driver holds it.
    Connect { update_source: String, ledger_node: String, order: TransferOrder },
    /// Send the one subscribe request, with this filter.
    Subscribe(BlockFilter),
    /// Enter the dispatch loop.
    Run,
    /// Give up with this error.
    Abort(StartupError),
}

/// One turn of the start.
pub struct BootStep {
    pub state: BootState,
    pub action: BootAction,
}

/// The step ends the start with this error.
pub open spec fn aborts_with(step: BootStep, e: StartupError) -> bool {
    step.state == BootState::Failed && step.action == BootAction::Abort(e)
}

/// What a step of the start may be, given the state and what was handed in.
pub open spec fn follows(state: BootState, event: BootEvent, step: BootStep) -> bool {
    match (state, event) {
        (BootState::AwaitingConfig, BootEvent::Config(Ok(config))) => {
            &&& step.state == BootState::AwaitingKeyMaterial(config)
            &&& step.action == BootAction::ReadKeyMaterial { path: config.sender_keypair_path }
        },
        (BootState::AwaitingConfig, BootEvent::Config(Err(reason))) => aborts_with(
            step,
            StartupError::Config(reason),
        ),
        (BootState::AwaitingKeyMaterial(_), BootEvent::KeyMaterial(Err(reason))) => aborts_with(
            step,
            StartupError::KeyMaterial(reason),
        ),
        (BootState::AwaitingKeyMaterial(config), BootEvent::KeyMaterial(Ok(material))) => {
            let recipient = config.recipient_address@;
            let amount = config.amount_sol@;
            match first_invalid(material@, recipient, amount) {
                None => {
                    &&& step.state == BootState::Connecting
                    &&& step.action matches BootAction::Connect { update_source, ledger_node, order }
                    &&& update_source == config.geyser_url
                    &&& ledger_node == config.rpc_url
                    &&& order@ == valid_order(material@, recipient, amount)
                },
                Some(_) => {
                    &&& step.state == BootState::Failed
                    &&& step.action matches BootAction::Abort(e)
                    &&& validated(material@, recipient, amount, Err(e))
                },
            }
        },
        (BootState::Connecting, BootEvent::Connected(Ok(_))) => {
            &&& step.state == BootState::Subscribing
            &&& step.action == BootAction::Subscribe(every_block())
        },
        (BootState::Connecting, BootEvent::Connected(Err(reason))) => aborts_with(
            step,
            StartupError::Subscription(reason),
        ),
        (BootState::Subscribing, BootEvent::Subscribed(Ok(_))) => {
            &&& step.state == BootState::Running
            &&& step.action == BootAction::Run
        },
        (BootState::Subscribing, BootEvent::Subscribed(Err(reason))) => aborts_with(
            step,
            StartupError::Subscription(reason),
        ),
        (BootState::Running, _) => step.state == BootState::Running && step.action == BootAction::Run,
        _ => aborts_with(step, StartupError::OutOfTurn),
    }
}

/// The start as it begins: the configuration is asked for.
pub fn boot() -> (step: BootStep)
    ensures
        step.state == BootState::AwaitingConfig,
        step.action == BootAction::ReadConfig,
{
    BootStep { state: BootState::AwaitingConfig, action: BootAction::ReadConfig }
}

/// Takes what the driver hands in and decides how the start goes on.
pub fn boot_step(state: BootState, event: BootEvent) -> (step: BootStep)
    ensures
        follows(state, event, step),
{
    match (state, event) {
        (BootState::AwaitingConfig, BootEvent::Config(Ok(config))) => {
            let path = config.sender_keypair_path.clone();
            BootStep {
                state: BootState::AwaitingKeyMaterial(config),
                action: BootAction::ReadKeyMaterial { path },
            }
        },
        (BootState::AwaitingConfig, BootEvent::Config(Err(reason))) => abort(
            StartupError::Config(reason),
        ),
        (BootState::AwaitingKeyMaterial(_), BootEvent::KeyMaterial(Err(reason))) => abort(
            StartupError::KeyMaterial(reason),
        ),
        (BootState::AwaitingKeyMaterial(config), BootEvent::KeyMaterial(Ok(material))) => {
            match prepare(&config, material.as_slice()) {
                Ok(order) => BootStep {
                    state: BootState::Connecting,
                    action: BootAction::Connect {
                        update_source: config.geyser_url,
                        ledger_node: config.rpc_url,
                        order,
                    },
                },
                Err(e) => abort(e),
            }
        },
        (BootState::Connecting, BootEvent::Connected(Ok(_))) => BootStep {
            state: BootState::Subscribing,
            action: BootAction::Subscribe(
                BlockFilter { include_transactions: Some(true), include_entries: Some(true) },
            ),
        },
        (BootState::Connecting, BootEvent::Connected(Err(reason))) => abort(
            StartupError::Subscription(reason),
        ),
        (BootState::Subscribing, BootEvent::Subscribed(Ok(_))) => BootStep {
            state: BootState::Running,
            action: BootAction::Run,
        },
        (BootState::Subscribing, BootEvent::Subscribed(Err(reason))) => abort(
            StartupError::Subscription(reason),
        ),
        (BootState::Running, _) => BootStep { state: BootState::Running, action: BootAction::Run },
        _ => abort(StartupError::OutOfTurn),
    }
}

/// The step that gives up.
fn abort(e: StartupError) -> (step: BootStep)
    ensures
        aborts_with(step, e),
{
    BootStep { state: BootState::Failed, action: BootAction::Abort(e) }
}

/// A start ends in exactly one of two ways, and which one is decided by the
/// fields alone: it goes on to connect when all three are valid, and it
/// fails on the first that is not, whatever the later ones hold.
pub proof fn lemma_first_invalid_field_decides(config: Config, material: Vec<u8>, step: BootStep)
    requires
        follows(BootState::AwaitingKeyMaterial(config), BootEvent::KeyMaterial(Ok(material)), step),
    ensures
        step.state == BootState::Connecting || step.state == BootState::Failed,
        step.state == BootState::Connecting <==> first_invalid(
            material@,
            config.recipient_address@,
            config.amount_sol@,
        ) is None,
        step.state == BootState::Connecting <==> step.action is Connect,
        step.state == BootState::Failed <==> step.action is Abort,
        step.action matches BootAction::Abort(e) ==> e.field() == first_invalid(
            material@,
            config.recipient_address@,
            config.amount_sol@,
        ),
{
}

/// Two starts that are handed the same thing in the same state go the same
/// way.
pub proof fn lemma_start_is_determined(state: BootState, event: BootEvent, a: BootStep, b: BootStep)
    requires
        follows(state, event, a),
        follows(state, event, b),
    ensures
        a.state == b.state,
        a.action is Abort <==> b.action is Abort,
        a.action matches BootAction::Abort(x) ==> b.action matches BootAction::Abort(y) && x.field()
            == y.field(),
{
}

/// No connection is asked for unless the key material, the recipient and the
/// amount are all valid: a recipient that does not parse ends the start
/// before the update source is touched.
pub proof fn lemma_connects_only_when_valid(state: BootState, event: BootEvent, step: BootStep)
    requires
        follows(state, event, step),
        step.action is Connect,
    ensures
        state matches BootState::AwaitingKeyMaterial(config) && event matches BootEvent::KeyMaterial(
            Ok(material),
        ) && keypair_from_json(material@) is Some && pubkey_from_text(config.recipient_address@) is Ok
            && amount_of(config.amount_sol@) is Ok,
{
}

/// The subscribe request is sent once, right after the connection stands,
/// and only then.
pub proof fn lemma_subscribes_on_connection(state: BootState, event: BootEvent, step: BootStep)
    requires
        follows(state, event, step),
    ensures
        step.action is Subscribe <==> state is Connecting && event matches BootEvent::Connected(Ok(_)),
        step.action is Subscribe ==> step.action == BootAction::Subscribe(every_block())
            && step.state == BootState::Subscribing,
{
}

/// The state in which step `i` of a start is taken.
pub open spec fn boot_state_at(steps: Seq<BootStep>, i: int) -> BootState {
    if i == 0 {
        BootState::AwaitingConfig
    } else {
        steps[i - 1].state
    }
}

/// The steps are those of one start: each follows from the state that the
/// one before it left and from what was handed in.
pub open spec fn is_start(events: Seq<BootEvent>, steps: Seq<BootStep>) -> bool {
    &&& steps.len() == events.len()
    &&& forall|i: int|
        0 <= i < steps.len() ==> follows(boot_state_at(steps, i), events[i], #[trigger] steps[i])
}

/// A start ends one way only. Once it has given up it keeps giving up:
/// no connection, subscription or dispatch loop follows. Once it runs it
/// keeps running: no error follows.
pub proof fn lemma_start_ends_one_way(events: Seq<BootEvent>, steps: Seq<BootStep>, i: int, j: int)
    requires
        is_start(events, steps),
        0 <= i <= j < steps.len(),
    ensures
        steps[i].action is Abort ==> steps[j].action is Abort && steps[j].state == BootState::Failed,
        steps[i].action is Run ==> steps[j].action is Run && steps[j].state == BootState::Running,
    decreases j - i,
{
    assert(follows(boot_state_at(steps, i), events[i], steps[i]));
    if i < j {
        lemma_start_ends_one_way(events, steps, i, j - 1);
        assert(follows(boot_state_at(steps, j), events[j], steps[j]));
    }
}

/// In a start, a connection is asked for only after a configuration was
/// read whose recipient parses, together with key material and an amount
/// that are valid.
pub proof fn lemma_connection_needs_valid_recipient(
    events: Seq<BootEvent>,
    steps: Seq<BootStep>,
    i: int,
)
    requires
        is_start(events, steps),
        0 <= i < steps.len(),
        steps[i].action is Connect,
    ensures
        i >= 1,
        events[i - 1] matches BootEvent::Config(Ok(config)) && pubkey_from_text(
            config.recipient_address@,
        ) is Ok && amount_of(config.amount_sol@) is Ok,
        events[i] matches BootEvent::KeyMaterial(Ok(material)) && keypair_from_json(material@) is Some,
{
    assert(follows(boot_state_at(steps, i), events[i], steps[i]));
    lemma_connects_only_when_valid(boot_state_at(steps, i), events[i], steps[i]);
    if i >= 1 {
        assert(follows(boot_state_at(steps, i - 1), events[i - 1], steps[i - 1]));
    }
}

/// A failed start stays failed: nothing that is handed in afterwards leads
/// to a connection, a subscription or the dispatch loop.
pub proof fn lemma_failure_is_final(event: BootEvent, step: BootStep)
    requires
        follows(BootState::Failed, event, step),
    ensures
        step.state == BootState::Failed,
        step.action is Abort,
{
}

} // verus!
