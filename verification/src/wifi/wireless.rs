//! Bringing the Wi-Fi module up, from the power of its slot to the network device, and
//! shutting it down.

use vstd::prelude::*;

use crate::wifi::bus::{BusModel, BusState, WifiBus};
use crate::wifi::tx::{tx_turn, ActionModel, Batch, PhaseModel, TxConfig, TxTurn};

verus! {

/// How long the module may take to set its lower MAC up, in milliseconds.
pub const LMAC_TIMEOUT_MS: u32 = 6000;

/// How long the module may take to join a network, in milliseconds.
pub const JOIN_TIMEOUT_MS: u32 = 15000;

/// How a network is protected.
#[derive(Debug)]
pub enum Security {
    /// Not at all.
    Open,
    /// By a password that all share.
    Wpa2Psk {
        /// The password.
        password: String,
    },
}

/// The network to join.
#[derive(Debug)]
pub struct WifiConfig {
    /// Its name.
    pub ssid: String,
    /// How it is protected.
    pub security: Security,
}

/// The network to join, as a value.
pub struct ConfigModel {
    /// Its name.
    pub ssid: Seq<char>,
    /// The password, where there is one.
    pub password: Option<Seq<char>>,
}

impl View for WifiConfig {
    type V = ConfigModel;

    open spec fn view(&self) -> ConfigModel {
        ConfigModel {
            ssid: self.ssid@,
            password: match self.security {
                Security::Open => None,
                Security::Wpa2Psk { password } => Some(password@),
            },
        }
    }
}

/// The network of a name: open, if the password is empty.
pub open spec fn config_for(ssid: Seq<char>, password: Seq<char>) -> ConfigModel {
    ConfigModel {
        ssid,
        password: if password.len() == 0 {
            None
        } else {
            Some(password)
        },
    }
}

/// The network of a name: open, if the password is empty.
pub fn wifi_config(ssid: &str, password: &str) -> (config: WifiConfig)
    ensures
        config@ == config_for(ssid@, password@),
        config.ssid@ == ssid@,
        config.security is Open <==> password@.len() == 0,
        config.security matches Security::Wpa2Psk { password: kept } ==> kept@ == password@,
{
    let security: Security = if password.is_empty() {
        Security::Open
    } else {
        Security::Wpa2Psk { password: password.to_owned() }
    };
    WifiConfig { ssid: ssid.to_owned(), security }
}

/// A digit of a hexadecimal number.
pub open spec fn hex_digit(digit: int) -> char {
    "0123456789abcdef"@[digit]
}

/// A number in four hexadecimal digits.
pub open spec fn hex4(value: u16) -> Seq<char> {
    seq![
        hex_digit(value as int / 4096 % 16),
        hex_digit(value as int / 256 % 16),
        hex_digit(value as int / 16 % 16),
        hex_digit(value as int % 16),
    ]
}

fn push_hex_digit(text: &mut String, digit: u16)
    requires
        digit < 16,
    ensures
        final(text)@ == old(text)@.push(hex_digit(digit as int)),
{
    let digits: &'static str = "0123456789abcdef";
    proof {
        reveal_strlit("0123456789abcdef");
    }
    let from: usize = digit as usize;
    text.append(digits.substring_ascii(from, from + 1));
    assert(text@ =~= old(text)@.push(hex_digit(digit as int)));
}

fn push_hex4(text: &mut String, value: u16)
    ensures
        final(text)@ == old(text)@ + hex4(value),
{
    push_hex_digit(text, value / 4096 % 16);
    push_hex_digit(text, value / 256 % 16);
    push_hex_digit(text, value / 16 % 16);
    push_hex_digit(text, value % 16);
    assert(text@ =~= old(text)@ + hex4(value));
}

/// What is said of a chip that is not known.
pub open spec fn unknown_chip_text(vid: u16, did: u16) -> Seq<char> {
    "Unknown WiFi chip: vid=0x"@ + hex4(vid) + ", did=0x"@ + hex4(did)
}

/// What is said of a chip that is not known.
pub fn unknown_chip(vid: u16, did: u16) -> (text: String)
    ensures
        text@ == unknown_chip_text(vid, did),
{
    let mut text: String = String::new();
    text.append("Unknown WiFi chip: vid=0x");
    assert(text@ =~= "Unknown WiFi chip: vid=0x"@);
    push_hex4(&mut text, vid);
    text.append(", did=0x");
    push_hex4(&mut text, did);
    text
}

/// Why the module could not be brought up; `S` is how text is represented.
#[derive(Debug)]
pub enum WifiError<S> {
    /// The controller, the firmware or the driver did not start.
    NotInitialized,
    /// Something did not work.
    OperationFailed(S),
    /// What the client of the driver has just reported.
    Client,
}

/// Where the bringing up stands.
#[derive(Clone, Copy, Debug, PartialEq, Eq, Structural)]
pub enum ConnectPhase {
    /// Not begun.
    Begin,
    /// Powering the slot.
    Power,
    /// Registering the interrupt handler of the controller.
    HostIrq,
    /// Setting the controller and the card up.
    Host,
    /// Reading which chip it is.
    Identify,
    /// Loading the firmware.
    Firmware,
    /// Starting the driver.
    Driver,
    /// Registering the callback for the card interrupt.
    CardIrq,
    /// Setting the lower MAC up.
    Lmac,
    /// Joining the network.
    Join,
    /// Leaving the network device for whoever registers it.
    Device,
    /// Over.
    Over,
}

/// What the bringing up asks for; `S` is how text is represented.
#[derive(Debug)]
pub enum ConnectAction<S> {
    /// Power the slot and route its pins and clock.
    PowerSlot,
    /// Register the interrupt handler of the controller.
    RegisterHostIrq,
    /// Set the controller and the card up.
    InitHost,
    /// Say which chip the card is.
    Identify,
    /// Load the firmware.
    LoadFirmware,
    /// Start the driver and its threads.
    StartDriver,
    /// Register the callback for the card interrupt.
    RegisterCardIrq,
    /// Set the lower MAC up.
    ConfigureLmac {
        /// How long that may take.
        timeout_ms: u32,
    },
    /// Join the network.
    JoinNetwork {
        /// How long that may take.
        timeout_ms: u32,
    },
    /// Leave the network device for whoever registers it.
    StoreDevice,
    /// The module is up.
    Up,
    /// The module could not be brought up.
    Fail(WifiError<S>),
    /// Nothing more: how it ended has been said.
    Rest,
}

/// What came of an action.
#[derive(Clone, Copy, Debug, PartialEq, Eq, Structural)]
pub struct ConnectReply {
    /// It did not fail.
    pub ok: bool,
    /// Vendor of the card, where that was asked for.
    pub vid: u16,
    /// Device number of the card, where that was asked for.
    pub did: u16,
    /// The chip is known, where that was asked for.
    pub known: bool,
}

/// An action whose text is a sequence of characters.
pub type ConnectModel = ConnectAction<Seq<char>>;

impl View for ConnectAction<String> {
    type V = ConnectModel;

    open spec fn view(&self) -> ConnectModel {
        match *self {
            ConnectAction::PowerSlot => ConnectAction::PowerSlot,
            ConnectAction::RegisterHostIrq => ConnectAction::RegisterHostIrq,
            ConnectAction::InitHost => ConnectAction::InitHost,
            ConnectAction::Identify => ConnectAction::Identify,
            ConnectAction::LoadFirmware => ConnectAction::LoadFirmware,
            ConnectAction::StartDriver => ConnectAction::StartDriver,
            ConnectAction::RegisterCardIrq => ConnectAction::RegisterCardIrq,
            ConnectAction::ConfigureLmac { timeout_ms } => ConnectAction::ConfigureLmac {
                timeout_ms,
            },
            ConnectAction::JoinNetwork { timeout_ms } => ConnectAction::JoinNetwork { timeout_ms },
            ConnectAction::StoreDevice => ConnectAction::StoreDevice,
            ConnectAction::Up => ConnectAction::Up,
            ConnectAction::Rest => ConnectAction::Rest,
            ConnectAction::Fail(WifiError::NotInitialized) => ConnectAction::Fail(
                WifiError::NotInitialized,
            ),
            ConnectAction::Fail(WifiError::OperationFailed(text)) => ConnectAction::Fail(
                WifiError::OperationFailed(text@),
            ),
            ConnectAction::Fail(WifiError::Client) => ConnectAction::Fail(WifiError::Client),
        }
    }
}

/// A turn of the bringing up.
pub struct ConnectTurn {
    /// Where it stands then.
    pub phase: ConnectPhase,
    /// What it asks for.
    pub action: ConnectModel,
}

/// Goes on to a phase.
pub open spec fn connect_to(phase: ConnectPhase, action: ConnectModel) -> ConnectTurn {
    ConnectTurn { phase, action }
}

/// Goes on to a phase where the last action did not fail, else ends with an error.
pub open spec fn connect_if(
    reply: ConnectReply,
    phase: ConnectPhase,
    action: ConnectModel,
    error: WifiError<Seq<char>>,
) -> ConnectTurn {
    if reply.ok {
        connect_to(phase, action)
    } else {
        connect_to(ConnectPhase::Over, ConnectAction::Fail(error))
    }
}

/// What the bringing up does when it is told what came of its last action. Powering the
/// slot and registering handlers cannot fail.
pub open spec fn connect_turn(phase: ConnectPhase, reply: ConnectReply) -> ConnectTurn {
    match phase {
        ConnectPhase::Begin => connect_to(ConnectPhase::Power, ConnectAction::PowerSlot),
        ConnectPhase::Power => connect_to(ConnectPhase::HostIrq, ConnectAction::RegisterHostIrq),
        ConnectPhase::HostIrq => connect_to(ConnectPhase::Host, ConnectAction::InitHost),
        ConnectPhase::Host => connect_if(
            reply,
            ConnectPhase::Identify,
            ConnectAction::Identify,
            WifiError::NotInitialized,
        ),
        ConnectPhase::Identify => if reply.known {
            connect_to(ConnectPhase::Firmware, ConnectAction::LoadFirmware)
        } else {
            connect_to(
                ConnectPhase::Over,
                ConnectAction::Fail(
                    WifiError::OperationFailed(unknown_chip_text(reply.vid, reply.did)),
                ),
            )
        },
        ConnectPhase::Firmware => connect_if(
            reply,
            ConnectPhase::Driver,
            ConnectAction::StartDriver,
            WifiError::NotInitialized,
        ),
        ConnectPhase::Driver => connect_if(
            reply,
            ConnectPhase::CardIrq,
            ConnectAction::RegisterCardIrq,
            WifiError::NotInitialized,
        ),
        ConnectPhase::CardIrq => connect_to(
            ConnectPhase::Lmac,
            ConnectAction::ConfigureLmac { timeout_ms: LMAC_TIMEOUT_MS },
        ),
        ConnectPhase::Lmac => connect_if(
            reply,
            ConnectPhase::Join,
            ConnectAction::JoinNetwork { timeout_ms: JOIN_TIMEOUT_MS },
            WifiError::Client,
        ),
        ConnectPhase::Join => connect_if(
            reply,
            ConnectPhase::Device,
            ConnectAction::StoreDevice,
            WifiError::Client,
        ),
        ConnectPhase::Device => connect_to(ConnectPhase::Over, ConnectAction::Up),
        ConnectPhase::Over => connect_to(ConnectPhase::Over, ConnectAction::Rest),
    }
}

/// A module that is being brought up.
#[derive(Debug)]
pub struct Connect {
    /// The network to join.
    pub config: WifiConfig,
    /// Where it stands.
    pub phase: ConnectPhase,
}

/// Begins to bring the module up and to join a network. The address of the station, its
/// prefix and the gateway are for the network stack, and do not matter here.
pub fn connect(ssid: &str, password: &str, ip: &str, prefix: u8, gateway: &str) -> (start: Connect)
    ensures
        start.config@ == config_for(ssid@, password@),
        start.config.ssid@ == ssid@,
        start.config.security is Open <==> password@.len() == 0,
        start.config.security matches Security::Wpa2Psk { password: kept } ==> kept@ == password@,
        start.phase == ConnectPhase::Begin,
{
    Connect { config: wifi_config(ssid, password), phase: ConnectPhase::Begin }
}

impl Connect {
    fn to(&mut self, phase: ConnectPhase, action: ConnectAction<String>) -> (asked: ConnectAction<
        String,
    >)
        ensures
            final(self).config == old(self).config,
            final(self).phase == phase,
            asked == action,
    {
        self.phase = phase;
        action
    }

    fn fail(&mut self, error: WifiError<String>) -> (asked: ConnectAction<String>)
        ensures
            final(self).config == old(self).config,
            final(self).phase == ConnectPhase::Over,
            asked == ConnectAction::Fail(error),
    {
        self.phase = ConnectPhase::Over;
        ConnectAction::Fail(error)
    }

    /// Takes the bringing up one step further, once its last action has been performed.
    pub fn step(&mut self, reply: ConnectReply) -> (action: ConnectAction<String>)
        ensures
            final(self).config == old(self).config,
            (ConnectTurn { phase: final(self).phase, action: action@ }) == connect_turn(
                old(self).phase,
                reply,
            ),
    {
        match self.phase {
            ConnectPhase::Begin => self.to(ConnectPhase::Power, ConnectAction::PowerSlot),
            ConnectPhase::Power => self.to(ConnectPhase::HostIrq, ConnectAction::RegisterHostIrq),
            ConnectPhase::HostIrq => self.to(ConnectPhase::Host, ConnectAction::InitHost),
            ConnectPhase::Host => if reply.ok {
                self.to(ConnectPhase::Identify, ConnectAction::Identify)
            } else {
                self.fail(WifiError::NotInitialized)
            },
            ConnectPhase::Identify => if reply.known {
                self.to(ConnectPhase::Firmware, ConnectAction::LoadFirmware)
            } else {
                let text: String = unknown_chip(reply.vid, reply.did);
                self.fail(WifiError::OperationFailed(text))
            },
            ConnectPhase::Firmware => if reply.ok {
                self.to(ConnectPhase::Driver, ConnectAction::StartDriver)
            } else {
                self.fail(WifiError::NotInitialized)
            },
            ConnectPhase::Driver => if reply.ok {
                self.to(ConnectPhase::CardIrq, ConnectAction::RegisterCardIrq)
            } else {
                self.fail(WifiError::NotInitialized)
            },
            ConnectPhase::CardIrq => self.to(
                ConnectPhase::Lmac,
                ConnectAction::ConfigureLmac { timeout_ms: LMAC_TIMEOUT_MS },
            ),
            ConnectPhase::Lmac => if reply.ok {
                self.to(
                    ConnectPhase::Join,
                    ConnectAction::JoinNetwork { timeout_ms: JOIN_TIMEOUT_MS },
                )
            } else {
                self.fail(WifiError::Client)
            },
            ConnectPhase::Join => if reply.ok {
                self.to(ConnectPhase::Device, ConnectAction::StoreDevice)
            } else {
                self.fail(WifiError::Client)
            },
            ConnectPhase::Device => self.to(ConnectPhase::Over, ConnectAction::Up),
            ConnectPhase::Over => self.to(ConnectPhase::Over, ConnectAction::Rest),
        }
    }
}

/// Where the bringing up stands after given replies.
pub open spec fn connect_phase(replies: Seq<ConnectReply>) -> ConnectPhase
    decreases replies.len(),
{
    if replies.len() == 0 {
        ConnectPhase::Begin
    } else {
        connect_turn(connect_phase(replies.drop_last()), replies.last()).phase
    }
}

/// What the bringing up asks for as given replies come in, until it is over.
pub open spec fn connect_actions(replies: Seq<ConnectReply>) -> Seq<ConnectModel>
    decreases replies.len(),
{
    if replies.len() == 0 {
        Seq::empty()
    } else {
        let before = connect_actions(replies.drop_last());
        let phase = connect_phase(replies.drop_last());
        if phase == ConnectPhase::Over {
            before
        } else {
            before.push(connect_turn(phase, replies.last()).action)
        }
    }
}

/// All that is asked for where nothing fails, in order.
pub open spec fn connect_plan() -> Seq<ConnectModel> {
    seq![
        ConnectAction::PowerSlot,
        ConnectAction::RegisterHostIrq,
        ConnectAction::InitHost,
        ConnectAction::Identify,
        ConnectAction::LoadFirmware,
        ConnectAction::StartDriver,
        ConnectAction::RegisterCardIrq,
        ConnectAction::ConfigureLmac { timeout_ms: LMAC_TIMEOUT_MS },
        ConnectAction::JoinNetwork { timeout_ms: JOIN_TIMEOUT_MS },
        ConnectAction::StoreDevice,
        ConnectAction::Up,
    ]
}

/// The place of a phase in the plan: the number of actions asked for by then.
pub open spec fn plan_index(phase: ConnectPhase) -> int {
    match phase {
        ConnectPhase::Begin => 0,
        ConnectPhase::Power => 1,
        ConnectPhase::HostIrq => 2,
        ConnectPhase::Host => 3,
        ConnectPhase::Identify => 4,
        ConnectPhase::Firmware => 5,
        ConnectPhase::Driver => 6,
        ConnectPhase::CardIrq => 7,
        ConnectPhase::Lmac => 8,
        ConnectPhase::Join => 9,
        ConnectPhase::Device => 10,
        ConnectPhase::Over => 11,
    }
}

/// Whatever the replies, the module is brought up in one order: what has been asked for is
/// the beginning of the plan, but for the last action, which may be a failure instead.
pub proof fn law_connect_keeps_order(replies: Seq<ConnectReply>)
    ensures
        ({
            let actions = connect_actions(replies);
            let phase = connect_phase(replies);
            if phase == ConnectPhase::Over {
                &&& 0 < actions.len() <= connect_plan().len()
                &&& actions.drop_last() == connect_plan().take(actions.len() - 1)
                &&& actions.last() is Fail || actions == connect_plan()
            } else {
                &&& actions.len() == plan_index(phase) == replies.len()
                &&& actions == connect_plan().take(plan_index(phase))
            }
        }),
    decreases replies.len(),
{
    let plan = connect_plan();
    if replies.len() == 0 {
        assert(connect_actions(replies) =~= plan.take(0));
    } else {
        law_connect_keeps_order(replies.drop_last());
        let before = connect_actions(replies.drop_last());
        let phase = connect_phase(replies.drop_last());
        if phase != ConnectPhase::Over {
            let actions = connect_actions(replies);
            let n = plan_index(phase);
            assert(actions.drop_last() =~= before);
            if !(actions.last() is Fail) {
                assert(actions.last() == plan[n]);
                assert(plan.take(n + 1) =~= plan.take(n).push(plan[n]));
                assert(plan.take(11) =~= plan);
            }
        }
    }
}

/// The network device is left for others only after every step before it has succeeded on
/// a chip that is known.
pub proof fn law_device_needs_success(replies: Seq<ConnectReply>)
    requires
        replies.len() > 0,
        connect_phase(replies.drop_last()) != ConnectPhase::Over,
        connect_turn(connect_phase(replies.drop_last()), replies.last()).action is StoreDevice,
    ensures
        replies.len() == 10,
        replies[3].ok,
        replies[4].known,
        replies[5].ok,
        replies[6].ok,
        replies[8].ok,
        replies[9].ok,
{
    reveal_with_fuel(connect_phase, 12);
    law_connect_keeps_order(replies.drop_last());
}

/// Where the shutting down stands.
#[derive(Clone, Copy, Debug, PartialEq, Eq, Structural)]
pub enum ShutdownAction {
    /// Tell the module to leave the network.
    Disconnect,
    /// Stop the bus.
    StopBus,
    /// Silence the interrupts of the controller.
    DisableIrq,
    /// Let go of the bus.
    ReleaseBus,
    /// The module is down.
    Down,
}

/// What follows an action when the module is shut down, whatever came of that action.
pub open spec fn shutdown_after(last: Option<ShutdownAction>) -> ShutdownAction {
    match last {
        None => ShutdownAction::Disconnect,
        Some(ShutdownAction::Disconnect) => ShutdownAction::StopBus,
        Some(ShutdownAction::StopBus) => ShutdownAction::DisableIrq,
        Some(ShutdownAction::DisableIrq) => ShutdownAction::ReleaseBus,
        Some(ShutdownAction::ReleaseBus) => ShutdownAction::Down,
        Some(ShutdownAction::Down) => ShutdownAction::Down,
    }
}

/// What follows an action when the module is shut down. A module that does not leave the
/// network is shut down all the same.
pub fn shutdown(last: Option<ShutdownAction>) -> (next: ShutdownAction)
    ensures
        next == shutdown_after(last),
{
    match last {
        None => ShutdownAction::Disconnect,
        Some(ShutdownAction::Disconnect) => ShutdownAction::StopBus,
        Some(ShutdownAction::StopBus) => ShutdownAction::DisableIrq,
        Some(ShutdownAction::DisableIrq) => ShutdownAction::ReleaseBus,
        Some(ShutdownAction::ReleaseBus) | Some(ShutdownAction::Down) => ShutdownAction::Down,
    }
}

impl BusModel {
    /// The bus shut down: its threads end, and no Ethernet frame waits on either side. A
    /// command that waits stays.
    pub open spec fn stopped(self) -> BusModel {
        BusModel {
            state: BusState::Down,
            queue: Seq::empty(),
            pktcnt: 0,
            received: Seq::empty(),
            ..self
        }
    }
}

impl WifiBus {
    /// Shuts the bus down: its threads end when they look at it next, and every Ethernet
    /// frame that waits, on either side, is dropped. A command that waits stays.
    pub fn shutdown(&mut self)
        ensures
            final(self)@ == old(self)@.stopped(),
            old(self)@.wf() ==> final(self)@.wf(),
    {
        self.state = BusState::Down;
        self.clear_frames();
        self.rx.data_queue.clear();
        assert(self@.received =~= Seq::empty());
    }
}

/// A bus that has been shut down transmits nothing more: a new pass ends at once and leaves
/// it as it is, and one that is sending data ends after the frame that is on its way.
pub proof fn law_stopped_bus_is_quiet(
    cfg: TxConfig,
    bus: BusModel,
    batch: Batch,
    reply: Option<u32>,
)
    ensures
        tx_turn(cfg, PhaseModel::Begin, bus.stopped(), reply) == (TxTurn {
            phase: PhaseModel::Over { did_work: false },
            bus: bus.stopped(),
            action: ActionModel::Done { did_work: false },
        }),
        tx_turn(cfg, PhaseModel::DataWrite { batch }, bus.stopped(), reply).action is Done,
        !bus.stopped().has_work() || bus.pending_flag,
{
}

/// Steps of shutting down after some have been taken.
pub open spec fn shutdown_steps(n: nat) -> Seq<ShutdownAction>
    decreases n,
{
    if n == 0 {
        Seq::empty()
    } else {
        let before = shutdown_steps((n - 1) as nat);
        before.push(
            shutdown_after(
                if before.len() == 0 {
                    None
                } else {
                    Some(before.last())
                },
            ),
        )
    }
}

/// Shutting down takes five steps in one order: the network is left while the bus still
/// works, then the bus stops, then the interrupts are silenced.
pub proof fn law_shutdown_keeps_order()
    ensures
        shutdown_steps(5) == seq![
            ShutdownAction::Disconnect,
            ShutdownAction::StopBus,
            ShutdownAction::DisableIrq,
            ShutdownAction::ReleaseBus,
            ShutdownAction::Down,
        ],
{
    reveal_with_fuel(shutdown_steps, 6);
    assert(shutdown_steps(5) =~= seq![
        ShutdownAction::Disconnect,
        ShutdownAction::StopBus,
        ShutdownAction::DisableIrq,
        ShutdownAction::ReleaseBus,
        ShutdownAction::Down,
    ]);
}

/// The network to join has the name that was given, every character of it; it is open exactly
/// where the password has no characters, and otherwise protected by exactly the password that
/// was given, whatever their lengths are.
pub proof fn law_network_is_as_given(ssid: Seq<char>, password: Seq<char>)
    ensures
        config_for(ssid, password).ssid == ssid,
        config_for(ssid, password).password is None <==> password.len() == 0,
        password.len() > 0 ==> config_for(ssid, password).password == Some(password),
        config_for(ssid, password).password matches Some(kept) ==> kept.len() == password.len()
            && forall|i: int| 0 <= i < password.len() ==> #[trigger] kept[i] == password[i],
{
}

/// A network as a value is the network: its name, and the password where it has one.
pub proof fn law_config_is_its_fields(config: WifiConfig)
    ensures
        config@.ssid == config.ssid@,
        config.security is Open <==> config@.password is None,
        config.security matches Security::Wpa2Psk { password } ==> config@.password == Some(
            password@,
        ),
{
}

/// Two networks to join are the same only where names and passwords are.
pub proof fn law_networks_are_told_apart(
    ssid: Seq<char>,
    password: Seq<char>,
    other_ssid: Seq<char>,
    other_password: Seq<char>,
)
    requires
        config_for(ssid, password) == config_for(other_ssid, other_password),
    ensures
        ssid == other_ssid,
        password == other_password,
{
    if password.len() == 0 {
        assert(password =~= other_password);
    }
}

/// A hexadecimal digit is the character of its value: a decimal digit below ten, a lower-case
/// letter from ten on.
pub proof fn law_hex_digit(digit: int)
    requires
        0 <= digit < 16,
    ensures
        digit < 10 ==> hex_digit(digit) as int == 0x30 + digit,
        digit >= 10 ==> hex_digit(digit) as int == 0x61 + digit - 10,
{
    reveal_strlit("0123456789abcdef");
}

/// The value of a hexadecimal digit.
pub open spec fn digit_value(digit: char) -> int {
    if digit as int <= 0x39 {
        digit as int - 0x30
    } else {
        digit as int - 0x61 + 10
    }
}

/// A number can be read back from its four digits, the highest first.
pub proof fn law_hex4_reads_back(value: u16)
    ensures
        hex4(value).len() == 4,
        digit_value(hex4(value)[0]) * 4096 + digit_value(hex4(value)[1]) * 256 + digit_value(
            hex4(value)[2],
        ) * 16 + digit_value(hex4(value)[3]) == value,
        forall|i: int|
            0 <= i < 4 ==> 0 <= digit_value(#[trigger] hex4(value)[i]) < 16 && hex4(value)[i]
                == hex_digit(digit_value(hex4(value)[i])),
{
    let d0 = value as int / 4096 % 16;
    let d1 = value as int / 256 % 16;
    let d2 = value as int / 16 % 16;
    let d3 = value as int % 16;
    law_digit_reads_back(d0);
    law_digit_reads_back(d1);
    law_digit_reads_back(d2);
    law_digit_reads_back(d3);
    assert(value == value / 4096 % 16 * 4096 + value / 256 % 16 * 256 + value / 16 % 16 * 16 + value
        % 16) by (bit_vector);
    assert(hex4(value) =~= seq![hex_digit(d0), hex_digit(d1), hex_digit(d2), hex_digit(d3)]);
}

/// The value of a digit is what it was made of.
pub proof fn law_digit_reads_back(digit: int)
    requires
        0 <= digit < 16,
    ensures
        digit_value(hex_digit(digit)) == digit,
{
    law_hex_digit(digit);
}

/// What is said of a chip that is not known names its vendor and its device, in this order,
/// in four digits each.
pub proof fn law_unknown_chip_is_named(vid: u16, did: u16)
    ensures
        ({
            let text = unknown_chip_text(vid, did);
            &&& text.len() == 41
            &&& text.subrange(0, 25) == "Unknown WiFi chip: vid=0x"@
            &&& text.subrange(25, 29) == hex4(vid)
            &&& text.subrange(29, 37) == ", did=0x"@
            &&& text.subrange(37, 41) == hex4(did)
        }),
{
    reveal_strlit("Unknown WiFi chip: vid=0x");
    reveal_strlit(", did=0x");
    let text = unknown_chip_text(vid, did);
    assert(text.subrange(0, 25) =~= "Unknown WiFi chip: vid=0x"@);
    assert(text.subrange(25, 29) =~= hex4(vid));
    assert(text.subrange(29, 37) =~= ", did=0x"@);
    assert(text.subrange(37, 41) =~= hex4(did));
}

/// Reply number `i` says that what was asked for did not work: setting the controller up,
/// loading the firmware, starting the driver, setting the lower MAC up or joining failed, or
/// the chip is not known.
pub open spec fn goes_wrong(i: int, reply: ConnectReply) -> bool {
    if i == 4 {
        !reply.known
    } else {
        (i == 3 || i == 5 || i == 6 || i == 8 || i == 9) && !reply.ok
    }
}

/// The bringing up goes on exactly as long as nothing goes wrong: after `k` replies of which
/// none did, it has asked for the first `k` steps of the plan; the first that does ends it
/// with the error of that step; and where none does, the module is up after eleven.
pub proof fn law_connect_goes_on_while_well(replies: Seq<ConnectReply>)
    requires
        replies.len() <= 11,
        forall|i: int| 0 <= i < replies.len() ==> !goes_wrong(i, #[trigger] replies[i]),
    ensures
        connect_actions(replies) == connect_plan().take(replies.len() as int),
        plan_index(connect_phase(replies)) == replies.len(),
        replies.len() == 11 ==> connect_actions(replies).last() is Up,
    decreases replies.len(),
{
    let plan = connect_plan();
    if replies.len() == 0 {
        assert(connect_actions(replies) =~= plan.take(0));
    } else {
        let before = replies.drop_last();
        assert forall|i: int| 0 <= i < before.len() implies !goes_wrong(i, #[trigger] before[i]) by {
            assert(before[i] == replies[i]);
        }
        law_connect_goes_on_while_well(before);
        let n = before.len() as int;
        assert(!goes_wrong(n, replies[n]));
        assert(connect_actions(replies).last() == plan[n]);
        assert(plan.take(n + 1) =~= plan.take(n).push(plan[n]));
    }
}

/// The first reply that says that something went wrong ends the bringing up, with the error
/// of that step: not initialized for the controller, the firmware and the driver, what the
/// client has reported for the lower MAC and the network, and the name of a chip that is not
/// known.
pub proof fn law_connect_ends_at_first_failure(replies: Seq<ConnectReply>, reply: ConnectReply)
    requires
        replies.len() <= 10,
        forall|i: int| 0 <= i < replies.len() ==> !goes_wrong(i, #[trigger] replies[i]),
        goes_wrong(replies.len() as int, reply),
    ensures
        ({
            let n = replies.len();
            let actions = connect_actions(replies.push(reply));
            &&& connect_phase(replies.push(reply)) == ConnectPhase::Over
            &&& actions.len() == n + 1
            &&& actions.drop_last() == connect_plan().take(n as int)
            &&& actions.last() == ConnectModel::Fail(
                if n == 4 {
                    WifiError::OperationFailed(unknown_chip_text(reply.vid, reply.did))
                } else if n <= 6 {
                    WifiError::NotInitialized
                } else {
                    WifiError::Client
                },
            )
        }),
{
    law_connect_goes_on_while_well(replies);
    assert(replies.push(reply).drop_last() =~= replies);
    let actions = connect_actions(replies.push(reply));
    assert(actions.drop_last() =~= connect_actions(replies));
}

/// The steps of the plan, and how long the two slow ones may take.
pub proof fn law_connect_plan()
    ensures
        connect_plan().len() == 11,
        connect_plan()[0] is PowerSlot,
        connect_plan()[1] is RegisterHostIrq,
        connect_plan()[2] is InitHost,
        connect_plan()[3] is Identify,
        connect_plan()[4] is LoadFirmware,
        connect_plan()[5] is StartDriver,
        connect_plan()[6] is RegisterCardIrq,
        connect_plan()[7] == (ConnectModel::ConfigureLmac { timeout_ms: 6000 }),
        connect_plan()[8] == (ConnectModel::JoinNetwork { timeout_ms: 15000 }),
        connect_plan()[9] is StoreDevice,
        connect_plan()[10] is Up,
{
}

/// A request as a value is the request, with the text that it has.
pub proof fn law_connect_action_is_itself(action: ConnectAction<String>)
    ensures
        action is PowerSlot <==> action@ is PowerSlot,
        action is RegisterHostIrq <==> action@ is RegisterHostIrq,
        action is InitHost <==> action@ is InitHost,
        action is Identify <==> action@ is Identify,
        action is LoadFirmware <==> action@ is LoadFirmware,
        action is StartDriver <==> action@ is StartDriver,
        action is RegisterCardIrq <==> action@ is RegisterCardIrq,
        action is StoreDevice <==> action@ is StoreDevice,
        action is Up <==> action@ is Up,
        action is Rest <==> action@ is Rest,
        action matches ConnectAction::ConfigureLmac { timeout_ms } ==> action@ == (
        ConnectModel::ConfigureLmac { timeout_ms }),
        action matches ConnectAction::JoinNetwork { timeout_ms } ==> action@ == (
        ConnectModel::JoinNetwork { timeout_ms }),
        action matches ConnectAction::Fail(WifiError::NotInitialized) ==> action@
            == ConnectModel::Fail(WifiError::NotInitialized),
        action matches ConnectAction::Fail(WifiError::Client) ==> action@ == ConnectModel::Fail(
            WifiError::Client,
        ),
        action matches ConnectAction::Fail(WifiError::OperationFailed(text)) ==> action@
            == ConnectModel::Fail(WifiError::OperationFailed(text@)),
{
}

/// Shutting the bus down leaves no Ethernet frame waiting on either side, and nothing else
/// but its state is touched.
pub proof fn law_stopping_drops_frames(bus: BusModel)
    ensures
        bus.stopped().state == BusState::Down,
        bus.stopped().queue.len() == 0,
        bus.stopped().pktcnt == 0,
        bus.stopped().received.len() == 0,
        bus.stopped().pending == bus.pending,
        bus.stopped().pending_flag == bus.pending_flag,
        bus.stopped().rsp_error == bus.rsp_error,
        bus.stopped().conn == bus.conn,
{
}

/// A module that is down stays down, however often it is asked what comes next.
pub proof fn law_down_stays_down(n: nat)
    requires
        n >= 5,
    ensures
        shutdown_steps(n).last() == ShutdownAction::Down,
    decreases n,
{
    if n == 5 {
        law_shutdown_keeps_order();
    } else {
        law_down_stays_down((n - 1) as nat);
    }
}

/// Once how it ended has been said, nothing more is asked for.
pub proof fn law_connect_rests(reply: ConnectReply)
    ensures
        connect_turn(ConnectPhase::Over, reply).phase == ConnectPhase::Over,
        connect_turn(ConnectPhase::Over, reply).action is Rest,
{
}

} // verus!
