//! One command as a conversation: the task says what it has to tell the user
//! interface and what it needs done next; the answer to that takes it on.

use vstd::prelude::*;

use crate::bt::{
    AudioKind, Device, DeviceModel, Discovered, DiscoveredModel, Info, PairEvent, PairEventModel,
};
use crate::shell::result_model;

use super::{Cmd, CmdModel, Msg, MsgModel};

verus! {

// ---------------------------------------------------------------------------
// The conversation
// ---------------------------------------------------------------------------

/// What a task needs done next.
pub enum Action {
    /// Power the adapter on where it is off.
    AdapterUp,
    /// Ask for the live state of an address.
    Info(String),
    /// Ask for the raw `info` output of an address.
    InfoRaw(String),
    Connect(String),
    Disconnect(String),
    /// Pair without a session that can prompt.
    Pair(String),
    Trust(String),
    Untrust(String),
    Remove(String),
    /// List the discovered devices that are not paired.
    Discover,
    /// Look up the address kinds of these.
    FillKinds(Vec<Discovered>),
    /// Scan for this many seconds, and report the first device announced.
    ScanLive(u32),
    /// Report the next device that the running scan announces.
    NextFind,
    /// Rank the addresses, best first.
    Rank(Vec<String>),
    /// Open a pairing session, and report its first prompt or its end.
    PairInteractive(String),
    /// Answer the session's prompt, and report its next prompt or its end.
    Answer(Option<String>),
    /// Wait for the next command from the user interface.
    Receive,
    /// Send the message, and report whether anyone still listens.
    Send(Msg),
    /// Find out whether the kernel opens ISO sockets.
    ProbeIso,
    /// Make the device the default output.
    Route(String),
    /// Find out what may explain that an address has no sink.
    RoutingFacts(String),
    /// Switch the device's audio profile.
    SwitchProfile(String),
    /// Make a diagnostic report, of a device (address, name) too if there is one.
    Report(Option<(String, String)>),
    /// List the paired devices.
    ListPaired,
    /// Wait for this many milliseconds.
    Pause(u64),
    /// Nothing: take the next command, or stop where no one listens any more.
    Finish(bool),
}

pub ghost enum ActionModel {
    AdapterUp,
    Info(Seq<char>),
    InfoRaw(Seq<char>),
    Connect(Seq<char>),
    Disconnect(Seq<char>),
    Pair(Seq<char>),
    Trust(Seq<char>),
    Untrust(Seq<char>),
    Remove(Seq<char>),
    Discover,
    FillKinds(Seq<DiscoveredModel>),
    ScanLive(u32),
    NextFind,
    Rank(Seq<Seq<char>>),
    PairInteractive(Seq<char>),
    Answer(Option<Seq<char>>),
    Receive,
    Send(MsgModel),
    ProbeIso,
    Route(Seq<char>),
    RoutingFacts(Seq<char>),
    SwitchProfile(Seq<char>),
    Report(Option<(Seq<char>, Seq<char>)>),
    ListPaired,
    Pause(u64),
    Finish(bool),
}

impl View for Action {
    type V = ActionModel;

    open spec fn view(&self) -> ActionModel {
        match self {
            Action::AdapterUp => ActionModel::AdapterUp,
            Action::Info(mac) => ActionModel::Info(mac@),
            Action::InfoRaw(mac) => ActionModel::InfoRaw(mac@),
            Action::Connect(mac) => ActionModel::Connect(mac@),
            Action::Disconnect(mac) => ActionModel::Disconnect(mac@),
            Action::Pair(mac) => ActionModel::Pair(mac@),
            Action::Trust(mac) => ActionModel::Trust(mac@),
            Action::Untrust(mac) => ActionModel::Untrust(mac@),
            Action::Remove(mac) => ActionModel::Remove(mac@),
            Action::Discover => ActionModel::Discover,
            Action::FillKinds(items) => ActionModel::FillKinds(items.deep_view()),
            Action::ScanLive(secs) => ActionModel::ScanLive(*secs),
            Action::NextFind => ActionModel::NextFind,
            Action::Rank(macs) => ActionModel::Rank(macs.deep_view()),
            Action::PairInteractive(mac) => ActionModel::PairInteractive(mac@),
            Action::Answer(answer) => ActionModel::Answer(answer.deep_view()),
            Action::Receive => ActionModel::Receive,
            Action::Send(msg) => ActionModel::Send(msg@),
            Action::ProbeIso => ActionModel::ProbeIso,
            Action::Route(mac) => ActionModel::Route(mac@),
            Action::RoutingFacts(mac) => ActionModel::RoutingFacts(mac@),
            Action::SwitchProfile(mac) => ActionModel::SwitchProfile(mac@),
            Action::Report(device) => ActionModel::Report(device.deep_view()),
            Action::ListPaired => ActionModel::ListPaired,
            Action::Pause(ms) => ActionModel::Pause(*ms),
            Action::Finish(ok) => ActionModel::Finish(*ok),
        }
    }
}

/// What came of an action.
pub enum Event {
    /// `AdapterUp`: the adapter is on, or why not.
    Powered(Result<(), String>),
    /// `Info`.
    State(Result<Info, String>),
    /// `InfoRaw`.
    Text(Result<String, String>),
    /// `Connect`, `Disconnect`, `Pair`, `Trust`, `Untrust`, `Remove`: whether it
    /// worked.
    Done(bool),
    /// `Discover`.
    Discovered(Result<Vec<Discovered>, String>),
    /// `FillKinds`.
    Classified(Vec<Discovered>),
    /// `ScanLive`, `NextFind`: a device.
    Announced(Discovered),
    /// `ScanLive`, `NextFind`: the scan is over.
    ScanEnded,
    /// `Rank`.
    Ranked(Vec<String>),
    /// `PairInteractive`, `Answer`: the session prompts.
    Prompt(PairEvent),
    /// `PairInteractive`, `Answer`: the session is over, paired or not; `None`
    /// where it could not be held.
    PairEnded(Option<bool>),
    /// `Receive`: the command, or none where no one will ever send one.
    Received(Option<Cmd>),
    /// `Send`: whether anyone still listens.
    Sent(bool),
    /// `ProbeIso`.
    Iso(bool),
    /// `Route`: whether audio was routed.
    Routed(bool),
    /// `RoutingFacts`: whether the kernel opens ISO sockets, and whether the
    /// sound server built a card for the address.
    Facts { iso: bool, has_card: bool },
    /// `SwitchProfile`: the profile now active, or why there is none.
    Switched(Result<String, String>),
    /// `Report`.
    Reported(String),
    /// `ListPaired`.
    Listed(Result<Vec<Device>, String>),
    /// `Pause`.
    Rested,
}

pub ghost enum EventModel {
    Powered(Result<(), Seq<char>>),
    State(Result<Info, Seq<char>>),
    Text(Result<Seq<char>, Seq<char>>),
    Done(bool),
    Discovered(Result<Seq<DiscoveredModel>, Seq<char>>),
    Classified(Seq<DiscoveredModel>),
    Announced(DiscoveredModel),
    ScanEnded,
    Ranked(Seq<Seq<char>>),
    Prompt(PairEventModel),
    PairEnded(Option<bool>),
    Received(Option<CmdModel>),
    Sent(bool),
    Iso(bool),
    Routed(bool),
    Facts { iso: bool, has_card: bool },
    Switched(Result<Seq<char>, Seq<char>>),
    Reported(Seq<char>),
    Listed(Result<Seq<DeviceModel>, Seq<char>>),
    Rested,
}

impl View for Event {
    type V = EventModel;

    open spec fn view(&self) -> EventModel {
        match self {
            Event::Powered(r) => EventModel::Powered(result_model(*r)),
            Event::State(r) => EventModel::State(result_model(*r)),
            Event::Text(r) => EventModel::Text(result_model(*r)),
            Event::Done(ok) => EventModel::Done(*ok),
            Event::Discovered(r) => EventModel::Discovered(result_model(*r)),
            Event::Classified(items) => EventModel::Classified(items.deep_view()),
            Event::Announced(d) => EventModel::Announced(d@),
            Event::ScanEnded => EventModel::ScanEnded,
            Event::Ranked(macs) => EventModel::Ranked(macs.deep_view()),
            Event::Prompt(ev) => EventModel::Prompt(ev@),
            Event::PairEnded(ok) => EventModel::PairEnded(*ok),
            Event::Received(cmd) => EventModel::Received(cmd.deep_view()),
            Event::Sent(ok) => EventModel::Sent(*ok),
            Event::Iso(ok) => EventModel::Iso(*ok),
            Event::Routed(ok) => EventModel::Routed(*ok),
            Event::Facts { iso, has_card } => EventModel::Facts {
                iso: *iso,
                has_card: *has_card,
            },
            Event::Switched(r) => EventModel::Switched(result_model(*r)),
            Event::Reported(s) => EventModel::Reported(s@),
            Event::Listed(r) => EventModel::Listed(result_model(*r)),
            Event::Rested => EventModel::Rested,
        }
    }
}

/// A pairing in progress: the name it goes by, the list to fall back on, the
/// addresses to try in order and which of them is being tried, and whether the
/// user gave up.
pub struct PairRun {
    pub name: String,
    pub others: Vec<Discovered>,
    pub ranked: Vec<String>,
    pub at: usize,
    pub aborted: bool,
}

pub ghost struct PairRunModel {
    pub name: Seq<char>,
    pub others: Seq<DiscoveredModel>,
    pub ranked: Seq<Seq<char>>,
    pub at: nat,
    pub aborted: bool,
}

impl View for PairRun {
    type V = PairRunModel;

    open spec fn view(&self) -> PairRunModel {
        PairRunModel {
            name: self.name@,
            others: self.others.deep_view(),
            ranked: self.ranked.deep_view(),
            at: self.at as nat,
            aborted: self.aborted,
        }
    }
}

/// How far a command has got: what it waits for, and what it must remember.
/// `done` is the status line that ends a connection.
pub enum Task {
    Powering(Cmd),
    ToggleState { mac: String, name: String },
    Disconnecting { name: String },
    Connecting { mac: String, name: String, kind: AudioKind },
    RouteIso { mac: String, done: String },
    Routing { mac: String, kind: AudioKind, done: String },
    RouteHint { kind: AudioKind, done: String },
    ScanOpening,
    ScanSeeding,
    ScanFilling,
    Scanning { seen: Vec<Discovered> },
    ScanNaming { seen: Vec<Discovered> },
    ScanListing { seen: Vec<Discovered> },
    ScanClassifying,
    Ranking { name: String, others: Vec<Discovered> },
    Pairing(PairRun),
    Prompting(PairRun),
    Awaiting(PairRun),
    FallingBack(PairRun),
    Closing,
    Trusting { mac: String, name: String },
    LinkUp { mac: String, name: String },
    LinkState { mac: String, name: String },
    TrustState { mac: String },
    SettingTrust { mac: String, trusted: bool },
    Removing { mac: String },
    Switching { name: String },
    Reading { name: String },
    Diagnosing,
    Listing { ok: bool },
    Resting { ok: bool },
    Relisting { ok: bool },
    Over,
}

pub ghost enum TaskModel {
    Powering(CmdModel),
    ToggleState { mac: Seq<char>, name: Seq<char> },
    Disconnecting { name: Seq<char> },
    Connecting { mac: Seq<char>, name: Seq<char>, kind: AudioKind },
    RouteIso { mac: Seq<char>, done: Seq<char> },
    Routing { mac: Seq<char>, kind: AudioKind, done: Seq<char> },
    RouteHint { kind: AudioKind, done: Seq<char> },
    ScanOpening,
    ScanSeeding,
    ScanFilling,
    Scanning { seen: Seq<DiscoveredModel> },
    ScanNaming { seen: Seq<DiscoveredModel> },
    ScanListing { seen: Seq<DiscoveredModel> },
    ScanClassifying,
    Ranking { name: Seq<char>, others: Seq<DiscoveredModel> },
    Pairing(PairRunModel),
    Prompting(PairRunModel),
    Awaiting(PairRunModel),
    FallingBack(PairRunModel),
    Closing,
    Trusting { mac: Seq<char>, name: Seq<char> },
    LinkUp { mac: Seq<char>, name: Seq<char> },
    LinkState { mac: Seq<char>, name: Seq<char> },
    TrustState { mac: Seq<char> },
    SettingTrust { mac: Seq<char>, trusted: bool },
    Removing { mac: Seq<char> },
    Switching { name: Seq<char> },
    Reading { name: Seq<char> },
    Diagnosing,
    Listing { ok: bool },
    Resting { ok: bool },
    Relisting { ok: bool },
    Over,
}

impl View for Task {
    type V = TaskModel;

    open spec fn view(&self) -> TaskModel {
        match self {
            Task::Powering(cmd) => TaskModel::Powering(cmd@),
            Task::ToggleState { mac, name } => TaskModel::ToggleState { mac: mac@, name: name@ },
            Task::Disconnecting { name } => TaskModel::Disconnecting { name: name@ },
            Task::Connecting { mac, name, kind } => TaskModel::Connecting {
                mac: mac@,
                name: name@,
                kind: *kind,
            },
            Task::RouteIso { mac, done } => TaskModel::RouteIso { mac: mac@, done: done@ },
            Task::Routing { mac, kind, done } => TaskModel::Routing {
                mac: mac@,
                kind: *kind,
                done: done@,
            },
            Task::RouteHint { kind, done } => TaskModel::RouteHint { kind: *kind, done: done@ },
            Task::ScanOpening => TaskModel::ScanOpening,
            Task::ScanSeeding => TaskModel::ScanSeeding,
            Task::ScanFilling => TaskModel::ScanFilling,
            Task::Scanning { seen } => TaskModel::Scanning { seen: seen.deep_view() },
            Task::ScanNaming { seen } => TaskModel::ScanNaming { seen: seen.deep_view() },
            Task::ScanListing { seen } => TaskModel::ScanListing { seen: seen.deep_view() },
            Task::ScanClassifying => TaskModel::ScanClassifying,
            Task::Ranking { name, others } => TaskModel::Ranking {
                name: name@,
                others: others.deep_view(),
            },
            Task::Pairing(run) => TaskModel::Pairing(run@),
            Task::Prompting(run) => TaskModel::Prompting(run@),
            Task::Awaiting(run) => TaskModel::Awaiting(run@),
            Task::FallingBack(run) => TaskModel::FallingBack(run@),
            Task::Closing => TaskModel::Closing,
            Task::Trusting { mac, name } => TaskModel::Trusting { mac: mac@, name: name@ },
            Task::LinkUp { mac, name } => TaskModel::LinkUp { mac: mac@, name: name@ },
            Task::LinkState { mac, name } => TaskModel::LinkState { mac: mac@, name: name@ },
            Task::TrustState { mac } => TaskModel::TrustState { mac: mac@ },
            Task::SettingTrust { mac, trusted } => TaskModel::SettingTrust {
                mac: mac@,
                trusted: *trusted,
            },
            Task::Removing { mac } => TaskModel::Removing { mac: mac@ },
            Task::Switching { name } => TaskModel::Switching { name: name@ },
            Task::Reading { name } => TaskModel::Reading { name: name@ },
            Task::Diagnosing => TaskModel::Diagnosing,
            Task::Listing { ok } => TaskModel::Listing { ok: *ok },
            Task::Resting { ok } => TaskModel::Resting { ok: *ok },
            Task::Relisting { ok } => TaskModel::Relisting { ok: *ok },
            Task::Over => TaskModel::Over,
        }
    }
}

/// A task's turn: it has come this far, tells the user interface this, and
/// needs that.
pub struct Turn {
    pub task: Task,
    pub say: Vec<Msg>,
    pub action: Action,
}

pub ghost struct TurnModel {
    pub task: TaskModel,
    pub say: Seq<MsgModel>,
    pub action: ActionModel,
}

impl View for Turn {
    type V = TurnModel;

    open spec fn view(&self) -> TurnModel {
        TurnModel { task: self.task@, say: self.say.deep_view(), action: self.action@ }
    }
}

impl DeepView for Turn {
    type V = TurnModel;

    open spec fn deep_view(&self) -> TurnModel {
        self@
    }
}

} // verus!
