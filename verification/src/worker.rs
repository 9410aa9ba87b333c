//! What the user interface asks of the background worker, and what it hears
//! back. The worker runs all blocking bluetoothctl/pactl operations so that the
//! user interface never freezes.

use vstd::prelude::*;

use crate::bt::{Device, DeviceModel, Discovered, DiscoveredModel};

pub mod laws;
pub mod moves;
pub mod outcomes;
pub mod task;
pub mod turns;

pub use moves::carry_out;
pub use turns::{expects, run, start};

verus! {

pub enum Cmd {
    Refresh,
    /// Idle-cadence relist. Unlike `Refresh` it must never touch adapter
    /// power: it fires unattended, and re-powering a radio the user switched
    /// off elsewhere would override their intent every few seconds.
    AutoRefresh,
    ToggleConnect { mac: String, name: String },
    Scan,
    PairConnect {
        /// Every address discovered under this name. Earbuds advertise
        /// several at once and only some carry audio, so the worker ranks
        /// them and works down the list instead of trusting the user to
        /// have picked the right row.
        candidates: Vec<String>,
        name: String,
        /// The full scan-result list, so a pair failure can reopen the picker
        /// instead of forcing another 10s scan.
        others: Vec<Discovered>,
    },
    ToggleTrust { mac: String },
    Remove { mac: String },
    ToggleProfile { mac: String, name: String },
    Details { mac: String, name: String },
    /// Host-wide (and optionally per-device) audio-routing diagnostics.
    Doctor { device: Option<(String, String)> },
    /// The user's answer to a pairing agent prompt ("yes"/"no"/PIN). Consumed
    /// inside a running PairConnect; meaningless on its own.
    PairReply(String),
}

pub ghost enum CmdModel {
    Refresh,
    AutoRefresh,
    ToggleConnect { mac: Seq<char>, name: Seq<char> },
    Scan,
    PairConnect { candidates: Seq<Seq<char>>, name: Seq<char>, others: Seq<DiscoveredModel> },
    ToggleTrust { mac: Seq<char> },
    Remove { mac: Seq<char> },
    ToggleProfile { mac: Seq<char>, name: Seq<char> },
    Details { mac: Seq<char>, name: Seq<char> },
    Doctor { device: Option<(Seq<char>, Seq<char>)> },
    PairReply(Seq<char>),
}

impl View for Cmd {
    type V = CmdModel;

    open spec fn view(&self) -> CmdModel {
        match self {
            Cmd::Refresh => CmdModel::Refresh,
            Cmd::AutoRefresh => CmdModel::AutoRefresh,
            Cmd::ToggleConnect { mac, name } => CmdModel::ToggleConnect {
                mac: mac@,
                name: name@,
            },
            Cmd::Scan => CmdModel::Scan,
            Cmd::PairConnect { candidates, name, others } => CmdModel::PairConnect {
                candidates: candidates.deep_view(),
                name: name@,
                others: others.deep_view(),
            },
            Cmd::ToggleTrust { mac } => CmdModel::ToggleTrust { mac: mac@ },
            Cmd::Remove { mac } => CmdModel::Remove { mac: mac@ },
            Cmd::ToggleProfile { mac, name } => CmdModel::ToggleProfile {
                mac: mac@,
                name: name@,
            },
            Cmd::Details { mac, name } => CmdModel::Details { mac: mac@, name: name@ },
            Cmd::Doctor { device } => CmdModel::Doctor { device: device.deep_view() },
            Cmd::PairReply(answer) => CmdModel::PairReply(answer@),
        }
    }
}

impl DeepView for Cmd {
    type V = CmdModel;

    open spec fn deep_view(&self) -> CmdModel {
        self@
    }
}

/// Severity of a status message, so the UI colors by meaning instead of
/// sniffing message text.
#[derive(Debug, Clone, Copy, PartialEq, Eq, Structural)]
pub enum Tone {
    Info,
    Success,
    Warn,
    Failure,
}

impl DeepView for Tone {
    type V = Tone;

    open spec fn deep_view(&self) -> Tone {
        *self
    }
}

pub enum Msg {
    Devices(Vec<Device>),
    /// A scan began: open the (empty) picker; devices stream in as Found.
    ScanStarted,
    /// One device discovered mid-scan.
    Found(Discovered),
    /// Authoritative discovered list once the scan finished.
    ScanResults(Vec<Discovered>),
    /// A finished event for the log.
    Status(String, Tone),
    /// Live narration of the running operation ("Connecting X...",
    /// "Waiting for audio sink... (3/8)"). Shown on the spinner line and
    /// replaced by the next progress message - never logged.
    Progress(String),
    /// A pairing agent prompt: pin=true asks for text entry, otherwise it's
    /// a yes/no passkey confirmation.
    PairPrompt { pin: bool, passkey: String },
    /// Raw device info for the details popup.
    Details { name: String, text: String },
    OpDone,
}

pub ghost enum MsgModel {
    Devices(Seq<DeviceModel>),
    ScanStarted,
    Found(DiscoveredModel),
    ScanResults(Seq<DiscoveredModel>),
    Status(Seq<char>, Tone),
    Progress(Seq<char>),
    PairPrompt { pin: bool, passkey: Seq<char> },
    Details { name: Seq<char>, text: Seq<char> },
    OpDone,
}

impl View for Msg {
    type V = MsgModel;

    open spec fn view(&self) -> MsgModel {
        match self {
            Msg::Devices(devices) => MsgModel::Devices(devices.deep_view()),
            Msg::ScanStarted => MsgModel::ScanStarted,
            Msg::Found(d) => MsgModel::Found(d@),
            Msg::ScanResults(items) => MsgModel::ScanResults(items.deep_view()),
            Msg::Status(s, tone) => MsgModel::Status(s@, *tone),
            Msg::Progress(s) => MsgModel::Progress(s@),
            Msg::PairPrompt { pin, passkey } => MsgModel::PairPrompt {
                pin: *pin,
                passkey: passkey@,
            },
            Msg::Details { name, text } => MsgModel::Details { name: name@, text: text@ },
            Msg::OpDone => MsgModel::OpDone,
        }
    }
}

impl DeepView for Msg {
    type V = MsgModel;

    open spec fn deep_view(&self) -> MsgModel {
        self@
    }
}

} // verus!
