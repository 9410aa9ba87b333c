//! What each command comes to, from its first turn to what the user is told.

use vstd::prelude::*;

use crate::audio::{route_steps, toggle_steps, RouteStepModel};
use crate::bt::calls::{
    adapter_steps, addr_kind_steps, discovered_steps, paired_devices_steps, rank_steps,
};
use crate::bt::{AudioKind, DeviceModel, DiscoveredModel, Info, PairEventModel};
use crate::diag::failure_hint;
use crate::shell::{ReplyModel, StepModel};
use crate::text::decimal;

use super::moves::{move_of, MoveModel};
use super::task::{ActionModel, EventModel, TaskModel, TurnModel};
use super::turns::{first_turn, next_turn};
use super::{CmdModel, MsgModel, Tone};

verus! {

/// The turn tells the user this one thing, and goes on to list the devices.
pub open spec fn ends_with(turn: TurnModel, s: Seq<char>, tone: Tone) -> bool {
    turn.say == seq![MsgModel::Status(s, tone)] && turn.action is ListPaired
}

/// The turn tells the user these two things, and goes on to list the devices.
pub open spec fn ends_with_both(
    turn: TurnModel,
    s: Seq<char>,
    tone: Tone,
    t: Seq<char>,
    other: Tone,
) -> bool {
    turn.say == seq![MsgModel::Status(s, tone), MsgModel::Status(t, other)] && turn.action
        is ListPaired
}

/// The turn tells the user nothing.
pub open spec fn silent(turn: TurnModel) -> bool {
    turn.say.len() == 0
}

// ---------------------------------------------------------------------------
// Calls
// ---------------------------------------------------------------------------

/// The action is one call about a device, whose outcome is what the tool says.
pub open spec fn is_call(action: ActionModel, word: Seq<char>, mac: Seq<char>) -> bool {
    &&& move_of(action, Seq::empty()) == MoveModel::Ctl(seq![word, mac])
    &&& forall|reply: ReplyModel|
        #[trigger] move_of(action, seq![reply]) == MoveModel::Ready(EventModel::Done(reply.ok))
}

/// Each action on a device calls the tool by the action's own name, with the
/// device's address, and has worked exactly if the tool says so.
pub proof fn actions_are_called_by_name(mac: Seq<char>)
    ensures
        is_call(ActionModel::Connect(mac), "connect"@, mac),
        is_call(ActionModel::Disconnect(mac), "disconnect"@, mac),
        is_call(ActionModel::Pair(mac), "pair"@, mac),
        is_call(ActionModel::Trust(mac), "trust"@, mac),
        is_call(ActionModel::Untrust(mac), "untrust"@, mac),
        is_call(ActionModel::Remove(mac), "remove"@, mac),
        move_of(ActionModel::Info(mac), Seq::empty()) == MoveModel::Ctl(seq!["info"@, mac]),
        move_of(ActionModel::InfoRaw(mac), Seq::empty()) == MoveModel::Ctl(seq!["info"@, mac]),
{
}

// ---------------------------------------------------------------------------
// Listing
// ---------------------------------------------------------------------------

/// A command that lists the devices ends with the list. Where listing fails it
/// is tried once more after a rest, and the list of that is shown; where that
/// fails too, the user is warned that the list may be stale.
pub proof fn commands_end_with_the_list(
    turn: TurnModel,
    devices: Seq<DeviceModel>,
    e: Seq<char>,
    again: Seq<char>,
    audio: bool,
)
    requires
        turn.task is Listing,
    ensures
        ({
            let listed = next_turn(turn.task, EventModel::Listed(Ok(devices)), audio);
            let rest = next_turn(turn.task, EventModel::Listed(Err(e)), audio);
            let retry = next_turn(rest.task, EventModel::Rested, audio);
            let relisted = next_turn(retry.task, EventModel::Listed(Ok(devices)), audio);
            let stale = next_turn(retry.task, EventModel::Listed(Err(again)), audio);
            &&& listed.say == seq![MsgModel::Devices(devices), MsgModel::OpDone]
            &&& listed.action is Finish
            &&& silent(rest)
            &&& rest.action == ActionModel::Pause(300)
            &&& silent(retry)
            &&& retry.action is ListPaired
            &&& relisted.say == listed.say
            &&& relisted.action == listed.action
            &&& stale.say == seq![
                MsgModel::Status("Device list may be stale: "@ + again, Tone::Warn),
                MsgModel::OpDone,
            ]
            &&& stale.action == listed.action
        }),
{
}

/// A refresh switches the adapter on and lists the devices, and tells of a
/// failure to switch it on; an unattended one only lists them.
pub proof fn refreshing_lists_the_devices(e: Seq<char>, audio: bool)
    ensures
        ({
            let t = first_turn(CmdModel::Refresh, audio)->0;
            let up = next_turn(t.task, EventModel::Powered(Ok(())), audio);
            let down = next_turn(t.task, EventModel::Powered(Err(e)), audio);
            let auto = first_turn(CmdModel::AutoRefresh, audio)->0;
            &&& first_turn(CmdModel::Refresh, audio) is Some
            &&& silent(t)
            &&& t.action is AdapterUp
            &&& silent(up)
            &&& up.action is ListPaired
            &&& up.task is Listing
            &&& ends_with(down, e, Tone::Failure)
            &&& down.task is Listing
            &&& first_turn(CmdModel::AutoRefresh, audio) is Some
            &&& silent(auto)
            &&& auto.action is ListPaired
            &&& auto.task is Listing
        }),
{
}

// ---------------------------------------------------------------------------
// Connecting
// ---------------------------------------------------------------------------

/// Toggling a connection asks for the device's state first, once the adapter is
/// up. A connected device is disconnected and any other is connected, and the
/// user is told which and what came of it. Where the adapter or the state cannot
/// be had, nothing is done but to tell why.
pub proof fn toggling_a_connection(
    mac: Seq<char>,
    name: Seq<char>,
    info: Info,
    e: Seq<char>,
    audio: bool,
)
    ensures
        ({
            let t = first_turn(CmdModel::ToggleConnect { mac, name }, audio)->0;
            let down = next_turn(t.task, EventModel::Powered(Err(e)), audio);
            let ask = next_turn(t.task, EventModel::Powered(Ok(())), audio);
            let unread = next_turn(ask.task, EventModel::State(Err(e)), audio);
            let act = next_turn(ask.task, EventModel::State(Ok(info)), audio);
            let done = next_turn(act.task, EventModel::Done(true), audio);
            let failed = next_turn(act.task, EventModel::Done(false), audio);
            &&& first_turn(CmdModel::ToggleConnect { mac, name }, audio) is Some
            &&& t.action is AdapterUp
            &&& ends_with(down, e, Tone::Failure)
            &&& ask.action == ActionModel::Info(mac)
            &&& ends_with(unread, "Cannot read state of "@ + name + ": "@ + e, Tone::Failure)
            &&& info.connected ==> {
                &&& act.action == ActionModel::Disconnect(mac)
                &&& act.say == seq![MsgModel::Progress("Disconnecting "@ + name + "…"@)]
                &&& ends_with(done, "Disconnected "@ + name, Tone::Success)
                &&& ends_with(failed, "Failed to disconnect "@ + name, Tone::Failure)
            }
            &&& !info.connected ==> {
                &&& act.action == ActionModel::Connect(mac)
                &&& act.say == seq![MsgModel::Progress("Connecting "@ + name + "…"@)]
                &&& ends_with(
                    failed,
                    "Connect failed (is the device on / out of the case?)"@,
                    Tone::Failure,
                )
                &&& info.audio is NoAudio ==> ends_with(done, "Connected "@ + name, Tone::Success)
            }
        }),
{
}

/// What follows the connection of an audio device: where there is no tool to
/// route with, the user is told; else its sound is routed to it, and the user is
/// told that it was or why it was not. For LE Audio the kernel is asked first.
/// Last comes the word that the device is connected.
pub open spec fn routes(
    turn: TurnModel,
    mac: Seq<char>,
    kind: AudioKind,
    done: Seq<char>,
    audio: bool,
    iso: bool,
    has_card: bool,
) -> bool {
    let probe = next_turn(turn.task, EventModel::Iso(true), audio);
    let refused = next_turn(turn.task, EventModel::Iso(false), audio);
    let go = if kind is LeAudioOnly {
        probe
    } else {
        turn
    };
    let routed = next_turn(go.task, EventModel::Routed(true), audio);
    let lost = next_turn(go.task, EventModel::Routed(false), audio);
    let told = next_turn(lost.task, EventModel::Facts { iso, has_card }, audio);
    &&& !audio ==> ends_with_both(
        turn,
        "Connected, but audio cannot be routed ('pactl' not found)"@,
        Tone::Warn,
        done,
        Tone::Success,
    )
    &&& audio && kind is LeAudioOnly ==> {
        &&& turn.action is ProbeIso
        &&& ends_with_both(
            refused,
            failure_hint(AudioKind::LeAudioOnly, false, false),
            Tone::Warn,
            done,
            Tone::Success,
        )
    }
    &&& audio ==> {
        &&& silent(turn)
        &&& go.action == ActionModel::Route(mac)
        &&& ends_with_both(routed, "Audio routed"@, Tone::Success, done, Tone::Success)
        &&& silent(lost)
        &&& lost.action == ActionModel::RoutingFacts(mac)
        &&& ends_with_both(told, failure_hint(kind, iso, has_card), Tone::Warn, done, Tone::Success)
    }
}

/// A device that was just connected gets its sound, if it plays any.
pub proof fn connected_devices_get_their_sound(
    mac: Seq<char>,
    name: Seq<char>,
    info: Info,
    audio: bool,
    iso: bool,
    has_card: bool,
)
    requires
        !info.connected,
        info.audio is Classic || info.audio is LeAudioOnly,
    ensures
        ({
            let t = first_turn(CmdModel::ToggleConnect { mac, name }, audio)->0;
            let ask = next_turn(t.task, EventModel::Powered(Ok(())), audio);
            let act = next_turn(ask.task, EventModel::State(Ok(info)), audio);
            let done = next_turn(act.task, EventModel::Done(true), audio);
            routes(done, mac, info.audio, "Connected "@ + name, audio, iso, has_card)
        }),
{
}

// ---------------------------------------------------------------------------
// Trust, removal, profiles, details
// ---------------------------------------------------------------------------

/// Toggling trust asks for the device's state first: a trusted device loses it
/// and any other gains it, and the user is told which and what came of it. Where
/// the state cannot be read, nothing is done but to tell why.
pub proof fn toggling_trust(mac: Seq<char>, info: Info, e: Seq<char>, audio: bool)
    ensures
        ({
            let t = first_turn(CmdModel::ToggleTrust { mac }, audio)->0;
            let unread = next_turn(t.task, EventModel::State(Err(e)), audio);
            let act = next_turn(t.task, EventModel::State(Ok(info)), audio);
            let done = next_turn(act.task, EventModel::Done(true), audio);
            let failed = next_turn(act.task, EventModel::Done(false), audio);
            &&& first_turn(CmdModel::ToggleTrust { mac }, audio) is Some
            &&& t.action == ActionModel::Info(mac)
            &&& ends_with(unread, "Cannot read state of "@ + mac + ": "@ + e, Tone::Failure)
            &&& info.trusted ==> {
                &&& act.action == ActionModel::Untrust(mac)
                &&& ends_with(done, "Untrusted "@ + mac, Tone::Success)
                &&& ends_with(failed, "Failed to untrust "@ + mac, Tone::Failure)
            }
            &&& !info.trusted ==> {
                &&& act.action == ActionModel::Trust(mac)
                &&& ends_with(done, "Trusted "@ + mac, Tone::Success)
                &&& ends_with(failed, "Failed to trust "@ + mac, Tone::Failure)
            }
        }),
{
}

/// Removing removes that device, and tells what came of it.
pub proof fn removing_a_device(mac: Seq<char>, audio: bool)
    ensures
        ({
            let t = first_turn(CmdModel::Remove { mac }, audio)->0;
            &&& first_turn(CmdModel::Remove { mac }, audio) is Some
            &&& t.action == ActionModel::Remove(mac)
            &&& ends_with(
                next_turn(t.task, EventModel::Done(true), audio),
                "Removed"@,
                Tone::Success,
            )
            &&& ends_with(
                next_turn(t.task, EventModel::Done(false), audio),
                "Failed to remove "@ + mac,
                Tone::Failure,
            )
        }),
{
}

/// Switching a profile switches that device's, where there is a tool for it, and
/// tells the kind of the profile that took effect, or why none did.
pub proof fn switching_a_profile(
    mac: Seq<char>,
    name: Seq<char>,
    profile: Seq<char>,
    e: Seq<char>,
)
    ensures
        ({
            let t = first_turn(CmdModel::ToggleProfile { mac, name }, true)->0;
            let none = first_turn(CmdModel::ToggleProfile { mac, name }, false)->0;
            let done = next_turn(t.task, EventModel::Switched(Ok(profile)), true);
            let failed = next_turn(t.task, EventModel::Switched(Err(e)), true);
            &&& first_turn(CmdModel::ToggleProfile { mac, name }, true) is Some
            &&& first_turn(CmdModel::ToggleProfile { mac, name }, false) is Some
            &&& ends_with(
                none,
                "pactl not available — cannot switch profiles"@,
                Tone::Failure,
            )
            &&& t.say == seq![MsgModel::Progress("Switching audio profile of "@ + name + "…"@)]
            &&& t.action == ActionModel::SwitchProfile(mac)
            &&& ends_with(
                done,
                name + ": switched to "@ + crate::audio::label_of_profile(profile),
                Tone::Success,
            )
            &&& ends_with(failed, "Profile switch failed: "@ + e, Tone::Failure)
        }),
{
}

/// Details are what the tool prints of the device, under the device's name; the
/// diagnosis is shown in the same place.
pub proof fn showing_details(
    mac: Seq<char>,
    name: Seq<char>,
    device: Option<(Seq<char>, Seq<char>)>,
    text: Seq<char>,
    e: Seq<char>,
    audio: bool,
)
    ensures
        ({
            let t = first_turn(CmdModel::Details { mac, name }, audio)->0;
            let shown = next_turn(t.task, EventModel::Text(Ok(text)), audio);
            let failed = next_turn(t.task, EventModel::Text(Err(e)), audio);
            let d = first_turn(CmdModel::Doctor { device }, audio)->0;
            let report = next_turn(d.task, EventModel::Reported(text), audio);
            &&& first_turn(CmdModel::Details { mac, name }, audio) is Some
            &&& first_turn(CmdModel::Doctor { device }, audio) is Some
            &&& t.action == ActionModel::InfoRaw(mac)
            &&& shown.say == seq![MsgModel::Details { name, text }]
            &&& shown.action is ListPaired
            &&& ends_with(failed, "Cannot read info of "@ + name + ": "@ + e, Tone::Failure)
            &&& d.say == seq![MsgModel::Progress("Running diagnostics…"@)]
            &&& d.action == ActionModel::Report(device)
            &&& report.say == seq![MsgModel::Details { name: "Audio diagnostics"@, text }]
            &&& report.action is ListPaired
        }),
{
}

// ---------------------------------------------------------------------------
// Scanning
// ---------------------------------------------------------------------------

/// A scan opens the picker once the adapter is up, shows what is in sight already
/// once the kinds of the addresses are known, then scans for ten seconds.
pub proof fn opening_a_scan(
    e: Seq<char>,
    items: Seq<DiscoveredModel>,
    seen: Seq<DiscoveredModel>,
    audio: bool,
    k: int,
)
    ensures
        ({
            let t = first_turn(CmdModel::Scan, audio)->0;
            let down = next_turn(t.task, EventModel::Powered(Err(e)), audio);
            let open = next_turn(t.task, EventModel::Powered(Ok(())), audio);
            let look = next_turn(open.task, EventModel::Sent(true), audio);
            let gone = next_turn(open.task, EventModel::Sent(false), audio);
            let kinds = next_turn(look.task, EventModel::Discovered(Ok(items)), audio);
            let none = next_turn(look.task, EventModel::Discovered(Err(e)), audio);
            let scan = next_turn(kinds.task, EventModel::Classified(seen), audio);
            &&& first_turn(CmdModel::Scan, audio) is Some
            &&& t.action is AdapterUp
            &&& ends_with(down, e, Tone::Failure)
            &&& open.action == ActionModel::Send(MsgModel::ScanStarted)
            &&& look.action is Discover
            &&& look.say == seq![
                MsgModel::Progress("Scanning ~10s — put the device in pairing mode…"@),
            ]
            &&& gone.action is ListPaired
            &&& kinds.action == ActionModel::FillKinds(items)
            &&& none.action == ActionModel::FillKinds(Seq::empty())
            &&& scan.action == ActionModel::ScanLive(10)
            &&& scan.task == (TaskModel::Scanning { seen })
            &&& scan.say.len() == seen.len()
            &&& 0 <= k < seen.len() ==> scan.say[k] == MsgModel::Found(seen[k])
        }),
{
}

/// While a scan runs, a device seen before takes on its new name and keeps the
/// kind of its address; a new one is shown once the kind of its address is known.
/// Either way the scan goes on.
pub proof fn scanning_shows_what_is_found(
    seen: Seq<DiscoveredModel>,
    d: DiscoveredModel,
    kind: crate::bt::AddrKind,
    i: int,
    audio: bool,
)
    requires
        0 <= i <= seen.len(),
        forall|j: int| 0 <= j < i ==> (#[trigger] seen[j]).mac != d.mac,
        i < seen.len() ==> seen[i].mac == d.mac,
    ensures
        ({
            let t = next_turn(TaskModel::Scanning { seen }, EventModel::Announced(d), audio);
            let known = DiscoveredModel { addr: kind, ..d };
            let shown = next_turn(t.task, EventModel::Classified(seq![known]), audio);
            &&& i < seen.len() ==> {
                &&& t.say == seq![MsgModel::Found(DiscoveredModel { addr: seen[i].addr, ..d })]
                &&& t.action is NextFind
                &&& t.task == (TaskModel::Scanning {
                    seen: seen.update(i, DiscoveredModel { name: d.name, ..seen[i] }),
                })
            }
            &&& i == seen.len() ==> {
                &&& silent(t)
                &&& t.action == ActionModel::FillKinds(seq![d])
                &&& shown.say == seq![MsgModel::Found(known)]
                &&& shown.action is NextFind
                &&& shown.task == (TaskModel::Scanning { seen: seen.push(known) })
            }
        }),
{
    crate::bt::reading::addresses_are_found_first(seen, d.mac);
    if i < seen.len() {
        let k = crate::bt::mac_index(seen, d.mac)->0;
        if k < i {
            assert(seen[k].mac != d.mac);
        }
    } else {
        let known = DiscoveredModel { addr: kind, ..d };
        let t = next_turn(TaskModel::Scanning { seen }, EventModel::Announced(d), audio);
        let shown = next_turn(t.task, EventModel::Classified(seq![known]), audio);
        assert(shown.say =~= seq![MsgModel::Found(known)]);
        assert(seen + seq![known] =~= seen.push(known));
    }
}

/// A scan ends with the list of what is in sight, its kinds known, or with what
/// was seen where that cannot be listed. The user is told where nothing new was
/// found, and where listing failed.
pub proof fn closing_a_scan(
    seen: Seq<DiscoveredModel>,
    found: Seq<DiscoveredModel>,
    last: Seq<DiscoveredModel>,
    e: Seq<char>,
    audio: bool,
)
    ensures
        ({
            let t = next_turn(TaskModel::Scanning { seen }, EventModel::ScanEnded, audio);
            let kinds = next_turn(t.task, EventModel::Discovered(Ok(found)), audio);
            let failed = next_turn(t.task, EventModel::Discovered(Err(e)), audio);
            let shown = next_turn(kinds.task, EventModel::Classified(last), audio);
            let listed = next_turn(shown.task, EventModel::Sent(true), audio);
            let lost = next_turn(shown.task, EventModel::Sent(false), audio);
            &&& silent(t)
            &&& t.action is Discover
            &&& found.len() > 0 ==> silent(kinds)
            &&& found.len() == 0 ==> kinds.say == seq![
                MsgModel::Status("Nothing new found"@, Tone::Info),
            ]
            &&& kinds.action == ActionModel::FillKinds(found)
            &&& shown.action == ActionModel::Send(MsgModel::ScanResults(last))
            &&& failed.say == seq![
                MsgModel::Status("Scan listing failed: "@ + e, Tone::Failure),
            ]
            &&& failed.action == ActionModel::Send(MsgModel::ScanResults(seen))
            &&& silent(listed)
            &&& listed.action is ListPaired
            &&& listed.task == (TaskModel::Listing { ok: true })
            &&& silent(lost)
            &&& lost.action is ListPaired
            &&& lost.task == (TaskModel::Listing { ok: false })
        }),
{
}

// ---------------------------------------------------------------------------
// Pairing
// ---------------------------------------------------------------------------

/// Pairing ranks the addresses once the adapter is up, and tries the best one.
pub proof fn pairing_tries_the_best_first(
    candidates: Seq<Seq<char>>,
    name: Seq<char>,
    others: Seq<DiscoveredModel>,
    ranked: Seq<Seq<char>>,
    e: Seq<char>,
    audio: bool,
)
    requires
        ranked.len() > 0,
    ensures
        ({
            let t = first_turn(CmdModel::PairConnect { candidates, name, others }, audio)->0;
            let down = next_turn(t.task, EventModel::Powered(Err(e)), audio);
            let rank = next_turn(t.task, EventModel::Powered(Ok(())), audio);
            let go = next_turn(rank.task, EventModel::Ranked(ranked), audio);
            &&& first_turn(CmdModel::PairConnect { candidates, name, others }, audio) is Some
            &&& t.action is AdapterUp
            &&& ends_with(down, e, Tone::Failure)
            &&& rank.say == seq![MsgModel::Progress("Pairing "@ + name + "…"@)]
            &&& rank.action == ActionModel::Rank(candidates)
            &&& go.action == ActionModel::PairInteractive(ranked[0])
            &&& ranked.len() == 1 ==> silent(go)
            &&& ranked.len() > 1 ==> go.say == seq![
                MsgModel::Progress(
                    "Pairing "@ + name + " — address "@ + decimal(1) + "/"@ + decimal(ranked.len())
                        + "…"@,
                ),
            ]
            &&& go.task matches TaskModel::Pairing(run) && run.name == name && run.others == others
                && run.ranked == ranked && run.at == 0 && !run.aborted
        }),
{
}

/// A prompt of a session is put to the user as it is, and the user's answer goes
/// back as it is. Only a decline, or a user who is gone, stops the pairing.
pub proof fn prompts_go_to_the_user_and_back(
    task: TaskModel,
    passkey: Seq<char>,
    pin: bool,
    answer: Seq<char>,
    other: CmdModel,
    audio: bool,
)
    requires
        task matches TaskModel::Pairing(run) && run.at < run.ranked.len(),
        !(other is PairReply),
    ensures
        ({
            let run = task->Pairing_0;
            let ev = if pin {
                PairEventModel::RequestPin
            } else {
                PairEventModel::ConfirmPasskey(passkey)
            };
            let ask = next_turn(task, EventModel::Prompt(ev), audio);
            let wait = next_turn(ask.task, EventModel::Sent(true), audio);
            let gone = next_turn(ask.task, EventModel::Sent(false), audio);
            let reply = next_turn(
                wait.task,
                EventModel::Received(Some(CmdModel::PairReply(answer))),
                audio,
            );
            let stray = next_turn(wait.task, EventModel::Received(Some(other)), audio);
            let hung = next_turn(wait.task, EventModel::Received(None), audio);
            &&& !pin ==> ask.action == ActionModel::Send(
                MsgModel::PairPrompt { pin: false, passkey },
            )
            &&& pin ==> ask.action == ActionModel::Send(
                MsgModel::PairPrompt { pin: true, passkey: Seq::empty() },
            )
            &&& wait.action is Receive
            &&& reply.action == ActionModel::Answer(Some(answer))
            &&& reply.task matches TaskModel::Pairing(next) && next.ranked == run.ranked && next.at
                == run.at && next.name == run.name && next.others == run.others && next.aborted == (
            run.aborted || answer.len() == 0 || answer == "no"@)
            &&& gone.action == ActionModel::Answer(None)
            &&& gone.task matches TaskModel::Pairing(next) && next.aborted
            &&& hung.action == ActionModel::Answer(None)
            &&& hung.task matches TaskModel::Pairing(next) && next.aborted
            &&& stray.action is Receive
            &&& stray.task == wait.task
        }),
{
}

/// A session that could not be opened falls back on the plain call, for the same
/// address.
pub proof fn pairing_falls_back(task: TaskModel, audio: bool)
    requires
        task matches TaskModel::Pairing(run) && run.at < run.ranked.len(),
    ensures
        ({
            let run = task->Pairing_0;
            let t = next_turn(task, EventModel::PairEnded(None), audio);
            &&& t.action == ActionModel::Pair(run.ranked[run.at as int])
            &&& next_turn(t.task, EventModel::Done(true), audio) == next_turn(
                task,
                EventModel::PairEnded(Some(true)),
                audio,
            )
            &&& next_turn(t.task, EventModel::Done(false), audio) == next_turn(
                task,
                EventModel::PairEnded(Some(false)),
                audio,
            )
        }),
{
}

/// A refused address leads to the next, unless the user declined or none is left.
/// Then the user is told that the pairing was cancelled or failed, and the picker
/// opens again with the list it had.
pub proof fn refusals_lead_on(task: TaskModel, audio: bool)
    requires
        task matches TaskModel::Pairing(run) && run.at < run.ranked.len(),
    ensures
        ({
            let run = task->Pairing_0;
            let t = next_turn(task, EventModel::PairEnded(Some(false)), audio);
            &&& !run.aborted && run.at + 1 < run.ranked.len() ==> {
                &&& t.action == ActionModel::PairInteractive(run.ranked[run.at + 1int])
                &&& t.say.len() == 2
                &&& t.say[0] == MsgModel::Progress(
                    run.name + ": address "@ + decimal(run.at + 1) + " refused, trying the next…"@,
                )
                &&& t.say[1] == MsgModel::Progress(
                    "Pairing "@ + run.name + " — address "@ + decimal(run.at + 2) + "/"@ + decimal(
                        run.ranked.len(),
                    ) + "…"@,
                )
            }
            &&& run.aborted ==> {
                &&& t.say == seq![
                    MsgModel::Status("Pairing cancelled: "@ + run.name, Tone::Info),
                ]
                &&& t.action == ActionModel::Send(MsgModel::ScanResults(run.others))
            }
            &&& !run.aborted && run.at + 1 == run.ranked.len() ==> {
                &&& t.say == seq![
                    MsgModel::Status(
                        "Pairing failed: "@ + run.name
                            + " — pick a device to retry, Esc to leave"@,
                        Tone::Failure,
                    ),
                ]
                &&& t.action == ActionModel::Send(MsgModel::ScanResults(run.others))
            }
        }),
{
}

/// A paired device is trusted, then connected, then asked what it plays, all by
/// the address that was paired, and gets its sound.
pub proof fn paired_devices_are_put_to_use(
    task: TaskModel,
    trusted: bool,
    info: Info,
    e: Seq<char>,
    audio: bool,
    iso: bool,
    has_card: bool,
)
    requires
        task matches TaskModel::Pairing(run) && run.at < run.ranked.len(),
    ensures
        ({
            let run = task->Pairing_0;
            let mac = run.ranked[run.at as int];
            let done = "Paired & connected "@ + run.name;
            let trust = next_turn(task, EventModel::PairEnded(Some(true)), audio);
            let link = next_turn(trust.task, EventModel::Done(trusted), audio);
            let ask = next_turn(link.task, EventModel::Done(true), audio);
            let failed = next_turn(link.task, EventModel::Done(false), audio);
            let known = next_turn(ask.task, EventModel::State(Ok(info)), audio);
            let unknown = next_turn(ask.task, EventModel::State(Err(e)), audio);
            &&& trust.action == ActionModel::Trust(mac)
            &&& link.say == seq![MsgModel::Progress("Connecting "@ + run.name + "…"@)]
            &&& link.action == ActionModel::Connect(mac)
            &&& ask.action == ActionModel::Info(mac)
            &&& ends_with(
                failed,
                "Paired "@ + run.name + ", but connect failed — press Enter on it to retry"@,
                Tone::Warn,
            )
            &&& ends_with(unknown, done, Tone::Success)
            &&& info.audio is NoAudio ==> ends_with(known, done, Tone::Success)
            &&& info.audio is Classic || info.audio is LeAudioOnly ==> routes(
                known,
                mac,
                info.audio,
                done,
                audio,
                iso,
                has_card,
            )
        }),
{
}

/// A reply with no prompt to answer starts nothing; every other command does.
pub proof fn stray_replies_start_nothing(cmd: CmdModel, audio: bool)
    ensures
        first_turn(cmd, audio) is None <==> cmd is PairReply,
{
}

/// Each of the longer actions is carried out by its own steps: what these call
/// for is called, of the Bluetooth tool or of the sound server, and what they come
/// to is the event, with nothing added. Actions on a session, on the scan and on
/// the host are carried out elsewhere.
pub proof fn longer_actions_take_their_own_steps(
    mac: Seq<char>,
    macs: Seq<Seq<char>>,
    items: Seq<DiscoveredModel>,
    replies: Seq<ReplyModel>,
)
    ensures
        match adapter_steps(replies) {
            StepModel::Run(args) => move_of(ActionModel::AdapterUp, replies) == MoveModel::Ctl(
                args,
            ),
            StepModel::Done(r) => move_of(ActionModel::AdapterUp, replies) == MoveModel::Ready(
                EventModel::Powered(r),
            ),
        },
        match discovered_steps(replies) {
            StepModel::Run(args) => move_of(ActionModel::Discover, replies) == MoveModel::Ctl(args),
            StepModel::Done(r) => move_of(ActionModel::Discover, replies) == MoveModel::Ready(
                EventModel::Discovered(r),
            ),
        },
        match addr_kind_steps(items, replies) {
            StepModel::Run(args) => move_of(ActionModel::FillKinds(items), replies)
                == MoveModel::Ctl(args),
            StepModel::Done(r) => move_of(ActionModel::FillKinds(items), replies)
                == MoveModel::Ready(EventModel::Classified(r)),
        },
        match rank_steps(macs, replies) {
            StepModel::Run(args) => move_of(ActionModel::Rank(macs), replies) == MoveModel::Ctl(
                args,
            ),
            StepModel::Done(r) => move_of(ActionModel::Rank(macs), replies) == MoveModel::Ready(
                EventModel::Ranked(r),
            ),
        },
        match paired_devices_steps(replies) {
            StepModel::Run(args) => move_of(ActionModel::ListPaired, replies) == MoveModel::Ctl(
                args,
            ),
            StepModel::Done(r) => move_of(ActionModel::ListPaired, replies) == MoveModel::Ready(
                EventModel::Listed(r),
            ),
        },
        match toggle_steps(mac, replies) {
            StepModel::Run(args) => move_of(ActionModel::SwitchProfile(mac), replies)
                == MoveModel::Pactl(args),
            StepModel::Done(r) => move_of(ActionModel::SwitchProfile(mac), replies)
                == MoveModel::Ready(EventModel::Switched(r)),
        },
        match route_steps(mac, replies) {
            RouteStepModel::Poll { note, wait, args } => move_of(ActionModel::Route(mac), replies)
                == (MoveModel::Poll { note, wait, args }),
            RouteStepModel::Run(args) => move_of(ActionModel::Route(mac), replies)
                == MoveModel::Pactl(args),
            RouteStepModel::Done(ok) => move_of(ActionModel::Route(mac), replies)
                == MoveModel::Ready(EventModel::Routed(ok)),
        },
{
}

} // verus!
