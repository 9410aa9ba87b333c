//! The turns of a task: what each answer leads to.

use vstd::prelude::*;

use crate::audio::{label_of_profile, profile_label};
use crate::bt::{find_mac, mac_index};
use crate::bt::{
    AudioKind, Device, DeviceModel, Discovered, DiscoveredModel, Info, PairEvent, PairEventModel,
};
use crate::diag::{failure_hint, routing_failure_hint};
use crate::shell::result_model;
use crate::text;

use super::task::{
    Action, ActionModel, Event, EventModel, PairRun, PairRunModel, Task, TaskModel, Turn, TurnModel,
};
use super::{Cmd, CmdModel, Msg, MsgModel, Tone};

verus! {

// ---------------------------------------------------------------------------
// Parts of turns
// ---------------------------------------------------------------------------

/// The command has been carried out; every command is followed by a fresh list
/// of the paired devices. `ok` is false where no one listens any more.
pub open spec fn relist(say: Seq<MsgModel>, ok: bool) -> TurnModel {
    TurnModel { task: TaskModel::Listing { ok }, say, action: ActionModel::ListPaired }
}

/// Nothing is left to do but report this.
pub open spec fn report_and_relist(s: Seq<char>, tone: Tone) -> TurnModel {
    relist(seq![MsgModel::Status(s, tone)], true)
}

fn relist_turn(say: Vec<Msg>, ok: bool) -> (r: Turn)
    ensures
        r@ == relist(say.deep_view(), ok),
{
    Turn { task: Task::Listing { ok }, say, action: Action::ListPaired }
}

fn say0() -> (r: Vec<Msg>)
    ensures
        r.deep_view() == Seq::<MsgModel>::empty(),
{
    let v: Vec<Msg> = Vec::new();
    assert(v.deep_view() =~= Seq::<MsgModel>::empty());
    v
}

fn push_msg(v: &mut Vec<Msg>, m: Msg)
    ensures
        final(v).deep_view() == old(v).deep_view().push(m@),
{
    let ghost before = v.deep_view();
    let ghost mm = m@;
    v.push(m);
    assert(v.deep_view() =~= before.push(mm));
}

fn say1(a: Msg) -> (r: Vec<Msg>)
    ensures
        r.deep_view() == seq![a@],
{
    let ghost am = a@;
    let mut v = say0();
    push_msg(&mut v, a);
    assert(v.deep_view() =~= seq![am]);
    v
}

fn say2(a: Msg, b: Msg) -> (r: Vec<Msg>)
    ensures
        r.deep_view() == seq![a@, b@],
{
    let ghost am = a@;
    let ghost bm = b@;
    let mut v = say1(a);
    push_msg(&mut v, b);
    assert(v.deep_view() =~= seq![am, bm]);
    v
}

fn report_turn(s: String, tone: Tone) -> (r: Turn)
    ensures
        r@ == report_and_relist(s@, tone),
{
    relist_turn(say1(Msg::Status(s, tone)), true)
}

// ---------------------------------------------------------------------------
// Routing audio to a fresh connection
// ---------------------------------------------------------------------------

/// The status line of a routing attempt, then the one that ends the connection.
pub open spec fn routed(s: Seq<char>, tone: Tone, done: Seq<char>) -> TurnModel {
    relist(seq![MsgModel::Status(s, tone), MsgModel::Status(done, Tone::Success)], true)
}

/// A device of that kind is connected. Only audio devices grow a sink: mice and
/// keyboards don't wait for one. An LE-Audio-only device cannot grow one on a
/// host whose kernel refuses ISO sockets, which is found out first. The outcome
/// is always reported, and a failure explained.
pub open spec fn route(
    mac: Seq<char>,
    kind: AudioKind,
    done: Seq<char>,
    audio_available: bool,
) -> TurnModel {
    if kind is NoAudio {
        report_and_relist(done, Tone::Success)
    } else if !audio_available {
        routed(
            "Connected, but audio cannot be routed ('pactl' not found)"@,
            Tone::Warn,
            done,
        )
    } else if kind is LeAudioOnly {
        TurnModel {
            task: TaskModel::RouteIso { mac, done },
            say: Seq::empty(),
            action: ActionModel::ProbeIso,
        }
    } else {
        TurnModel {
            task: TaskModel::Routing { mac, kind, done },
            say: Seq::empty(),
            action: ActionModel::Route(mac),
        }
    }
}

fn routed_turn(s: String, tone: Tone, done: String) -> (r: Turn)
    ensures
        r@ == routed(s@, tone, done@),
{
    relist_turn(say2(Msg::Status(s, tone), Msg::Status(done, Tone::Success)), true)
}

fn route_turn(mac: String, kind: AudioKind, done: String, audio_available: bool) -> (r: Turn)
    ensures
        r@ == route(mac@, kind, done@, audio_available),
{
    if !kind.routable() {
        return report_turn(done, Tone::Success);
    }
    if !audio_available {
        return routed_turn(
            String::from_str("Connected, but audio cannot be routed ('pactl' not found)"),
            Tone::Warn,
            done,
        );
    }
    if kind == AudioKind::LeAudioOnly {
        return Turn { task: Task::RouteIso { mac, done }, say: say0(), action: Action::ProbeIso };
    }
    let action = Action::Route(mac.clone());
    Turn { task: Task::Routing { mac, kind, done }, say: say0(), action }
}

// ---------------------------------------------------------------------------
// Scanning
// ---------------------------------------------------------------------------

/// Each device as one found mid-scan.
pub open spec fn finds(items: Seq<DiscoveredModel>) -> Seq<MsgModel> {
    items.map_values(|d: DiscoveredModel| MsgModel::Found(d))
}

/// The running scan announced a device. `seen` mirrors what the picker shows: a
/// known address is renamed there, and its kind is known; the kind of a new one
/// is looked up.
pub open spec fn announced(seen: Seq<DiscoveredModel>, d: DiscoveredModel) -> TurnModel {
    match mac_index(seen, d.mac) {
        Some(i) => TurnModel {
            task: TaskModel::Scanning {
                seen: seen.update(i, DiscoveredModel { name: d.name, ..seen[i] }),
            },
            say: seq![MsgModel::Found(DiscoveredModel { addr: seen[i].addr, ..d })],
            action: ActionModel::NextFind,
        },
        None => TurnModel {
            task: TaskModel::ScanNaming { seen },
            say: Seq::empty(),
            action: ActionModel::FillKinds(seq![d]),
        },
    }
}

/// The last turn of a scan or a failed pairing: hand over the list.
pub open spec fn close(say: Seq<MsgModel>, items: Seq<DiscoveredModel>) -> TurnModel {
    TurnModel {
        task: TaskModel::Closing,
        say,
        action: ActionModel::Send(MsgModel::ScanResults(items)),
    }
}

fn find_msgs(items: &Vec<Discovered>) -> (r: Vec<Msg>)
    ensures
        r.deep_view() == finds(items.deep_view()),
{
    let ghost want = finds(items.deep_view());
    let mut v = say0();
    let mut i: usize = 0;
    assert(v.deep_view() =~= want.take(0));
    while i < items.len()
        invariant
            i <= items@.len(),
            want == finds(items.deep_view()),
            v.deep_view() == want.take(i as int),
        decreases items@.len() - i,
    {
        push_msg(&mut v, Msg::Found(items[i].clone()));
        assert(want.take(i + 1) =~= want.take(i as int).push(want[i as int]));
        i += 1;
    }
    assert(want.take(i as int) =~= want);
    v
}

fn announced_turn(seen: Vec<Discovered>, d: Discovered) -> (r: Turn)
    ensures
        r@ == announced(seen.deep_view(), d@),
{
    match find_mac(&seen, d.mac.as_str()) {
        Some(i) => {
            let ghost before = seen.deep_view();
            let mut seen = seen;
            let mut known = seen[i].clone();
            let addr = known.addr;
            known.name = d.name.clone();
            let ghost km = known@;
            seen.set(i, known);
            assert(seen.deep_view() =~= before.update(i as int, km));
            let said = Discovered { mac: d.mac, name: d.name, addr };
            Turn {
                task: Task::Scanning { seen },
                say: say1(Msg::Found(said)),
                action: Action::NextFind,
            }
        },
        None => {
            let ghost dm = d@;
            let mut one: Vec<Discovered> = Vec::new();
            one.push(d);
            assert(one.deep_view() =~= seq![dm]);
            Turn { task: Task::ScanNaming { seen }, say: say0(), action: Action::FillKinds(one) }
        },
    }
}

fn extend(seen: Vec<Discovered>, items: &Vec<Discovered>) -> (r: Vec<Discovered>)
    ensures
        r.deep_view() == seen.deep_view() + items.deep_view(),
{
    let ghost start = seen.deep_view();
    let ghost all = items.deep_view();
    let mut seen = seen;
    let mut i: usize = 0;
    assert(start + all.take(0) =~= start);
    while i < items.len()
        invariant
            i <= items@.len(),
            all == items.deep_view(),
            seen.deep_view() == start + all.take(i as int),
        decreases items@.len() - i,
    {
        let ghost before = seen.deep_view();
        seen.push(items[i].clone());
        assert(seen.deep_view() =~= before.push(all[i as int]));
        assert(start + all.take(i + 1) =~= (start + all.take(i as int)).push(all[i as int]));
        i += 1;
    }
    assert(all.take(i as int) =~= all);
    seen
}

fn close_turn(say: Vec<Msg>, items: Vec<Discovered>) -> (r: Turn)
    ensures
        r@ == close(say.deep_view(), items.deep_view()),
{
    Turn { task: Task::Closing, say, action: Action::Send(Msg::ScanResults(items)) }
}

// ---------------------------------------------------------------------------
// Pairing
// ---------------------------------------------------------------------------

/// No address was paired. The picker reopens with the same list, so that the
/// user doesn't have to sit through another scan.
pub open spec fn give_up(run: PairRunModel) -> TurnModel {
    let status = if run.aborted {
        MsgModel::Status("Pairing cancelled: "@ + run.name, Tone::Info)
    } else {
        MsgModel::Status(
            "Pairing failed: "@ + run.name + " — pick a device to retry, Esc to leave"@,
            Tone::Failure,
        )
    };
    close(seq![status], run.others)
}

/// Try the address whose turn it is.
pub open spec fn attempt(run: PairRunModel) -> TurnModel {
    if run.at < run.ranked.len() {
        TurnModel {
            task: TaskModel::Pairing(run),
            say: if run.ranked.len() > 1 {
                seq![
                    MsgModel::Progress(
                        "Pairing "@ + run.name + " — address "@ + text::decimal(run.at + 1) + "/"@
                            + text::decimal(run.ranked.len()) + "…"@,
                    ),
                ]
            } else {
                Seq::empty()
            },
            action: ActionModel::PairInteractive(run.ranked[run.at as int]),
        }
    } else {
        give_up(run)
    }
}

/// The address being tried was paired, or was not. A device that advertises
/// several addresses usually only accepts pairing on one of them, so a refusal
/// is expected and the next is tried; but not where the user gave up.
pub open spec fn attempted(run: PairRunModel, ok: bool) -> TurnModel {
    if ok {
        let mac = run.ranked[run.at as int];
        TurnModel {
            task: TaskModel::Trusting { mac, name: run.name },
            say: Seq::empty(),
            action: ActionModel::Trust(mac),
        }
    } else if run.aborted || run.at + 1 >= run.ranked.len() {
        give_up(run)
    } else {
        let next = attempt(PairRunModel { at: run.at + 1, ..run });
        TurnModel {
            say: seq![
                MsgModel::Progress(
                    run.name + ": address "@ + text::decimal(run.at + 1)
                        + " refused, trying the next…"@,
                ),
            ] + next.say,
            ..next
        }
    }
}

/// The message that puts a prompt before the user.
pub open spec fn prompt_msg(ev: PairEventModel) -> MsgModel {
    match ev {
        PairEventModel::ConfirmPasskey(passkey) => MsgModel::PairPrompt { pin: false, passkey },
        PairEventModel::RequestPin => MsgModel::PairPrompt { pin: true, passkey: Seq::empty() },
    }
}

/// Esc sends "" for a PIN and "no" for a yes/no prompt; either means "stop",
/// not "this address said no".
pub open spec fn declines(answer: Seq<char>) -> bool {
    answer.len() == 0 || answer == "no"@
}

/// Hand the session an answer; `None` where none will ever come, which ends
/// the pairing as a decline does.
pub open spec fn answered(run: PairRunModel, answer: Option<Seq<char>>) -> TurnModel {
    let stop = match answer {
        Some(a) => declines(a),
        None => true,
    };
    TurnModel {
        task: TaskModel::Pairing(PairRunModel { aborted: run.aborted || stop, ..run }),
        say: Seq::empty(),
        action: ActionModel::Answer(answer),
    }
}

fn give_up_turn(run: PairRun) -> (r: Turn)
    ensures
        r@ == give_up(run@),
{
    let status = if run.aborted {
        Msg::Status(text::join2("Pairing cancelled: ", run.name.as_str()), Tone::Info)
    } else {
        Msg::Status(
            text::join3(
                "Pairing failed: ",
                run.name.as_str(),
                " — pick a device to retry, Esc to leave",
            ),
            Tone::Failure,
        )
    };
    close_turn(say1(status), run.others)
}

fn attempt_turn(run: PairRun) -> (r: Turn)
    ensures
        r@ == attempt(run@),
{
    let n: usize = run.ranked.len();
    if run.at >= n {
        return give_up_turn(run);
    }
    let say = if n > 1 {
        let mut s = text::join3("Pairing ", run.name.as_str(), " — address ");
        s.append(text::to_decimal(run.at as u128 + 1).as_str());
        s.append("/");
        s.append(text::to_decimal(n as u128).as_str());
        s.append("…");
        say1(Msg::Progress(s))
    } else {
        say0()
    };
    assert(run.ranked.deep_view()[run.at as int] == run.ranked@[run.at as int]@);
    let action = Action::PairInteractive(run.ranked[run.at].clone());
    Turn { task: Task::Pairing(run), say, action }
}

fn attempted_turn(run: PairRun, ok: bool) -> (r: Turn)
    requires
        run.at < run.ranked@.len(),
    ensures
        r@ == attempted(run@, ok),
{
    let n: usize = run.ranked.len();
    if ok {
        assert(run.ranked.deep_view()[run.at as int] == run.ranked@[run.at as int]@);
        let mac = run.ranked[run.at].clone();
        let action = Action::Trust(mac.clone());
        return Turn { task: Task::Trusting { mac, name: run.name }, say: say0(), action };
    }
    if run.aborted || run.at + 1 >= n {
        return give_up_turn(run);
    }
    let mut s = text::join2(run.name.as_str(), ": address ");
    s.append(text::to_decimal(run.at as u128 + 1).as_str());
    s.append(" refused, trying the next…");
    let say = say1(Msg::Progress(s));
    let mut run = run;
    run.at = run.at + 1;
    let next = attempt_turn(run);
    Turn { task: next.task, say: append_msgs(say, next.say), action: next.action }
}

fn append_msgs(a: Vec<Msg>, b: Vec<Msg>) -> (r: Vec<Msg>)
    ensures
        r.deep_view() == a.deep_view() + b.deep_view(),
{
    let ghost am = a.deep_view();
    let ghost bm = b.deep_view();
    let mut a = a;
    let mut b = b;
    a.append(&mut b);
    assert(a.deep_view() =~= am + bm);
    a
}

fn prompt_of(ev: PairEvent) -> (r: Msg)
    ensures
        r@ == prompt_msg(ev@),
{
    match ev {
        PairEvent::ConfirmPasskey(passkey) => Msg::PairPrompt { pin: false, passkey },
        PairEvent::RequestPin => Msg::PairPrompt { pin: true, passkey: String::new() },
    }
}

fn answered_turn(run: PairRun, answer: Option<String>) -> (r: Turn)
    ensures
        r@ == answered(run@, answer.deep_view()),
{
    let stop: bool = match &answer {
        Some(a) => a.as_str().is_empty() || text::same(a.as_str(), "no"),
        None => true,
    };
    let mut run = run;
    if stop {
        run.aborted = true;
    }
    Turn { task: Task::Pairing(run), say: say0(), action: Action::Answer(answer) }
}

// ---------------------------------------------------------------------------
// Turns
// ---------------------------------------------------------------------------

/// The first turn of a command; none for a stray answer to a prompt, which must
/// not come to an `OpDone` (the user interface does not count it).
pub open spec fn first_turn(cmd: CmdModel, audio_available: bool) -> Option<TurnModel> {
    match cmd {
        CmdModel::PairReply(_) => None,
        CmdModel::Refresh
        | CmdModel::ToggleConnect { .. }
        | CmdModel::Scan
        | CmdModel::PairConnect { .. } => Some(
            TurnModel {
                task: TaskModel::Powering(cmd),
                say: Seq::empty(),
                action: ActionModel::AdapterUp,
            },
        ),
        CmdModel::AutoRefresh => Some(relist(Seq::empty(), true)),
        CmdModel::ToggleTrust { mac } => Some(
            TurnModel {
                task: TaskModel::TrustState { mac },
                say: Seq::empty(),
                action: ActionModel::Info(mac),
            },
        ),
        CmdModel::Remove { mac } => Some(
            TurnModel {
                task: TaskModel::Removing { mac },
                say: Seq::empty(),
                action: ActionModel::Remove(mac),
            },
        ),
        CmdModel::ToggleProfile { mac, name } => if !audio_available {
            Some(
                report_and_relist(
                    "pactl not available — cannot switch profiles"@,
                    Tone::Failure,
                ),
            )
        } else {
            Some(
                TurnModel {
                    task: TaskModel::Switching { name },
                    say: seq![
                        MsgModel::Progress("Switching audio profile of "@ + name + "…"@),
                    ],
                    action: ActionModel::SwitchProfile(mac),
                },
            )
        },
        CmdModel::Details { mac, name } => Some(
            TurnModel {
                task: TaskModel::Reading { name },
                say: Seq::empty(),
                action: ActionModel::InfoRaw(mac),
            },
        ),
        CmdModel::Doctor { device } => Some(
            TurnModel {
                task: TaskModel::Diagnosing,
                say: seq![MsgModel::Progress("Running diagnostics…"@)],
                action: ActionModel::Report(device),
            },
        ),
    }
}

/// The adapter is on: what the command does first.
pub open spec fn powered(cmd: CmdModel) -> TurnModel {
    match cmd {
        CmdModel::ToggleConnect { mac, name } => TurnModel {
            task: TaskModel::ToggleState { mac, name },
            say: Seq::empty(),
            action: ActionModel::Info(mac),
        },
        CmdModel::Scan => TurnModel {
            task: TaskModel::ScanOpening,
            say: Seq::empty(),
            action: ActionModel::Send(MsgModel::ScanStarted),
        },
        CmdModel::PairConnect { candidates, name, others } => TurnModel {
            task: TaskModel::Ranking { name, others },
            say: seq![MsgModel::Progress("Pairing "@ + name + "…"@)],
            action: ActionModel::Rank(candidates),
        },
        _ => relist(Seq::empty(), true),
    }
}

/// The live state is known: a connected device is disconnected, another one
/// connected.
pub open spec fn toggled(mac: Seq<char>, name: Seq<char>, info: Info) -> TurnModel {
    if info.connected {
        TurnModel {
            task: TaskModel::Disconnecting { name },
            say: seq![MsgModel::Progress("Disconnecting "@ + name + "…"@)],
            action: ActionModel::Disconnect(mac),
        }
    } else {
        TurnModel {
            task: TaskModel::Connecting { mac, name, kind: info.audio },
            say: seq![MsgModel::Progress("Connecting "@ + name + "…"@)],
            action: ActionModel::Connect(mac),
        }
    }
}

/// The last turn: hand over the list, or say that it may be stale, and that the
/// operation is done.
pub open spec fn finish(
    listed: Result<Seq<DeviceModel>, Seq<char>>,
    ok: bool,
) -> TurnModel {
    let first = match listed {
        Ok(devices) => MsgModel::Devices(devices),
        Err(e) => MsgModel::Status("Device list may be stale: "@ + e, Tone::Warn),
    };
    TurnModel {
        task: TaskModel::Over,
        say: seq![first, MsgModel::OpDone],
        action: ActionModel::Finish(ok),
    }
}

/// The event is what the task waits for.
pub open spec fn answers(task: TaskModel, event: EventModel) -> bool {
    match task {
        TaskModel::Powering(_) => event is Powered,
        TaskModel::ToggleState { .. }
        | TaskModel::LinkState { .. }
        | TaskModel::TrustState { .. } => event is State,
        TaskModel::Disconnecting { .. }
        | TaskModel::Connecting { .. }
        | TaskModel::Trusting { .. }
        | TaskModel::LinkUp { .. }
        | TaskModel::SettingTrust { .. }
        | TaskModel::Removing { .. } => event is Done,
        TaskModel::RouteIso { .. } => event is Iso,
        TaskModel::Routing { .. } => event is Routed,
        TaskModel::RouteHint { .. } => event is Facts,
        TaskModel::ScanOpening | TaskModel::Closing => event is Sent,
        TaskModel::ScanSeeding | TaskModel::ScanListing { .. } => event is Discovered,
        TaskModel::ScanFilling
        | TaskModel::ScanNaming { .. }
        | TaskModel::ScanClassifying => event is Classified,
        TaskModel::Scanning { .. } => event is Announced || event is ScanEnded,
        TaskModel::Ranking { .. } => event is Ranked,
        TaskModel::Pairing(run) => run.at < run.ranked.len() && (event is Prompt
            || event is PairEnded),
        TaskModel::Prompting(run) => run.at < run.ranked.len() && event is Sent,
        TaskModel::Awaiting(run) => run.at < run.ranked.len() && event is Received,
        TaskModel::FallingBack(run) => run.at < run.ranked.len() && event is Done,
        TaskModel::Switching { .. } => event is Switched,
        TaskModel::Reading { .. } => event is Text,
        TaskModel::Diagnosing => event is Reported,
        TaskModel::Listing { .. } | TaskModel::Relisting { .. } => event is Listed,
        TaskModel::Resting { .. } => event is Rested,
        TaskModel::Over => false,
    }
}

/// The turn that an answer leads to.
pub open spec fn next_turn(task: TaskModel, event: EventModel, audio_available: bool) -> TurnModel {
    match (task, event) {
        (TaskModel::Powering(_), EventModel::Powered(Err(e))) => report_and_relist(
            e,
            Tone::Failure,
        ),
        (TaskModel::Powering(cmd), EventModel::Powered(Ok(_))) => powered(cmd),
        // An error must not be read as "disconnected", or the toggle would run
        // the opposite action.
        (TaskModel::ToggleState { name, .. }, EventModel::State(Err(e))) => report_and_relist(
            "Cannot read state of "@ + name + ": "@ + e,
            Tone::Failure,
        ),
        (TaskModel::ToggleState { mac, name }, EventModel::State(Ok(info))) => toggled(
            mac,
            name,
            info,
        ),
        (TaskModel::Disconnecting { name }, EventModel::Done(ok)) => if ok {
            report_and_relist("Disconnected "@ + name, Tone::Success)
        } else {
            report_and_relist("Failed to disconnect "@ + name, Tone::Failure)
        },
        (TaskModel::Connecting { mac, name, kind }, EventModel::Done(ok)) => if ok {
            route(mac, kind, "Connected "@ + name, audio_available)
        } else {
            report_and_relist(
                "Connect failed (is the device on / out of the case?)"@,
                Tone::Failure,
            )
        },
        (TaskModel::RouteIso { mac, done }, EventModel::Iso(iso)) => if iso {
            TurnModel {
                task: TaskModel::Routing { mac, kind: AudioKind::LeAudioOnly, done },
                say: Seq::empty(),
                action: ActionModel::Route(mac),
            }
        } else {
            routed(failure_hint(AudioKind::LeAudioOnly, false, false), Tone::Warn, done)
        },
        (TaskModel::Routing { mac, kind, done }, EventModel::Routed(ok)) => if ok {
            routed("Audio routed"@, Tone::Success, done)
        } else {
            TurnModel {
                task: TaskModel::RouteHint { kind, done },
                say: Seq::empty(),
                action: ActionModel::RoutingFacts(mac),
            }
        },
        (TaskModel::RouteHint { kind, done }, EventModel::Facts { iso, has_card }) => routed(
            failure_hint(kind, iso, has_card),
            Tone::Warn,
            done,
        ),
        (TaskModel::ScanOpening, EventModel::Sent(ok)) => if ok {
            TurnModel {
                task: TaskModel::ScanSeeding,
                say: seq![
                    MsgModel::Progress("Scanning ~10s — put the device in pairing mode…"@),
                ],
                action: ActionModel::Discover,
            }
        } else {
            relist(Seq::empty(), false)
        },
        (TaskModel::ScanSeeding, EventModel::Discovered(r)) => TurnModel {
            task: TaskModel::ScanFilling,
            say: Seq::empty(),
            action: ActionModel::FillKinds(
                match r {
                    Ok(items) => items,
                    Err(_) => Seq::empty(),
                },
            ),
        },
        (TaskModel::ScanFilling, EventModel::Classified(seen)) => TurnModel {
            task: TaskModel::Scanning { seen },
            say: finds(seen),
            action: ActionModel::ScanLive(10),
        },
        (TaskModel::Scanning { seen }, EventModel::Announced(d)) => announced(seen, d),
        (TaskModel::Scanning { seen }, EventModel::ScanEnded) => TurnModel {
            task: TaskModel::ScanListing { seen },
            say: Seq::empty(),
            action: ActionModel::Discover,
        },
        (TaskModel::ScanNaming { seen }, EventModel::Classified(items)) => TurnModel {
            task: TaskModel::Scanning { seen: seen + items },
            say: finds(items),
            action: ActionModel::NextFind,
        },
        (TaskModel::ScanListing { .. }, EventModel::Discovered(Ok(found))) => TurnModel {
            task: TaskModel::ScanClassifying,
            say: if found.len() == 0 {
                seq![MsgModel::Status("Nothing new found"@, Tone::Info)]
            } else {
                Seq::empty()
            },
            action: ActionModel::FillKinds(found),
        },
        (TaskModel::ScanListing { seen }, EventModel::Discovered(Err(e))) => close(
            seq![MsgModel::Status("Scan listing failed: "@ + e, Tone::Failure)],
            seen,
        ),
        (TaskModel::ScanClassifying, EventModel::Classified(found)) => close(Seq::empty(), found),
        (TaskModel::Closing, EventModel::Sent(ok)) => relist(Seq::empty(), ok),
        (TaskModel::Ranking { name, others }, EventModel::Ranked(ranked)) => attempt(
            PairRunModel { name, others, ranked, at: 0, aborted: false },
        ),
        (TaskModel::Pairing(run), EventModel::Prompt(ev)) => TurnModel {
            task: TaskModel::Prompting(run),
            say: Seq::empty(),
            action: ActionModel::Send(prompt_msg(ev)),
        },
        (TaskModel::Pairing(run), EventModel::PairEnded(Some(ok))) => attempted(run, ok),
        (TaskModel::Pairing(run), EventModel::PairEnded(None)) => TurnModel {
            task: TaskModel::FallingBack(run),
            say: Seq::empty(),
            action: ActionModel::Pair(run.ranked[run.at as int]),
        },
        (TaskModel::Prompting(run), EventModel::Sent(ok)) => if ok {
            TurnModel {
                task: TaskModel::Awaiting(run),
                say: Seq::empty(),
                action: ActionModel::Receive,
            }
        } else {
            answered(run, None)
        },
        (TaskModel::Awaiting(run), EventModel::Received(Some(CmdModel::PairReply(a)))) => answered(
            run,
            Some(a),
        ),
        (TaskModel::Awaiting(run), EventModel::Received(None)) => answered(run, None),
        // Anything else is held back while an operation runs; it is dropped.
        (TaskModel::Awaiting(run), EventModel::Received(Some(_))) => TurnModel {
            task: TaskModel::Awaiting(run),
            say: Seq::empty(),
            action: ActionModel::Receive,
        },
        (TaskModel::FallingBack(run), EventModel::Done(ok)) => attempted(run, ok),
        (TaskModel::Trusting { mac, name }, EventModel::Done(_)) => TurnModel {
            task: TaskModel::LinkUp { mac, name },
            say: seq![MsgModel::Progress("Connecting "@ + name + "…"@)],
            action: ActionModel::Connect(mac),
        },
        (TaskModel::LinkUp { mac, name }, EventModel::Done(ok)) => if ok {
            TurnModel {
                task: TaskModel::LinkState { mac, name },
                say: Seq::empty(),
                action: ActionModel::Info(mac),
            }
        } else {
            report_and_relist(
                "Paired "@ + name + ", but connect failed — press Enter on it to retry"@,
                Tone::Warn,
            )
        },
        (TaskModel::LinkState { mac, name }, EventModel::State(r)) => route(
            mac,
            match r {
                Ok(info) => info.audio,
                Err(_) => AudioKind::NoAudio,
            },
            "Paired & connected "@ + name,
            audio_available,
        ),
        (TaskModel::TrustState { mac }, EventModel::State(Err(e))) => report_and_relist(
            "Cannot read state of "@ + mac + ": "@ + e,
            Tone::Failure,
        ),
        (TaskModel::TrustState { mac }, EventModel::State(Ok(info))) => TurnModel {
            task: TaskModel::SettingTrust { mac, trusted: !info.trusted },
            say: Seq::empty(),
            action: if info.trusted {
                ActionModel::Untrust(mac)
            } else {
                ActionModel::Trust(mac)
            },
        },
        (TaskModel::SettingTrust { mac, trusted }, EventModel::Done(ok)) => match (trusted, ok) {
            (false, true) => report_and_relist("Untrusted "@ + mac, Tone::Success),
            (false, false) => report_and_relist("Failed to untrust "@ + mac, Tone::Failure),
            (true, true) => report_and_relist("Trusted "@ + mac, Tone::Success),
            (true, false) => report_and_relist("Failed to trust "@ + mac, Tone::Failure),
        },
        (TaskModel::Removing { mac }, EventModel::Done(ok)) => if ok {
            report_and_relist("Removed"@, Tone::Success)
        } else {
            report_and_relist("Failed to remove "@ + mac, Tone::Failure)
        },
        (TaskModel::Switching { name }, EventModel::Switched(Ok(profile))) => report_and_relist(
            name + ": switched to "@ + label_of_profile(profile),
            Tone::Success,
        ),
        (TaskModel::Switching { .. }, EventModel::Switched(Err(e))) => report_and_relist(
            "Profile switch failed: "@ + e,
            Tone::Failure,
        ),
        (TaskModel::Reading { name }, EventModel::Text(Ok(text))) => relist(
            seq![MsgModel::Details { name, text }],
            true,
        ),
        (TaskModel::Reading { name }, EventModel::Text(Err(e))) => report_and_relist(
            "Cannot read info of "@ + name + ": "@ + e,
            Tone::Failure,
        ),
        (TaskModel::Diagnosing, EventModel::Reported(text)) => relist(
            seq![MsgModel::Details { name: "Audio diagnostics"@, text }],
            true,
        ),
        // One retry, so that a transient hiccup doesn't leave a stale list
        // behind a just-successful operation.
        (TaskModel::Listing { ok }, EventModel::Listed(Err(_))) => TurnModel {
            task: TaskModel::Resting { ok },
            say: Seq::empty(),
            action: ActionModel::Pause(300),
        },
        (TaskModel::Listing { ok }, EventModel::Listed(listed)) => finish(listed, ok),
        (TaskModel::Resting { ok }, EventModel::Rested) => TurnModel {
            task: TaskModel::Relisting { ok },
            say: Seq::empty(),
            action: ActionModel::ListPaired,
        },
        (TaskModel::Relisting { ok }, EventModel::Listed(listed)) => finish(listed, ok),
        _ => arbitrary(),
    }
}

/// Begin to carry out a command.
pub fn start(cmd: Cmd, audio_available: bool) -> (r: Option<Turn>)
    ensures
        r.deep_view() == first_turn(cmd@, audio_available),
{
    match cmd {
        Cmd::PairReply(_) => None,
        Cmd::Refresh => Some(power_turn(Cmd::Refresh)),
        Cmd::ToggleConnect { mac, name } => Some(power_turn(Cmd::ToggleConnect { mac, name })),
        Cmd::Scan => Some(power_turn(Cmd::Scan)),
        Cmd::PairConnect { candidates, name, others } => Some(
            power_turn(Cmd::PairConnect { candidates, name, others }),
        ),
        Cmd::AutoRefresh => Some(relist_turn(say0(), true)),
        Cmd::ToggleTrust { mac } => {
            let action = Action::Info(mac.clone());
            Some(Turn { task: Task::TrustState { mac }, say: say0(), action })
        },
        Cmd::Remove { mac } => {
            let action = Action::Remove(mac.clone());
            Some(Turn { task: Task::Removing { mac }, say: say0(), action })
        },
        Cmd::ToggleProfile { mac, name } => {
            if !audio_available {
                return Some(
                    report_turn(
                        String::from_str("pactl not available — cannot switch profiles"),
                        Tone::Failure,
                    ),
                );
            }
            let s = text::join3("Switching audio profile of ", name.as_str(), "…");
            Some(
                Turn {
                    task: Task::Switching { name },
                    say: say1(Msg::Progress(s)),
                    action: Action::SwitchProfile(mac),
                },
            )
        },
        Cmd::Details { mac, name } => Some(
            Turn { task: Task::Reading { name }, say: say0(), action: Action::InfoRaw(mac) },
        ),
        Cmd::Doctor { device } => Some(
            Turn {
                task: Task::Diagnosing,
                say: say1(Msg::Progress(String::from_str("Running diagnostics…"))),
                action: Action::Report(device),
            },
        ),
    }
}

fn power_turn(cmd: Cmd) -> (r: Turn)
    ensures
        r@ == (TurnModel {
            task: TaskModel::Powering(cmd@),
            say: Seq::empty(),
            action: ActionModel::AdapterUp,
        }),
{
    Turn { task: Task::Powering(cmd), say: say0(), action: Action::AdapterUp }
}

fn powered_turn(cmd: Cmd) -> (r: Turn)
    ensures
        r@ == powered(cmd@),
{
    match cmd {
        Cmd::ToggleConnect { mac, name } => {
            let action = Action::Info(mac.clone());
            Turn { task: Task::ToggleState { mac, name }, say: say0(), action }
        },
        Cmd::Scan => Turn {
            task: Task::ScanOpening,
            say: say0(),
            action: Action::Send(Msg::ScanStarted),
        },
        Cmd::PairConnect { candidates, name, others } => {
            let s = text::join3("Pairing ", name.as_str(), "…");
            Turn {
                task: Task::Ranking { name, others },
                say: say1(Msg::Progress(s)),
                action: Action::Rank(candidates),
            }
        },
        _ => relist_turn(say0(), true),
    }
}

fn toggled_turn(mac: String, name: String, info: Info) -> (r: Turn)
    ensures
        r@ == toggled(mac@, name@, info),
{
    if info.connected {
        let s = text::join3("Disconnecting ", name.as_str(), "…");
        Turn {
            task: Task::Disconnecting { name },
            say: say1(Msg::Progress(s)),
            action: Action::Disconnect(mac),
        }
    } else {
        let s = text::join3("Connecting ", name.as_str(), "…");
        let action = Action::Connect(mac.clone());
        Turn {
            task: Task::Connecting { mac, name, kind: info.audio },
            say: say1(Msg::Progress(s)),
            action,
        }
    }
}

fn finish_turn(listed: Result<Vec<Device>, String>, ok: bool) -> (r: Turn)
    ensures
        r@ == finish(result_model(listed), ok),
{
    let first = match listed {
        Ok(devices) => Msg::Devices(devices),
        Err(e) => Msg::Status(text::join2("Device list may be stale: ", e.as_str()), Tone::Warn),
    };
    Turn { task: Task::Over, say: say2(first, Msg::OpDone), action: Action::Finish(ok) }
}

fn cannot_read(what: &str, name: &str, e: &str) -> (r: String)
    ensures
        r@ == what@ + name@ + ": "@ + e@,
{
    let mut s = text::join3(what, name, ": ");
    s.append(e);
    s
}

/// Is the event what the task waits for?
pub fn expects(task: &Task, event: &Event) -> (r: bool)
    ensures
        r == answers(task@, event@),
{
    match task {
        Task::Powering(_) => matches!(event, Event::Powered(_)),
        Task::ToggleState { .. } | Task::LinkState { .. } | Task::TrustState { .. } => {
            matches!(event, Event::State(_))
        },
        Task::Disconnecting { .. }
        | Task::Connecting { .. }
        | Task::Trusting { .. }
        | Task::LinkUp { .. }
        | Task::SettingTrust { .. }
        | Task::Removing { .. } => matches!(event, Event::Done(_)),
        Task::RouteIso { .. } => matches!(event, Event::Iso(_)),
        Task::Routing { .. } => matches!(event, Event::Routed(_)),
        Task::RouteHint { .. } => matches!(event, Event::Facts { .. }),
        Task::ScanOpening | Task::Closing => matches!(event, Event::Sent(_)),
        Task::ScanSeeding | Task::ScanListing { .. } => matches!(event, Event::Discovered(_)),
        Task::ScanFilling | Task::ScanNaming { .. } | Task::ScanClassifying => {
            matches!(event, Event::Classified(_))
        },
        Task::Scanning { .. } => matches!(event, Event::Announced(_) | Event::ScanEnded),
        Task::Ranking { .. } => matches!(event, Event::Ranked(_)),
        Task::Pairing(run) => {
            run.at < run.ranked.len() && matches!(event, Event::Prompt(_) | Event::PairEnded(_))
        },
        Task::Prompting(run) => run.at < run.ranked.len() && matches!(event, Event::Sent(_)),
        Task::Awaiting(run) => run.at < run.ranked.len() && matches!(event, Event::Received(_)),
        Task::FallingBack(run) => run.at < run.ranked.len() && matches!(event, Event::Done(_)),
        Task::Switching { .. } => matches!(event, Event::Switched(_)),
        Task::Reading { .. } => matches!(event, Event::Text(_)),
        Task::Diagnosing => matches!(event, Event::Reported(_)),
        Task::Listing { .. } | Task::Relisting { .. } => matches!(event, Event::Listed(_)),
        Task::Resting { .. } => matches!(event, Event::Rested),
        Task::Over => false,
    }
}

/// Take a task on by the answer to its last action.
pub fn run(task: Task, event: Event, audio_available: bool) -> (r: Turn)
    requires
        answers(task@, event@),
    ensures
        r@ == next_turn(task@, event@, audio_available),
{
    match (task, event) {
        (Task::Powering(_), Event::Powered(Err(e))) => report_turn(e, Tone::Failure),
        (Task::Powering(cmd), Event::Powered(Ok(_))) => powered_turn(cmd),
        (Task::ToggleState { name, .. }, Event::State(Err(e))) => report_turn(
            cannot_read("Cannot read state of ", name.as_str(), e.as_str()),
            Tone::Failure,
        ),
        (Task::ToggleState { mac, name }, Event::State(Ok(info))) => toggled_turn(mac, name, info),
        (Task::Disconnecting { name }, Event::Done(ok)) => {
            if ok {
                report_turn(text::join2("Disconnected ", name.as_str()), Tone::Success)
            } else {
                report_turn(text::join2("Failed to disconnect ", name.as_str()), Tone::Failure)
            }
        },
        (Task::Connecting { mac, name, kind }, Event::Done(ok)) => {
            if ok {
                route_turn(mac, kind, text::join2("Connected ", name.as_str()), audio_available)
            } else {
                report_turn(
                    String::from_str("Connect failed (is the device on / out of the case?)"),
                    Tone::Failure,
                )
            }
        },
        (Task::RouteIso { mac, done }, Event::Iso(iso)) => {
            if iso {
                let action = Action::Route(mac.clone());
                Turn {
                    task: Task::Routing { mac, kind: AudioKind::LeAudioOnly, done },
                    say: say0(),
                    action,
                }
            } else {
                routed_turn(
                    routing_failure_hint(AudioKind::LeAudioOnly, false, false),
                    Tone::Warn,
                    done,
                )
            }
        },
        (Task::Routing { mac, kind, done }, Event::Routed(ok)) => {
            if ok {
                routed_turn(String::from_str("Audio routed"), Tone::Success, done)
            } else {
                Turn {
                    task: Task::RouteHint { kind, done },
                    say: say0(),
                    action: Action::RoutingFacts(mac),
                }
            }
        },
        (Task::RouteHint { kind, done }, Event::Facts { iso, has_card }) => routed_turn(
            routing_failure_hint(kind, iso, has_card),
            Tone::Warn,
            done,
        ),
        (Task::ScanOpening, Event::Sent(ok)) => {
            if ok {
                let s = String::from_str("Scanning ~10s — put the device in pairing mode…");
                Turn {
                    task: Task::ScanSeeding,
                    say: say1(Msg::Progress(s)),
                    action: Action::Discover,
                }
            } else {
                relist_turn(say0(), false)
            }
        },
        (Task::ScanSeeding, Event::Discovered(r)) => {
            let items: Vec<Discovered> = match r {
                Ok(items) => items,
                Err(_) => {
                    let none: Vec<Discovered> = Vec::new();
                    assert(none.deep_view() =~= Seq::<DiscoveredModel>::empty());
                    none
                },
            };
            Turn { task: Task::ScanFilling, say: say0(), action: Action::FillKinds(items) }
        },
        (Task::ScanFilling, Event::Classified(seen)) => {
            let say = find_msgs(&seen);
            Turn { task: Task::Scanning { seen }, say, action: Action::ScanLive(10) }
        },
        (Task::Scanning { seen }, Event::Announced(d)) => announced_turn(seen, d),
        (Task::Scanning { seen }, Event::ScanEnded) => Turn {
            task: Task::ScanListing { seen },
            say: say0(),
            action: Action::Discover,
        },
        (Task::ScanNaming { seen }, Event::Classified(items)) => {
            let say = find_msgs(&items);
            Turn {
                task: Task::Scanning { seen: extend(seen, &items) },
                say,
                action: Action::NextFind,
            }
        },
        (Task::ScanListing { .. }, Event::Discovered(Ok(found))) => {
            let say = if found.len() == 0 {
                say1(Msg::Status(String::from_str("Nothing new found"), Tone::Info))
            } else {
                say0()
            };
            Turn { task: Task::ScanClassifying, say, action: Action::FillKinds(found) }
        },
        (Task::ScanListing { seen }, Event::Discovered(Err(e))) => close_turn(
            say1(Msg::Status(text::join2("Scan listing failed: ", e.as_str()), Tone::Failure)),
            seen,
        ),
        (Task::ScanClassifying, Event::Classified(found)) => close_turn(say0(), found),
        (Task::Closing, Event::Sent(ok)) => relist_turn(say0(), ok),
        (Task::Ranking { name, others }, Event::Ranked(ranked)) => attempt_turn(
            PairRun { name, others, ranked, at: 0, aborted: false },
        ),
        (Task::Pairing(run), Event::Prompt(ev)) => Turn {
            task: Task::Prompting(run),
            say: say0(),
            action: Action::Send(prompt_of(ev)),
        },
        (Task::Pairing(run), Event::PairEnded(Some(ok))) => attempted_turn(run, ok),
        (Task::Pairing(run), Event::PairEnded(None)) => {
            assert(run.ranked.deep_view()[run.at as int] == run.ranked@[run.at as int]@);
            let action = Action::Pair(run.ranked[run.at].clone());
            Turn { task: Task::FallingBack(run), say: say0(), action }
        },
        (Task::Prompting(run), Event::Sent(ok)) => {
            if ok {
                Turn { task: Task::Awaiting(run), say: say0(), action: Action::Receive }
            } else {
                answered_turn(run, None)
            }
        },
        (Task::Awaiting(run), Event::Received(Some(Cmd::PairReply(a)))) => answered_turn(
            run,
            Some(a),
        ),
        (Task::Awaiting(run), Event::Received(None)) => answered_turn(run, None),
        (Task::Awaiting(run), Event::Received(Some(_))) => Turn {
            task: Task::Awaiting(run),
            say: say0(),
            action: Action::Receive,
        },
        (Task::FallingBack(run), Event::Done(ok)) => attempted_turn(run, ok),
        (Task::Trusting { mac, name }, Event::Done(_)) => {
            let s = text::join3("Connecting ", name.as_str(), "…");
            let action = Action::Connect(mac.clone());
            Turn { task: Task::LinkUp { mac, name }, say: say1(Msg::Progress(s)), action }
        },
        (Task::LinkUp { mac, name }, Event::Done(ok)) => {
            if ok {
                let action = Action::Info(mac.clone());
                Turn { task: Task::LinkState { mac, name }, say: say0(), action }
            } else {
                report_turn(
                    text::join3(
                        "Paired ",
                        name.as_str(),
                        ", but connect failed — press Enter on it to retry",
                    ),
                    Tone::Warn,
                )
            }
        },
        (Task::LinkState { mac, name }, Event::State(r)) => {
            let kind = match r {
                Ok(info) => info.audio,
                Err(_) => AudioKind::NoAudio,
            };
            let done = text::join2("Paired & connected ", name.as_str());
            route_turn(mac, kind, done, audio_available)
        },
        (Task::TrustState { mac }, Event::State(Err(e))) => report_turn(
            cannot_read("Cannot read state of ", mac.as_str(), e.as_str()),
            Tone::Failure,
        ),
        (Task::TrustState { mac }, Event::State(Ok(info))) => {
            let action = if info.trusted {
                Action::Untrust(mac.clone())
            } else {
                Action::Trust(mac.clone())
            };
            Turn { task: Task::SettingTrust { mac, trusted: !info.trusted }, say: say0(), action }
        },
        (Task::SettingTrust { mac, trusted }, Event::Done(ok)) => match (trusted, ok) {
            (false, true) => report_turn(text::join2("Untrusted ", mac.as_str()), Tone::Success),
            (false, false) => report_turn(
                text::join2("Failed to untrust ", mac.as_str()),
                Tone::Failure,
            ),
            (true, true) => report_turn(text::join2("Trusted ", mac.as_str()), Tone::Success),
            (true, false) => report_turn(
                text::join2("Failed to trust ", mac.as_str()),
                Tone::Failure,
            ),
        },
        (Task::Removing { mac }, Event::Done(ok)) => {
            if ok {
                report_turn(String::from_str("Removed"), Tone::Success)
            } else {
                report_turn(text::join2("Failed to remove ", mac.as_str()), Tone::Failure)
            }
        },
        (Task::Switching { name }, Event::Switched(Ok(profile))) => {
            let label = profile_label(profile.as_str());
            report_turn(
                text::join3(name.as_str(), ": switched to ", label.as_str()),
                Tone::Success,
            )
        },
        (Task::Switching { .. }, Event::Switched(Err(e))) => report_turn(
            text::join2("Profile switch failed: ", e.as_str()),
            Tone::Failure,
        ),
        (Task::Reading { name }, Event::Text(Ok(text))) => relist_turn(
            say1(Msg::Details { name, text }),
            true,
        ),
        (Task::Reading { name }, Event::Text(Err(e))) => report_turn(
            cannot_read("Cannot read info of ", name.as_str(), e.as_str()),
            Tone::Failure,
        ),
        (Task::Diagnosing, Event::Reported(text)) => relist_turn(
            say1(Msg::Details { name: String::from_str("Audio diagnostics"), text }),
            true,
        ),
        (Task::Listing { ok }, Event::Listed(Err(_))) => Turn {
            task: Task::Resting { ok },
            say: say0(),
            action: Action::Pause(300),
        },
        (Task::Listing { ok }, Event::Listed(Ok(devices))) => finish_turn(Ok(devices), ok),
        (Task::Resting { ok }, Event::Rested) => Turn {
            task: Task::Relisting { ok },
            say: say0(),
            action: Action::ListPaired,
        },
        (Task::Relisting { ok }, Event::Listed(listed)) => finish_turn(listed, ok),
        (task, _) => {
            assert(false);
            Turn { task, say: say0(), action: Action::Finish(false) }
        },
    }
}

} // verus!
