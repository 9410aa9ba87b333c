//! What holds of every command, whatever comes of its actions.

use vstd::prelude::*;

use crate::bt::{AudioKind, DeviceModel, DiscoveredModel, Info};
use crate::diag::failure_hint;

use super::task::{ActionModel, EventModel, PairRunModel, TaskModel, TurnModel};
use super::turns::{
    answers, attempt, attempted, declines, first_turn, give_up, next_turn, relist,
    report_and_relist,
};
use super::{CmdModel, MsgModel, Tone};

verus! {

/// The event is one that may come of the action.
pub open spec fn may_come_of(action: ActionModel, event: EventModel) -> bool {
    match action {
        ActionModel::AdapterUp => event is Powered,
        ActionModel::Info(_) => event is State,
        ActionModel::InfoRaw(_) => event is Text,
        ActionModel::Connect(_)
        | ActionModel::Disconnect(_)
        | ActionModel::Pair(_)
        | ActionModel::Trust(_)
        | ActionModel::Untrust(_)
        | ActionModel::Remove(_) => event is Done,
        ActionModel::Discover => event is Discovered,
        ActionModel::FillKinds(_) => event is Classified,
        ActionModel::ScanLive(_) | ActionModel::NextFind => event is Announced
            || event is ScanEnded,
        ActionModel::Rank(_) => event is Ranked,
        ActionModel::PairInteractive(_) | ActionModel::Answer(_) => event is Prompt
            || event is PairEnded,
        ActionModel::Receive => event is Received,
        ActionModel::Send(_) => event is Sent,
        ActionModel::ProbeIso => event is Iso,
        ActionModel::Route(_) => event is Routed,
        ActionModel::RoutingFacts(_) => event is Facts,
        ActionModel::SwitchProfile(_) => event is Switched,
        ActionModel::Report(_) => event is Reported,
        ActionModel::ListPaired => event is Listed,
        ActionModel::Pause(_) => event is Rested,
        ActionModel::Finish(_) => false,
    }
}

/// The conversation never stalls: whatever comes of a first turn's action is
/// what the task waits for.
pub proof fn first_answer_is_expected(
    cmd: CmdModel,
    audio_available: bool,
    turn: TurnModel,
    event: EventModel,
)
    requires
        first_turn(cmd, audio_available) == Some(turn),
        may_come_of(turn.action, event),
    ensures
        answers(turn.task, event),
{
}

/// Whatever comes of the turn's action is what the task waits for.
pub open spec fn in_step(turn: TurnModel) -> bool {
    forall|event: EventModel|
        may_come_of(turn.action, event) ==> #[trigger] answers(turn.task, event)
}

proof fn lemma_attempt_in_step(run: PairRunModel, ok: bool)
    requires
        run.at < run.ranked.len(),
    ensures
        in_step(attempt(run)),
        in_step(attempted(run, ok)),
        in_step(give_up(run)),
{
}

/// The conversation never stalls: whatever comes of a later turn's action is
/// what the task waits for.
#[verifier::rlimit(40)]
#[verifier::spinoff_prover]
pub proof fn every_answer_is_expected(task: TaskModel, event: EventModel, audio_available: bool)
    requires
        answers(task, event),
    ensures
        in_step(next_turn(task, event, audio_available)),
{
    match (task, event) {
        (TaskModel::Pairing(run), EventModel::PairEnded(Some(ok))) => {
            lemma_attempt_in_step(run, ok);
        },
        (TaskModel::FallingBack(run), EventModel::Done(ok)) => {
            lemma_attempt_in_step(run, ok);
        },
        _ => {},
    }
}

/// The turn tells of the operation's end last, once, where it finishes the
/// command; and nowhere else.
pub open spec fn tells_of_the_end(turn: TurnModel) -> bool {
    if turn.action is Finish {
        turn.say.len() == 2 && !(turn.say[0] is OpDone) && turn.say[1] is OpDone
    } else {
        forall|i: int| 0 <= i < turn.say.len() ==> !(#[trigger] turn.say[i] is OpDone)
    }
}

/// Every command that is carried out comes to exactly one `OpDone`, which is
/// sent last: its first turn sends none, and does not finish it.
pub proof fn no_command_finishes_at_once(cmd: CmdModel, audio_available: bool, turn: TurnModel)
    requires
        first_turn(cmd, audio_available) == Some(turn),
    ensures
        !(turn.action is Finish),
        tells_of_the_end(turn),
{
}

proof fn lemma_attempt_tells(run: PairRunModel, ok: bool)
    requires
        run.at < run.ranked.len(),
    ensures
        tells_of_the_end(attempt(run)),
        tells_of_the_end(attempted(run, ok)),
        tells_of_the_end(give_up(run)),
{
}

/// Every command that is carried out comes to exactly one `OpDone`, which is
/// sent last: a later turn sends one where it finishes the command, and there
/// only.
pub proof fn finishing_sends_one_op_done(
    task: TaskModel,
    event: EventModel,
    audio_available: bool,
)
    requires
        answers(task, event),
    ensures
        tells_of_the_end(next_turn(task, event, audio_available)),
{
    match (task, event) {
        (TaskModel::Pairing(run), EventModel::PairEnded(Some(ok))) => {
            lemma_attempt_tells(run, ok);
        },
        (TaskModel::FallingBack(run), EventModel::Done(ok)) => {
            lemma_attempt_tells(run, ok);
        },
        _ => {},
    }
}

/// Only a stray answer to a prompt comes to nothing.
pub proof fn only_stray_answers_are_ignored(cmd: CmdModel, audio_available: bool)
    ensures
        first_turn(cmd, audio_available) is None <==> cmd is PairReply,
{
}

/// The task is past its command, and on to the list of paired devices.
pub open spec fn relisting(task: TaskModel) -> bool {
    task is Listing || task is Resting || task is Relisting
}

/// An unattended refresh only lists devices: it never powers the adapter, nor
/// does anything else to the radio.
pub proof fn auto_refresh_only_lists(task: TaskModel, event: EventModel, audio_available: bool)
    ensures
        first_turn(CmdModel::AutoRefresh, audio_available) == Some(relist(Seq::empty(), true)),
        relisting(relist(Seq::empty(), true).task),
        relisting(task) && answers(task, event) ==> {
            let turn = next_turn(task, event, audio_available);
            &&& relisting(turn.task) || turn.task is Over
            &&& turn.action is ListPaired || turn.action is Pause || turn.action is Finish
        },
{
}

/// A listing that fails is tried once more, and no oftener: the second answer
/// finishes the command whatever it is.
pub proof fn listing_is_retried_once(
    ok: bool,
    listed: Result<Seq<DeviceModel>, Seq<char>>,
    audio_available: bool,
)
    ensures
        next_turn(TaskModel::Listing { ok }, EventModel::Listed(listed), audio_available).action
            is Finish <==> listed is Ok,
        next_turn(TaskModel::Relisting { ok }, EventModel::Listed(listed), audio_available).action
            == ActionModel::Finish(ok),
{
}

/// A state query that failed is not read as "disconnected" or "untrusted": the
/// toggle does nothing to the device.
pub proof fn failed_query_toggles_nothing(
    task: TaskModel,
    e: Seq<char>,
    audio_available: bool,
)
    requires
        task is ToggleState || task is TrustState,
    ensures
        ({
            let turn = next_turn(task, EventModel::State(Err(e)), audio_available);
            turn.action is ListPaired && turn.task is Listing
        }),
{
}

/// A toggle acts by the live state, the opposite way.
pub proof fn toggles_act_by_live_state(
    mac: Seq<char>,
    name: Seq<char>,
    info: Info,
    audio_available: bool,
)
    ensures
        next_turn(
            TaskModel::ToggleState { mac, name },
            EventModel::State(Ok(info)),
            audio_available,
        ).action == (if info.connected {
            ActionModel::Disconnect(mac)
        } else {
            ActionModel::Connect(mac)
        }),
        next_turn(
            TaskModel::TrustState { mac },
            EventModel::State(Ok(info)),
            audio_available,
        ).action == (if info.trusted {
            ActionModel::Untrust(mac)
        } else {
            ActionModel::Trust(mac)
        }),
{
}

/// A command that needs the radio first has the adapter powered on, and comes
/// to nothing but a report where that fails.
pub proof fn adapter_comes_first(cmd: CmdModel, e: Seq<char>, audio_available: bool)
    requires
        cmd is Refresh || cmd is ToggleConnect || cmd is Scan || cmd is PairConnect,
    ensures
        first_turn(cmd, audio_available) is Some,
        first_turn(cmd, audio_available)->0.action is AdapterUp,
        next_turn(
            first_turn(cmd, audio_available)->0.task,
            EventModel::Powered(Err(e)),
            audio_available,
        ) == report_and_relist(e, Tone::Failure),
{
}

/// A device without audio does not wait for a sink when it is connected.
pub proof fn no_sink_poll_without_audio(mac: Seq<char>, name: Seq<char>, audio_available: bool)
    ensures
        next_turn(
            TaskModel::Connecting { mac, name, kind: AudioKind::NoAudio },
            EventModel::Done(true),
            audio_available,
        ).action is ListPaired,
{
}

/// Audio is routed only on a host that has `pactl`, to a device that has audio,
/// and to one that has LE Audio alone only where the kernel opens ISO sockets;
/// and wherever it is not, the reason is reported before the connection is.
pub proof fn routing_is_attempted_where_it_can_work(
    task: TaskModel,
    event: EventModel,
    audio_available: bool,
)
    requires
        answers(task, event),
        next_turn(task, event, audio_available).action is Route,
    ensures
        match task {
            TaskModel::Connecting { kind, .. } => audio_available && kind is Classic,
            TaskModel::LinkState { .. } => audio_available && (event matches EventModel::State(
                Ok(info),
            ) && info.audio is Classic),
            TaskModel::RouteIso { .. } => event == EventModel::Iso(true),
            _ => false,
        },
{
}

/// A failed attempt to route audio is never silent: it is explained.
pub proof fn failed_routing_is_explained(
    mac: Seq<char>,
    kind: AudioKind,
    done: Seq<char>,
    iso: bool,
    has_card: bool,
    audio_available: bool,
)
    ensures
        next_turn(
            TaskModel::Routing { mac, kind, done },
            EventModel::Routed(false),
            audio_available,
        ).task == (TaskModel::RouteHint { kind, done }),
        next_turn(
            TaskModel::RouteHint { kind, done },
            EventModel::Facts { iso, has_card },
            audio_available,
        ).say[0] == MsgModel::Status(failure_hint(kind, iso, has_card), Tone::Warn),
{
}

/// The pairing that a task is engaged in.
pub open spec fn pairing_of(task: TaskModel) -> Option<PairRunModel> {
    match task {
        TaskModel::Pairing(run)
        | TaskModel::Prompting(run)
        | TaskModel::Awaiting(run)
        | TaskModel::FallingBack(run) => Some(run),
        _ => None,
    }
}

/// Declining a prompt ends the pairing: no other address is tried, so that one
/// Esc does not raise the same prompt for every remaining address.
pub proof fn declining_stops_the_pairing(
    task: TaskModel,
    event: EventModel,
    audio_available: bool,
)
    requires
        answers(task, event),
        pairing_of(task) is Some,
        pairing_of(task)->0.aborted || (task is Awaiting && (event matches EventModel::Received(
            Some(CmdModel::PairReply(a)),
        ) && declines(a))),
    ensures
        ({
            let turn = next_turn(task, event, audio_available);
            &&& !(turn.action is PairInteractive)
            &&& pairing_of(turn.task) matches Some(run) ==> run.aborted
        }),
{
}

/// A refusal is expected: the next address in the ranking is tried, until none
/// is left.
pub proof fn refused_address_leads_to_the_next(run: PairRunModel, audio_available: bool)
    requires
        !run.aborted,
        run.at + 1 < run.ranked.len(),
    ensures
        next_turn(
            TaskModel::Pairing(run),
            EventModel::PairEnded(Some(false)),
            audio_available,
        ).action == ActionModel::PairInteractive(run.ranked[run.at as int + 1]),
        next_turn(
            TaskModel::FallingBack(run),
            EventModel::Done(false),
            audio_available,
        ).action == ActionModel::PairInteractive(run.ranked[run.at as int + 1]),
{
}

/// A pairing keeps its list and its ranking throughout, and one that ends
/// without success reopens the picker with that same list.
pub proof fn failed_pairing_reopens_the_picker(
    task: TaskModel,
    event: EventModel,
    audio_available: bool,
)
    requires
        answers(task, event),
        pairing_of(task) is Some,
    ensures
        ({
            let run = pairing_of(task)->0;
            let turn = next_turn(task, event, audio_available);
            match pairing_of(turn.task) {
                Some(now) => now.others == run.others && now.ranked == run.ranked && now.name
                    == run.name && run.at <= now.at <= run.at + 1,
                None => turn.task is Trusting || turn.action == ActionModel::Send(
                    MsgModel::ScanResults(run.others),
                ),
            }
        }),
{
}

/// A listing that fails after a scan does not wedge the picker: it is handed
/// what the scan has announced.
pub proof fn failed_scan_listing_hands_back_what_was_seen(
    seen: Seq<DiscoveredModel>,
    e: Seq<char>,
    audio_available: bool,
)
    ensures
        next_turn(
            TaskModel::ScanListing { seen },
            EventModel::Discovered(Err(e)),
            audio_available,
        ).action == ActionModel::Send(MsgModel::ScanResults(seen)),
{
}

} // verus!
