//! How an action is carried out: by which tool calls, and what comes of them.

use vstd::prelude::*;

use crate::audio::{route_audio, route_steps, toggle_profile, toggle_steps};
use crate::audio::{RouteStep, RouteStepModel};
use crate::bt;
use crate::bt::calls::{
    adapter_steps, addr_kind_steps, discovered_steps, info_result, info_text, paired_devices_steps,
    rank_steps, single_call,
};
use crate::bt::laws::{listing_never_touches_power, touches_power};
use crate::shell::{Reply, ReplyModel, Step, StepModel};

use super::laws::may_come_of;
use super::task::{Action, ActionModel, Event, EventModel};

verus! {

/// The next move of carrying out an action.
pub enum Move {
    /// Call `bluetoothctl` with these arguments.
    Ctl(Vec<String>),
    /// Call `pactl` with these arguments.
    Pactl(Vec<String>),
    /// Tell the user `note`, if there is one, and wait a second, if told to;
    /// then call `pactl` with the arguments.
    Poll { note: Option<String>, wait: bool, args: Vec<String> },
    /// Nothing: this came of it.
    Ready(Event),
    /// It takes more than tool calls: a session, a message, a clock.
    Elsewhere,
}

pub ghost enum MoveModel {
    Ctl(Seq<Seq<char>>),
    Pactl(Seq<Seq<char>>),
    Poll { note: Option<Seq<char>>, wait: bool, args: Seq<Seq<char>> },
    Ready(EventModel),
    Elsewhere,
}

impl View for Move {
    type V = MoveModel;

    open spec fn view(&self) -> MoveModel {
        match self {
            Move::Ctl(args) => MoveModel::Ctl(args.deep_view()),
            Move::Pactl(args) => MoveModel::Pactl(args.deep_view()),
            Move::Poll { note, wait, args } => MoveModel::Poll {
                note: note.deep_view(),
                wait: *wait,
                args: args.deep_view(),
            },
            Move::Ready(event) => MoveModel::Ready(event@),
            Move::Elsewhere => MoveModel::Elsewhere,
        }
    }
}

/// A step of an operation on `bluetoothctl` that comes to an event.
pub open spec fn on_ctl<T>(step: StepModel<T>, event: spec_fn(T) -> EventModel) -> MoveModel {
    match step {
        StepModel::Run(args) => MoveModel::Ctl(args),
        StepModel::Done(t) => MoveModel::Ready(event(t)),
    }
}

/// One call of `bluetoothctl` on an address, of which the exit status counts.
pub open spec fn verb(word: Seq<char>, mac: Seq<char>, replies: Seq<ReplyModel>) -> MoveModel {
    on_ctl(single_call(seq![word, mac], replies), |ok: bool| EventModel::Done(ok))
}

/// The next move of an action, after the replies to its tool calls so far.
pub open spec fn move_of(action: ActionModel, replies: Seq<ReplyModel>) -> MoveModel {
    match action {
        ActionModel::AdapterUp => on_ctl(
            adapter_steps(replies),
            |r: Result<(), Seq<char>>| EventModel::Powered(r),
        ),
        ActionModel::Info(mac) => if replies.len() == 0 {
            MoveModel::Ctl(seq!["info"@, mac])
        } else {
            MoveModel::Ready(EventModel::State(info_result(replies[0])))
        },
        ActionModel::InfoRaw(mac) => if replies.len() == 0 {
            MoveModel::Ctl(seq!["info"@, mac])
        } else {
            MoveModel::Ready(EventModel::Text(info_text(replies[0])))
        },
        ActionModel::Connect(mac) => verb("connect"@, mac, replies),
        ActionModel::Disconnect(mac) => verb("disconnect"@, mac, replies),
        ActionModel::Pair(mac) => verb("pair"@, mac, replies),
        ActionModel::Trust(mac) => verb("trust"@, mac, replies),
        ActionModel::Untrust(mac) => verb("untrust"@, mac, replies),
        ActionModel::Remove(mac) => verb("remove"@, mac, replies),
        ActionModel::Discover => on_ctl(
            discovered_steps(replies),
            |r: Result<Seq<bt::DiscoveredModel>, Seq<char>>| EventModel::Discovered(r),
        ),
        ActionModel::FillKinds(items) => on_ctl(
            addr_kind_steps(items, replies),
            |items: Seq<bt::DiscoveredModel>| EventModel::Classified(items),
        ),
        ActionModel::Rank(macs) => on_ctl(
            rank_steps(macs, replies),
            |best: Seq<Seq<char>>| EventModel::Ranked(best),
        ),
        ActionModel::ListPaired => on_ctl(
            paired_devices_steps(replies),
            |r: Result<Seq<bt::DeviceModel>, Seq<char>>| EventModel::Listed(r),
        ),
        ActionModel::SwitchProfile(mac) => match toggle_steps(mac, replies) {
            StepModel::Run(args) => MoveModel::Pactl(args),
            StepModel::Done(r) => MoveModel::Ready(EventModel::Switched(r)),
        },
        ActionModel::Route(mac) => match route_steps(mac, replies) {
            RouteStepModel::Poll { note, wait, args } => MoveModel::Poll { note, wait, args },
            RouteStepModel::Run(args) => MoveModel::Pactl(args),
            RouteStepModel::Done(ok) => MoveModel::Ready(EventModel::Routed(ok)),
        },
        _ => MoveModel::Elsewhere,
    }
}

fn done_or_call(step: Step<bool>) -> (r: Move)
    ensures
        r@ == on_ctl(step@, |ok: bool| EventModel::Done(ok)),
{
    match step {
        Step::Run(args) => Move::Ctl(args),
        Step::Done(ok) => Move::Ready(Event::Done(ok)),
    }
}

/// The next move of an action, after the replies to its tool calls so far.
pub fn carry_out(action: &Action, replies: &Vec<Reply>) -> (r: Move)
    ensures
        r@ == move_of(action@, replies.deep_view()),
{
    match action {
        Action::AdapterUp => match bt::adapter_up(replies) {
            Step::Run(args) => Move::Ctl(args),
            Step::Done(r) => Move::Ready(Event::Powered(r)),
        },
        Action::Info(mac) => match bt::info(mac.as_str(), replies) {
            Step::Run(args) => Move::Ctl(args),
            Step::Done(r) => Move::Ready(Event::State(r)),
        },
        Action::InfoRaw(mac) => match bt::info_raw(mac.as_str(), replies) {
            Step::Run(args) => Move::Ctl(args),
            Step::Done(r) => Move::Ready(Event::Text(r)),
        },
        Action::Connect(mac) => done_or_call(bt::connect(mac.as_str(), replies)),
        Action::Disconnect(mac) => done_or_call(bt::disconnect(mac.as_str(), replies)),
        Action::Pair(mac) => done_or_call(bt::pair(mac.as_str(), replies)),
        Action::Trust(mac) => done_or_call(bt::trust(mac.as_str(), replies)),
        Action::Untrust(mac) => done_or_call(bt::untrust(mac.as_str(), replies)),
        Action::Remove(mac) => done_or_call(bt::remove(mac.as_str(), replies)),
        Action::Discover => match bt::discovered_unpaired(replies) {
            Step::Run(args) => Move::Ctl(args),
            Step::Done(r) => Move::Ready(Event::Discovered(r)),
        },
        Action::FillKinds(items) => match bt::fill_addr_kinds(items, replies) {
            Step::Run(args) => Move::Ctl(args),
            Step::Done(items) => Move::Ready(Event::Classified(items)),
        },
        Action::Rank(macs) => match bt::rank_candidates(macs, replies) {
            Step::Run(args) => Move::Ctl(args),
            Step::Done(best) => Move::Ready(Event::Ranked(best)),
        },
        Action::ListPaired => match bt::paired_devices(replies) {
            Step::Run(args) => Move::Ctl(args),
            Step::Done(r) => Move::Ready(Event::Listed(r)),
        },
        Action::SwitchProfile(mac) => match toggle_profile(mac.as_str(), replies) {
            Step::Run(args) => Move::Pactl(args),
            Step::Done(r) => Move::Ready(Event::Switched(r)),
        },
        Action::Route(mac) => match route_audio(mac.as_str(), replies) {
            RouteStep::Poll { note, wait, args } => Move::Poll { note, wait, args },
            RouteStep::Run(args) => Move::Pactl(args),
            RouteStep::Done(ok) => Move::Ready(Event::Routed(ok)),
        },
        _ => Move::Elsewhere,
    }
}

// ---------------------------------------------------------------------------
// Laws
// ---------------------------------------------------------------------------

/// What comes of an action's tool calls is what may come of the action.
pub proof fn moves_come_to_what_may_come(action: ActionModel, replies: Seq<ReplyModel>)
    ensures
        move_of(action, replies) matches MoveModel::Ready(event) ==> may_come_of(action, event),
{
}

proof fn lemma_addr_kind_calls(items: Seq<bt::DiscoveredModel>, replies: Seq<ReplyModel>)
    ensures
        addr_kind_steps(items, replies) matches StepModel::Run(args) ==> args.len() == 2 && args[0]
            == "info"@,
    decreases items.len(),
{
    if items.len() > 0 {
        lemma_addr_kind_calls(items.drop_first(), replies);
        lemma_addr_kind_calls(items.drop_first(), replies.drop_first());
    }
}

/// The adapter's power is touched by nothing but the action that is there for
/// it, which an unattended refresh never takes.
pub proof fn power_is_touched_on_purpose_only(action: ActionModel, replies: Seq<ReplyModel>)
    requires
        !(action is AdapterUp),
    ensures
        move_of(action, replies) matches MoveModel::Ctl(args) ==> !touches_power(args),
{
    reveal_strlit("power");
    reveal_strlit("info");
    reveal_strlit("connect");
    reveal_strlit("disconnect");
    reveal_strlit("pair");
    reveal_strlit("trust");
    reveal_strlit("untrust");
    reveal_strlit("remove");
    reveal_strlit("devices");
    reveal_strlit("paired-devices");
    assert("power"@.len() == 5);
    assert("info"@.len() == 4);
    assert("connect"@.len() == 7);
    assert("disconnect"@.len() == 10);
    assert("pair"@.len() == 4);
    assert("trust"@.len() == 5);
    assert("trust"@[0] != "power"@[0]);
    assert("untrust"@.len() == 7);
    assert("remove"@.len() == 6);
    assert("devices"@.len() == 7);
    assert("paired-devices"@.len() == 14);
    match action {
        ActionModel::ListPaired => {
            listing_never_touches_power(replies);
        },
        ActionModel::FillKinds(items) => {
            lemma_addr_kind_calls(items, replies);
        },
        _ => {},
    }
}

} // verus!
