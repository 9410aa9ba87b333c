//! Operations that take one or more `bluetoothctl` calls, each as a function
//! of the replies had so far.

use vstd::prelude::*;

use crate::shell::{args1, args2, push_text, step_model, Reply, ReplyModel, Step, StepModel};
use crate::text;

use super::{
    device_entries, diagnostic, discoverable, error_text, info_of, is_discoverable, list_contains,
    listed_macs, parse_device_lines, parse_info, parse_macs, scan_entry, unknown_info,
};
use super::{AddrKind, AudioKind, Device, DeviceModel, Discovered, DiscoveredModel, Info};

verus! {

fn error_text2(a: &str, b: &str) -> (r: String)
    ensures
        r@ == diagnostic(seq![a@, b@]),
{
    let mut parts: Vec<&str> = Vec::new();
    parts.push(a);
    parts.push(b);
    assert(text::texts(parts@) =~= seq![a@, b@]);
    error_text(parts.as_slice())
}

fn error_text4(a: &str, b: &str, c: &str, d: &str) -> (r: String)
    ensures
        r@ == diagnostic(seq![a@, b@, c@, d@]),
{
    let mut parts: Vec<&str> = Vec::new();
    parts.push(a);
    parts.push(b);
    parts.push(c);
    parts.push(d);
    assert(text::texts(parts@) =~= seq![a@, b@, c@, d@]);
    error_text(parts.as_slice())
}

// ---------------------------------------------------------------------------
// One call each
// ---------------------------------------------------------------------------

/// One call, of which only the exit status counts.
pub open spec fn single_call(args: Seq<Seq<char>>, replies: Seq<ReplyModel>) -> StepModel<bool> {
    if replies.len() == 0 {
        StepModel::Run(args)
    } else {
        StepModel::Done(replies[0].ok)
    }
}

fn call_once(verb: &str, mac: &str, replies: &Vec<Reply>) -> (r: Step<bool>)
    ensures
        r@ == single_call(seq![verb@, mac@], replies.deep_view()),
{
    if replies.len() == 0 {
        Step::Run(args2(verb, mac))
    } else {
        Step::Done(replies[0].ok)
    }
}

pub fn connect(mac: &str, replies: &Vec<Reply>) -> (r: Step<bool>)
    ensures
        r@ == single_call(seq!["connect"@, mac@], replies.deep_view()),
{
    call_once("connect", mac, replies)
}

pub fn disconnect(mac: &str, replies: &Vec<Reply>) -> (r: Step<bool>)
    ensures
        r@ == single_call(seq!["disconnect"@, mac@], replies.deep_view()),
{
    call_once("disconnect", mac, replies)
}

pub fn pair(mac: &str, replies: &Vec<Reply>) -> (r: Step<bool>)
    ensures
        r@ == single_call(seq!["pair"@, mac@], replies.deep_view()),
{
    call_once("pair", mac, replies)
}

pub fn trust(mac: &str, replies: &Vec<Reply>) -> (r: Step<bool>)
    ensures
        r@ == single_call(seq!["trust"@, mac@], replies.deep_view()),
{
    call_once("trust", mac, replies)
}

pub fn untrust(mac: &str, replies: &Vec<Reply>) -> (r: Step<bool>)
    ensures
        r@ == single_call(seq!["untrust"@, mac@], replies.deep_view()),
{
    call_once("untrust", mac, replies)
}

pub fn remove(mac: &str, replies: &Vec<Reply>) -> (r: Step<bool>)
    ensures
        r@ == single_call(seq!["remove"@, mac@], replies.deep_view()),
{
    call_once("remove", mac, replies)
}

/// What an `info` reply tells: its output, or why there is none.
pub open spec fn info_text(reply: ReplyModel) -> Result<Seq<char>, Seq<char>> {
    if reply.ok {
        Ok(reply.out)
    } else {
        Err(diagnostic(seq![reply.err, reply.out]))
    }
}

/// The state that an `info` reply tells, or why there is none.
pub open spec fn info_result(reply: ReplyModel) -> Result<Info, Seq<char>> {
    match info_text(reply) {
        Ok(out) => Ok(info_of(out)),
        Err(e) => Err(e),
    }
}

/// The state that an `info` reply tells; the default where the query failed.
pub open spec fn info_or_unknown(reply: ReplyModel) -> Info {
    if reply.ok {
        info_of(reply.out)
    } else {
        unknown_info()
    }
}

/// One `info` call, and its output.
pub open spec fn info_raw_steps(mac: Seq<char>, replies: Seq<ReplyModel>) -> StepModel<
    Result<Seq<char>, Seq<char>>,
> {
    if replies.len() == 0 {
        StepModel::Run(seq!["info"@, mac])
    } else {
        StepModel::Done(info_text(replies[0]))
    }
}

/// One `info` call, and the state that it tells.
pub open spec fn info_steps(mac: Seq<char>, replies: Seq<ReplyModel>) -> StepModel<
    Result<Info, Seq<char>>,
> {
    if replies.len() == 0 {
        StepModel::Run(seq!["info"@, mac])
    } else {
        StepModel::Done(info_result(replies[0]))
    }
}

/// Raw `bluetoothctl info` output for the details popup.
pub fn info_raw(mac: &str, replies: &Vec<Reply>) -> (r: Step<Result<String, String>>)
    ensures
        step_model(r) == info_raw_steps(mac@, replies.deep_view()),
{
    if replies.len() == 0 {
        return Step::Run(args2("info", mac));
    }
    let reply = &replies[0];
    if !reply.ok {
        return Step::Done(Err(error_text2(reply.err.as_str(), reply.out.as_str())));
    }
    Step::Done(Ok(reply.out.clone()))
}

/// Live state for a MAC. Err means the query itself failed - callers must
/// not treat that as "disconnected".
pub fn info(mac: &str, replies: &Vec<Reply>) -> (r: Step<Result<Info, String>>)
    ensures
        step_model(r) == info_steps(mac@, replies.deep_view()),
{
    match info_raw(mac, replies) {
        Step::Run(args) => Step::Run(args),
        Step::Done(Ok(out)) => Step::Done(Ok(parse_info(out.as_str()))),
        Step::Done(Err(e)) => Step::Done(Err(e)),
    }
}

fn info_or_default(reply: &Reply) -> (r: Info)
    ensures
        r == info_or_unknown(reply@),
{
    if reply.ok {
        parse_info(reply.out.as_str())
    } else {
        Info::default()
    }
}

// ---------------------------------------------------------------------------
// The adapter
// ---------------------------------------------------------------------------

/// Power the adapter on where `show` does not say that it is on already.
pub open spec fn adapter_steps(replies: Seq<ReplyModel>) -> StepModel<Result<(), Seq<char>>> {
    if replies.len() == 0 {
        StepModel::Run(seq!["show"@])
    } else if !replies[0].ok {
        StepModel::Done(
            Err(
                "Bluetooth adapter unavailable: "@ + diagnostic(
                    seq![replies[0].err, replies[0].out],
                ),
            ),
        )
    } else if text::occurs(replies[0].out, "Powered: yes"@) {
        StepModel::Done(Ok(()))
    } else if replies.len() == 1 {
        StepModel::Run(seq!["power"@, "on"@])
    } else if !replies[1].ok {
        StepModel::Done(
            Err(
                "Failed to power on adapter (rfkill blocked?): "@ + diagnostic(
                    seq![replies[1].err, replies[1].out],
                ),
            ),
        )
    } else {
        StepModel::Done(Ok(()))
    }
}

/// Power the adapter on if it isn't already. Cheap; run before radio ops.
pub fn adapter_up(replies: &Vec<Reply>) -> (r: Step<Result<(), String>>)
    ensures
        step_model(r) == adapter_steps(replies.deep_view()),
{
    if replies.len() == 0 {
        return Step::Run(args1("show"));
    }
    let show = &replies[0];
    if !show.ok {
        let mut e = String::from_str("Bluetooth adapter unavailable: ");
        e.append(error_text2(show.err.as_str(), show.out.as_str()).as_str());
        return Step::Done(Err(e));
    }
    if text::contains(show.out.as_str(), "Powered: yes") {
        return Step::Done(Ok(()));
    }
    if replies.len() == 1 {
        return Step::Run(args2("power", "on"));
    }
    let power = &replies[1];
    if !power.ok {
        let mut e = String::from_str("Failed to power on adapter (rfkill blocked?): ");
        e.append(error_text2(power.err.as_str(), power.out.as_str()).as_str());
        return Step::Done(Err(e));
    }
    Step::Done(Ok(()))
}

// ---------------------------------------------------------------------------
// Paired devices
// ---------------------------------------------------------------------------

/// The first listing settles the matter: it worked, and named devices.
pub open spec fn listing_settled(reply: ReplyModel) -> bool {
    reply.ok && device_entries(reply.out).len() > 0
}

/// The calls that a paired-device listing takes.
pub open spec fn paired_listing_calls(replies: Seq<ReplyModel>) -> int {
    if replies.len() > 0 && listing_settled(replies[0]) {
        1
    } else {
        2
    }
}

/// Paired-device listing with a fallback for older bluez, where the command is
/// `paired-devices` instead of `devices Paired`. A first listing that worked
/// but named no device is cross-checked, and kept unless the second names one.
pub open spec fn paired_listing(replies: Seq<ReplyModel>) -> StepModel<
    Result<Seq<char>, Seq<char>>,
> {
    if replies.len() == 0 {
        StepModel::Run(seq!["devices"@, "Paired"@])
    } else if listing_settled(replies[0]) {
        StepModel::Done(Ok(replies[0].out))
    } else if replies.len() == 1 {
        StepModel::Run(seq!["paired-devices"@])
    } else if replies[0].ok {
        if listing_settled(replies[1]) {
            StepModel::Done(Ok(replies[1].out))
        } else {
            StepModel::Done(Ok(replies[0].out))
        }
    } else if replies[1].ok {
        StepModel::Done(Ok(replies[1].out))
    } else {
        StepModel::Done(
            Err(diagnostic(seq![replies[0].err, replies[1].err, replies[0].out, replies[1].out])),
        )
    }
}

pub fn list_paired_output(replies: &Vec<Reply>) -> (r: Step<Result<String, String>>)
    ensures
        step_model(r) == paired_listing(replies.deep_view()),
{
    if replies.len() == 0 {
        return Step::Run(args2("devices", "Paired"));
    }
    let first = &replies[0];
    if first.ok && super::has_device_lines(first.out.as_str()) {
        return Step::Done(Ok(first.out.clone()));
    }
    if replies.len() == 1 {
        return Step::Run(args1("paired-devices"));
    }
    let second = &replies[1];
    if first.ok {
        if second.ok && super::has_device_lines(second.out.as_str()) {
            return Step::Done(Ok(second.out.clone()));
        }
        return Step::Done(Ok(first.out.clone()));
    }
    if second.ok {
        return Step::Done(Ok(second.out.clone()));
    }
    Step::Done(
        Err(
            error_text4(
                first.err.as_str(),
                second.err.as_str(),
                first.out.as_str(),
                second.out.as_str(),
            ),
        ),
    )
}

fn listing_calls(replies: &Vec<Reply>) -> (r: usize)
    requires
        replies@.len() > 0,
    ensures
        r == paired_listing_calls(replies.deep_view()),
{
    if replies[0].ok && super::has_device_lines(replies[0].out.as_str()) {
        1
    } else {
        2
    }
}

/// MACs of all paired devices.
pub open spec fn paired_macs_steps(replies: Seq<ReplyModel>) -> StepModel<
    Result<Seq<Seq<char>>, Seq<char>>,
> {
    match paired_listing(replies) {
        StepModel::Run(args) => StepModel::Run(args),
        StepModel::Done(Ok(listing)) => StepModel::Done(Ok(listed_macs(listing))),
        StepModel::Done(Err(e)) => StepModel::Done(Err(e)),
    }
}

/// MACs of all paired devices.
pub fn paired_macs(replies: &Vec<Reply>) -> (r: Step<Result<Vec<String>, String>>)
    ensures
        step_model(r) == paired_macs_steps(replies.deep_view()),
{
    match list_paired_output(replies) {
        Step::Run(args) => Step::Run(args),
        Step::Done(Ok(listing)) => Step::Done(Ok(parse_macs(listing.as_str()))),
        Step::Done(Err(e)) => Step::Done(Err(e)),
    }
}

/// The device of an entry, its state told by two whole-list queries.
pub open spec fn listed_device(
    entry: (Seq<char>, Seq<char>),
    connected: Seq<Seq<char>>,
    trusted: Seq<Seq<char>>,
) -> DeviceModel {
    DeviceModel {
        mac: entry.0,
        name: entry.1,
        connected: connected.contains(entry.0),
        trusted: trusted.contains(entry.0),
        battery: None,
    }
}

/// The device of an entry, its state told by an `info` reply that succeeded.
pub open spec fn queried_device(entry: (Seq<char>, Seq<char>), reply: ReplyModel) -> DeviceModel {
    let i = info_of(reply.out);
    DeviceModel {
        mac: entry.0,
        name: entry.1,
        connected: i.connected,
        trusted: i.trusted,
        battery: i.battery,
    }
}

pub open spec fn listed_devices(
    entries: Seq<(Seq<char>, Seq<char>)>,
    connected: Seq<Seq<char>>,
    trusted: Seq<Seq<char>>,
) -> Seq<DeviceModel> {
    Seq::new(entries.len(), |i: int| listed_device(entries[i], connected, trusted))
}

pub open spec fn queried_devices(
    entries: Seq<(Seq<char>, Seq<char>)>,
    replies: Seq<ReplyModel>,
) -> Seq<DeviceModel> {
    Seq::new(entries.len(), |i: int| queried_device(entries[i], replies[i]))
}

/// The first of the replies to report a failure.
pub open spec fn first_failed(replies: Seq<ReplyModel>) -> Option<ReplyModel>
    decreases replies.len(),
{
    if replies.len() == 0 {
        None
    } else {
        match first_failed(replies.drop_last()) {
            Some(reply) => Some(reply),
            None => if replies.last().ok {
                None
            } else {
                Some(replies.last())
            },
        }
    }
}

/// Put `done` in front of what the step has done.
pub open spec fn prepend<T>(done: Seq<T>, step: StepModel<Seq<T>>) -> StepModel<Seq<T>> {
    match step {
        StepModel::Run(args) => StepModel::Run(args),
        StepModel::Done(rest) => StepModel::Done(done + rest),
    }
}

/// Battery is only reported while connected, so it is asked for there.
pub open spec fn wants_battery(d: DeviceModel) -> bool {
    d.connected && d.battery is None
}

/// Ask for the battery of each device that wants it, one `info` call each.
pub open spec fn battery_steps(devices: Seq<DeviceModel>, replies: Seq<ReplyModel>) -> StepModel<
    Seq<DeviceModel>,
>
    decreases devices.len(),
{
    if devices.len() == 0 {
        StepModel::Done(Seq::empty())
    } else if !wants_battery(devices[0]) {
        prepend(seq![devices[0]], battery_steps(devices.drop_first(), replies))
    } else if replies.len() == 0 {
        StepModel::Run(seq!["info"@, devices[0].mac])
    } else {
        let d = if replies[0].ok {
            DeviceModel { battery: info_of(replies[0].out).battery, ..devices[0] }
        } else {
            devices[0]
        };
        prepend(seq![d], battery_steps(devices.drop_first(), replies.drop_first()))
    }
}

pub open spec fn succeed<T>(step: StepModel<T>) -> StepModel<Result<T, Seq<char>>> {
    match step {
        StepModel::Run(args) => StepModel::Run(args),
        StepModel::Done(t) => StepModel::Done(Ok(t)),
    }
}

/// The devices of the listed entries: two whole-list queries tell their state
/// or, on an older bluez without those, one `info` call each; then come the
/// batteries. An `info` call that fails tells no state, least of all that the
/// device is disconnected, so there is no list without it.
pub open spec fn device_steps(
    entries: Seq<(Seq<char>, Seq<char>)>,
    replies: Seq<ReplyModel>,
) -> StepModel<Result<Seq<DeviceModel>, Seq<char>>> {
    if replies.len() == 0 {
        StepModel::Run(seq!["devices"@, "Connected"@])
    } else if replies.len() == 1 {
        StepModel::Run(seq!["devices"@, "Trusted"@])
    } else if replies[0].ok && replies[1].ok {
        succeed(
            battery_steps(
                listed_devices(entries, listed_macs(replies[0].out), listed_macs(replies[1].out)),
                replies.skip(2),
            ),
        )
    } else {
        let states = told_states(entries.len(), replies.skip(2));
        match first_failed(states) {
            Some(reply) => StepModel::Done(Err(diagnostic(seq![reply.err, reply.out]))),
            None => if states.len() < entries.len() {
                StepModel::Run(seq!["info"@, entries[states.len() as int].0])
            } else {
                succeed(
                    battery_steps(
                        queried_devices(entries, states),
                        replies.skip(2 + entries.len() as int),
                    ),
                )
            },
        }
    }
}

/// Of the replies, those that tell the states of the `n` devices, as far as
/// they are in.
pub open spec fn told_states(n: nat, replies: Seq<ReplyModel>) -> Seq<ReplyModel> {
    if replies.len() < n {
        replies
    } else {
        replies.take(n as int)
    }
}

/// All paired devices, with their state.
pub open spec fn paired_devices_steps(replies: Seq<ReplyModel>) -> StepModel<
    Result<Seq<DeviceModel>, Seq<char>>,
> {
    match paired_listing(replies) {
        StepModel::Run(args) => StepModel::Run(args),
        StepModel::Done(Err(e)) => StepModel::Done(Err(e)),
        StepModel::Done(Ok(listing)) => device_steps(
            device_entries(listing),
            replies.skip(paired_listing_calls(replies)),
        ),
    }
}

fn fill_batteries(devices: Vec<Device>, replies: &Vec<Reply>, from: usize) -> (r: Step<
    Vec<Device>,
>)
    requires
        from <= replies@.len(),
    ensures
        r@ == battery_steps(devices.deep_view(), replies.deep_view().skip(from as int)),
{
    let ghost all = devices.deep_view();
    let ghost rs = replies.deep_view();
    let mut out: Vec<Device> = Vec::new();
    let mut i: usize = 0;
    let mut used: usize = from;
    assert(all.skip(0) =~= all);
    assert(out.deep_view() =~= Seq::<DeviceModel>::empty());
    proof {
        lemma_prepend_nothing(battery_steps(all, rs.skip(from as int)));
    }
    while i < devices.len()
        invariant
            i <= devices@.len(),
            from <= used <= replies@.len(),
            all == devices.deep_view(),
            rs == replies.deep_view(),
            prepend(
                out.deep_view(),
                battery_steps(all.skip(i as int), rs.skip(used as int)),
            ) == battery_steps(all, rs.skip(from as int)),
        decreases devices@.len() - i,
    {
        let ghost before = out.deep_view();
        let ghost rest = all.skip(i as int);
        let ghost now = rs.skip(used as int);
        assert(rest[0] == devices@[i as int]@);
        assert(rest.drop_first() =~= all.skip(i + 1));
        let mut d = devices[i].clone();
        if d.connected && d.battery.is_none() {
            if used == replies.len() {
                return Step::Run(args2("info", d.mac.as_str()));
            }
            assert(now[0] == replies@[used as int]@);
            assert(now.drop_first() =~= rs.skip(used + 1));
            if replies[used].ok {
                d.battery = parse_info(replies[used].out.as_str()).battery;
            }
            used += 1;
        }
        let ghost dm = d@;
        out.push(d);
        assert(out.deep_view() =~= before.push(dm));
        proof {
            lemma_prepend_one(before, dm, battery_steps(all.skip(i + 1), rs.skip(used as int)));
        }
        i += 1;
    }
    assert(all.skip(i as int) =~= Seq::<DeviceModel>::empty());
    assert(out.deep_view() + Seq::<DeviceModel>::empty() =~= out.deep_view());
    Step::Done(out)
}

pub(super) proof fn lemma_prepend_nothing<T>(step: StepModel<Seq<T>>)
    ensures
        prepend(Seq::<T>::empty(), step) == step,
{
    match step {
        StepModel::Run(_) => {},
        StepModel::Done(s) => {
            assert(Seq::<T>::empty() + s =~= s);
        },
    }
}

pub(super) proof fn lemma_prepend_one<T>(done: Seq<T>, t: T, step: StepModel<Seq<T>>)
    ensures
        prepend(done, prepend(seq![t], step)) == prepend(done.push(t), step),
{
    match step {
        StepModel::Run(_) => {},
        StepModel::Done(s) => {
            assert(done + (seq![t] + s) =~= done.push(t) + s);
        },
    }
}

proof fn lemma_first_failed(replies: Seq<ReplyModel>, i: int)
    requires
        0 <= i <= replies.len(),
        first_failed(replies.take(i)) is Some,
    ensures
        first_failed(replies) == first_failed(replies.take(i)),
    decreases replies.len() - i,
{
    if i == replies.len() {
        assert(replies.take(i) =~= replies);
    } else {
        assert(replies.take(i + 1).drop_last() =~= replies.take(i));
        lemma_first_failed(replies, i + 1);
    }
}

/// All paired devices, with their state. Err means that they could not be
/// listed, or that the state of one could not be read.
pub fn paired_devices(replies: &Vec<Reply>) -> (r: Step<Result<Vec<Device>, String>>)
    ensures
        step_model(r) == paired_devices_steps(replies.deep_view()),
{
    let listing = match list_paired_output(replies) {
        Step::Run(args) => {
            return Step::Run(args);
        },
        Step::Done(Err(e)) => {
            return Step::Done(Err(e));
        },
        Step::Done(Ok(listing)) => listing,
    };
    let pairs = parse_device_lines(listing.as_str());
    let ghost entries = pairs.deep_view();
    let ghost all = replies.deep_view();
    let first: usize = listing_calls(replies);
    let n: usize = replies.len();
    let ghost rs = all.skip(first as int);
    if n == first {
        return Step::Run(args2("devices", "Connected"));
    }
    if n - first == 1 {
        return Step::Run(args2("devices", "Trusted"));
    }
    let conn = &replies[first];
    let trusted = &replies[first + 1];
    assert(rs[0] == conn@);
    assert(rs[1] == trusted@);
    assert(rs.skip(2) =~= all.skip(first + 2));
    let mut devices: Vec<Device> = Vec::new();
    let mut i: usize = 0;
    let mut used: usize = first + 2;
    if conn.ok && trusted.ok {
        let connected_macs = parse_macs(conn.out.as_str());
        let trusted_macs = parse_macs(trusted.out.as_str());
        let ghost want = listed_devices(
            entries,
            connected_macs.deep_view(),
            trusted_macs.deep_view(),
        );
        assert(devices.deep_view() =~= want.take(0));
        while i < pairs.len()
            invariant
                i <= pairs@.len(),
                entries == pairs.deep_view(),
                want == listed_devices(
                    entries,
                    connected_macs.deep_view(),
                    trusted_macs.deep_view(),
                ),
                devices.deep_view() == want.take(i as int),
            decreases pairs@.len() - i,
        {
            let ghost before = devices.deep_view();
            assert(entries[i as int] == (pairs@[i as int].0@, pairs@[i as int].1@));
            let d = Device {
                mac: pairs[i].0.clone(),
                name: pairs[i].1.clone(),
                connected: list_contains(&connected_macs, pairs[i].0.as_str()),
                trusted: list_contains(&trusted_macs, pairs[i].0.as_str()),
                battery: None,
            };
            let ghost dm = d@;
            devices.push(d);
            assert(devices.deep_view() =~= before.push(dm));
            assert(want.take(i + 1) =~= want.take(i as int).push(want[i as int]));
            i += 1;
        }
        assert(want.take(i as int) =~= want);
    } else {
        // Older bluez without `devices <filter>`: one info call per device.
        let ghost states = told_states(entries.len(), rs.skip(2));
        let ghost want = queried_devices(entries, states);
        assert(devices.deep_view() =~= want.take(0));
        assert(states.take(0) =~= Seq::<ReplyModel>::empty());
        while i < pairs.len()
            invariant
                i <= pairs@.len(),
                used == first + 2,
                used + i <= n,
                n == replies@.len(),
                all == replies.deep_view(),
                first == paired_listing_calls(all),
                paired_listing(all) matches StepModel::Done(Ok(l)) && entries == device_entries(l),
                rs == all.skip(first as int),
                rs.len() >= 2,
                !(rs[0].ok && rs[1].ok),
                rs.skip(2) == all.skip(first + 2),
                entries == pairs.deep_view(),
                states == told_states(entries.len(), rs.skip(2)),
                i <= states.len(),
                first_failed(states.take(i as int)) is None,
                want == queried_devices(entries, states),
                devices.deep_view() == want.take(i as int),
            decreases pairs@.len() - i,
        {
            let ghost before = devices.deep_view();
            assert(entries[i as int] == (pairs@[i as int].0@, pairs@[i as int].1@));
            if used + i == n {
                assert(states.take(i as int) =~= states);
                return Step::Run(args2("info", pairs[i].0.as_str()));
            }
            let reply = &replies[used + i];
            assert(rs.skip(2)[i as int] == reply@);
            assert(states[i as int] == reply@);
            assert(states.take(i + 1).drop_last() =~= states.take(i as int));
            assert(states.take(i + 1).last() == reply@);
            if !reply.ok {
                proof {
                    lemma_first_failed(states, i + 1);
                }
                return Step::Done(Err(error_text2(reply.err.as_str(), reply.out.as_str())));
            }
            let state = parse_info(reply.out.as_str());
            let d = Device {
                mac: pairs[i].0.clone(),
                name: pairs[i].1.clone(),
                connected: state.connected,
                trusted: state.trusted,
                battery: state.battery,
            };
            let ghost dm = d@;
            devices.push(d);
            assert(devices.deep_view() =~= before.push(dm));
            assert(want.take(i + 1) =~= want.take(i as int).push(want[i as int]));
            i += 1;
        }
        assert(want.take(i as int) =~= want);
        assert(states.take(i as int) =~= states);
        used = used + pairs.len();
        assert(rs.skip(2 + entries.len() as int) =~= all.skip(used as int));
    }
    match fill_batteries(devices, replies, used) {
        Step::Run(args) => Step::Run(args),
        Step::Done(devices) => Step::Done(Ok(devices)),
    }
}

// ---------------------------------------------------------------------------
// Discovery
// ---------------------------------------------------------------------------

pub open spec fn unclassified(mac: Seq<char>, name: Seq<char>) -> DiscoveredModel {
    DiscoveredModel { mac, name, addr: AddrKind::Unknown }
}

/// The devices of a listing that may be offered, in order.
pub open spec fn discovered_in(
    entries: Seq<(Seq<char>, Seq<char>)>,
    paired: Seq<Seq<char>>,
) -> Seq<DiscoveredModel>
    decreases entries.len(),
{
    if entries.len() == 0 {
        Seq::empty()
    } else {
        let before = discovered_in(entries.drop_last(), paired);
        let (mac, name) = entries.last();
        if is_discoverable(paired, mac, name) {
            before.push(unclassified(mac, name))
        } else {
            before
        }
    }
}

/// Discovered devices that aren't paired and have a real name.
pub open spec fn discovered_steps(replies: Seq<ReplyModel>) -> StepModel<
    Result<Seq<DiscoveredModel>, Seq<char>>,
> {
    match paired_macs_steps(replies) {
        StepModel::Run(args) => StepModel::Run(args),
        StepModel::Done(Err(e)) => StepModel::Done(Err(e)),
        StepModel::Done(Ok(paired)) => {
            let rs = replies.skip(paired_listing_calls(replies));
            if rs.len() == 0 {
                StepModel::Run(seq!["devices"@])
            } else if !rs[0].ok {
                StepModel::Done(Err(diagnostic(seq![rs[0].err, rs[0].out])))
            } else {
                StepModel::Done(Ok(discovered_in(device_entries(rs[0].out), paired)))
            }
        },
    }
}

/// Discovered devices that aren't paired and have a real name.
pub fn discovered_unpaired(replies: &Vec<Reply>) -> (r: Step<Result<Vec<Discovered>, String>>)
    ensures
        step_model(r) == discovered_steps(replies.deep_view()),
{
    let paired = match paired_macs(replies) {
        Step::Run(args) => {
            return Step::Run(args);
        },
        Step::Done(Err(e)) => {
            return Step::Done(Err(e));
        },
        Step::Done(Ok(paired)) => paired,
    };
    let first: usize = listing_calls(replies);
    if replies.len() == first {
        return Step::Run(args1("devices"));
    }
    let reply = &replies[first];
    assert(replies.deep_view().skip(first as int)[0] == reply@);
    if !reply.ok {
        return Step::Done(Err(error_text2(reply.err.as_str(), reply.out.as_str())));
    }
    let pairs = parse_device_lines(reply.out.as_str());
    let ghost entries = pairs.deep_view();
    let mut out: Vec<Discovered> = Vec::new();
    let mut i: usize = 0;
    assert(out.deep_view() =~= discovered_in(entries.take(0), paired.deep_view()));
    while i < pairs.len()
        invariant
            i <= pairs@.len(),
            entries == pairs.deep_view(),
            out.deep_view() == discovered_in(entries.take(i as int), paired.deep_view()),
        decreases pairs@.len() - i,
    {
        let ghost before = out.deep_view();
        assert(entries[i as int] == (pairs@[i as int].0@, pairs@[i as int].1@));
        assert(entries.take(i + 1).drop_last() =~= entries.take(i as int));
        if discoverable(&paired, pairs[i].0.as_str(), pairs[i].1.as_str()) {
            let d = Discovered {
                mac: pairs[i].0.clone(),
                name: pairs[i].1.clone(),
                addr: AddrKind::Unknown,
            };
            let ghost dm = d@;
            out.push(d);
            assert(out.deep_view() =~= before.push(dm));
        }
        i += 1;
    }
    assert(entries.take(i as int) =~= entries);
    Step::Done(Ok(out))
}

/// What a live scan starts from: the addresses already paired, none where
/// they could not be listed, and the arguments of the scanning call.
pub open spec fn scan_live_steps(secs: nat, replies: Seq<ReplyModel>) -> StepModel<
    (Seq<Seq<char>>, Seq<Seq<char>>),
> {
    let args = seq!["--timeout"@, text::decimal(secs), "scan"@, "on"@];
    match paired_macs_steps(replies) {
        StepModel::Run(a) => StepModel::Run(a),
        StepModel::Done(Ok(paired)) => StepModel::Done((paired, args)),
        StepModel::Done(Err(_)) => StepModel::Done((Seq::empty(), args)),
    }
}

/// Live scan: the paired addresses to leave out, and the arguments of the
/// call that streams discovered devices until the scan ends.
pub fn scan_live(secs: u32, replies: &Vec<Reply>) -> (r: Step<(Vec<String>, Vec<String>)>)
    ensures
        r@ == scan_live_steps(secs as nat, replies.deep_view()),
{
    let paired = match paired_macs(replies) {
        Step::Run(args) => {
            return Step::Run(args);
        },
        Step::Done(Ok(paired)) => paired,
        Step::Done(Err(_)) => {
            let none: Vec<String> = Vec::new();
            assert(none.deep_view() =~= Seq::<Seq<char>>::empty());
            none
        },
    };
    let mut args = args1("--timeout");
    push_text(&mut args, text::to_decimal(secs as u128).as_str());
    push_text(&mut args, "scan");
    push_text(&mut args, "on");
    assert(args.deep_view() =~= seq!["--timeout"@, text::decimal(secs as nat), "scan"@, "on"@]);
    Step::Done((paired, args))
}

/// The device that a line of scan output announces, if it may be offered.
pub open spec fn found_on(paired: Seq<Seq<char>>, line: Seq<char>) -> Option<DiscoveredModel> {
    match scan_entry(line) {
        Some((mac, name)) => if is_discoverable(paired, mac, name) {
            Some(unclassified(mac, name))
        } else {
            None
        },
        None => None,
    }
}

/// The device that a line of scan output announces, if it may be offered.
pub fn scan_found(paired: &Vec<String>, line: &str) -> (r: Option<Discovered>)
    ensures
        r.deep_view() == found_on(paired.deep_view(), line@),
{
    match super::parse_scan_event(line) {
        Some((mac, name)) => {
            if discoverable(paired, mac.as_str(), name.as_str()) {
                Some(Discovered { mac, name, addr: AddrKind::Unknown })
            } else {
                None
            }
        },
        None => None,
    }
}

/// Look up the address kind of each entry that lacks it, one `info` call each.
pub open spec fn addr_kind_steps(
    items: Seq<DiscoveredModel>,
    replies: Seq<ReplyModel>,
) -> StepModel<Seq<DiscoveredModel>>
    decreases items.len(),
{
    if items.len() == 0 {
        StepModel::Done(Seq::empty())
    } else if items[0].addr != AddrKind::Unknown {
        prepend(seq![items[0]], addr_kind_steps(items.drop_first(), replies))
    } else if replies.len() == 0 {
        StepModel::Run(seq!["info"@, items[0].mac])
    } else {
        let d = if replies[0].ok {
            DiscoveredModel { addr: info_of(replies[0].out).addr, ..items[0] }
        } else {
            items[0]
        };
        prepend(seq![d], addr_kind_steps(items.drop_first(), replies.drop_first()))
    }
}

/// Look up each entry's address kind - one `bluetoothctl info` per address,
/// so it runs on the worker when a discovered list is assembled, never on the
/// UI thread. Without it every address looks stable and nothing groups.
pub fn fill_addr_kinds(items: &Vec<Discovered>, replies: &Vec<Reply>) -> (r: Step<
    Vec<Discovered>,
>)
    ensures
        r@ == addr_kind_steps(items.deep_view(), replies.deep_view()),
{
    let ghost all = items.deep_view();
    let ghost rs = replies.deep_view();
    let mut out: Vec<Discovered> = Vec::new();
    let mut i: usize = 0;
    let mut used: usize = 0;
    assert(all.skip(0) =~= all);
    assert(rs.skip(0) =~= rs);
    assert(out.deep_view() =~= Seq::<DiscoveredModel>::empty());
    proof {
        lemma_prepend_nothing(addr_kind_steps(all, rs));
    }
    while i < items.len()
        invariant
            i <= items@.len(),
            used <= replies@.len(),
            all == items.deep_view(),
            rs == replies.deep_view(),
            prepend(
                out.deep_view(),
                addr_kind_steps(all.skip(i as int), rs.skip(used as int)),
            ) == addr_kind_steps(all, rs),
        decreases items@.len() - i,
    {
        let ghost before = out.deep_view();
        let ghost rest = all.skip(i as int);
        let ghost now = rs.skip(used as int);
        assert(rest[0] == items@[i as int]@);
        assert(rest.drop_first() =~= all.skip(i + 1));
        let mut d = items[i].clone();
        if d.addr == AddrKind::Unknown {
            if used == replies.len() {
                return Step::Run(args2("info", d.mac.as_str()));
            }
            assert(now[0] == replies@[used as int]@);
            assert(now.drop_first() =~= rs.skip(used + 1));
            if replies[used].ok {
                d.addr = parse_info(replies[used].out.as_str()).addr;
            }
            used += 1;
        }
        let ghost dm = d@;
        out.push(d);
        assert(out.deep_view() =~= before.push(dm));
        proof {
            lemma_prepend_one(before, dm, addr_kind_steps(all.skip(i + 1), rs.skip(used as int)));
        }
        i += 1;
    }
    assert(all.skip(i as int) =~= Seq::<DiscoveredModel>::empty());
    assert(out.deep_view() + Seq::<DiscoveredModel>::empty() =~= out.deep_view());
    Step::Done(out)
}

// ---------------------------------------------------------------------------
// Ranking of addresses
// ---------------------------------------------------------------------------

/// How promising an address is for pairing; lower is better.
pub open spec fn rank(audio: AudioKind, addr: AddrKind) -> u8 {
    match audio {
        AudioKind::Classic => 0,
        AudioKind::NoAudio => if addr is Public {
            1
        } else {
            4
        },
        AudioKind::LeAudioOnly => if addr is Public {
            2
        } else {
            3
        },
    }
}

/// Lower is better. An unpaired classic device often hasn't been SDP-probed
/// yet and so advertises no UUIDs at all - a public address with no known
/// audio profile still outranks a confirmed LE-only one, because LE Audio
/// needs host support that classic audio does not.
pub fn candidate_rank(audio: AudioKind, addr: AddrKind) -> (r: u8)
    ensures
        r == rank(audio, addr),
{
    match (audio, addr) {
        (AudioKind::Classic, _) => 0,
        (AudioKind::NoAudio, AddrKind::Public) => 1,
        (AudioKind::LeAudioOnly, AddrKind::Public) => 2,
        (AudioKind::LeAudioOnly, _) => 3,
        (AudioKind::NoAudio, _) => 4,
    }
}

/// The rank of the address that an `info` reply is about.
pub open spec fn reply_rank(reply: ReplyModel) -> u8 {
    let i = info_or_unknown(reply);
    rank(i.audio, i.addr)
}

/// Of the addresses, those of rank `k`, in order.
pub open spec fn of_rank(macs: Seq<Seq<char>>, ranks: Seq<u8>, k: u8) -> Seq<Seq<char>>
    decreases macs.len(),
{
    if macs.len() == 0 || macs.len() != ranks.len() {
        Seq::empty()
    } else {
        let before = of_rank(macs.drop_last(), ranks.drop_last(), k);
        if ranks.last() == k {
            before.push(macs.last())
        } else {
            before
        }
    }
}

/// The addresses in order of rank, addresses of one rank in the order given.
pub open spec fn ranked(macs: Seq<Seq<char>>, ranks: Seq<u8>) -> Seq<Seq<char>> {
    of_rank(macs, ranks, 0) + of_rank(macs, ranks, 1) + of_rank(macs, ranks, 2) + of_rank(
        macs,
        ranks,
        3,
    ) + of_rank(macs, ranks, 4)
}

pub open spec fn reply_ranks(replies: Seq<ReplyModel>, n: nat) -> Seq<u8> {
    Seq::new(n, |i: int| reply_rank(replies[i]))
}

/// Ask for the state of each address in turn, then rank them.
pub open spec fn rank_steps(macs: Seq<Seq<char>>, replies: Seq<ReplyModel>) -> StepModel<
    Seq<Seq<char>>,
> {
    if replies.len() < macs.len() {
        StepModel::Run(seq!["info"@, macs[replies.len() as int]])
    } else {
        StepModel::Done(ranked(macs, reply_ranks(replies, macs.len())))
    }
}

fn collect_rank(macs: &Vec<String>, ranks: &Vec<u8>, k: u8, out: &mut Vec<String>)
    requires
        macs@.len() == ranks@.len(),
    ensures
        final(out).deep_view() == old(out).deep_view() + of_rank(macs.deep_view(), ranks@, k),
{
    let ghost start = out.deep_view();
    let ghost ms = macs.deep_view();
    let mut i: usize = 0;
    assert(start + of_rank(ms.take(0), ranks@.take(0), k) =~= start);
    while i < macs.len()
        invariant
            i <= macs@.len(),
            macs@.len() == ranks@.len(),
            ms == macs.deep_view(),
            out.deep_view() == start + of_rank(ms.take(i as int), ranks@.take(i as int), k),
        decreases macs@.len() - i,
    {
        let ghost before = out.deep_view();
        assert(ms.take(i + 1).drop_last() =~= ms.take(i as int));
        assert(ranks@.take(i + 1).drop_last() =~= ranks@.take(i as int));
        assert(ms[i as int] == macs@[i as int]@);
        if ranks[i] == k {
            push_text(out, macs[i].as_str());
            let ghost found = of_rank(ms.take(i as int), ranks@.take(i as int), k);
            assert((start + found).push(ms[i as int]) =~= start + found.push(ms[i as int]));
        }
        i += 1;
    }
    assert(ms.take(i as int) =~= ms);
    assert(ranks@.take(i as int) =~= ranks@);
}

/// Order one group's addresses best-first for pairing. Costs one `info` call
/// per address, so it runs at pair time on a single group - never during the
/// scan.
pub fn rank_candidates(macs: &Vec<String>, replies: &Vec<Reply>) -> (r: Step<Vec<String>>)
    ensures
        r@ == rank_steps(macs.deep_view(), replies.deep_view()),
{
    if replies.len() < macs.len() {
        let k: usize = replies.len();
        assert(macs.deep_view()[k as int] == macs@[k as int]@);
        return Step::Run(args2("info", macs[k].as_str()));
    }
    let ghost want = reply_ranks(replies.deep_view(), macs@.len());
    let mut ranks: Vec<u8> = Vec::new();
    let mut i: usize = 0;
    while i < macs.len()
        invariant
            i <= macs@.len() <= replies@.len(),
            want == reply_ranks(replies.deep_view(), macs@.len()),
            ranks@ == want.take(i as int),
        decreases macs@.len() - i,
    {
        let state = info_or_default(&replies[i]);
        assert(replies.deep_view()[i as int] == replies@[i as int]@);
        ranks.push(candidate_rank(state.audio, state.addr));
        assert(want.take(i + 1) =~= want.take(i as int).push(want[i as int]));
        i += 1;
    }
    assert(want.take(i as int) =~= want);
    let mut out: Vec<String> = Vec::new();
    assert(out.deep_view() =~= Seq::<Seq<char>>::empty());
    collect_rank(macs, &ranks, 0, &mut out);
    assert(out.deep_view() =~= of_rank(macs.deep_view(), ranks@, 0));
    collect_rank(macs, &ranks, 1, &mut out);
    collect_rank(macs, &ranks, 2, &mut out);
    collect_rank(macs, &ranks, 3, &mut out);
    collect_rank(macs, &ranks, 4, &mut out);
    Step::Done(out)
}

} // verus!
