//! What `bluetoothctl` is asked, and what is made of its replies.

use vstd::prelude::*;

use crate::shell::{ReplyModel, StepModel};
use crate::text;
use crate::text::trimmed;

use super::calls::{
    adapter_steps, addr_kind_steps, battery_steps, discovered_in, discovered_steps, first_failed,
    found_on, info_raw_steps, info_steps, of_rank, paired_devices_steps, paired_listing,
    paired_listing_calls, paired_macs_steps, rank, rank_steps, ranked, reply_rank, reply_ranks,
    scan_live_steps, single_call, told_states,
};
use super::reading::{
    errors_are_told_in_the_first_words, flag_line, has_line, lemma_flag,
    listed_addresses_are_the_devices, offers_are_for_strangers, only_on,
};
use super::{
    device_entries, diagnostic, info_of, is_mac_name, listed_macs, scan_entry, AddrKind, AudioKind,
    DeviceModel, DiscoveredModel, Info,
};

verus! {

// ---------------------------------------------------------------------------
// Single calls
// ---------------------------------------------------------------------------

/// A single call is made once, and has worked exactly if the tool says so.
pub proof fn single_calls_report_the_outcome(args: Seq<Seq<char>>, reply: ReplyModel)
    ensures
        single_call(args, Seq::empty()) == StepModel::<bool>::Run(args),
        single_call(args, seq![reply]) == StepModel::Done(reply.ok),
{
}

/// A device is asked about by its own address. A reply that failed gives its
/// reason and no state; one that did not gives its output, and the state that
/// this tells.
pub proof fn queries_are_about_the_device(mac: Seq<char>, reply: ReplyModel)
    ensures
        info_steps(mac, Seq::empty()) == StepModel::<Result<Info, Seq<char>>>::Run(
            seq!["info"@, mac],
        ),
        info_raw_steps(mac, Seq::empty()) == StepModel::<Result<Seq<char>, Seq<char>>>::Run(
            seq!["info"@, mac],
        ),
        reply.ok ==> info_steps(mac, seq![reply]) == StepModel::Done(
            Ok::<Info, Seq<char>>(info_of(reply.out)),
        ) && info_raw_steps(mac, seq![reply]) == StepModel::Done(
            Ok::<Seq<char>, Seq<char>>(reply.out),
        ),
        !reply.ok && trimmed(reply.err).len() > 0 ==> info_steps(mac, seq![reply])
            == StepModel::Done(Err::<Info, Seq<char>>(trimmed(reply.err))) && info_raw_steps(
            mac,
            seq![reply],
        ) == StepModel::Done(Err::<Seq<char>, Seq<char>>(trimmed(reply.err))),
        !reply.ok ==> (info_steps(mac, seq![reply]) matches StepModel::Done(Err(_))) && (
        info_raw_steps(mac, seq![reply]) matches StepModel::Done(Err(_))),
{
    errors_are_told_in_the_first_words(seq![reply.err, reply.out], 0);
}

// ---------------------------------------------------------------------------
// The adapter
// ---------------------------------------------------------------------------

/// The adapter is asked first. It is switched on where it says that it is off,
/// and only there; what comes of that is what the tool says.
pub proof fn adapter_is_switched_on_when_off(show: ReplyModel, on: ReplyModel, yes: bool)
    requires
        show.ok,
        has_line(show.out, flag_line("Powered"@, yes)),
        only_on(show.out, "Powered: "@, flag_line("Powered"@, yes)),
    ensures
        adapter_steps(Seq::empty()) == StepModel::<Result<(), Seq<char>>>::Run(seq!["show"@]),
        yes ==> adapter_steps(seq![show]) == StepModel::Done(Ok::<(), Seq<char>>(())),
        !yes ==> adapter_steps(seq![show]) == StepModel::<Result<(), Seq<char>>>::Run(
            seq!["power"@, "on"@],
        ),
        !yes && on.ok ==> adapter_steps(seq![show, on]) == StepModel::Done(
            Ok::<(), Seq<char>>(()),
        ),
        !yes && !on.ok ==> (adapter_steps(seq![show, on]) matches StepModel::Done(Err(_))),
{
    reveal_strlit("Powered");
    reveal_strlit("Powered: ");
    reveal_strlit("Powered: yes");
    reveal_strlit(": ");
    reveal_strlit(": yes");
    assert("Powered"@ + ": yes"@ =~= "Powered: yes"@);
    assert("Powered"@ + ": "@ =~= "Powered: "@);
    lemma_flag(show.out, "Powered"@, yes, "Powered: yes"@);
}

/// An adapter that cannot be asked is an error, with the tool's reason behind
/// our words, and nothing is switched.
pub proof fn missing_adapter_is_an_error(replies: Seq<ReplyModel>)
    requires
        replies.len() > 0,
        !replies[0].ok,
        trimmed(replies[0].err).len() > 0,
    ensures
        adapter_steps(replies) == StepModel::Done(
            Err::<(), Seq<char>>("Bluetooth adapter unavailable: "@ + trimmed(replies[0].err)),
        ),
{
    errors_are_told_in_the_first_words(seq![replies[0].err, replies[0].out], 0);
}

// ---------------------------------------------------------------------------
// Paired devices
// ---------------------------------------------------------------------------

/// The reply worked, and lists a device.
pub open spec fn lists_some(reply: ReplyModel) -> bool {
    reply.ok && device_entries(reply.out).len() > 0
}

/// The newer call is made first, and the older one only where the newer told of
/// no device. A listing that tells of a device is never passed over, and it is
/// an error only where both calls failed.
pub proof fn either_listing_will_do(a: ReplyModel, b: ReplyModel)
    ensures
        paired_listing(Seq::empty()) == StepModel::<Result<Seq<char>, Seq<char>>>::Run(
            seq!["devices"@, "Paired"@],
        ),
        lists_some(a) ==> paired_listing(seq![a]) == StepModel::Done(
            Ok::<Seq<char>, Seq<char>>(a.out),
        ),
        !lists_some(a) ==> paired_listing(seq![a]) == StepModel::<
            Result<Seq<char>, Seq<char>>,
        >::Run(seq!["paired-devices"@]),
        !lists_some(a) && lists_some(b) ==> paired_listing(seq![a, b]) == StepModel::Done(
            Ok::<Seq<char>, Seq<char>>(b.out),
        ),
        !a.ok && b.ok ==> paired_listing(seq![a, b]) == StepModel::Done(
            Ok::<Seq<char>, Seq<char>>(b.out),
        ),
        a.ok && !b.ok ==> paired_listing(seq![a, b]) == StepModel::Done(
            Ok::<Seq<char>, Seq<char>>(a.out),
        ),
        (paired_listing(seq![a, b]) matches StepModel::Done(Err(_))) <==> !a.ok && !b.ok,
{
}

/// The addresses left out of an offer are those of the listed devices.
pub proof fn paired_addresses_are_the_listed_ones(replies: Seq<ReplyModel>, i: int)
    ensures
        paired_listing(replies) matches StepModel::Done(Ok(listing)) ==> (paired_macs_steps(
            replies,
        ) matches StepModel::Done(Ok(macs)) && macs.len() == device_entries(listing).len() && (0
            <= i < macs.len() ==> macs[i] == device_entries(listing)[i].0)),
        paired_listing(replies) matches StepModel::Done(Err(e)) ==> paired_macs_steps(replies)
            == StepModel::Done(Err::<Seq<Seq<char>>, Seq<char>>(e)),
{
    if let StepModel::Done(Ok(listing)) = paired_listing(replies) {
        if 0 <= i < device_entries(listing).len() {
            listed_addresses_are_the_devices(listing, i);
        }
    }
}

/// Once the devices are listed, those that are connected are asked for, then
/// those that are trusted.
pub proof fn states_are_asked_for(listing: ReplyModel, connected: ReplyModel)
    requires
        lists_some(listing),
    ensures
        paired_devices_steps(seq![listing]) == StepModel::<
            Result<Seq<DeviceModel>, Seq<char>>,
        >::Run(seq!["devices"@, "Connected"@]),
        paired_devices_steps(seq![listing, connected]) == StepModel::<
            Result<Seq<DeviceModel>, Seq<char>>,
        >::Run(seq!["devices"@, "Trusted"@]),
{
    assert(seq![listing].skip(1) =~= Seq::<ReplyModel>::empty());
    assert(seq![listing, connected].skip(1) =~= seq![connected]);
}

/// How many of the first `n` devices are connected and tell no battery yet.
pub open spec fn uncharged(devices: Seq<DeviceModel>, n: int) -> int
    decreases n,
{
    if n <= 0 || n > devices.len() {
        0
    } else {
        uncharged(devices, n - 1) + (if devices[n - 1].connected && devices[n - 1].battery
            is None {
            1int
        } else {
            0int
        })
    }
}

proof fn lemma_uncharged(devices: Seq<DeviceModel>, n: int)
    requires
        0 <= n < devices.len(),
    ensures
        uncharged(devices, n + 1) == uncharged(devices.drop_first(), n) + (if devices[0].connected
            && devices[0].battery is None {
            1int
        } else {
            0int
        }),
        uncharged(devices, n + 1) >= 0,
        uncharged(devices.drop_first(), n) >= 0,
    decreases n,
{
    if n > 0 {
        lemma_uncharged(devices, n - 1);
        assert(devices.drop_first()[n - 1] == devices[n]);
    } else {
        assert(uncharged(devices, 0) == 0);
    }
}

/// Each connected device that tells no battery yet is asked for it, in turn, and
/// has in the list the charge that its own reply tells; where that failed, none.
pub proof fn batteries_are_told_in_turn(
    devices: Seq<DeviceModel>,
    replies: Seq<ReplyModel>,
    i: int,
)
    requires
        0 <= i < devices.len(),
        devices[i].connected,
        devices[i].battery is None,
    ensures
        battery_steps(devices, replies) matches StepModel::Done(out) ==> ({
            let k = uncharged(devices, i);
            &&& out.len() == devices.len()
            &&& 0 <= k < replies.len()
            &&& out[i].battery == (if replies[k].ok {
                info_of(replies[k].out).battery
            } else {
                None
            })
        }),
        replies.len() == 0 && uncharged(devices, i) == 0 ==> battery_steps(devices, replies)
            == StepModel::<Seq<DeviceModel>>::Run(seq!["info"@, devices[i].mac]),
    decreases devices.len(),
{
    let rest = devices.drop_first();
    let asks = devices[0].connected && devices[0].battery is None;
    let rs = if asks && replies.len() > 0 {
        replies.drop_first()
    } else {
        replies
    };
    if i > 0 {
        assert(rest[i - 1] == devices[i]);
        lemma_uncharged(devices, i - 1);
        batteries_are_told_in_turn(rest, rs, i - 1);
    } else if let StepModel::Done(out) = battery_steps(rest, rs) {
        lemma_battery_len(rest, rs);
    }
}

proof fn lemma_battery_len(devices: Seq<DeviceModel>, replies: Seq<ReplyModel>)
    ensures
        battery_steps(devices, replies) matches StepModel::Done(out) ==> out.len() == devices.len(),
    decreases devices.len(),
{
    if devices.len() > 0 {
        lemma_battery_len(devices.drop_first(), replies);
        lemma_battery_len(devices.drop_first(), replies.drop_first());
    }
}

/// The list of devices is complete once every connected device that tells no
/// battery has answered for itself, and not before.
pub proof fn batteries_are_waited_for(devices: Seq<DeviceModel>, replies: Seq<ReplyModel>)
    ensures
        battery_steps(devices, replies) is Done <==> replies.len() >= uncharged(
            devices,
            devices.len() as int,
        ),
    decreases devices.len(),
{
    if devices.len() > 0 {
        let rest = devices.drop_first();
        lemma_uncharged(devices, devices.len() - 1);
        if devices[0].connected && devices[0].battery is None && replies.len() > 0 {
            batteries_are_waited_for(rest, replies.drop_first());
        } else {
            batteries_are_waited_for(rest, replies);
        }
    }
}

/// Where the connected or the trusted devices could not be listed, each device is
/// asked for its state, in turn. The first that fails is the error, in its own
/// words; where none does, and where both were listed, the list is no error.
pub proof fn unlisted_states_are_asked_one_by_one(
    replies: Seq<ReplyModel>,
    listing: Seq<char>,
    k: int,
)
    requires
        paired_listing(replies) == StepModel::Done(Ok::<Seq<char>, Seq<char>>(listing)),
        replies.len() >= paired_listing_calls(replies) + 2,
    ensures
        ({
            let entries = device_entries(listing);
            let rs = replies.skip(paired_listing_calls(replies));
            let told = rs.skip(2);
            let out = paired_devices_steps(replies);
            let all_ok = |n: int| forall|j: int| 0 <= j < n ==> (#[trigger] told[j]).ok;
            &&& rs[0].ok && rs[1].ok ==> !(out matches StepModel::Done(Err(_)))
            &&& !(rs[0].ok && rs[1].ok) ==> {
                &&& 0 <= k < told.len() && k < entries.len() && !told[k].ok && all_ok(k) ==> out
                    == StepModel::Done(
                    Err::<Seq<DeviceModel>, Seq<char>>(
                        diagnostic(seq![told[k].err, told[k].out]),
                    ),
                )
                &&& told.len() < entries.len() && all_ok(told.len() as int) ==> out
                    == StepModel::<Result<Seq<DeviceModel>, Seq<char>>>::Run(
                    seq!["info"@, entries[told.len() as int].0],
                )
                &&& told.len() >= entries.len() && all_ok(entries.len() as int) ==> !(
                out matches StepModel::Done(Err(_)))
            }
        }),
{
    let entries = device_entries(listing);
    let rs = replies.skip(paired_listing_calls(replies));
    let told = rs.skip(2);
    let states = told_states(entries.len(), told);
    lemma_first_failure(states, k);
    lemma_first_failure(states, states.len() as int);
    assert forall|j: int| 0 <= j < states.len() implies #[trigger] states[j] == told[j] by {}
}

proof fn lemma_first_failure(replies: Seq<ReplyModel>, k: int)
    ensures
        0 <= k < replies.len() && !replies[k].ok && (forall|j: int|
            0 <= j < k ==> (#[trigger] replies[j]).ok) ==> first_failed(replies) == Some(
            replies[k],
        ),
        (forall|j: int| 0 <= j < replies.len() ==> (#[trigger] replies[j]).ok) ==> first_failed(
            replies,
        ) is None,
    decreases replies.len(),
{
    if replies.len() > 0 {
        let shorter = replies.drop_last();
        assert forall|j: int| 0 <= j < shorter.len() implies #[trigger] shorter[j]
            == replies[j] by {}
        if 0 <= k < shorter.len() {
            lemma_first_failure(shorter, k);
        } else {
            lemma_first_failure(shorter, shorter.len() as int);
        }
    }
}

// ---------------------------------------------------------------------------
// Discovery
// ---------------------------------------------------------------------------

/// Every listed stranger is offered under its address and name, its address not
/// yet classified.
pub proof fn every_stranger_is_offered(
    entries: Seq<(Seq<char>, Seq<char>)>,
    paired: Seq<Seq<char>>,
    i: int,
)
    requires
        0 <= i < entries.len(),
        !paired.contains(entries[i].0),
        !is_mac_name(entries[i].1, entries[i].0),
    ensures
        exists|k: int|
            0 <= k < discovered_in(entries, paired).len() && #[trigger] discovered_in(
                entries,
                paired,
            )[k] == (DiscoveredModel {
                mac: entries[i].0,
                name: entries[i].1,
                addr: AddrKind::Unknown,
            }),
    decreases entries.len(),
{
    let all = discovered_in(entries, paired);
    let before = discovered_in(entries.drop_last(), paired);
    offers_are_for_strangers(paired, entries[i].0, entries[i].1);
    let want = DiscoveredModel {
        mac: entries[i].0,
        name: entries[i].1,
        addr: AddrKind::Unknown,
    };
    if i == entries.len() - 1 {
        assert(all[before.len() as int] == want);
    } else {
        every_stranger_is_offered(entries.drop_last(), paired, i);
        let k = choose|k: int| 0 <= k < before.len() && #[trigger] before[k] == want;
        assert(all[k] == want);
    }
}

/// The devices in sight are asked for once the paired ones are known, and are
/// those of that listing; one that failed is an error.
pub proof fn strangers_are_asked_for(paired: ReplyModel, all: ReplyModel)
    requires
        lists_some(paired),
    ensures
        discovered_steps(seq![paired]) == StepModel::<
            Result<Seq<DiscoveredModel>, Seq<char>>,
        >::Run(seq!["devices"@]),
        all.ok ==> (discovered_steps(seq![paired, all]) matches StepModel::Done(Ok(items))
            && items == discovered_in(device_entries(all.out), listed_macs(paired.out))),
        !all.ok ==> (discovered_steps(seq![paired, all]) matches StepModel::Done(Err(_))),
{
    assert(seq![paired].skip(1) =~= Seq::<ReplyModel>::empty());
    assert(seq![paired, all].skip(1) =~= seq![all]);
}

/// A line of a running scan offers the stranger that it announces, and nothing
/// else.
pub proof fn scan_lines_offer_strangers(paired: Seq<Seq<char>>, line: Seq<char>)
    ensures
        scan_entry(line) is None ==> found_on(paired, line) is None,
        scan_entry(line) matches Some((mac, name)) ==> {
            &&& paired.contains(mac) || is_mac_name(name, mac) ==> found_on(paired, line) is None
            &&& !paired.contains(mac) && !is_mac_name(name, mac) ==> found_on(paired, line) == Some(
                DiscoveredModel { mac, name, addr: AddrKind::Unknown },
            )
        },
{
    if let Some((mac, name)) = scan_entry(line) {
        offers_are_for_strangers(paired, mac, name);
    }
}

/// A scan lasts as long as it is told to, and leaves the paired devices out;
/// where they cannot be listed it leaves none out.
pub proof fn scans_are_started_as_told(secs: nat, replies: Seq<ReplyModel>)
    ensures
        scan_live_steps(secs, replies) matches StepModel::Done((paired, args)) ==> {
            &&& args == seq!["--timeout"@, text::decimal(secs), "scan"@, "on"@]
            &&& paired_macs_steps(replies) matches StepModel::Done(Ok(macs)) ==> paired == macs
            &&& paired_macs_steps(replies) matches StepModel::Done(Err(_)) ==> paired.len() == 0
        },
        paired_macs_steps(replies) matches StepModel::Done(_) ==> scan_live_steps(secs, replies)
            is Done,
{
}

/// How many of the first `n` devices have an address of unknown kind.
pub open spec fn unknowns(items: Seq<DiscoveredModel>, n: int) -> int
    decreases n,
{
    if n <= 0 || n > items.len() {
        0
    } else {
        unknowns(items, n - 1) + (if items[n - 1].addr is Unknown {
            1int
        } else {
            0int
        })
    }
}

proof fn lemma_unknowns(items: Seq<DiscoveredModel>, n: int)
    requires
        0 <= n < items.len(),
    ensures
        unknowns(items, n + 1) == unknowns(items.drop_first(), n) + (if items[0].addr is Unknown {
            1int
        } else {
            0int
        }),
        unknowns(items, n + 1) >= 0,
        unknowns(items.drop_first(), n) >= 0,
    decreases n,
{
    if n > 0 {
        lemma_unknowns(items, n - 1);
        assert(items.drop_first()[n - 1] == items[n]);
    } else {
        assert(unknowns(items, 0) == 0);
    }
}

/// Each address of unknown kind is asked about, in turn, and is then of the kind
/// that its own reply tells; where that failed, still unknown.
pub proof fn address_kinds_are_told_in_turn(
    items: Seq<DiscoveredModel>,
    replies: Seq<ReplyModel>,
    i: int,
)
    requires
        0 <= i < items.len(),
        items[i].addr is Unknown,
    ensures
        addr_kind_steps(items, replies) matches StepModel::Done(out) ==> ({
            let k = unknowns(items, i);
            &&& out.len() == items.len()
            &&& 0 <= k < replies.len()
            &&& out[i].addr == (if replies[k].ok {
                info_of(replies[k].out).addr
            } else {
                AddrKind::Unknown
            })
        }),
        replies.len() == 0 && unknowns(items, i) == 0 ==> addr_kind_steps(items, replies)
            == StepModel::<Seq<DiscoveredModel>>::Run(seq!["info"@, items[i].mac]),
    decreases items.len(),
{
    let rest = items.drop_first();
    let asks = items[0].addr is Unknown;
    let rs = if asks && replies.len() > 0 {
        replies.drop_first()
    } else {
        replies
    };
    if i > 0 {
        assert(rest[i - 1] == items[i]);
        lemma_unknowns(items, i - 1);
        address_kinds_are_told_in_turn(rest, rs, i - 1);
    } else {
        lemma_kind_len(rest, rs);
    }
}

proof fn lemma_kind_len(items: Seq<DiscoveredModel>, replies: Seq<ReplyModel>)
    ensures
        addr_kind_steps(items, replies) matches StepModel::Done(out) ==> out.len() == items.len(),
    decreases items.len(),
{
    if items.len() > 0 {
        lemma_kind_len(items.drop_first(), replies);
        lemma_kind_len(items.drop_first(), replies.drop_first());
    }
}

// ---------------------------------------------------------------------------
// Ranking
// ---------------------------------------------------------------------------

/// Classic audio comes first, whatever the address. A public address of which
/// nothing is known comes next, since classic audio may not have been asked
/// about yet; then LE Audio, a public address before any other; and an address
/// that is neither public nor known to carry audio comes last.
pub proof fn ranks_follow_what_can_play(a: AddrKind, b: AddrKind)
    ensures
        rank(AudioKind::Classic, a) == rank(AudioKind::Classic, b),
        rank(AudioKind::Classic, a) < rank(AudioKind::NoAudio, b),
        rank(AudioKind::Classic, a) < rank(AudioKind::LeAudioOnly, b),
        rank(AudioKind::NoAudio, AddrKind::Public) < rank(AudioKind::LeAudioOnly, a),
        !(a is Public) ==> rank(AudioKind::LeAudioOnly, AddrKind::Public) < rank(
            AudioKind::LeAudioOnly,
            a,
        ),
        !(b is Public) ==> rank(AudioKind::LeAudioOnly, a) < rank(AudioKind::NoAudio, b),
        !(a is Public) && !(b is Public) ==> rank(AudioKind::LeAudioOnly, a) == rank(
            AudioKind::LeAudioOnly,
            b,
        ) && rank(AudioKind::NoAudio, a) == rank(AudioKind::NoAudio, b),
        rank(AudioKind::NoAudio, b) <= 4,
{
}

/// An address ranks by what its own reply tells of it; one whose query failed
/// ranks as one of which nothing is known.
pub proof fn addresses_rank_by_their_reply(reply: ReplyModel)
    ensures
        reply.ok ==> reply_rank(reply) == rank(info_of(reply.out).audio, info_of(reply.out).addr),
        !reply.ok ==> reply_rank(reply) == rank(AudioKind::NoAudio, AddrKind::Unknown),
{
}

/// Each address is asked about in turn before they are ranked.
pub proof fn candidates_are_asked_about(macs: Seq<Seq<char>>, replies: Seq<ReplyModel>)
    ensures
        replies.len() < macs.len() ==> rank_steps(macs, replies) == StepModel::<
            Seq<Seq<char>>,
        >::Run(seq!["info"@, macs[replies.len() as int]]),
        replies.len() >= macs.len() ==> rank_steps(macs, replies) is Done,
{
}

/// The two addresses have places in the ranking, in that order.
pub open spec fn tried_before(best: Seq<Seq<char>>, first: Seq<char>, second: Seq<char>) -> bool {
    exists|a: int, b: int|
        0 <= a < b < best.len() && #[trigger] best[a] == first && #[trigger] best[b] == second
}

/// An address that ranks better than another, or as well and came earlier, is
/// tried before it.
pub proof fn ranking_is_in_order(macs: Seq<Seq<char>>, replies: Seq<ReplyModel>, i: int, j: int)
    requires
        replies.len() >= macs.len(),
        0 <= i < macs.len(),
        0 <= j < macs.len(),
        reply_rank(replies[i]) < reply_rank(replies[j]) || (reply_rank(replies[i]) == reply_rank(
            replies[j],
        ) && i < j),
    ensures
        rank_steps(macs, replies) matches StepModel::Done(best) && tried_before(
            best,
            macs[i],
            macs[j],
        ),
{
    let ranks = reply_ranks(replies, macs.len());
    let best = ranked(macs, ranks);
    assert(ranks[i] == reply_rank(replies[i]) && ranks[j] == reply_rank(replies[j]));
    let a = lemma_place(macs, ranks, i);
    let b = lemma_place(macs, ranks, j);
    lemma_rank_bound(replies[i]);
    lemma_rank_bound(replies[j]);
    let p = lemma_place_in_all(macs, ranks, i, a);
    let q = lemma_place_in_all(macs, ranks, j, b);
    if ranks[i] == ranks[j] {
        lemma_places_in_order(macs, ranks, i, j);
    }
    lemma_offsets(macs, ranks, ranks[i], ranks[j]);
    assert(0 <= p < q < best.len() && best[p] == macs[i] && best[q] == macs[j]);
    assert(rank_steps(macs, replies) == StepModel::Done(best));
    assert(tried_before(best, macs[i], macs[j]));
}

proof fn lemma_rank_bound(reply: ReplyModel)
    ensures
        reply_rank(reply) <= 4,
{
}

/// How many of the first `i` addresses are of the rank of address `i`.
spec fn place(ranks: Seq<u8>, i: int, n: int) -> int
    decreases n,
{
    if n <= 0 {
        0
    } else {
        place(ranks, i, n - 1) + (if ranks[n - 1] == ranks[i] {
            1int
        } else {
            0int
        })
    }
}

proof fn lemma_of_rank_len(macs: Seq<Seq<char>>, ranks: Seq<u8>, i: int, n: int)
    requires
        macs.len() == ranks.len(),
        0 <= i < macs.len(),
        0 <= n <= macs.len(),
    ensures
        of_rank(macs.take(n), ranks.take(n), ranks[i]).len() == place(ranks, i, n),
    decreases n,
{
    if n > 0 {
        lemma_of_rank_len(macs, ranks, i, n - 1);
        assert(macs.take(n).drop_last() =~= macs.take(n - 1));
        assert(ranks.take(n).drop_last() =~= ranks.take(n - 1));
    }
}

proof fn lemma_of_rank_prefix(macs: Seq<Seq<char>>, ranks: Seq<u8>, k: u8, n: int, j: int)
    requires
        macs.len() == ranks.len(),
        0 <= n <= macs.len(),
        0 <= j < of_rank(macs.take(n), ranks.take(n), k).len(),
    ensures
        j < of_rank(macs, ranks, k).len(),
        of_rank(macs, ranks, k)[j] == of_rank(macs.take(n), ranks.take(n), k)[j],
    decreases macs.len() - n,
{
    if n == macs.len() {
        assert(macs.take(n) =~= macs);
        assert(ranks.take(n) =~= ranks);
    } else {
        assert(macs.take(n + 1).drop_last() =~= macs.take(n));
        assert(ranks.take(n + 1).drop_last() =~= ranks.take(n));
        lemma_of_rank_prefix(macs, ranks, k, n + 1, j);
    }
}

proof fn lemma_place(macs: Seq<Seq<char>>, ranks: Seq<u8>, i: int) -> (a: int)
    requires
        macs.len() == ranks.len(),
        0 <= i < macs.len(),
    ensures
        a == place(ranks, i, i),
        0 <= a < of_rank(macs, ranks, ranks[i]).len(),
        of_rank(macs, ranks, ranks[i])[a] == macs[i],
{
    let k = ranks[i];
    lemma_of_rank_len(macs, ranks, i, i);
    assert(macs.take(i + 1).drop_last() =~= macs.take(i));
    assert(ranks.take(i + 1).drop_last() =~= ranks.take(i));
    let a = place(ranks, i, i);
    lemma_of_rank_prefix(macs, ranks, k, i + 1, a);
    a
}

proof fn lemma_places_in_order(macs: Seq<Seq<char>>, ranks: Seq<u8>, i: int, j: int)
    requires
        macs.len() == ranks.len(),
        0 <= i < j < macs.len(),
        ranks[i] == ranks[j],
    ensures
        place(ranks, i, i) < place(ranks, j, j),
{
    lemma_place_grows(ranks, i, j, i, j);
}

proof fn lemma_place_grows(ranks: Seq<u8>, i: int, j: int, m: int, n: int)
    requires
        0 <= i < ranks.len(),
        0 <= j < ranks.len(),
        ranks[i] == ranks[j],
        0 <= m < n,
        ranks[m] == ranks[i],
    ensures
        place(ranks, i, m) < place(ranks, j, n),
    decreases n,
{
    lemma_place_same(ranks, i, j, m);
    if n > m + 1 {
        lemma_place_grows(ranks, i, j, m, n - 1);
    }
}

proof fn lemma_place_same(ranks: Seq<u8>, i: int, j: int, n: int)
    requires
        ranks[i] == ranks[j],
    ensures
        place(ranks, i, n) == place(ranks, j, n),
    decreases n,
{
    if n > 0 {
        lemma_place_same(ranks, i, j, n - 1);
    }
}

/// Where the addresses of a rank begin in the ranking.
spec fn offset(macs: Seq<Seq<char>>, ranks: Seq<u8>, k: u8) -> int
    decreases k,
{
    if k == 0 {
        0
    } else {
        offset(macs, ranks, (k - 1) as u8) + of_rank(macs, ranks, (k - 1) as u8).len()
    }
}

proof fn lemma_offsets(macs: Seq<Seq<char>>, ranks: Seq<u8>, k: u8, l: u8)
    ensures
        k < l ==> offset(macs, ranks, k) + of_rank(macs, ranks, k).len() <= offset(macs, ranks, l),
    decreases l,
{
    if k < l {
        if k < l - 1 {
            lemma_offsets(macs, ranks, k, (l - 1) as u8);
        }
    }
}

proof fn lemma_place_in_all(macs: Seq<Seq<char>>, ranks: Seq<u8>, i: int, a: int) -> (p: int)
    requires
        macs.len() == ranks.len(),
        0 <= i < macs.len(),
        ranks[i] <= 4,
        0 <= a < of_rank(macs, ranks, ranks[i]).len(),
        of_rank(macs, ranks, ranks[i])[a] == macs[i],
    ensures
        p == offset(macs, ranks, ranks[i]) + a,
        0 <= p < ranked(macs, ranks).len(),
        ranked(macs, ranks)[p] == macs[i],
{
    reveal_with_fuel(offset, 6);
    offset(macs, ranks, ranks[i]) + a
}

} // verus!
