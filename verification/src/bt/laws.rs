//! What holds of the operations on `bluetoothctl`, whatever it replies.

use vstd::prelude::*;

use crate::ansi::{plain_text_passes, printable, stripped};
use crate::shell::{ReplyModel, StepModel};
use crate::text;
use crate::text::laws::{
    cuts_lose_the_separator, parts_are_found_first, parts_occur, prefixes_come_off,
};

use super::calls::{
    adapter_steps, addr_kind_steps, battery_steps, device_steps, discovered_in, first_failed,
    info_result, listed_devices, of_rank, paired_devices_steps, paired_listing,
    paired_listing_calls, queried_devices, rank_steps, ranked, reply_rank, reply_ranks,
    told_states, wants_battery,
};
use super::{
    device_entries, info_of, is_discoverable, listed_macs, scan_entry, tagged, AddrKind,
    DeviceModel, DiscoveredModel,
};

verus! {

// ---------------------------------------------------------------------------
// Ranking
// ---------------------------------------------------------------------------

pub open spec fn valid_ranks(ranks: Seq<u8>) -> bool {
    forall|i: int| 0 <= i < ranks.len() ==> #[trigger] ranks[i] <= 4
}

/// How often an address stands in a list.
pub open spec fn occurrences(macs: Seq<Seq<char>>, mac: Seq<char>) -> nat
    decreases macs.len(),
{
    if macs.len() == 0 {
        0
    } else {
        occurrences(macs.drop_last(), mac) + (if macs.last() == mac {
            1nat
        } else {
            0nat
        })
    }
}

proof fn lemma_occurrences_add(a: Seq<Seq<char>>, b: Seq<Seq<char>>, mac: Seq<char>)
    ensures
        occurrences(a + b, mac) == occurrences(a, mac) + occurrences(b, mac),
    decreases b.len(),
{
    if b.len() == 0 {
        assert(a + b =~= a);
    } else {
        assert((a + b).drop_last() =~= a + b.drop_last());
        lemma_occurrences_add(a, b.drop_last(), mac);
    }
}

proof fn lemma_ranked_occurrences(macs: Seq<Seq<char>>, ranks: Seq<u8>, mac: Seq<char>)
    requires
        macs.len() == ranks.len(),
        valid_ranks(ranks),
    ensures
        occurrences(macs, mac) == occurrences(of_rank(macs, ranks, 0), mac) + occurrences(
            of_rank(macs, ranks, 1),
            mac,
        ) + occurrences(of_rank(macs, ranks, 2), mac) + occurrences(of_rank(macs, ranks, 3), mac)
            + occurrences(of_rank(macs, ranks, 4), mac),
    decreases macs.len(),
{
    if macs.len() > 0 {
        let ms = macs.drop_last();
        let rs = ranks.drop_last();
        assert(valid_ranks(rs)) by {
            assert forall|i: int| 0 <= i < rs.len() implies #[trigger] rs[i] <= 4 by {
                assert(rs[i] == ranks[i]);
            }
        }
        lemma_ranked_occurrences(ms, rs, mac);
        let k = ranks.last();
        assert(k <= 4) by {
            assert(ranks[ranks.len() - 1] <= 4);
        }
        assert forall|j: u8| #[trigger] of_rank(macs, ranks, j) == (if j == k {
            of_rank(ms, rs, j).push(macs.last())
        } else {
            of_rank(ms, rs, j)
        }) by {}
        assert(of_rank(ms, rs, k).push(macs.last()).drop_last() =~= of_rank(ms, rs, k));
    }
}

/// Ranking loses no candidate and adds none: every address stands in the
/// ranking as often as it was given.
pub proof fn ranking_keeps_every_candidate(
    macs: Seq<Seq<char>>,
    replies: Seq<ReplyModel>,
    mac: Seq<char>,
)
    requires
        replies.len() >= macs.len(),
    ensures
        rank_steps(macs, replies) matches StepModel::Done(best) && occurrences(best, mac)
            == occurrences(macs, mac),
{
    let ranks = reply_ranks(replies, macs.len());
    let a = of_rank(macs, ranks, 0);
    let b = of_rank(macs, ranks, 1);
    let c = of_rank(macs, ranks, 2);
    let d = of_rank(macs, ranks, 3);
    let e = of_rank(macs, ranks, 4);
    lemma_ranked_occurrences(macs, ranks, mac);
    lemma_occurrences_add(a, b, mac);
    lemma_occurrences_add(a + b, c, mac);
    lemma_occurrences_add(a + b + c, d, mac);
    lemma_occurrences_add(a + b + c + d, e, mac);
}

/// The address is a candidate of that rank.
pub open spec fn has_rank(
    macs: Seq<Seq<char>>,
    replies: Seq<ReplyModel>,
    mac: Seq<char>,
    k: u8,
) -> bool {
    exists|i: int| #[trigger] candidate_at(macs, replies, i, mac, k)
}

pub open spec fn candidate_at(
    macs: Seq<Seq<char>>,
    replies: Seq<ReplyModel>,
    i: int,
    mac: Seq<char>,
    k: u8,
) -> bool {
    0 <= i < macs.len() && macs[i] == mac && reply_rank(replies[i]) == k
}

proof fn lemma_of_rank_member(macs: Seq<Seq<char>>, ranks: Seq<u8>, k: u8, j: int) -> (i: int)
    requires
        macs.len() == ranks.len(),
        0 <= j < of_rank(macs, ranks, k).len(),
    ensures
        0 <= i < macs.len(),
        ranks[i] == k,
        macs[i] == of_rank(macs, ranks, k)[j],
    decreases macs.len(),
{
    let before = of_rank(macs.drop_last(), ranks.drop_last(), k);
    if ranks.last() == k && j == before.len() {
        macs.len() - 1
    } else {
        lemma_of_rank_member(macs.drop_last(), ranks.drop_last(), k, j)
    }
}

proof fn lemma_of_rank_nonempty(macs: Seq<Seq<char>>, ranks: Seq<u8>, i: int)
    requires
        macs.len() == ranks.len(),
        0 <= i < macs.len(),
    ensures
        of_rank(macs, ranks, ranks[i]).len() > 0,
    decreases macs.len(),
{
    if i < macs.len() - 1 {
        lemma_of_rank_nonempty(macs.drop_last(), ranks.drop_last(), i);
    }
}

/// The best candidate is tried first: no other has a lower rank. So a classic
/// audio address comes before any that carries LE Audio only.
pub proof fn best_candidate_comes_first(macs: Seq<Seq<char>>, replies: Seq<ReplyModel>, i: int)
    requires
        replies.len() >= macs.len(),
        0 <= i < macs.len(),
    ensures
        rank_steps(macs, replies) matches StepModel::Done(best) && best.len() > 0 && exists|k: u8|
            k <= reply_rank(replies[i]) && #[trigger] has_rank(macs, replies, best[0], k),
{
    let ranks = reply_ranks(replies, macs.len());
    let best = ranked(macs, ranks);
    lemma_of_rank_nonempty(macs, ranks, i);
    let a = of_rank(macs, ranks, 0);
    let b = of_rank(macs, ranks, 1);
    let c = of_rank(macs, ranks, 2);
    let d = of_rank(macs, ranks, 3);
    let e = of_rank(macs, ranks, 4);
    let k: u8 = if a.len() > 0 {
        0
    } else if b.len() > 0 {
        1
    } else if c.len() > 0 {
        2
    } else if d.len() > 0 {
        3
    } else {
        4
    };
    assert(ranks[i] == reply_rank(replies[i]));
    assert(k <= ranks[i]);
    assert(best[0] == of_rank(macs, ranks, k)[0]);
    let at = lemma_of_rank_member(macs, ranks, k, 0);
    assert(candidate_at(macs, replies, at, best[0], k));
    assert(has_rank(macs, replies, best[0], k));
    assert(best.len() > 0);
    assert(rank_steps(macs, replies) == StepModel::Done(best));
}

// ---------------------------------------------------------------------------
// Listing
// ---------------------------------------------------------------------------

/// The call switches the adapter on or off.
pub open spec fn touches_power(args: Seq<Seq<char>>) -> bool {
    args.len() > 0 && args[0] == "power"@
}

proof fn lemma_battery_calls(devices: Seq<DeviceModel>, replies: Seq<ReplyModel>)
    ensures
        battery_steps(devices, replies) matches StepModel::Run(args) ==> args.len() == 2 && args[0]
            == "info"@,
    decreases devices.len(),
{
    if devices.len() > 0 {
        lemma_battery_calls(devices.drop_first(), replies);
        lemma_battery_calls(devices.drop_first(), replies.drop_first());
    }
}

/// Listing the paired devices never touches the adapter's power: a radio that
/// the user switched off elsewhere stays off.
pub proof fn listing_never_touches_power(replies: Seq<ReplyModel>)
    ensures
        paired_devices_steps(replies) matches StepModel::Run(args) ==> !touches_power(args),
{
    reveal_strlit("power");
    reveal_strlit("devices");
    reveal_strlit("paired-devices");
    reveal_strlit("info");
    assert("power"@.len() == 5);
    assert("devices"@.len() == 7);
    assert("paired-devices"@.len() == 14);
    assert("info"@.len() == 4);
    match paired_listing(replies) {
        StepModel::Done(Ok(listing)) => {
            let entries = device_entries(listing);
            let rs = replies.skip(paired_listing_calls(replies));
            if rs.len() >= 2 {
                if rs[0].ok && rs[1].ok {
                    lemma_battery_calls(
                        listed_devices(
                            entries,
                            listed_macs(rs[0].out),
                            listed_macs(rs[1].out),
                        ),
                        rs.skip(2),
                    );
                } else {
                    lemma_battery_calls(
                        queried_devices(entries, told_states(entries.len(), rs.skip(2))),
                        rs.skip(2 + entries.len() as int),
                    );
                }
            }
            assert(device_steps(entries, rs) matches StepModel::Run(args) ==> !touches_power(
                args,
            ));
        },
        _ => {},
    }
}

/// An adapter that is on is left alone.
pub proof fn powered_adapter_is_left_alone(replies: Seq<ReplyModel>)
    requires
        replies.len() > 0,
        replies[0].ok,
        text::occurs(replies[0].out, "Powered: yes"@),
    ensures
        adapter_steps(replies) == StepModel::Done(Ok::<(), Seq<char>>(())),
{
}

/// Only connected devices are asked for their battery, and the batteries alone
/// change: addresses, names and states stay as they were listed.
pub proof fn batteries_change_nothing_else(
    devices: Seq<DeviceModel>,
    replies: Seq<ReplyModel>,
    i: int,
)
    requires
        0 <= i < devices.len(),
    ensures
        battery_steps(devices, replies) matches StepModel::Done(out) ==> out.len() == devices.len()
            && out[i] == (DeviceModel { battery: out[i].battery, ..devices[i] }) && (
        !wants_battery(devices[i]) ==> out[i] == devices[i]),
    decreases devices.len(),
{
    let rest = devices.drop_first();
    let rs = if wants_battery(devices[0]) {
        replies.drop_first()
    } else {
        replies
    };
    if devices.len() == 1 {
        assert(rest.len() == 0);
    } else if i > 0 {
        assert(rest[i - 1] == devices[i]);
        batteries_change_nothing_else(rest, rs, i - 1);
    } else {
        batteries_change_nothing_else(rest, rs, 0);
    }
}

proof fn lemma_none_failed(replies: Seq<ReplyModel>, i: int)
    requires
        first_failed(replies) is None,
        0 <= i < replies.len(),
    ensures
        replies[i].ok,
    decreases replies.len(),
{
    if i < replies.len() - 1 {
        lemma_none_failed(replies.drop_last(), i);
    }
}

/// No listed device has its state from a query that failed: either two
/// whole-list queries succeeded and tell it, or the device's own `info` query
/// succeeded and tells it.
pub proof fn listed_states_were_told(replies: Seq<ReplyModel>, i: int)
    ensures
        (paired_listing(replies) matches StepModel::Done(Ok(listing)) ==> (paired_devices_steps(
            replies,
        ) matches StepModel::Done(Ok(devices)) ==> (0 <= i < devices.len() ==> {
            let entries = device_entries(listing);
            let rs = replies.skip(paired_listing_calls(replies));
            &&& devices.len() == entries.len()
            &&& devices[i].mac == entries[i].0
            &&& devices[i].name == entries[i].1
            &&& rs.len() >= 2
            &&& if rs[0].ok && rs[1].ok {
                &&& devices[i].connected == listed_macs(rs[0].out).contains(devices[i].mac)
                &&& devices[i].trusted == listed_macs(rs[1].out).contains(devices[i].mac)
            } else {
                &&& 2 + i < rs.len()
                &&& rs[2 + i].ok
                &&& devices[i].connected == info_of(rs[2 + i].out).connected
                &&& devices[i].trusted == info_of(rs[2 + i].out).trusted
            }
        }))),
{
    if let StepModel::Done(Ok(listing)) = paired_listing(replies) {
        let entries = device_entries(listing);
        let rs = replies.skip(paired_listing_calls(replies));
        if let StepModel::Done(Ok(devices)) = paired_devices_steps(replies) {
            if rs[0].ok && rs[1].ok {
                let listed = listed_devices(
                    entries,
                    listed_macs(rs[0].out),
                    listed_macs(rs[1].out),
                );
                lemma_batteries_len(listed, rs.skip(2));
                if 0 <= i < listed.len() {
                    batteries_change_nothing_else(listed, rs.skip(2), i);
                }
            } else {
                let states = told_states(entries.len(), rs.skip(2));
                let queried = queried_devices(entries, states);
                let rest = rs.skip(2 + entries.len() as int);
                lemma_batteries_len(queried, rest);
                if 0 <= i < queried.len() {
                    batteries_change_nothing_else(queried, rest, i);
                    lemma_none_failed(states, i);
                    assert(states[i] == rs[2 + i]);
                }
            }
        }
    }
}

proof fn lemma_batteries_len(devices: Seq<DeviceModel>, replies: Seq<ReplyModel>)
    ensures
        battery_steps(devices, replies) matches StepModel::Done(out) ==> out.len() == devices.len(),
{
    if devices.len() > 0 {
        batteries_change_nothing_else(devices, replies, 0);
    }
}

/// A query that failed is an error, and never the state of a device.
pub proof fn failed_query_is_no_state(reply: ReplyModel)
    ensures
        info_result(reply) is Err <==> !reply.ok,
{
}

// ---------------------------------------------------------------------------
// Discovery
// ---------------------------------------------------------------------------

/// A line of scan output: the event's tag, the address, and what is told of it.
pub open spec fn scan_line(tag: Seq<char>, mac: Seq<char>, told: Seq<char>) -> Seq<char> {
    tag + " Device "@ + mac + " "@ + told
}

proof fn lemma_scan_line(tag: Seq<char>, mac: Seq<char>, told: Seq<char>)
    requires
        tag == "[NEW]"@ || tag == "[CHG]"@,
        printable(mac),
        printable(told),
        !mac.contains(' '),
        told.len() > 0,
        !text::white(told.last()),
    ensures
        ({
            let line = scan_line(tag, mac, told);
            &&& text::trimmed(stripped(line).0) == line
            &&& text::position(line, "] Device "@) == Some(4int)
            &&& tagged(line, 5, "[NEW]"@) == (tag == "[NEW]"@)
            &&& tagged(line, 5, "[CHG]"@) == (tag == "[CHG]"@)
            &&& text::cut_at(line.skip(4int + "] Device "@.len()), ' ') == Some((mac, told))
        }),
{
    reveal_strlit("[NEW]");
    reveal_strlit("[CHG]");
    reveal_strlit("] Device ");
    reveal_strlit(" Device ");
    reveal_strlit(" ");
    let line = scan_line(tag, mac, told);
    assert("[NEW]"@[1] == 'N' && "[CHG]"@[1] == 'C');
    assert forall|i: int| 0 <= i < line.len() implies !text::control(#[trigger] line[i]) by {
        if 13 <= i < 13 + mac.len() {
            assert(line[i] == mac[i - 13]);
        } else if i > 13 + mac.len() {
            assert(line[i] == told[i - 14 - mac.len()]);
        }
    }
    plain_text_passes(line);
    assert(line[0] == '[');
    assert(line.last() == told.last());
    assert(text::occurs_at(line, "] Device "@, 4)) by {
        assert(line.subrange(4, 13) =~= "] Device "@);
    }
    assert forall|j: int| 0 <= j < 4 implies !text::occurs_at(line, "] Device "@, j) by {
        if text::occurs_at(line, "] Device "@, j) {
            assert(line.subrange(j, j + 9)[0] == ']');
            assert(line[j] == tag[j]);
        }
    }
    text::lemma_position(line, "] Device "@, 4);
    assert(line.subrange(0, 5) =~= tag);
    let rest = line.skip(13);
    assert(rest =~= mac + " "@ + told);
    assert(text::first_char_at(rest, ' ', mac.len() as int)) by {
        assert forall|j: int| 0 <= j < mac.len() implies rest[j] != ' ' by {
            assert(rest[j] == mac[j]);
        }
    }
    text::lemma_char_position(rest, ' ', mac.len() as int);
    assert(rest.contains(rest[mac.len() as int]));
    assert(rest.take(mac.len() as int) =~= mac);
    assert(rest.skip(mac.len() + 1int) =~= told);
}

/// Scan output reads back as it was meant, whatever the name: a name that holds
/// a tag or "Device " is a name all the same.
pub proof fn scan_events_read_back(mac: Seq<char>, name: Seq<char>)
    requires
        printable(mac),
        printable(name),
        !mac.contains(' '),
        name.len() > 0,
        !text::white(name.last()),
    ensures
        scan_entry(scan_line("[NEW]"@, mac, name)) == Some((mac, name)),
        scan_entry(scan_line("[CHG]"@, mac, "Name: "@ + name)) == Some((mac, name)),
{
    reveal_strlit("[NEW]");
    reveal_strlit("[CHG]");
    reveal_strlit("Name: ");
    assert("[NEW]"@[1] == 'N' && "[CHG]"@[1] == 'C');
    let told = "Name: "@ + name;
    assert forall|i: int| 0 <= i < told.len() implies !text::control(#[trigger] told[i]) by {
        if i >= 6 {
            assert(told[i] == name[i - 6]);
        }
    }
    assert(told.last() == name.last());
    lemma_scan_line("[NEW]"@, mac, name);
    lemma_scan_line("[CHG]"@, mac, told);
    assert(told.subrange(0, 6) =~= "Name: "@);
    assert(told.skip(6) =~= name);
}

/// Whatever is read out of scan output stands there: a line gives an address and
/// a name only where, cleaned, it holds the two behind a tag of its own.
pub proof fn scan_events_are_what_was_printed(line: Seq<char>)
    ensures
        scan_entry(line) matches Some((mac, name)) ==> {
            let clean = text::trimmed(stripped(line).0);
            &&& !mac.contains(' ')
            &&& text::occurs(clean, "[NEW] Device "@ + mac + " "@ + name) || text::occurs(
                clean,
                "[CHG] Device "@ + mac + " Name: "@ + name,
            )
        },
{
    if let Some((mac, name)) = scan_entry(line) {
        let clean = text::trimmed(stripped(line).0);
        let mark = "] Device "@;
        parts_are_found_first(clean, mark);
        let i = text::position(clean, mark)->0;
        let rest = clean.skip(i + mark.len());
        cuts_lose_the_separator(rest, ' ');
        let (m, tail) = text::cut_at(rest, ' ')->0;
        lemma_scan_words();
        prefixes_come_off("Name: "@, Seq::empty(), tail);
        if tagged(clean, i + 1, "[CHG]"@) {
            lemma_tagged_entry(clean, i, "[CHG]"@, mark, m, tail);
            assert("[CHG]"@ + mark.drop_first() + m + seq![' '] + tail =~= "[CHG] Device "@ + m
                + " Name: "@ + name);
        } else {
            lemma_tagged_entry(clean, i, "[NEW]"@, mark, m, tail);
            assert("[NEW]"@ + mark.drop_first() + m + seq![' '] + tail =~= "[NEW] Device "@ + m
                + " "@ + name);
        }
    }
}

proof fn lemma_scan_words()
    ensures
        "] Device "@.len() == 9,
        "] Device "@[0] == ']',
        "[NEW]"@.len() == 5,
        "[NEW]"@[4] == ']',
        "[CHG]"@.len() == 5,
        "[CHG]"@[4] == ']',
        "[NEW] Device "@ == "[NEW]"@ + "] Device "@.drop_first(),
        "[CHG] Device "@ == "[CHG]"@ + "] Device "@.drop_first(),
        " "@ == seq![' '],
        " Name: "@ == seq![' '] + "Name: "@,
{
    reveal_strlit("] Device ");
    reveal_strlit("[NEW] Device ");
    reveal_strlit("[CHG] Device ");
    reveal_strlit("[NEW]");
    reveal_strlit("[CHG]");
    reveal_strlit(" Name: ");
    reveal_strlit("Name: ");
    reveal_strlit(" ");
    assert("[NEW] Device "@ =~= "[NEW]"@ + "] Device "@.drop_first());
    assert("[CHG] Device "@ =~= "[CHG]"@ + "] Device "@.drop_first());
    assert(" "@ =~= seq![' ']);
    assert(" Name: "@ =~= seq![' '] + "Name: "@);
}

proof fn lemma_tagged_entry(
    clean: Seq<char>,
    i: int,
    tag: Seq<char>,
    mark: Seq<char>,
    m: Seq<char>,
    tail: Seq<char>,
)
    requires
        text::occurs_at(clean, mark, i),
        tagged(clean, i + 1, tag),
        tag.len() == 5,
        mark.len() == 9,
        clean.skip(i + 9) == m.push(' ') + tail,
    ensures
        text::occurs(clean, tag + mark.drop_first() + m + seq![' '] + tail),
{
    let told = tag + mark.drop_first() + m + seq![' '] + tail;
    assert(clean.subrange(i - 4, i + 1) == tag);
    assert(clean.subrange(i + 1, i + 9) =~= clean.subrange(i, i + 9).drop_first());
    let before = clean.take(i - 4);
    let rest = clean.skip(i + 9);
    assert(clean =~= before + clean.subrange(i - 4, i + 1) + clean.subrange(i + 1, i + 9) + rest);
    assert(tag + mark.drop_first() + (m.push(' ') + tail) =~= told);
    assert(clean =~= before + told + Seq::<char>::empty());
    parts_occur(before, told, Seq::empty());
}

/// Whatever is offered in the picker is new and has a name of its own.
pub proof fn offered_devices_are_new_and_named(
    entries: Seq<(Seq<char>, Seq<char>)>,
    paired: Seq<Seq<char>>,
    i: int,
)
    requires
        0 <= i < discovered_in(entries, paired).len(),
    ensures
        is_discoverable(
            paired,
            discovered_in(entries, paired)[i].mac,
            discovered_in(entries, paired)[i].name,
        ),
    decreases entries.len(),
{
    let before = discovered_in(entries.drop_last(), paired);
    if i < before.len() {
        offered_devices_are_new_and_named(entries.drop_last(), paired, i);
    }
}

/// Looking up address kinds keeps every entry in its place, with its address
/// and name, and leaves a kind that is known as it is.
pub proof fn classifying_keeps_the_list(
    items: Seq<DiscoveredModel>,
    replies: Seq<ReplyModel>,
    i: int,
)
    requires
        0 <= i < items.len(),
    ensures
        addr_kind_steps(items, replies) matches StepModel::Done(out) ==> out.len() == items.len()
            && out[i].mac == items[i].mac && out[i].name == items[i].name && (items[i].addr
            != AddrKind::Unknown ==> out[i].addr == items[i].addr),
    decreases items.len(),
{
    let rest = items.drop_first();
    let rs = if items[0].addr == AddrKind::Unknown {
        replies.drop_first()
    } else {
        replies
    };
    if items.len() == 1 {
        assert(rest.len() == 0);
    } else if i > 0 {
        assert(rest[i - 1] == items[i]);
        classifying_keeps_the_list(rest, rs, i - 1);
    } else {
        classifying_keeps_the_list(rest, rs, 0);
    }
}

} // verus!
