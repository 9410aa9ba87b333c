//! What the worker's messages change on screen, and in what order and by what
//! filter the devices are shown.

use std::time::Instant;

use vstd::prelude::*;

use crate::bt::groups::groups_of;
use crate::bt::reading::addresses_are_found_first;
use crate::bt::{DeviceModel, DiscoveredModel};
use crate::text::lowercase;
use crate::worker::{CmdModel, MsgModel, Tone};

use super::filter::{matches_filter, picks, subsequence};
use super::messages::{msg_handled, row_of_mac};
use super::order::{in_order, list_is_sorted, listed_before, placed, text_less};
use super::{counted, current_device, fresh, logged, shown_rows, AppModel, ViewModel};

verus! {

// ---------------------------------------------------------------------------
// Order
// ---------------------------------------------------------------------------

/// The two begin alike for `k` characters.
pub open spec fn agree(a: Seq<char>, b: Seq<char>, k: int) -> bool {
    0 <= k <= a.len() && k <= b.len() && a.take(k) == b.take(k)
}

/// Where two texts first differ, the smaller character decides, and a text comes
/// before every longer one that it begins.
pub proof fn texts_order_by_their_first_difference(a: Seq<char>, b: Seq<char>, k: int)
    requires
        agree(a, b, k),
    ensures
        k < a.len() && k < b.len() && a[k] != b[k] ==> (text_less(a, b) <==> a[k] < b[k]),
        k == a.len() ==> (text_less(a, b) <==> k < b.len()),
        k == b.len() ==> !text_less(a, b),
    decreases k,
{
    if k > 0 {
        assert(a.take(k)[0] == b.take(k)[0]);
        let (ta, tb) = (a.drop_first(), b.drop_first());
        assert(ta.take(k - 1) =~= a.take(k).drop_first());
        assert(tb.take(k - 1) =~= b.take(k).drop_first());
        texts_order_by_their_first_difference(ta, tb, k - 1);
    }
}

/// No device that is not connected stands above a connected one, and among
/// those that are equally connected none stands above one whose name, in lower
/// case, comes before its own.
pub proof fn connected_devices_come_first(ds: Seq<DeviceModel>, i: int, j: int)
    requires
        0 <= i < j < ds.len(),
    ensures
        in_order(ds).len() == ds.len(),
        in_order(ds)[j].connected ==> in_order(ds)[i].connected,
        in_order(ds)[i].connected == in_order(ds)[j].connected ==> !text_less(
            lowercase(in_order(ds)[j].name),
            lowercase(in_order(ds)[i].name),
        ),
{
    list_is_sorted(ds);
    assert(!listed_before(in_order(ds)[j], in_order(ds)[i]));
}

/// Listing only moves devices: each is there as often as it came.
pub proof fn listing_keeps_every_device(ds: Seq<DeviceModel>)
    ensures
        in_order(ds).to_multiset() == ds.to_multiset(),
    decreases ds.len(),
{
    broadcast use vstd::seq_lib::group_to_multiset_ensures;

    if ds.len() > 0 {
        listing_keeps_every_device(ds.drop_last());
        lemma_placed_multiset(in_order(ds.drop_last()), ds.last());
        assert(ds.drop_last().push(ds.last()) =~= ds);
    } else {
        assert(in_order(ds) =~= ds);
    }
}

proof fn lemma_placed_multiset(ds: Seq<DeviceModel>, d: DeviceModel)
    ensures
        placed(ds, d).to_multiset() == ds.to_multiset().insert(d),
    decreases ds.len(),
{
    broadcast use vstd::seq_lib::group_to_multiset_ensures;

    if !(ds.len() == 0 || !listed_before(d, ds.last())) {
        let shorter = ds.drop_last();
        lemma_placed_multiset(shorter, d);
        assert(shorter.push(ds.last()) =~= ds);
        assert(placed(ds, d).to_multiset() =~= ds.to_multiset().insert(d));
    }
}

// ---------------------------------------------------------------------------
// Filter
// ---------------------------------------------------------------------------

/// An empty filter matches every name; any other matches where its characters
/// stand in the name in their order, in lower case. So a filter with a character
/// that the name lacks does not match, nor one that is longer.
pub proof fn filters_match_in_order(name: Seq<char>, filter: Seq<char>, at: Seq<int>, k: int)
    ensures
        filter.len() == 0 ==> matches_filter(name, filter),
        picks(lowercase(name), lowercase(filter), at) ==> matches_filter(name, filter),
        filter.len() > 0 && 0 <= k < lowercase(filter).len() && !lowercase(name).contains(
            lowercase(filter)[k],
        ) ==> !matches_filter(name, filter),
        filter.len() > 0 && lowercase(filter).len() > lowercase(name).len() ==> !matches_filter(
            name,
            filter,
        ),
{
    let (hay, needle) = (lowercase(name), lowercase(filter));
    if subsequence(hay, needle) {
        let w = choose|w: Seq<int>| picks(hay, needle, w);
        if 0 <= k < needle.len() {
            assert(hay[w[k]] == needle[k]);
        }
        if needle.len() > 0 {
            lemma_climbing(w, needle.len() - 1);
            assert(w[needle.len() - 1] < hay.len());
        }
    }
}

proof fn lemma_climbing(at: Seq<int>, k: int)
    requires
        0 <= k < at.len(),
        at[0] >= 0,
        forall|i: int, j: int| 0 <= i < j < at.len() ==> #[trigger] at[i] < #[trigger] at[j],
    ensures
        at[k] >= k,
    decreases k,
{
    if k > 0 {
        lemma_climbing(at, k - 1);
        assert(at[k - 1] < at[k]);
    }
}

// ---------------------------------------------------------------------------
// Messages
// ---------------------------------------------------------------------------

/// A list of devices replaces the one before, whole. Where the device under the
/// cursor is no longer shown, or there was none, the cursor goes to the first
/// row. Nothing else changes.
pub proof fn device_lists_replace_each_other(s: AppModel, devices: Seq<DeviceModel>, now: u64)
    ensures
        ({
            let t = msg_handled(s, MsgModel::Devices(devices), now);
            &&& t == (AppModel { devices: t.devices, selected: t.selected, ..s })
            &&& t.devices.to_multiset() == devices.to_multiset()
            &&& current_device(s) is None ==> t.selected == 0
            &&& current_device(s) matches Some(d) ==> (forall|i: int|
                0 <= i < shown_rows(t.devices, s.filter).len()
                    ==> t.devices[#[trigger] shown_rows(t.devices, s.filter)[i]].mac != d.mac)
                ==> t.selected == 0
        }),
{
    listing_keeps_every_device(devices);
    let listed = in_order(devices);
    let rows = shown_rows(listed, s.filter);
    if let Some(d) = current_device(s) {
        lemma_row_found(rows, listed, d.mac);
    }
}

proof fn lemma_row_found(rows: Seq<int>, devices: Seq<DeviceModel>, mac: Seq<char>)
    ensures
        row_of_mac(rows, devices, mac) matches Some(k) ==> k < rows.len()
            && devices[rows[k as int]].mac == mac,
    decreases rows.len(),
{
    if rows.len() > 0 {
        lemma_row_found(rows.drop_last(), devices, mac);
    }
}

/// A scan opens an empty picker; a device that it finds is put in its last place,
/// or where its address is there already takes on its new name and kind of
/// address in its place. Where no picker is open it changes nothing.
pub proof fn pickers_fill_as_devices_are_found(s: AppModel, d: DiscoveredModel, i: int, now: u64)
    ensures
        msg_handled(s, MsgModel::ScanStarted, now) == (AppModel {
            ignore_scan_results: false,
            view: ViewModel::ScanResults { items: Seq::empty(), selected: 0 },
            ..s
        }),
        !(s.view is ScanResults) ==> msg_handled(s, MsgModel::Found(d), now) == s,
        s.view matches ViewModel::ScanResults { items, selected } ==> {
            let t = msg_handled(s, MsgModel::Found(d), now);
            let after = t.view->items;
            &&& t == (AppModel { view: t.view, ..s })
            &&& t.view is ScanResults
            &&& selected < groups_of(after).len() ==> t.view->ScanResults_selected == selected
            &&& 0 <= i < items.len() && items[i].mac != d.mac ==> i < after.len() && after[i]
                == items[i]
            &&& (forall|k: int| 0 <= k < items.len() ==> #[trigger] items[k].mac != d.mac) ==> after
                == items.push(d)
            &&& 0 <= i < items.len() && items[i].mac == d.mac && (forall|k: int|
                0 <= k < i ==> #[trigger] items[k].mac != d.mac) ==> after.len() == items.len()
                && after[i].mac == d.mac && after[i].name == d.name && after[i].addr == d.addr
        },
{
    if let ViewModel::ScanResults { items, selected } = s.view {
        addresses_are_found_first(items, d.mac);
    }
}

/// A scan's final list fills the picker, in whatever view it comes, unless the
/// user has left the picker meanwhile: that one list is passed over. An empty
/// list closes an empty picker and leaves any other view.
pub proof fn final_lists_fill_the_picker(s: AppModel, items: Seq<DiscoveredModel>, now: u64)
    ensures
        ({
            let t = msg_handled(s, MsgModel::ScanResults(items), now);
            &&& s.ignore_scan_results ==> t == (AppModel { ignore_scan_results: false, ..s })
            &&& !s.ignore_scan_results && items.len() > 0 ==> t == (AppModel { view: t.view, ..s })
                && t.view is ScanResults && t.view->items == items
            &&& !s.ignore_scan_results && items.len() == 0 ==> t == (if s.view is ScanResults
                && s.view->items.len() == 0 {
                AppModel { view: ViewModel::DeviceList, ..s }
            } else {
                s
            })
        }),
{
}

/// A status goes to the log under its tone; a progress note takes the place of
/// the last one; a prompt and the details take the screen, with nothing typed
/// and from their first row.
pub proof fn messages_go_where_they_belong(
    s: AppModel,
    text: Seq<char>,
    tone: Tone,
    name: Seq<char>,
    pin: bool,
    now: u64,
)
    ensures
        msg_handled(s, MsgModel::Status(text, tone), now) == (AppModel {
            log: logged(s.log, text, tone, now),
            ..s
        }),
        msg_handled(s, MsgModel::Progress(text), now) == (AppModel { progress: Some(text), ..s }),
        msg_handled(s, MsgModel::PairPrompt { pin, passkey: text }, now) == (AppModel {
            help: false,
            view: ViewModel::PairPrompt { pin, passkey: text, input: Seq::empty() },
            ..s
        }),
        msg_handled(s, MsgModel::Details { name, text }, now) == (AppModel {
            view: ViewModel::Details { name, text, scroll: 0 },
            ..s
        }),
{
}

/// Each command is pending until its `OpDone`; with the last one done nothing is
/// shown as running, and the wait for the next refresh begins. An answer to a
/// prompt is no command of its own.
pub proof fn operations_run_until_they_are_done(s: AppModel, cmd: CmdModel, now: u64)
    requires
        s.pending < u32::MAX,
    ensures
        counted(s, cmd) == (AppModel {
            pending: (s.pending + (if cmd is PairReply {
                0int
            } else {
                1
            })) as u32,
            ..s
        }),
        s.pending > 1 ==> msg_handled(s, MsgModel::OpDone, now) == (AppModel {
            pending: (s.pending - 1) as u32,
            ..s
        }),
        s.pending <= 1 ==> msg_handled(s, MsgModel::OpDone, now) == (AppModel {
            pending: 0,
            busy: None,
            progress: None,
            last_done: now,
            ..s
        }),
{
}

/// At the start the list is empty and on screen, nothing runs, nothing is logged
/// and nothing filtered, and the wait for the first refresh begins.
pub proof fn a_fresh_app_shows_an_empty_list(now: u64, clock: Instant)
    ensures
        ({
            let s = fresh(now, clock);
            &&& s.view is DeviceList
            &&& s.devices.len() == 0 && s.log.len() == 0 && s.filter.len() == 0
            &&& s.selected == 0 && s.pending == 0 && s.help_scroll == 0 && s.tick == 0
            &&& s.busy is None && s.progress is None
            &&& !s.filtering && !s.help && !s.quit && !s.kill_child && !s.ignore_scan_results
            &&& s.last_done == now && s.clock == clock
        }),
{
}

} // verus!
