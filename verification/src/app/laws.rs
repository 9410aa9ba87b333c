//! What holds of the application, whatever keys and messages come.

use std::time::Instant;

use vstd::prelude::*;

use crate::bt::groups::{
    announced as in_list, first_seen, groups_of, rows_for_devices, rows_hold_one_stable_address,
    rows_of,
};
use crate::bt::{mac_index, DeviceModel, DiscoveredModel, GroupModel};
use crate::worker::task::{ActionModel, TaskModel};
use crate::worker::turns::{announced, declines, first_turn};
use crate::worker::{CmdModel, MsgModel, Tone};

use super::filter::matches_filter;
use super::keys::{is_back, is_no, is_yes, key_pressed, list_len, pin_char, KeyCode, KeyEvent};
use super::messages::{
    msg_handled, op_done, reanchored, row_again, row_fits, row_of_mac, row_of_name, row_with,
    scan_ended, stable_in, stable_mac, with_devices, with_found,
};
use super::order::in_order;
use super::{
    begun, counted, current_device, expired, fresh, logged, passing, picker_rows, refresh_due,
    shown_rows, still_shown, stays, ticked, AppModel, LogModel, ViewModel, LOG_MAX,
};

verus! {

// ---------------------------------------------------------------------------
// The cursor and the log
// ---------------------------------------------------------------------------

/// The cursor stands on a row, or on the first where there is none.
pub open spec fn on_a_row(selected: nat, rows: nat) -> bool {
    selected == 0 || selected < rows
}

/// Both cursors stand on a row, and the log is no longer than it may be.
pub open spec fn sound(s: AppModel) -> bool {
    &&& on_a_row(s.selected, list_len(s))
    &&& s.view matches ViewModel::ScanResults { items, selected } ==> on_a_row(
        selected,
        groups_of(items).len(),
    )
    &&& s.log.len() <= LOG_MAX
}

proof fn lemma_still_shown_len(log: Seq<LogModel>, now: u64, pinned: bool)
    ensures
        still_shown(log, now, pinned).len() <= log.len(),
    decreases log.len(),
{
    if log.len() > 0 {
        lemma_still_shown_len(log.drop_last(), now, pinned);
    }
}

proof fn lemma_row_of_name(rows: Seq<GroupModel>, name: Seq<char>)
    ensures
        match row_of_name(rows, name) {
            Some(k) => k < rows.len() && rows[k as int].name == name,
            None => forall|i: int| 0 <= i < rows.len() ==> (#[trigger] rows[i]).name != name,
        },
    decreases rows.len(),
{
    if rows.len() > 0 {
        let shorter = rows.drop_last();
        lemma_row_of_name(shorter, name);
        if row_of_name(rows, name) is None {
            assert forall|i: int| 0 <= i < rows.len() implies (#[trigger] rows[i]).name != name by {
                if i < shorter.len() {
                    assert(shorter[i] == rows[i]);
                }
            }
        }
    }
}

proof fn lemma_row_with(rows: Seq<GroupModel>, name: Seq<char>, macs: Seq<Seq<char>>)
    ensures
        match row_with(rows, name, macs) {
            Some(k) => k < rows.len() && row_fits(rows[k as int], name, macs),
            None => forall|i: int|
                0 <= i < rows.len() ==> !row_fits(#[trigger] rows[i], name, macs),
        },
    decreases rows.len(),
{
    if rows.len() > 0 {
        let shorter = rows.drop_last();
        lemma_row_with(shorter, name, macs);
        if row_with(rows, name, macs) is None {
            assert forall|i: int| 0 <= i < rows.len() implies !row_fits(
                #[trigger] rows[i],
                name,
                macs,
            ) by {
                if i < shorter.len() {
                    assert(shorter[i] == rows[i]);
                }
            }
        }
    }
}

proof fn lemma_stable_mac(items: Seq<DiscoveredModel>, macs: Seq<Seq<char>>)
    ensures
        match stable_mac(items, macs) {
            Some(mac) => macs.contains(mac) && stable_in(items, mac),
            None => forall|i: int| 0 <= i < macs.len() ==> !stable_in(items, #[trigger] macs[i]),
        },
    decreases macs.len(),
{
    if macs.len() > 0 {
        let shorter = macs.drop_last();
        lemma_stable_mac(items, shorter);
        match stable_mac(items, shorter) {
            Some(mac) => {
                let i = choose|i: int| 0 <= i < shorter.len() && shorter[i] == mac;
                assert(macs[i] == mac);
            },
            None => {
                assert(macs[macs.len() - 1] == macs.last());
                if stable_mac(items, macs) is None {
                    assert forall|i: int| 0 <= i < macs.len() implies !stable_in(
                        items,
                        #[trigger] macs[i],
                    ) by {
                        if i < shorter.len() {
                            assert(shorter[i] == macs[i]);
                        }
                    }
                }
            },
        }
    }
}

proof fn lemma_row_again(
    rows: Seq<GroupModel>,
    picked: GroupModel,
    items: Seq<DiscoveredModel>,
)
    ensures
        match row_again(rows, picked, items) {
            Some(k) => k < rows.len() && rows[k as int].name == picked.name,
            None => forall|i: int| 0 <= i < rows.len() ==> (#[trigger] rows[i]).name != picked.name,
        },
        row_with(rows, picked.name, picked.macs) is Some ==> (row_again(
            rows,
            picked,
            items,
        ) matches Some(k) && row_fits(rows[k as int], picked.name, picked.macs)),
{
    lemma_stable_mac(items, picked.macs);
    lemma_row_with(rows, picked.name, picked.macs);
    lemma_row_of_name(rows, picked.name);
    if let Some(mac) = stable_mac(items, picked.macs) {
        lemma_row_with(rows, picked.name, seq![mac]);
        if let Some(k) = row_with(rows, picked.name, seq![mac]) {
            assert(rows[k as int].macs.contains(seq![mac][0]));
            let i = choose|i: int| 0 <= i < picked.macs.len() && picked.macs[i] == mac;
            assert(rows[k as int].macs.contains(picked.macs[i]));
        }
    }
}

proof fn lemma_reanchored(view: ViewModel, items: Seq<DiscoveredModel>)
    ensures
        on_a_row(reanchored(view, items), groups_of(items).len()),
{
    if let ViewModel::ScanResults { items: before, selected } = view {
        if selected < groups_of(before).len() {
            lemma_row_again(groups_of(items), groups_of(before)[selected as int], before);
        }
    }
}

/// Where an address first stands is where it was first announced.
proof fn lemma_first_index(items: Seq<DiscoveredModel>, mac: Seq<char>)
    ensures
        match mac_index(items, mac) {
            Some(i) => in_list(items, mac) && i == first_seen(items, mac) && 0 <= i < items.len(),
            None => !in_list(items, mac),
        },
    decreases items.len(),
{
    if items.len() > 0 {
        let shorter = items.drop_last();
        lemma_first_index(shorter, mac);
        if in_list(shorter, mac) {
            let i = choose|i: int| 0 <= i < shorter.len() && (#[trigger] shorter[i]).mac == mac;
            assert(items[i].mac == mac);
        } else if items.last().mac == mac {
            assert(items[items.len() - 1].mac == mac);
        } else if in_list(items, mac) {
            let i = choose|i: int| 0 <= i < items.len() && (#[trigger] items[i]).mac == mac;
            assert(shorter[i].mac == mac);
        }
    }
}

proof fn lemma_row_of_mac(rows: Seq<int>, devices: Seq<DeviceModel>, mac: Seq<char>)
    ensures
        match row_of_mac(rows, devices, mac) {
            Some(k) => k < rows.len() && devices[rows[k as int]].mac == mac,
            None => forall|i: int|
                0 <= i < rows.len() ==> devices[#[trigger] rows[i]].mac != mac,
        },
    decreases rows.len(),
{
    if rows.len() > 0 {
        let shorter = rows.drop_last();
        lemma_row_of_mac(shorter, devices, mac);
        if row_of_mac(rows, devices, mac) is None {
            assert forall|i: int| 0 <= i < rows.len() implies devices[#[trigger] rows[i]].mac
                != mac by {
                if i < shorter.len() {
                    assert(shorter[i] == rows[i]);
                }
            }
        }
    }
}

/// The application starts out sound.
pub proof fn fresh_app_is_sound(now: u64, clock: Instant)
    ensures
        sound(fresh(now, clock)),
{
}

/// No key takes a cursor off the rows, or grows the log.
pub proof fn keys_keep_the_app_sound(s: AppModel, key: KeyEvent, now: u64)
    requires
        sound(s),
    ensures
        sound(key_pressed(s, key, now).0),
{
    lemma_still_shown_len(s.log, now, false);
}

/// No message leaves a cursor off the rows, or grows the log beyond its bound:
/// a rename that merges two rows takes the picker's cursor along.
pub proof fn messages_keep_the_app_sound(s: AppModel, msg: MsgModel, now: u64)
    requires
        sound(s),
    ensures
        sound(msg_handled(s, msg, now)),
{
    match msg {
        MsgModel::ScanResults(items) => {
            lemma_reanchored(s.view, items);
        },
        _ => {},
    }
}

/// Time, and the start of an operation, only shorten the log.
pub proof fn time_keeps_the_app_sound(s: AppModel, label: Seq<char>, now: u64)
    requires
        sound(s),
    ensures
        sound(ticked(s, now)),
        sound(begun(s, label, now)),
{
    lemma_still_shown_len(s.log, now, true);
    lemma_still_shown_len(s.log, now, false);
}

/// The list shows every device that passes the filter, and no other, in order.
pub proof fn list_shows_what_passes(devices: Seq<DeviceModel>, filter: Seq<char>, i: int)
    requires
        0 <= i < devices.len(),
    ensures
        shown_rows(devices, filter).contains(i) <==> matches_filter(devices[i].name, filter),
        forall|k: int, l: int|
            0 <= k < l < shown_rows(devices, filter).len() ==> #[trigger] shown_rows(
                devices,
                filter,
            )[k] < #[trigger] shown_rows(devices, filter)[l],
{
    lemma_passing(devices, filter, devices.len(), i);
}

proof fn lemma_passing(devices: Seq<DeviceModel>, filter: Seq<char>, n: nat, i: int)
    requires
        0 <= i < n <= devices.len(),
    ensures
        passing(devices, filter, n).contains(i) <==> matches_filter(devices[i].name, filter),
        forall|k: int|
            0 <= k < passing(devices, filter, n).len() ==> 0 <= #[trigger] passing(
                devices,
                filter,
                n,
            )[k] < n,
        forall|k: int, l: int|
            0 <= k < l < passing(devices, filter, n).len() ==> #[trigger] passing(
                devices,
                filter,
                n,
            )[k] < #[trigger] passing(devices, filter, n)[l],
    decreases n,
{
    let all = passing(devices, filter, n);
    let before = passing(devices, filter, (n - 1) as nat);
    if n > 1 {
        lemma_passing(devices, filter, (n - 1) as nat, if i < n - 1 {
            i
        } else {
            0
        });
    } else {
        assert(before.len() == 0);
    }
    if i < n - 1 {
        if before.contains(i) {
            let k = choose|k: int| 0 <= k < before.len() && before[k] == i;
            assert(all[k] == i);
        }
    } else if matches_filter(devices[i].name, filter) {
        assert(all[all.len() - 1] == i);
    }
}

/// The cursor follows its device: where the device under it is still shown
/// after a refresh, it is under the cursor again.
pub proof fn cursor_follows_its_device(s: AppModel, devices: Seq<DeviceModel>, i: int)
    requires
        current_device(s) is Some,
        0 <= i < shown_rows(in_order(devices), s.filter).len(),
        in_order(devices)[shown_rows(in_order(devices), s.filter)[i]].mac == current_device(
            s,
        )->0.mac,
    ensures
        current_device(with_devices(s, devices)) is Some,
        current_device(with_devices(s, devices))->0.mac == current_device(s)->0.mac,
{
    let listed = in_order(devices);
    let rows = shown_rows(listed, s.filter);
    lemma_row_of_mac(rows, listed, current_device(s)->0.mac);
    assert(listed[rows[i]].mac == current_device(s)->0.mac);
}

/// The cursor stands on one of the picker's rows.
pub open spec fn picking(s: AppModel) -> bool {
    s.view is ScanResults && s.view->ScanResults_selected < picker_rows(s.view).len()
}

/// The picker's row under the cursor.
pub open spec fn picked(s: AppModel) -> GroupModel {
    picker_rows(s.view)[s.view->ScanResults_selected as int]
}

/// The picker's cursor follows its device: where the stable address in the row
/// under it is still in a row of that name in a scan's final list, the row with
/// that address is under the cursor, however many other devices go by the name.
pub proof fn picker_cursor_follows_its_device(
    s: AppModel,
    items: Seq<DiscoveredModel>,
    mac: Seq<char>,
    i: int,
)
    requires
        !s.ignore_scan_results,
        picking(s),
        picked(s).macs.contains(mac),
        stable_in(s.view->items, mac),
        0 <= i < groups_of(items).len(),
        groups_of(items)[i].name == picked(s).name,
        groups_of(items)[i].macs.contains(mac),
        items.len() > 0,
    ensures
        picking(scan_ended(s, items)),
        scan_ended(s, items).view->items == items,
        picked(scan_ended(s, items)).name == picked(s).name,
        picked(scan_ended(s, items)).macs.contains(mac),
{
    let before = s.view->items;
    let row = picked(s);
    let at = s.view->ScanResults_selected as int;
    lemma_stable_mac(before, row.macs);
    let a = choose|a: int| 0 <= a < row.macs.len() && row.macs[a] == mac;
    assert(stable_in(before, row.macs[a]));
    let found = stable_mac(before, row.macs)->0;
    let b = choose|b: int| 0 <= b < row.macs.len() && row.macs[b] == found;
    assert(rows_of(before)[at].macs == row.macs);
    lemma_first_index(before, mac);
    lemma_first_index(before, found);
    if a < b {
        rows_hold_one_stable_address(before, at, a, b);
    } else if b < a {
        rows_hold_one_stable_address(before, at, b, a);
    }
    assert(found == mac);
    let rows = groups_of(items);
    let one = seq![mac];
    lemma_row_with(rows, row.name, one);
    assert(row_fits(rows[i], row.name, one)) by {
        assert(rows[i].macs.contains(one[0]));
    }
    let k = row_with(rows, row.name, one)->0 as int;
    let j = choose|j: int| 0 <= j < one.len() && rows[k].macs.contains(#[trigger] one[j]);
    assert(one[j] == mac);
}

/// Where a row of a scan's final list keeps the name of the row under the
/// picker's cursor and an address of it, such a row is under the cursor: that
/// very row where it is the only one.
pub proof fn picker_cursor_keeps_an_address(s: AppModel, items: Seq<DiscoveredModel>, i: int)
    requires
        !s.ignore_scan_results,
        picking(s),
        0 <= i < groups_of(items).len(),
        row_fits(groups_of(items)[i], picked(s).name, picked(s).macs),
        items.len() > 0,
    ensures
        picking(scan_ended(s, items)),
        scan_ended(s, items).view->items == items,
        row_fits(picked(scan_ended(s, items)), picked(s).name, picked(s).macs),
        (forall|j: int|
            0 <= j < groups_of(items).len() && row_fits(
                #[trigger] groups_of(items)[j],
                picked(s).name,
                picked(s).macs,
            ) ==> j == i) ==> scan_ended(s, items).view->ScanResults_selected == i,
{
    lemma_row_with(groups_of(items), picked(s).name, picked(s).macs);
    lemma_row_again(groups_of(items), picked(s), s.view->items);
}

/// The picker's cursor follows its name: where a row of a scan's final list goes
/// by the name under it, such a row is under the cursor: that very row where it
/// is the only one.
pub proof fn picker_cursor_follows_its_name(s: AppModel, items: Seq<DiscoveredModel>, i: int)
    requires
        !s.ignore_scan_results,
        picking(s),
        0 <= i < groups_of(items).len(),
        groups_of(items)[i].name == picked(s).name,
        items.len() > 0,
    ensures
        picking(scan_ended(s, items)),
        scan_ended(s, items).view->items == items,
        picked(scan_ended(s, items)).name == picked(s).name,
        (forall|j: int|
            0 <= j < groups_of(items).len() && (#[trigger] groups_of(items)[j]).name == picked(
                s,
            ).name ==> j == i) ==> scan_ended(s, items).view->ScanResults_selected == i,
{
    lemma_row_again(groups_of(items), picked(s), s.view->items);
}

/// Where no row of a scan's final list goes by the name under the picker's
/// cursor, or no picker was open, the cursor is on the first row.
pub proof fn picker_cursor_starts_over(s: AppModel, items: Seq<DiscoveredModel>)
    requires
        !s.ignore_scan_results,
        items.len() > 0,
        picking(s) ==> forall|i: int|
            0 <= i < groups_of(items).len() ==> (#[trigger] groups_of(items)[i]).name != picked(
                s,
            ).name,
    ensures
        scan_ended(s, items).view == (ViewModel::ScanResults { items, selected: 0 }),
        groups_of(items).len() > 0,
{
    rows_for_devices(items);
    if picking(s) {
        lemma_row_again(groups_of(items), picked(s), s.view->items);
    }
}

// ---------------------------------------------------------------------------
// Leaving
// ---------------------------------------------------------------------------

/// Ctrl-C quits, whatever is on screen, and does nothing else.
pub proof fn ctrl_c_always_quits(s: AppModel, now: u64)
    ensures
        key_pressed(s, KeyEvent { code: KeyCode::Char('c'), control: true }, now) == (
            (AppModel { quit: true, ..s }, None::<CmdModel>)
        ),
{
}

/// The device list is on screen, and takes the keys.
pub open spec fn list_has_the_keys(s: AppModel) -> bool {
    s.view is DeviceList && !s.help && !s.filtering
}

/// Esc clears the filter before it quits, idle or busy.
pub proof fn esc_clears_the_filter_first(s: AppModel, now: u64)
    requires
        list_has_the_keys(s),
    ensures
        ({
            let esc = KeyEvent { code: KeyCode::Esc, control: false };
            let (once, cmd) = key_pressed(s, esc, now);
            &&& cmd is None
            &&& if s.filter.len() > 0 {
                once == (AppModel { filter: Seq::empty(), selected: 0, ..s })
                    && key_pressed(once, esc, now).0.quit
            } else {
                once == (AppModel { quit: true, ..s })
            }
        }),
{
}

// ---------------------------------------------------------------------------
// The help overlay
// ---------------------------------------------------------------------------

/// The help overlay touches nothing beneath it: no key but Ctrl-C does anything
/// else than close or scroll it, and none starts an operation.
pub proof fn help_touches_nothing_beneath(s: AppModel, key: KeyEvent, now: u64)
    requires
        s.help,
        !(s.view is PairPrompt),
    ensures
        ({
            let (t, cmd) = key_pressed(s, key, now);
            &&& cmd is None
            &&& t == (AppModel { help: t.help, help_scroll: t.help_scroll, quit: t.quit, ..s })
            &&& t.quit != s.quit ==> key.control && key.code == KeyCode::Char('c')
        }),
{
}

/// `?` opens the help overlay from anywhere except text entry, an operation
/// running or not, over the view as it is; and closes it again.
pub proof fn question_mark_toggles_help(s: AppModel, now: u64)
    requires
        !s.filtering,
        !(s.view is PairPrompt),
    ensures
        key_pressed(s, KeyEvent { code: KeyCode::Char('?'), control: false }, now) == ((
            if s.help {
                AppModel { help: false, ..s }
            } else {
                AppModel { help: true, help_scroll: 0, ..s }
            },
            None::<CmdModel>,
        )),
{
}

/// `?` typed into the filter is text.
pub proof fn question_mark_is_filter_text(s: AppModel, now: u64)
    requires
        s.filtering,
        !s.help,
        !(s.view is PairPrompt),
    ensures
        key_pressed(s, KeyEvent { code: KeyCode::Char('?'), control: false }, now).0 == (AppModel {
            filter: s.filter.push('?'),
            selected: 0,
            ..s
        }),
{
}

/// Devices found while the help overlay is up still land in the picker.
pub proof fn help_holds_up_no_message(s: AppModel, msg: MsgModel, now: u64)
    requires
        !(msg is PairPrompt),
    ensures
        msg_handled(AppModel { help: true, ..s }, msg, now) == (AppModel {
            help: true,
            ..msg_handled(AppModel { help: false, ..s }, msg, now)
        }),
{
}

// ---------------------------------------------------------------------------
// Pairing prompts
// ---------------------------------------------------------------------------

/// A prompt takes the screen, from the help overlay too, and no key opens that
/// over it.
pub proof fn prompts_come_first(s: AppModel, msg: MsgModel, key: KeyEvent, now: u64)
    requires
        msg is PairPrompt,
    ensures
        msg_handled(s, msg, now).view is PairPrompt,
        !msg_handled(s, msg, now).help,
        !key_pressed(msg_handled(s, msg, now), key, now).0.help,
{
}

/// Esc declines a prompt of either kind; "y" does not; and a PIN that is
/// submitted is not empty, so that it cannot be taken for giving up.
pub proof fn prompts_are_answered_as_meant(s: AppModel, key: KeyEvent, now: u64)
    requires
        s.view is PairPrompt,
        !key.control,
    ensures
        ({
            let pin = s.view->pin;
            let answer = key_pressed(s, key, now).1;
            &&& key.code == KeyCode::Esc ==> (answer matches Some(CmdModel::PairReply(a))
                && declines(a))
            &&& !pin && is_no(key.code) ==> (answer matches Some(CmdModel::PairReply(a))
                && declines(a))
            &&& !pin && is_yes(key.code) ==> (answer matches Some(CmdModel::PairReply(a))
                && !declines(a))
            &&& pin && key.code == KeyCode::Enter ==> (s.view->input.len() == 0 ==> answer is None
                && key_pressed(s, key, now).0 == s)
            &&& pin && key.code == KeyCode::Enter ==> (answer matches Some(CmdModel::PairReply(a))
                ==> a == s.view->input && a.len() > 0)
        }),
{
    reveal_strlit("yes");
    reveal_strlit("no");
    assert("yes"@.len() == 3);
    assert("no"@.len() == 2);
}

/// A character that a PIN can hold becomes part of it when typed at a PIN
/// prompt, `?` among them: nothing else on screen takes it. Any other is ignored.
pub proof fn typed_characters_are_the_pin(s: AppModel, c: char, now: u64)
    requires
        s.view is PairPrompt,
        s.view->pin,
    ensures
        key_pressed(s, KeyEvent { code: KeyCode::Char(c), control: false }, now) == ((
            if pin_char(c) {
                AppModel {
                    view: ViewModel::PairPrompt {
                        pin: true,
                        passkey: s.view->passkey,
                        input: s.view->input.push(c),
                    },
                    ..s
                }
            } else {
                s
            },
            None::<CmdModel>,
        )),
        pin_char('?'),
{
}

/// Answering a prompt is the only thing that a key at a prompt can start.
pub proof fn prompts_start_nothing_else(s: AppModel, key: KeyEvent, now: u64)
    requires
        s.view is PairPrompt,
    ensures
        key_pressed(s, key, now).1 matches Some(cmd) ==> cmd is PairReply,
{
}

// ---------------------------------------------------------------------------
// The picker
// ---------------------------------------------------------------------------

/// A picker that was left is not reopened by the scan's final list, but that is
/// dropped once only: the list of a later, failed pairing opens it again.
pub proof fn dismissed_picker_stays_closed_once(
    s: AppModel,
    code: KeyCode,
    items: Seq<DiscoveredModel>,
    later: Seq<DiscoveredModel>,
    now: u64,
)
    requires
        s.view is ScanResults,
        !s.help,
        !s.filtering,
        is_back(code),
        later.len() > 0,
    ensures
        ({
            let left = key_pressed(s, KeyEvent { code, control: false }, now).0;
            let after = msg_handled(left, MsgModel::ScanResults(items), now);
            &&& left.view is DeviceList
            &&& after.view is DeviceList
            &&& msg_handled(after, MsgModel::ScanResults(later), now).view is ScanResults
        }),
{
}

/// Enter in the picker while the scan runs pairs the device at once: every
/// address of its row is handed over with the whole list, the scan is cut short
/// and its final list dropped.
pub proof fn enter_pairs_mid_scan(s: AppModel, items: Seq<DiscoveredModel>, now: u64)
    requires
        s.view is ScanResults,
        s.view->ScanResults_selected < picker_rows(s.view).len(),
        !s.help,
        !s.filtering,
        s.busy is Some,
    ensures
        ({
            let row = picker_rows(s.view)[s.view->ScanResults_selected as int];
            let (t, cmd) = key_pressed(
                s,
                KeyEvent { code: KeyCode::Enter, control: false },
                now,
            );
            &&& cmd == Some(
                CmdModel::PairConnect {
                    candidates: row.macs,
                    name: row.name,
                    others: s.view->items,
                },
            )
            &&& t.kill_child
            &&& t.view is DeviceList
            &&& msg_handled(t, MsgModel::ScanResults(items), now).view is DeviceList
        }),
{
}

/// While an operation runs, no other is started, but for pairing a device out
/// of the picker.
pub proof fn busy_app_starts_only_pairings(s: AppModel, key: KeyEvent, now: u64)
    requires
        s.busy is Some,
        !(s.view is PairPrompt),
    ensures
        key_pressed(s, key, now).1 matches Some(cmd) ==> cmd is PairConnect && s.view
            is ScanResults,
{
}

/// Whatever starts an operation shows that it runs; answers to prompts belong
/// to the one that runs.
pub proof fn started_operations_show(s: AppModel, key: KeyEvent, now: u64)
    ensures
        key_pressed(s, key, now).1 matches Some(cmd) ==> cmd is PairReply || key_pressed(
            s,
            key,
            now,
        ).0.busy is Some,
{
}

/// Where no device is under the cursor, as where the filter matches none, the
/// keys that act on one do nothing.
pub proof fn no_device_no_action(s: AppModel, code: KeyCode, now: u64)
    requires
        list_has_the_keys(s),
        s.busy is None,
        current_device(s) is None,
        code == KeyCode::Enter || code == KeyCode::Delete || code == KeyCode::Char('t') || code
            == KeyCode::Char('a') || code == KeyCode::Char('i') || code == KeyCode::Char('x'),
    ensures
        key_pressed(s, KeyEvent { code, control: false }, now) == ((s, None::<CmdModel>)),
{
}

/// A device is removed only after a yes to the question that names it.
pub proof fn removing_takes_a_yes(s: AppModel, key: KeyEvent, now: u64)
    ensures
        key_pressed(s, key, now).1 matches Some(CmdModel::Remove { mac }) ==> (s.view
            matches ViewModel::ConfirmRemove { mac: asked, .. } && asked == mac) && is_yes(key.code)
            && !s.help,
{
}

proof fn lemma_mac_index_in_range(items: Seq<DiscoveredModel>, mac: Seq<char>)
    ensures
        mac_index(items, mac) matches Some(i) ==> 0 <= i < items.len() && items[i].mac == mac,
    decreases items.len(),
{
    if items.len() > 0 {
        lemma_mac_index_in_range(items.drop_last(), mac);
    }
}

/// The worker's record of a scan mirrors the picker: a device that it announces
/// changes both alike. So what a failed listing hands back is what the picker
/// shows already.
pub proof fn picker_mirrors_the_scan(seen: Seq<DiscoveredModel>, d: DiscoveredModel)
    ensures
        match mac_index(seen, d.mac) {
            Some(_) => ({
                let turn = announced(seen, d);
                &&& turn.say.len() == 1
                &&& turn.say[0] matches MsgModel::Found(told) && turn.task == (
                TaskModel::Scanning { seen: with_found(seen, told) })
            }),
            None => announced(seen, d).action == ActionModel::FillKinds(seq![d])
                && forall|addr: crate::bt::AddrKind| #[trigger]
                with_found(seen, DiscoveredModel { addr, ..d }) == seen + seq![
                    DiscoveredModel { addr, ..d },
                ],
        },
{
    lemma_mac_index_in_range(seen, d.mac);
    match mac_index(seen, d.mac) {
        Some(i) => {
            let told = DiscoveredModel { addr: seen[i].addr, ..d };
            assert(announced(seen, d).say[0] == MsgModel::Found(told));
            assert(DiscoveredModel { name: told.name, addr: told.addr, ..seen[i] } == (
            DiscoveredModel { name: d.name, ..seen[i] }));
        },
        None => {
            assert forall|addr: crate::bt::AddrKind| #[trigger]
                with_found(seen, DiscoveredModel { addr, ..d }) == seen + seq![
                    DiscoveredModel { addr, ..d },
                ] by {
                assert(seen.push(DiscoveredModel { addr, ..d }) =~= seen + seq![
                    DiscoveredModel { addr, ..d },
                ]);
            }
        },
    }
}

// ---------------------------------------------------------------------------
// The log and the cadence
// ---------------------------------------------------------------------------

/// A repeat of the newest entry takes no second line.
pub proof fn repeats_take_no_second_line(
    log: Seq<LogModel>,
    text: Seq<char>,
    tone: Tone,
    then: u64,
    now: u64,
)
    ensures
        logged(logged(log, text, tone, then), text, tone, now) == logged(log, text, tone, now),
{
    let once = logged(log, text, tone, then);
    assert(once.last() == (text, tone, then));
    assert(once.drop_last().push((text, tone, now)) =~= logged(log, text, tone, now));
}

proof fn lemma_still_shown_contains(log: Seq<LogModel>, now: u64, pinned: bool, i: int)
    requires
        0 <= i < log.len(),
    ensures
        stays(log[i], now, pinned) ==> still_shown(log, now, pinned).contains(log[i]),
    decreases log.len(),
{
    let before = still_shown(log.drop_last(), now, pinned);
    let whole = still_shown(log, now, pinned);
    if stays(log[i], now, pinned) {
        if i < log.len() - 1 {
            lemma_still_shown_contains(log.drop_last(), now, pinned, i);
            let k = choose|k: int| 0 <= k < before.len() && before[k] == log[i];
            assert(whole[k] == log[i]);
        } else {
            assert(whole[whole.len() - 1] == log[i]);
        }
    }
}

/// Warnings and failures stay in the log, however old, until the user acts
/// again; other entries stay for their time.
pub proof fn warnings_stay_until_the_user_acts(s: AppModel, now: u64, i: int)
    requires
        0 <= i < s.log.len(),
    ensures
        s.log[i].1 is Warn || s.log[i].1 is Failure ==> ticked(s, now).log.contains(s.log[i]),
        !expired(s.log[i].2, now) ==> ticked(s, now).log.contains(s.log[i]),
{
    lemma_still_shown_contains(s.log, now, true, i);
}

/// When the user acts, nothing stays that has outlived its time.
pub proof fn acting_clears_what_has_expired(s: AppModel, label: Seq<char>, now: u64, i: int)
    requires
        0 <= i < begun(s, label, now).log.len(),
    ensures
        !expired(begun(s, label, now).log[i].2, now),
{
    lemma_still_shown_stays(s.log, now, false, i);
}

proof fn lemma_still_shown_stays(log: Seq<LogModel>, now: u64, pinned: bool, i: int)
    requires
        0 <= i < still_shown(log, now, pinned).len(),
    ensures
        stays(still_shown(log, now, pinned)[i], now, pinned),
    decreases log.len(),
{
    let before = still_shown(log.drop_last(), now, pinned);
    if i < before.len() {
        lemma_still_shown_stays(log.drop_last(), now, pinned, i);
    }
}

/// The commands that are counted as pending are those that the worker carries
/// out, and so come to an `OpDone` each, which takes them off again.
pub proof fn counted_commands_are_carried_out(
    s: AppModel,
    cmd: CmdModel,
    audio_available: bool,
    now: u64,
)
    requires
        s.pending < u32::MAX,
    ensures
        first_turn(cmd, audio_available) is Some ==> counted(s, cmd).pending == s.pending + 1,
        first_turn(cmd, audio_available) is Some ==> op_done(counted(s, cmd), now).pending
            == s.pending,
        first_turn(cmd, audio_available) is None ==> counted(s, cmd) == s,
{
}

/// The list is never refreshed unasked while an operation is pending, and with
/// the last one done the wait begins anew.
pub proof fn refresh_waits_for_idleness(s: AppModel, done: u64, now: u64)
    ensures
        s.pending > 0 ==> !refresh_due(s, now),
        s.pending > 1 ==> !refresh_due(op_done(s, done), now),
        s.pending <= 1 ==> op_done(s, done).last_done == done && op_done(s, done).busy is None,
        s.pending <= 1 ==> (refresh_due(op_done(s, done), now) <==> now - done
            >= super::AUTO_REFRESH),
{
}

} // verus!
