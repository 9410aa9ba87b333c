//! What each key does, on whatever screen it is pressed.

use vstd::prelude::*;

use crate::bt::groups::groups_of;
use crate::bt::{DeviceModel, DiscoveredModel};
use crate::worker::{CmdModel, Tone};

use super::filter::matches_filter;
use super::keys::{key_pressed, KeyCode, KeyEvent};
use super::{
    begun, current_device, logged, passing, refresh_due, shown_rows, still_shown, ticked, AppModel,
    LogModel, ViewModel,
};

verus! {

/// The key, pressed without Ctrl.
pub open spec fn plain(code: KeyCode) -> KeyEvent {
    KeyEvent { code, control: false }
}

/// Nothing is in the way of the keys of the view: no overlay, no filter being
/// typed, and no operation running.
pub open spec fn idle(s: AppModel) -> bool {
    !s.help && !s.filtering && s.busy is None
}

/// The device list is on screen and idle.
pub open spec fn at_the_list(s: AppModel) -> bool {
    idle(s) && s.view is DeviceList
}

/// How many rows the list shows.
pub open spec fn rows(s: AppModel) -> int {
    shown_rows(s.devices, s.filter).len() as int
}

/// The entry is no older than eight seconds.
pub open spec fn recent(entry: LogModel, now: u64) -> bool {
    now - entry.2 <= 8_000_000_000
}

/// An operation was started: it is shown under that label, the log has dropped
/// what is older than eight seconds, and the screen is else as it was.
pub open spec fn started(s: AppModel, t: AppModel, label: Seq<char>, now: u64) -> bool {
    t == (AppModel {
        busy: Some(label),
        progress: None,
        log: s.log.filter(|e: LogModel| recent(e, now)),
        ..s
    })
}

// ---------------------------------------------------------------------------
// The list
// ---------------------------------------------------------------------------

/// `j`, `k` and the arrows move the cursor by one row and stop at the ends; `g`
/// and `G` go to the first and the last row. Nothing else changes.
pub proof fn navigation_moves_the_cursor(s: AppModel, code: KeyCode, now: u64)
    requires
        at_the_list(s),
        s.selected < rows(s),
    ensures
        ({
            let t = key_pressed(s, plain(code), now);
            let to = |row: int| (AppModel { selected: row as nat, ..s }, None::<CmdModel>);
            &&& code == KeyCode::Char('j') || code == KeyCode::Down ==> t == (if s.selected + 1
                < rows(s) {
                to(s.selected + 1int)
            } else {
                to(s.selected as int)
            })
            &&& code == KeyCode::Char('k') || code == KeyCode::Up ==> t == (if s.selected > 0 {
                to(s.selected - 1)
            } else {
                to(0)
            })
            &&& code == KeyCode::Char('g') ==> t == to(0)
            &&& code == KeyCode::Char('G') ==> t == to(rows(s) - 1)
        }),
{
}

/// Every key of the list that acts on a device acts on the one under the cursor,
/// and on no other: Enter toggles its connection, `t` its trust, `a` its audio
/// profile, `i` shows its details, and `x` and Del ask whether to remove it.
pub proof fn keys_act_on_the_device_under_the_cursor(s: AppModel, d: DeviceModel, now: u64)
    requires
        at_the_list(s),
        current_device(s) == Some(d),
    ensures
        ({
            let (enter, enter_cmd) = key_pressed(s, plain(KeyCode::Enter), now);
            let (t, t_cmd) = key_pressed(s, plain(KeyCode::Char('t')), now);
            let (a, a_cmd) = key_pressed(s, plain(KeyCode::Char('a')), now);
            let (i, i_cmd) = key_pressed(s, plain(KeyCode::Char('i')), now);
            let x = key_pressed(s, plain(KeyCode::Char('x')), now);
            let del = key_pressed(s, plain(KeyCode::Delete), now);
            &&& enter_cmd == Some(CmdModel::ToggleConnect { mac: d.mac, name: d.name })
            &&& started(s, enter, "Toggling connection…"@, now)
            &&& t_cmd == Some(CmdModel::ToggleTrust { mac: d.mac })
            &&& started(s, t, "Updating trust…"@, now)
            &&& a_cmd == Some(CmdModel::ToggleProfile { mac: d.mac, name: d.name })
            &&& started(s, a, "Switching audio profile…"@, now)
            &&& i_cmd == Some(CmdModel::Details { mac: d.mac, name: d.name })
            &&& started(s, i, "Loading info…"@, now)
            &&& x == (
                AppModel { view: ViewModel::ConfirmRemove { mac: d.mac, name: d.name }, ..s },
                None::<CmdModel>,
            )
            &&& del == x
        }),
{
    lemma_unpinned(s.log, now);
}

/// The keys of the list that need no device: `s` scans, `r` refreshes, `d`
/// diagnoses the host and the device under the cursor, if there is one, `/`
/// begins to type the filter, and `q` quits.
pub proof fn keys_that_need_no_device(s: AppModel, now: u64)
    requires
        at_the_list(s),
    ensures
        ({
            let (scan, scan_cmd) = key_pressed(s, plain(KeyCode::Char('s')), now);
            let (r, r_cmd) = key_pressed(s, plain(KeyCode::Char('r')), now);
            let (d, d_cmd) = key_pressed(s, plain(KeyCode::Char('d')), now);
            &&& scan_cmd == Some(CmdModel::Scan)
            &&& started(s, scan, "Scanning ~10s…"@, now)
            &&& r_cmd == Some(CmdModel::Refresh)
            &&& started(s, r, "Refreshing…"@, now)
            &&& current_device(s) matches Some(dev) ==> d_cmd == Some(
                CmdModel::Doctor { device: Some((dev.mac, dev.name)) },
            )
            &&& current_device(s) is None ==> d_cmd == Some(CmdModel::Doctor { device: None })
            &&& started(s, d, "Running diagnostics…"@, now)
            &&& key_pressed(s, plain(KeyCode::Char('/')), now) == (
                AppModel { filtering: true, ..s },
                None::<CmdModel>,
            )
            &&& key_pressed(s, plain(KeyCode::Char('q')), now) == (
                AppModel { quit: true, ..s },
                None::<CmdModel>,
            )
        }),
{
    lemma_unpinned(s.log, now);
}

/// No other key does anything at the list.
pub proof fn unbound_keys_do_nothing(s: AppModel, code: KeyCode, now: u64)
    requires
        at_the_list(s),
        !(code is Esc || code is Down || code is Up || code is Enter || code is Delete),
        forall|c: char| code == KeyCode::Char(c) ==> !"qjkgG/stairxd?"@.contains(c),
    ensures
        key_pressed(s, plain(code), now) == (s, None::<CmdModel>),
{
    reveal_strlit("qjkgG/stairxd?");
    let keys = "qjkgG/stairxd?"@;
    if let KeyCode::Char(c) = code {
        assert(keys[0] == 'q' && keys[1] == 'j' && keys[2] == 'k' && keys[3] == 'g');
        assert(keys[4] == 'G' && keys[5] == '/' && keys[6] == 's' && keys[7] == 't');
        assert(keys[8] == 'a' && keys[9] == 'i' && keys[10] == 'r' && keys[11] == 'x');
        assert(keys[12] == 'd' && keys[13] == '?');
        assert(!keys.contains(c));
    }
}

/// The device under the cursor is one that passes the filter, with as many such
/// devices before it as there are rows above the cursor; there is none only
/// where the cursor stands beyond the rows.
pub proof fn the_cursor_stands_on_a_shown_device(s: AppModel)
    ensures
        current_device(s) matches Some(d) ==> exists|i: int|
            0 <= i < s.devices.len() && #[trigger] s.devices[i] == d && matches_filter(
                d.name,
                s.filter,
            ) && passing(s.devices, s.filter, i as nat).len() == s.selected,
        current_device(s) is Some <==> s.selected < rows(s),
{
    if s.selected < rows(s) {
        let at = lemma_row_place(s.devices, s.filter, s.devices.len(), s.selected as int);
        assert(s.devices[at] == current_device(s)->0);
    }
}

proof fn lemma_row_place(devices: Seq<DeviceModel>, filter: Seq<char>, n: nat, row: int) -> (i: int)
    requires
        n <= devices.len(),
        0 <= row < passing(devices, filter, n).len(),
    ensures
        i == passing(devices, filter, n)[row],
        0 <= i < n,
        matches_filter(devices[i].name, filter),
        passing(devices, filter, i as nat).len() == row,
    decreases n,
{
    let before = passing(devices, filter, (n - 1) as nat);
    if row < before.len() {
        lemma_row_place(devices, filter, (n - 1) as nat, row)
    } else {
        n - 1
    }
}

// ---------------------------------------------------------------------------
// The filter
// ---------------------------------------------------------------------------

/// While the filter is typed, a character is added to it and Backspace takes the
/// last one off, with the cursor on the first row; Enter keeps the filter, and
/// Esc drops it. No key starts anything.
pub proof fn typing_edits_the_filter(s: AppModel, c: char, code: KeyCode, now: u64)
    requires
        s.filtering,
        !s.help,
        !(s.view is PairPrompt),
    ensures
        key_pressed(s, plain(KeyCode::Char(c)), now) == (
            AppModel { filter: s.filter.push(c), selected: 0, ..s },
            None::<CmdModel>,
        ),
        s.filter.len() > 0 ==> key_pressed(s, plain(KeyCode::Backspace), now) == (
            AppModel { filter: s.filter.drop_last(), selected: 0, ..s },
            None::<CmdModel>,
        ),
        key_pressed(s, plain(KeyCode::Enter), now) == (
            AppModel { filtering: false, ..s },
            None::<CmdModel>,
        ),
        key_pressed(s, plain(KeyCode::Esc), now) == (
            AppModel { filtering: false, filter: Seq::empty(), selected: 0, ..s },
            None::<CmdModel>,
        ),
        key_pressed(s, plain(code), now).1 is None,
{
}

// ---------------------------------------------------------------------------
// The picker
// ---------------------------------------------------------------------------

/// In the picker the keys move among its rows, and Enter pairs the device of the
/// row under the cursor, by all of that row's addresses, with the whole list
/// taken along; `q` and Esc leave it, and the scan's final list stays away.
pub proof fn the_picker_pairs_its_row(
    s: AppModel,
    items: Seq<DiscoveredModel>,
    selected: nat,
    now: u64,
)
    requires
        idle(s),
        s.view == (ViewModel::ScanResults { items, selected }),
        selected < groups_of(items).len(),
    ensures
        ({
            let n = groups_of(items).len();
            let row = groups_of(items)[selected as int];
            let to = |k: int|
                (
                    AppModel { view: ViewModel::ScanResults { items, selected: k as nat }, ..s },
                    None::<CmdModel>,
                );
            let left = (
                AppModel { view: ViewModel::DeviceList, ignore_scan_results: true, ..s },
                None::<CmdModel>,
            );
            let (t, cmd) = key_pressed(s, plain(KeyCode::Enter), now);
            let down = if selected + 1 < n {
                to(selected + 1int)
            } else {
                to(selected as int)
            };
            let up = if selected > 0 {
                to(selected - 1)
            } else {
                to(0)
            };
            &&& cmd == Some(
                CmdModel::PairConnect { candidates: row.macs, name: row.name, others: items },
            )
            &&& started(AppModel { view: ViewModel::DeviceList, ..s }, t, "Pairing…"@, now)
            &&& key_pressed(s, plain(KeyCode::Char('j')), now) == down
            &&& key_pressed(s, plain(KeyCode::Down), now) == down
            &&& key_pressed(s, plain(KeyCode::Char('k')), now) == up
            &&& key_pressed(s, plain(KeyCode::Up), now) == up
            &&& key_pressed(s, plain(KeyCode::Char('g')), now) == to(0)
            &&& key_pressed(s, plain(KeyCode::Char('G')), now) == to(n - 1)
            &&& key_pressed(s, plain(KeyCode::Esc), now) == left
            &&& key_pressed(s, plain(KeyCode::Char('q')), now) == left
        }),
{
    lemma_unpinned(s.log, now);
}

// ---------------------------------------------------------------------------
// Popups
// ---------------------------------------------------------------------------

/// A removal takes a `y`, and removes the device that was asked about; any other
/// key goes back to the list and removes nothing.
pub proof fn removals_are_confirmed(
    s: AppModel,
    mac: Seq<char>,
    name: Seq<char>,
    code: KeyCode,
    now: u64,
)
    requires
        idle(s),
        s.view == (ViewModel::ConfirmRemove { mac, name }),
        code != KeyCode::Char('?'),
    ensures
        ({
            let (t, cmd) = key_pressed(s, plain(code), now);
            let back = AppModel { view: ViewModel::DeviceList, ..s };
            if code == KeyCode::Char('y') || code == KeyCode::Char('Y') {
                cmd == Some(CmdModel::Remove { mac }) && started(back, t, "Removing…"@, now)
            } else {
                cmd is None && t == back
            }
        }),
{
    lemma_unpinned(s.log, now);
}

/// In the details the keys scroll, one row at a time or to either end, and `q`,
/// Esc, `i` and Enter go back to the list.
pub proof fn details_scroll_and_close(
    s: AppModel,
    name: Seq<char>,
    text: Seq<char>,
    scroll: u16,
    now: u64,
)
    requires
        idle(s),
        s.view == (ViewModel::Details { name, text, scroll }),
    ensures
        ({
            let to = |k: u16|
                (AppModel { view: ViewModel::Details { name, text, scroll: k }, ..s }, None::<
                    CmdModel,
                >);
            let back = (AppModel { view: ViewModel::DeviceList, ..s }, None::<CmdModel>);
            let down = to(
                if scroll < u16::MAX {
                    (scroll + 1) as u16
                } else {
                    u16::MAX
                },
            );
            let up = to(
                if scroll > 0 {
                    (scroll - 1) as u16
                } else {
                    0
                },
            );
            &&& key_pressed(s, plain(KeyCode::Char('j')), now) == down
            &&& key_pressed(s, plain(KeyCode::Down), now) == down
            &&& key_pressed(s, plain(KeyCode::Char('k')), now) == up
            &&& key_pressed(s, plain(KeyCode::Up), now) == up
            &&& key_pressed(s, plain(KeyCode::Char('g')), now) == to(0)
            &&& key_pressed(s, plain(KeyCode::Char('G')), now) == to(u16::MAX)
            &&& key_pressed(s, plain(KeyCode::Esc), now) == back
            &&& key_pressed(s, plain(KeyCode::Char('q')), now) == back
            &&& key_pressed(s, plain(KeyCode::Char('i')), now) == back
            &&& key_pressed(s, plain(KeyCode::Enter), now) == back
        }),
{
}

/// The help overlay scrolls by the same keys, and `?`, `q`, Esc and Enter close
/// it; the rest of the screen stays as it is.
pub proof fn help_scrolls_and_closes(s: AppModel, now: u64)
    requires
        s.help,
        !(s.view is PairPrompt),
    ensures
        ({
            let to = |k: u16| (AppModel { help_scroll: k, ..s }, None::<CmdModel>);
            let closed = (AppModel { help: false, ..s }, None::<CmdModel>);
            let down = to(
                if s.help_scroll < u16::MAX {
                    (s.help_scroll + 1) as u16
                } else {
                    u16::MAX
                },
            );
            let up = to(
                if s.help_scroll > 0 {
                    (s.help_scroll - 1) as u16
                } else {
                    0
                },
            );
            &&& key_pressed(s, plain(KeyCode::Char('j')), now) == down
            &&& key_pressed(s, plain(KeyCode::Down), now) == down
            &&& key_pressed(s, plain(KeyCode::Char('k')), now) == up
            &&& key_pressed(s, plain(KeyCode::Up), now) == up
            &&& key_pressed(s, plain(KeyCode::Char('g')), now) == to(0)
            &&& key_pressed(s, plain(KeyCode::Char('G')), now) == to(u16::MAX)
            &&& key_pressed(s, plain(KeyCode::Char('?')), now) == closed
            &&& key_pressed(s, plain(KeyCode::Char('q')), now) == closed
            &&& key_pressed(s, plain(KeyCode::Esc), now) == closed
            &&& key_pressed(s, plain(KeyCode::Enter), now) == closed
        }),
{
}

/// A confirmation is answered "yes" by `y` and "no" by `n` and Esc, and by no
/// other key. A PIN is what was typed, submitted by Enter; Esc submits an empty
/// one, and Backspace takes the last character off. An answer closes the prompt.
pub proof fn prompts_are_answered_by_their_keys(
    s: AppModel,
    passkey: Seq<char>,
    input: Seq<char>,
    code: KeyCode,
    now: u64,
)
    ensures
        ({
            let back = AppModel { view: ViewModel::DeviceList, ..s };
            let says = |a: Seq<char>| (back, Some(CmdModel::PairReply(a)));
            &&& s.view == (ViewModel::PairPrompt { pin: false, passkey, input }) ==> key_pressed(
                s,
                plain(code),
                now,
            ) == (if code == KeyCode::Char('y') || code == KeyCode::Char('Y') {
                says("yes"@)
            } else if code == KeyCode::Char('n') || code == KeyCode::Char('N') || code
                == KeyCode::Esc {
                says("no"@)
            } else {
                (s, None)
            })
            &&& s.view == (ViewModel::PairPrompt { pin: true, passkey, input }) ==> {
                &&& input.len() > 0 ==> key_pressed(s, plain(KeyCode::Enter), now) == says(input)
                &&& input.len() == 0 ==> key_pressed(s, plain(KeyCode::Enter), now) == (s, None::<
                    CmdModel,
                >)
                &&& key_pressed(s, plain(KeyCode::Esc), now) == says(Seq::empty())
                &&& input.len() > 0 ==> key_pressed(s, plain(KeyCode::Backspace), now) == (
                    AppModel {
                        view: ViewModel::PairPrompt { pin: true, passkey, input: input.drop_last() },
                        ..s
                    },
                    None::<CmdModel>,
                )
            }
        }),
{
    let says = |a: Seq<char>|
        (AppModel { view: ViewModel::DeviceList, ..s }, Some(CmdModel::PairReply(a)));
    assert(says("yes"@).1 == Some(CmdModel::PairReply("yes"@)));
}

/// While an operation runs, only moving, leaving and, in the picker, pairing are
/// open: pairing cuts the scan short, and its final list stays away.
pub proof fn busy_keys_move_leave_and_pair(s: AppModel, code: KeyCode, now: u64)
    requires
        s.busy is Some,
        !s.help,
        !s.filtering,
        !(s.view is PairPrompt),
    ensures
        ({
            let (t, cmd) = key_pressed(s, plain(code), now);
            let list = AppModel { view: ViewModel::DeviceList, ..s };
            &&& code != KeyCode::Char('j') && code != KeyCode::Char('k') && code != KeyCode::Down
                && code != KeyCode::Up && code != KeyCode::Char('q') && code != KeyCode::Esc && code
                != KeyCode::Enter && code != KeyCode::Char('?') ==> t == s && cmd is None
            &&& !(s.view is ScanResults) && s.selected < rows(s) ==> {
                let down = code == KeyCode::Char('j') || code == KeyCode::Down;
                let up = code == KeyCode::Char('k') || code == KeyCode::Up;
                let row = if down && s.selected + 1 < rows(s) {
                    s.selected + 1int
                } else if up && s.selected > 0 {
                    s.selected - 1int
                } else {
                    s.selected as int
                };
                down || up ==> t == (AppModel { selected: row as nat, ..s }) && cmd is None
            }
            &&& s.view matches ViewModel::ScanResults { items, selected } ==> {
                let down = code == KeyCode::Char('j') || code == KeyCode::Down;
                let up = code == KeyCode::Char('k') || code == KeyCode::Up;
                let row = if down && selected + 1 < groups_of(items).len() {
                    selected + 1int
                } else if up && selected > 0 {
                    selected - 1int
                } else {
                    selected as int
                };
                (down || up) && selected < groups_of(items).len() ==> t == (AppModel {
                    view: ViewModel::ScanResults { items, selected: row as nat },
                    ..s
                }) && cmd is None
            }
            &&& code == KeyCode::Enter ==> (match s.view {
                ViewModel::ScanResults { items, selected } => if selected < groups_of(
                    items,
                ).len() {
                    let row = groups_of(items)[selected as int];
                    &&& cmd == Some(
                        CmdModel::PairConnect {
                            candidates: row.macs,
                            name: row.name,
                            others: items,
                        },
                    )
                    &&& started(
                        AppModel { ignore_scan_results: true, kill_child: true, ..list },
                        t,
                        "Pairing…"@,
                        now,
                    )
                } else {
                    t == s && cmd is None
                },
                _ => t == s && cmd is None,
            })
            &&& (code == KeyCode::Char('q') || code == KeyCode::Esc) ==> cmd is None && (
            match s.view {
                ViewModel::ScanResults { .. } => t == (AppModel {
                    ignore_scan_results: true,
                    ..list
                }),
                ViewModel::DeviceList => if code == KeyCode::Esc && s.filter.len() > 0 {
                    t == (AppModel { filter: Seq::empty(), selected: 0, ..s })
                } else {
                    t == (AppModel { quit: true, ..s })
                },
                _ => t == list,
            })
        }),
{
    lemma_unpinned(s.log, now);
}

// ---------------------------------------------------------------------------
// The log and the clock
// ---------------------------------------------------------------------------

/// As time goes by, entries older than eight seconds leave the log, but warnings
/// and failures stay; when an operation starts those leave too. What stays keeps
/// its order.
pub proof fn old_entries_leave_the_log(s: AppModel, label: Seq<char>, now: u64)
    ensures
        ticked(s, now).log == s.log.filter(
            |e: LogModel| recent(e, now) || e.1 is Warn || e.1 is Failure,
        ),
        begun(s, label, now).log == s.log.filter(|e: LogModel| recent(e, now)),
        begun(s, label, now).busy == Some(label),
        begun(s, label, now).progress is None,
        ticked(s, now) == (AppModel {
            tick: ticked(s, now).tick,
            log: ticked(s, now).log,
            ..s
        }),
        s.tick < u64::MAX ==> ticked(s, now).tick == s.tick + 1,
        s.tick == u64::MAX ==> ticked(s, now).tick == 0,
{
    lemma_pinned(s.log, now);
    lemma_unpinned(s.log, now);
}

proof fn lemma_pinned(log: Seq<LogModel>, now: u64)
    ensures
        still_shown(log, now, true) == log.filter(
            |e: LogModel| recent(e, now) || e.1 is Warn || e.1 is Failure,
        ),
    decreases log.len(),
{
    reveal(Seq::filter);
    if log.len() > 0 {
        lemma_pinned(log.drop_last(), now);
    }
}

proof fn lemma_unpinned(log: Seq<LogModel>, now: u64)
    ensures
        still_shown(log, now, false) == log.filter(|e: LogModel| recent(e, now)),
    decreases log.len(),
{
    reveal(Seq::filter);
    if log.len() > 0 {
        lemma_unpinned(log.drop_last(), now);
    }
}

/// A new entry comes last. A repeat of the newest only renews its time; else the
/// entries before it stay, of which the oldest makes room where there were four.
pub proof fn new_entries_come_last(log: Seq<LogModel>, text: Seq<char>, tone: Tone, now: u64)
    requires
        log.len() <= 4,
    ensures
        ({
            let after = logged(log, text, tone, now);
            let repeat = log.len() > 0 && log.last().0 == text && log.last().1 == tone;
            &&& after.len() > 0
            &&& after.last() == (text, tone, now)
            &&& repeat ==> after.drop_last() == log.drop_last()
            &&& !repeat && log.len() < 4 ==> after.drop_last() == log
            &&& !repeat && log.len() == 4 ==> after.drop_last() == log.drop_first()
        }),
{
    let entry = (text, tone, now);
    let after = logged(log, text, tone, now);
    if log.len() > 0 && log.last().0 == text && log.last().1 == tone {
        assert(after.drop_last() =~= log.drop_last());
    } else if log.len() == 4 {
        assert(after =~= log.drop_first().push(entry));
        assert(after.drop_last() =~= log.drop_first());
    } else {
        assert(after.drop_last() =~= log);
    }
}

/// The list is refreshed unasked once nothing has been under way for eight
/// seconds, and not before.
pub proof fn refreshes_come_after_eight_idle_seconds(s: AppModel, now: u64)
    ensures
        refresh_due(s, now) <==> s.pending == 0 && now >= s.last_done + 8_000_000_000,
{
}

} // verus!
