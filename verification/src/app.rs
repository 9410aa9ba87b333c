//! Application state.

use std::time::{Duration, Instant};

use vstd::prelude::*;
use vstd::view::View as Viewed;

use crate::bt::groups::groups_of;
use crate::bt::{
    group_discovered, Device, DeviceModel, Discovered, DiscoveredGroup, DiscoveredModel, GroupModel,
};
use crate::text;
use crate::worker::{Cmd, CmdModel, Tone};

pub mod bindings;
pub mod filter;
pub mod keys;
pub mod laws;
pub mod messages;
pub mod order;
pub mod showing;

pub use filter::fuzzy_match;
pub use keys::{KeyCode, KeyEvent};


use filter::matches_filter;

verus! {

// ---------------------------------------------------------------------------
// Time
// ---------------------------------------------------------------------------

/// `std::time::Instant`, a reading of a clock that never goes back.
#[verifier::external_type_specification]
#[verifier::external_body]
pub struct ExInstant(std::time::Instant);

/// `Instant::now` reads the clock. Nothing is claimed of the reading.
pub assume_specification[ Instant::now ]() -> (r: Instant);

/// `Instant::elapsed` tells the time that has gone by since a reading. Nothing
/// is claimed of it.
pub assume_specification[ Instant::elapsed ](earlier: &Instant) -> (r: Duration);

/// `Duration::as_nanos` gives a span of time in nanoseconds. Nothing is claimed
/// of the number.
pub assume_specification[ Duration::as_nanos ](span: &Duration) -> (r: u128);

/// The nanoseconds since a reading of the clock, as `whole_nanos` counts them.
/// How many there are rests on when the clock is read, so nothing is said of
/// the number.
fn nanos_since(start: &Instant) -> (r: u64) {
    whole_nanos(start.elapsed().as_nanos())
}

/// A number of nanoseconds as the log keeps it: a span too long for 64 bits
/// counts as the longest that fits.
pub fn whole_nanos(n: u128) -> (r: u64)
    ensures
        r == (if n <= u64::MAX { n as int } else { u64::MAX as int }),
{
    if n > u64::MAX as u128 {
        u64::MAX
    } else {
        n as u64
    }
}

/// Info and success entries of the log disappear this many nanoseconds after
/// being pushed. Warnings and failures stay until the next operation starts
/// (their instructions remain actionable until the user acts again).
pub const LOG_TTL: u64 = 8_000_000_000;

/// At most this many event-log lines are kept; the bottom log's height derives
/// from it.
pub const LOG_MAX: usize = 4;

/// The list is refreshed unasked when the worker has been idle this many
/// nanoseconds, so that external connects and disconnects show up on their own.
pub const AUTO_REFRESH: u64 = 8_000_000_000;

// ---------------------------------------------------------------------------
// State
// ---------------------------------------------------------------------------

pub enum View {
    DeviceList,
    ScanResults {
        /// Every discovered address, kept raw so a pair failure can reopen
        /// the picker unchanged. The rows the user sees are
        /// `group_discovered(items)` - one per device name.
        items: Vec<Discovered>,
        selected: usize,
    },
    ConfirmRemove { mac: String, name: String },
    Details {
        name: String,
        text: String,
        /// First wrapped row shown; the renderer clamps it to the content.
        scroll: u16,
    },
    PairPrompt { pin: bool, passkey: String, input: String },
}

pub ghost enum ViewModel {
    DeviceList,
    ScanResults { items: Seq<DiscoveredModel>, selected: nat },
    ConfirmRemove { mac: Seq<char>, name: Seq<char> },
    Details { name: Seq<char>, text: Seq<char>, scroll: u16 },
    PairPrompt { pin: bool, passkey: Seq<char>, input: Seq<char> },
}

impl Viewed for View {
    type V = ViewModel;

    open spec fn view(&self) -> ViewModel {
        match self {
            View::DeviceList => ViewModel::DeviceList,
            View::ScanResults { items, selected } => ViewModel::ScanResults {
                items: items.deep_view(),
                selected: *selected as nat,
            },
            View::ConfirmRemove { mac, name } => ViewModel::ConfirmRemove {
                mac: mac@,
                name: name@,
            },
            View::Details { name, text, scroll } => ViewModel::Details {
                name: name@,
                text: text@,
                scroll: *scroll,
            },
            View::PairPrompt { pin, passkey, input } => ViewModel::PairPrompt {
                pin: *pin,
                passkey: passkey@,
                input: input@,
            },
        }
    }
}

pub struct App {
    pub devices: Vec<Device>,
    /// Selection index into the *visible* (filtered) device list.
    pub selected: usize,
    pub view: View,
    pub busy: Option<String>,
    /// Live narration of the running operation, shown on the spinner line.
    pub progress: Option<String>,
    /// Banner-console-style event log: newest last. The time of an entry is in
    /// nanoseconds since `clock`.
    pub log: Vec<(String, Tone, u64)>,
    /// Fuzzy filter over device names; empty = show all.
    pub filter: String,
    /// True while the user is typing the filter query.
    pub filtering: bool,
    /// Operations sent to the worker that haven't OpDone'd yet. Includes
    /// silent auto-refreshes, which carry no busy label.
    pub pending: u32,
    /// When the worker last went idle - drives the auto-refresh cadence. In
    /// nanoseconds since `clock`.
    pub last_done: u64,
    /// One-shot: drop the next `Msg::ScanResults`. Set when the user closes
    /// the picker (or queues a pair) mid-scan, so the scan's final list can't
    /// yank them back into a view they already left.
    pub ignore_scan_results: bool,
    /// One-shot: cut the running scan short, so that the worker moves straight
    /// on to the queued pairing.
    pub kill_child: bool,
    /// The key-binding popup, shown by `?`. It is an overlay rather than a
    /// `View`: it can appear over any of them, and replacing the view would
    /// throw away its state - a running scan's results, loaded device info,
    /// a pending remove confirmation.
    pub help: bool,
    /// First row of the help list on screen; the renderer clamps it.
    pub help_scroll: u16,
    pub tick: u64,
    pub quit: bool,
    /// When the application was started.
    pub clock: Instant,
}

/// A line of the event log: its text, its severity and when it was pushed.
pub type LogModel = (Seq<char>, Tone, u64);

pub ghost struct AppModel {
    pub devices: Seq<DeviceModel>,
    pub selected: nat,
    pub view: ViewModel,
    pub busy: Option<Seq<char>>,
    pub progress: Option<Seq<char>>,
    pub log: Seq<LogModel>,
    pub filter: Seq<char>,
    pub filtering: bool,
    pub pending: u32,
    pub last_done: u64,
    pub ignore_scan_results: bool,
    pub kill_child: bool,
    pub help: bool,
    pub help_scroll: u16,
    pub tick: u64,
    pub quit: bool,
    pub clock: Instant,
}

impl Viewed for App {
    type V = AppModel;

    open spec fn view(&self) -> AppModel {
        AppModel {
            devices: self.devices.deep_view(),
            selected: self.selected as nat,
            view: self.view@,
            busy: self.busy.deep_view(),
            progress: self.progress.deep_view(),
            log: self.log.deep_view(),
            filter: self.filter@,
            filtering: self.filtering,
            pending: self.pending,
            last_done: self.last_done,
            ignore_scan_results: self.ignore_scan_results,
            kill_child: self.kill_child,
            help: self.help,
            help_scroll: self.help_scroll,
            tick: self.tick,
            quit: self.quit,
            clock: self.clock,
        }
    }
}

/// The state that the application starts in.
pub open spec fn fresh(now: u64, clock: Instant) -> AppModel {
    AppModel {
        devices: Seq::empty(),
        selected: 0,
        view: ViewModel::DeviceList,
        busy: None,
        progress: None,
        log: Seq::empty(),
        filter: Seq::empty(),
        filtering: false,
        pending: 0,
        last_done: now,
        ignore_scan_results: false,
        kill_child: false,
        help: false,
        help_scroll: 0,
        tick: 0,
        quit: false,
        clock,
    }
}

// ---------------------------------------------------------------------------
// The event log
// ---------------------------------------------------------------------------

/// More time has gone by since `at` than an entry is shown for.
pub open spec fn expired(at: u64, now: u64) -> bool {
    now - at > LOG_TTL
}

/// The entry stays: it is recent or, where those are pinned, a warning or a
/// failure.
pub open spec fn stays(entry: LogModel, now: u64, pinned: bool) -> bool {
    (pinned && (entry.1 is Warn || entry.1 is Failure)) || !expired(entry.2, now)
}

/// The entries that stay, in order.
pub open spec fn still_shown(log: Seq<LogModel>, now: u64, pinned: bool) -> Seq<LogModel>
    decreases log.len(),
{
    if log.len() == 0 {
        Seq::empty()
    } else {
        let before = still_shown(log.drop_last(), now, pinned);
        if stays(log.last(), now, pinned) {
            before.push(log.last())
        } else {
            before
        }
    }
}

/// Time went by.
pub open spec fn ticked(s: AppModel, now: u64) -> AppModel {
    AppModel {
        tick: if s.tick == u64::MAX {
            0
        } else {
            (s.tick + 1) as u64
        },
        log: still_shown(s.log, now, true),
        ..s
    }
}

/// The log with a finished event added. A repeat of the newest entry only
/// refreshes its time; the oldest entry makes room.
pub open spec fn logged(log: Seq<LogModel>, text: Seq<char>, tone: Tone, now: u64) -> Seq<
    LogModel,
> {
    let entry = (text, tone, now);
    if log.len() > 0 && log.last().0 == text && log.last().1 == tone {
        log.drop_last().push(entry)
    } else if log.len() + 1 > LOG_MAX {
        log.push(entry).drop_first()
    } else {
        log.push(entry)
    }
}

/// A user-visible operation has started.
pub open spec fn begun(s: AppModel, label: Seq<char>, now: u64) -> AppModel {
    AppModel {
        busy: Some(label),
        progress: None,
        log: still_shown(s.log, now, false),
        ..s
    }
}

fn retain_log(log: &Vec<(String, Tone, u64)>, now: u64, pinned: bool) -> (r: Vec<
    (String, Tone, u64),
>)
    ensures
        r.deep_view() == still_shown(log.deep_view(), now, pinned),
{
    let ghost all = log.deep_view();
    let mut out: Vec<(String, Tone, u64)> = Vec::new();
    let mut i: usize = 0;
    assert(out.deep_view() =~= still_shown(all.take(0), now, pinned));
    while i < log.len()
        invariant
            i <= log@.len(),
            all == log.deep_view(),
            out.deep_view() == still_shown(all.take(i as int), now, pinned),
        decreases log@.len() - i,
    {
        assert(all.take(i + 1).drop_last() =~= all.take(i as int));
        let tone = log[i].1;
        let at: u64 = log[i].2;
        let pin: bool = pinned && (tone == Tone::Warn || tone == Tone::Failure);
        let recent: bool = now < at || now - at <= LOG_TTL;
        assert(all[i as int] == (log@[i as int].0@, tone, at));
        if pin || recent {
            let ghost before = out.deep_view();
            out.push((log[i].0.clone(), tone, at));
            assert(out.deep_view() =~= before.push(all[i as int]));
        }
        i += 1;
    }
    assert(all.take(i as int) =~= all);
    out
}

// ---------------------------------------------------------------------------
// What is on screen
// ---------------------------------------------------------------------------

/// Indices of the first `n` devices that pass the filter.
pub open spec fn passing(devices: Seq<DeviceModel>, filter: Seq<char>, n: nat) -> Seq<int>
    decreases n,
{
    if n == 0 {
        Seq::empty()
    } else {
        let before = passing(devices, filter, (n - 1) as nat);
        if matches_filter(devices[n - 1].name, filter) {
            before.push(n - 1)
        } else {
            before
        }
    }
}

/// Indices of the devices that pass the filter, in order: the rows of the list.
pub open spec fn shown_rows(devices: Seq<DeviceModel>, filter: Seq<char>) -> Seq<int> {
    passing(devices, filter, devices.len())
}

/// The device under the cursor.
pub open spec fn current_device(s: AppModel) -> Option<DeviceModel> {
    let rows = shown_rows(s.devices, s.filter);
    if s.selected < rows.len() {
        Some(s.devices[rows[s.selected as int]])
    } else {
        None
    }
}

/// The rows of the scan picker.
pub open spec fn picker_rows(view: ViewModel) -> Seq<GroupModel> {
    match view {
        ViewModel::ScanResults { items, .. } => groups_of(items),
        _ => Seq::empty(),
    }
}

/// Indices as mathematical integers.
pub open spec fn ints(v: Seq<usize>) -> Seq<int> {
    v.map_values(|i: usize| i as int)
}

/// Every row is the index of a device.
pub proof fn rows_are_devices(devices: Seq<DeviceModel>, filter: Seq<char>, n: nat, k: int)
    requires
        n <= devices.len(),
        0 <= k < passing(devices, filter, n).len(),
    ensures
        0 <= passing(devices, filter, n)[k] < n,
        matches_filter(devices[passing(devices, filter, n)[k]].name, filter),
    decreases n,
{
    if n > 0 {
        let before = passing(devices, filter, (n - 1) as nat);
        if k < before.len() {
            rows_are_devices(devices, filter, (n - 1) as nat, k);
        }
    }
}

impl App {
    pub fn new() -> (r: Self)
        ensures
            exists|now: u64, clock: Instant| #[trigger] fresh(now, clock) == r@,
    {
        let clock = Instant::now();
        let now: u64 = nanos_since(&clock);
        let app = App {
            devices: Vec::new(),
            selected: 0,
            view: View::DeviceList,
            busy: None,
            progress: None,
            log: Vec::new(),
            filter: String::new(),
            filtering: false,
            pending: 0,
            last_done: now,
            ignore_scan_results: false,
            kill_child: false,
            help: false,
            help_scroll: 0,
            tick: 0,
            quit: false,
            clock,
        };
        assert(app.devices.deep_view() =~= Seq::<DeviceModel>::empty());
        assert(app.log.deep_view() =~= Seq::<LogModel>::empty());
        assert(fresh(now, app.clock) == app@);
        app
    }

    /// The time now, in nanoseconds since the application was started. Nothing
    /// is said of the reading: what follows from it is stated for every `now`
    /// by the functions that take one.
    pub(crate) fn now(&self) -> (r: u64) {
        nanos_since(&self.clock)
    }

    pub fn on_tick(&mut self)
        ensures
            exists|now: u64| #[trigger] ticked(old(self)@, now) == final(self)@,
    {
        let now: u64 = self.now();
        self.on_tick_at(now);
    }

    /// Time went by; it is `now`.
    pub fn on_tick_at(&mut self, now: u64)
        ensures
            final(self)@ == ticked(old(self)@, now),
    {
        if self.tick == u64::MAX {
            self.tick = 0;
        } else {
            self.tick = self.tick + 1;
        }
        // Warnings and failures outlive the TTL; they expire in begin() instead.
        let log = retain_log(&self.log, now, true);
        self.log = log;
    }

    /// Append a finished event to the log. Live progress goes through
    /// `Msg::Progress` instead and never lands here. A repeat of the newest
    /// entry (e.g. the same error from consecutive auto-refreshes) only
    /// refreshes its timestamp.
    pub fn push_log(&mut self, s: String, tone: Tone)
        ensures
            exists|now: u64|
                (AppModel { log: #[trigger] logged(old(self)@.log, s@, tone, now), ..old(self)@ })
                    == final(self)@,
    {
        let now: u64 = self.now();
        self.push_log_at(s, tone, now);
    }

    /// Append a finished event to the log, as of `now`.
    pub fn push_log_at(&mut self, s: String, tone: Tone, now: u64)
        ensures
            final(self)@ == (AppModel {
                log: logged(old(self)@.log, s@, tone, now),
                ..old(self)@
            }),
    {
        let ghost before = self.log.deep_view();
        let ghost entry = (s@, tone, now);
        let n: usize = self.log.len();
        if n > 0 {
            assert(before.last() == (self.log@[n - 1].0@, self.log@[n - 1].1, self.log@[n - 1].2));
            if text::same(self.log[n - 1].0.as_str(), s.as_str()) && self.log[n - 1].1 == tone {
                let _ = self.log.pop();
                assert(self.log.deep_view() =~= before.drop_last());
                self.log.push((s, tone, now));
                assert(self.log.deep_view() =~= before.drop_last().push(entry));
                return ;
            }
        }
        self.log.push((s, tone, now));
        assert(self.log.deep_view() =~= before.push(entry));
        if self.log.len() > LOG_MAX {
            let _ = self.log.remove(0);
            assert(self.log.deep_view() =~= before.push(entry).drop_first());
        }
    }

    /// Mark a user-visible operation as started. The user is acting again,
    /// so warnings and errors that outlived their TTL stop being pinned.
    pub fn begin(&mut self, label: &str)
        ensures
            exists|now: u64| #[trigger] begun(old(self)@, label@, now) == final(self)@,
    {
        let now: u64 = self.now();
        self.begin_at(label, now);
    }

    /// Mark a user-visible operation as started, as of `now`.
    pub fn begin_at(&mut self, label: &str, now: u64)
        ensures
            final(self)@ == begun(old(self)@, label@, now),
    {
        self.busy = Some(String::from_str(label));
        self.progress = None;
        let log = retain_log(&self.log, now, false);
        self.log = log;
    }

    /// Indices into `devices` that pass the current filter.
    pub fn visible(&self) -> (r: Vec<usize>)
        ensures
            ints(r@) == shown_rows(self@.devices, self@.filter),
    {
        let ghost ds = self@.devices;
        let mut v: Vec<usize> = Vec::new();
        let mut i: usize = 0;
        assert(ints(v@) =~= passing(ds, self.filter@, 0));
        while i < self.devices.len()
            invariant
                i <= self.devices@.len(),
                ds == self@.devices,
                ints(v@) == passing(ds, self.filter@, i as nat),
            decreases self.devices@.len() - i,
        {
            assert(ds[i as int] == self.devices@[i as int]@);
            if self.filter.as_str().is_empty() || fuzzy_match(
                self.devices[i].name.as_str(),
                self.filter.as_str(),
            ) {
                let ghost before = v@;
                v.push(i);
                assert(ints(v@) =~= ints(before).push(i as int));
            }
            i += 1;
        }
        v
    }

    /// The device under the cursor, honoring the filter.
    pub fn current(&self) -> (r: Option<&Device>)
        ensures
            match r {
                Some(d) => current_device(self@) == Some(d@),
                None => current_device(self@) is None,
            },
    {
        let rows = self.visible();
        let ghost want = shown_rows(self@.devices, self@.filter);
        assert(ints(rows@).len() == rows@.len());
        if self.selected < rows.len() {
            let i: usize = rows[self.selected];
            proof {
                assert(ints(rows@)[self.selected as int] == i);
                rows_are_devices(
                    self@.devices,
                    self@.filter,
                    self@.devices.len(),
                    self.selected as int,
                );
                assert(self@.devices[i as int] == self.devices@[i as int]@);
            }
            Some(&self.devices[i])
        } else {
            None
        }
    }

    /// Rows shown in the scan picker: one per device name, however many
    /// addresses it advertises.
    pub fn scan_groups(&self) -> (r: Vec<DiscoveredGroup>)
        ensures
            r.deep_view() == picker_rows(self@.view),
    {
        match &self.view {
            View::ScanResults { items, .. } => group_discovered(items),
            _ => {
                let none: Vec<DiscoveredGroup> = Vec::new();
                assert(none.deep_view() =~= Seq::<GroupModel>::empty());
                none
            },
        }
    }

    /// Note that a command goes to the worker. Answers to a prompt are consumed
    /// inside the running pairing and don't produce their own `OpDone`.
    pub fn sent(&mut self, cmd: &Cmd)
        requires
            old(self).pending < u32::MAX,
        ensures
            final(self)@ == counted(old(self)@, cmd@),
    {
        if !matches!(cmd, Cmd::PairReply(_)) {
            self.pending = self.pending + 1;
        }
    }

    /// Is it time for an unasked refresh?
    pub fn auto_refresh_due(&self) -> (r: bool)
        ensures
            self.pending > 0 ==> !r,
            exists|now: u64| #[trigger] refresh_due(self@, now) == r,
    {
        let now: u64 = self.now();
        self.auto_refresh_due_at(now)
    }

    /// Is it time for an unasked refresh, as of `now`?
    pub fn auto_refresh_due_at(&self, now: u64) -> (r: bool)
        ensures
            r == refresh_due(self@, now),
    {
        self.pending == 0 && now >= self.last_done && now - self.last_done >= AUTO_REFRESH
    }

    /// Must the running scan be cut short? Tells it once.
    pub fn take_kill(&mut self) -> (r: bool)
        ensures
            r == old(self).kill_child,
            final(self)@ == (AppModel { kill_child: false, ..old(self)@ }),
    {
        let kill = self.kill_child;
        self.kill_child = false;
        kill
    }
}

/// The command counts as pending, but for an answer to a prompt.
pub open spec fn counted(s: AppModel, cmd: CmdModel) -> AppModel {
    if cmd is PairReply {
        s
    } else {
        AppModel { pending: (s.pending + 1) as u32, ..s }
    }
}

/// The worker has been idle for long enough to refresh the list unasked.
pub open spec fn refresh_due(s: AppModel, now: u64) -> bool {
    s.pending == 0 && now - s.last_done >= AUTO_REFRESH
}

} // verus!
