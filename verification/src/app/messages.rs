//! What the worker's messages do to the application.

use vstd::prelude::*;
use vstd::view::View as Viewed;

use crate::bt::groups::{groups_of, is_stable};
use crate::bt::{
    find_mac, group_discovered, list_contains, mac_index, AddrKind, Device, DeviceModel,
    Discovered, DiscoveredGroup, DiscoveredModel, GroupModel,
};
use crate::text;
use crate::worker::{Msg, MsgModel};

use super::order::{in_order, sort_devices};
use super::{
    current_device, ints, logged, rows_are_devices, shown_rows, App, AppModel, View, ViewModel,
};

verus! {

/// The cursor, moved onto the last row where it stands beyond it.
pub open spec fn clamped(selected: nat, rows: nat) -> nat {
    if rows == 0 {
        0
    } else if selected >= rows {
        (rows - 1) as nat
    } else {
        selected
    }
}

/// The first of the rows that shows the address.
pub open spec fn row_of_mac(rows: Seq<int>, devices: Seq<DeviceModel>, mac: Seq<char>) -> Option<
    nat,
>
    decreases rows.len(),
{
    if rows.len() == 0 {
        None
    } else {
        match row_of_mac(rows.drop_last(), devices, mac) {
            Some(k) => Some(k),
            None => if devices[rows.last()].mac == mac {
                Some((rows.len() - 1) as nat)
            } else {
                None
            },
        }
    }
}

/// The first of the picker's rows that goes by the name.
pub open spec fn row_of_name(rows: Seq<GroupModel>, name: Seq<char>) -> Option<nat>
    decreases rows.len(),
{
    if rows.len() == 0 {
        None
    } else {
        match row_of_name(rows.drop_last(), name) {
            Some(k) => Some(k),
            None => if rows.last().name == name {
                Some((rows.len() - 1) as nat)
            } else {
                None
            },
        }
    }
}

/// The two lists have an address in common.
pub open spec fn share_address(a: Seq<Seq<char>>, b: Seq<Seq<char>>) -> bool {
    exists|i: int| 0 <= i < a.len() && b.contains(#[trigger] a[i])
}

/// The row goes by the name, and holds one of the addresses.
pub open spec fn row_fits(row: GroupModel, name: Seq<char>, macs: Seq<Seq<char>>) -> bool {
    row.name == name && share_address(macs, row.macs)
}

/// The first of the picker's rows that goes by the name and holds one of the
/// addresses.
pub open spec fn row_with(rows: Seq<GroupModel>, name: Seq<char>, macs: Seq<Seq<char>>) -> Option<
    nat,
>
    decreases rows.len(),
{
    if rows.len() == 0 {
        None
    } else {
        match row_with(rows.drop_last(), name, macs) {
            Some(k) => Some(k),
            None => if row_fits(rows.last(), name, macs) {
                Some((rows.len() - 1) as nat)
            } else {
                None
            },
        }
    }
}

/// The address is among the discovered ones, and is not known to rotate.
pub open spec fn stable_in(items: Seq<DiscoveredModel>, mac: Seq<char>) -> bool {
    mac_index(items, mac) matches Some(i) && is_stable(items[i].addr)
}

/// The first of the addresses that is not known to rotate.
pub open spec fn stable_mac(items: Seq<DiscoveredModel>, macs: Seq<Seq<char>>) -> Option<Seq<char>>
    decreases macs.len(),
{
    if macs.len() == 0 {
        None
    } else {
        match stable_mac(items, macs.drop_last()) {
            Some(mac) => Some(mac),
            None => if stable_in(items, macs.last()) {
                Some(macs.last())
            } else {
                None
            },
        }
    }
}

/// The row of the device that `picked`, a row of the list `items`, stands for.
/// Rows are grouped by name, so it is one that goes by its name. Of several, it
/// is the one with its stable address; else the first with any address of it;
/// else the first. Rotating addresses come second, since they can fold into the
/// row of another device of that name.
pub open spec fn row_again(
    rows: Seq<GroupModel>,
    picked: GroupModel,
    items: Seq<DiscoveredModel>,
) -> Option<nat> {
    let by_stable = match stable_mac(items, picked.macs) {
        Some(mac) => row_with(rows, picked.name, seq![mac]),
        None => None,
    };
    if by_stable is Some {
        by_stable
    } else if row_with(rows, picked.name, picked.macs) is Some {
        row_with(rows, picked.name, picked.macs)
    } else {
        row_of_name(rows, picked.name)
    }
}

/// A fresh device list: connected devices first, then alphabetical; the cursor
/// stays on the same device.
pub open spec fn with_devices(s: AppModel, devices: Seq<DeviceModel>) -> AppModel {
    let listed = in_order(devices);
    let rows = shown_rows(listed, s.filter);
    let row = match current_device(s) {
        Some(d) => match row_of_mac(rows, listed, d.mac) {
            Some(k) => k,
            None => 0,
        },
        None => 0,
    };
    AppModel { devices: listed, selected: clamped(row, rows.len()), ..s }
}

/// The discovered list with a device found mid-scan: a known address takes on
/// the name and kind it now has.
pub open spec fn with_found(items: Seq<DiscoveredModel>, d: DiscoveredModel) -> Seq<
    DiscoveredModel,
> {
    match mac_index(items, d.mac) {
        Some(i) => items.update(i, DiscoveredModel { name: d.name, addr: d.addr, ..items[i] }),
        None => items.push(d),
    }
}

/// A device was found mid-scan. A rename can merge two rows, shrinking the list
/// under the cursor.
pub open spec fn found(s: AppModel, d: DiscoveredModel) -> AppModel {
    match s.view {
        ViewModel::ScanResults { items, selected } => {
            let now = with_found(items, d);
            AppModel {
                view: ViewModel::ScanResults {
                    items: now,
                    selected: clamped(selected, groups_of(now).len()),
                },
                ..s
            }
        },
        _ => s,
    }
}

/// The authoritative list of a scan. It does not reopen a picker that the user
/// closed mid-scan; else the cursor stays on the device it was on. An empty list
/// closes an empty picker: there is nothing to choose from.
pub open spec fn scan_ended(s: AppModel, items: Seq<DiscoveredModel>) -> AppModel {
    if s.ignore_scan_results {
        AppModel { ignore_scan_results: false, ..s }
    } else if items.len() > 0 {
        AppModel {
            view: ViewModel::ScanResults { items, selected: reanchored(s.view, items) },
            ..s
        }
    } else if s.view matches ViewModel::ScanResults { items, .. } && items.len() == 0 {
        AppModel { view: ViewModel::DeviceList, ..s }
    } else {
        s
    }
}

/// Where the picker's cursor goes when `items` takes the place of its list.
pub open spec fn reanchored(view: ViewModel, items: Seq<DiscoveredModel>) -> nat {
    match view {
        ViewModel::ScanResults { items: before, selected } => if selected < groups_of(
            before,
        ).len() {
            match row_again(groups_of(items), groups_of(before)[selected as int], before) {
                Some(k) => k,
                None => 0,
            }
        } else {
            0
        },
        _ => 0,
    }
}

/// An operation is done; with the last, the worker goes idle.
pub open spec fn op_done(s: AppModel, now: u64) -> AppModel {
    let pending: u32 = if s.pending == 0 {
        0
    } else {
        (s.pending - 1) as u32
    };
    if pending == 0 {
        AppModel { pending, busy: None, progress: None, last_done: now, ..s }
    } else {
        AppModel { pending, ..s }
    }
}

/// What a message does, as of `now`.
pub open spec fn msg_handled(s: AppModel, msg: MsgModel, now: u64) -> AppModel {
    match msg {
        MsgModel::Devices(devices) => with_devices(s, devices),
        MsgModel::ScanStarted => AppModel {
            ignore_scan_results: false,
            view: ViewModel::ScanResults { items: Seq::empty(), selected: 0 },
            ..s
        },
        MsgModel::Found(d) => found(s, d),
        MsgModel::ScanResults(items) => scan_ended(s, items),
        MsgModel::Status(text, tone) => AppModel { log: logged(s.log, text, tone, now), ..s },
        MsgModel::Progress(text) => AppModel { progress: Some(text), ..s },
        // The prompt blocks the pairing until it is answered, so it takes the
        // screen back from the help overlay.
        MsgModel::PairPrompt { pin, passkey } => AppModel {
            help: false,
            view: ViewModel::PairPrompt { pin, passkey, input: Seq::empty() },
            ..s
        },
        MsgModel::Details { name, text } => AppModel {
            view: ViewModel::Details { name, text, scroll: 0 },
            ..s
        },
        MsgModel::OpDone => op_done(s, now),
    }
}

pub(super) fn clamp(selected: usize, rows: usize) -> (r: usize)
    ensures
        r == clamped(selected as nat, rows as nat),
{
    if rows == 0 {
        0
    } else if selected >= rows {
        rows - 1
    } else {
        selected
    }
}

proof fn lemma_row_of_mac(rows: Seq<int>, devices: Seq<DeviceModel>, mac: Seq<char>, i: int)
    requires
        0 <= i <= rows.len(),
        row_of_mac(rows.take(i), devices, mac) is Some,
    ensures
        row_of_mac(rows, devices, mac) == row_of_mac(rows.take(i), devices, mac),
    decreases rows.len() - i,
{
    if i == rows.len() {
        assert(rows.take(i) =~= rows);
    } else {
        assert(rows.take(i + 1).drop_last() =~= rows.take(i));
        lemma_row_of_mac(rows, devices, mac, i + 1);
    }
}

fn find_row_of_mac(rows: &Vec<usize>, devices: &Vec<Device>, mac: &str) -> (r: Option<usize>)
    requires
        forall|k: int| 0 <= k < rows@.len() ==> (#[trigger] rows@[k]) < devices@.len(),
    ensures
        match r {
            Some(k) => row_of_mac(ints(rows@), devices.deep_view(), mac@) == Some(k as nat),
            None => row_of_mac(ints(rows@), devices.deep_view(), mac@) is None,
        },
{
    let ghost all = ints(rows@);
    let ghost ds = devices.deep_view();
    let mut i: usize = 0;
    assert(all.take(0).len() == 0);
    while i < rows.len()
        invariant
            i <= rows@.len(),
            forall|k: int| 0 <= k < rows@.len() ==> (#[trigger] rows@[k]) < devices@.len(),
            all == ints(rows@),
            ds == devices.deep_view(),
            row_of_mac(all.take(i as int), ds, mac@) is None,
        decreases rows@.len() - i,
    {
        let at: usize = rows[i];
        assert(all.take(i + 1).drop_last() =~= all.take(i as int));
        assert(all.take(i + 1).last() == at);
        assert(ds[at as int] == devices@[at as int]@);
        if text::same(devices[at].mac.as_str(), mac) {
            proof {
                lemma_row_of_mac(all, ds, mac@, i + 1);
            }
            return Some(i);
        }
        i += 1;
    }
    assert(all.take(i as int) =~= all);
    None
}

proof fn lemma_row_of_name(rows: Seq<GroupModel>, name: Seq<char>, i: int)
    requires
        0 <= i <= rows.len(),
        row_of_name(rows.take(i), name) is Some,
    ensures
        row_of_name(rows, name) == row_of_name(rows.take(i), name),
    decreases rows.len() - i,
{
    if i == rows.len() {
        assert(rows.take(i) =~= rows);
    } else {
        assert(rows.take(i + 1).drop_last() =~= rows.take(i));
        lemma_row_of_name(rows, name, i + 1);
    }
}

fn find_row_of_name(rows: &Vec<DiscoveredGroup>, name: &str) -> (r: Option<usize>)
    ensures
        match r {
            Some(k) => row_of_name(rows.deep_view(), name@) == Some(k as nat),
            None => row_of_name(rows.deep_view(), name@) is None,
        },
{
    let ghost all = rows.deep_view();
    let mut i: usize = 0;
    assert(all.take(0).len() == 0);
    while i < rows.len()
        invariant
            i <= rows@.len(),
            all == rows.deep_view(),
            row_of_name(all.take(i as int), name@) is None,
        decreases rows@.len() - i,
    {
        assert(all.take(i + 1).drop_last() =~= all.take(i as int));
        assert(all.take(i + 1).last() == rows@[i as int]@);
        if text::same(rows[i].name.as_str(), name) {
            proof {
                lemma_row_of_name(all, name@, i + 1);
            }
            return Some(i);
        }
        i += 1;
    }
    assert(all.take(i as int) =~= all);
    None
}

proof fn lemma_row_with(rows: Seq<GroupModel>, name: Seq<char>, macs: Seq<Seq<char>>, i: int)
    requires
        0 <= i <= rows.len(),
        row_with(rows.take(i), name, macs) is Some,
    ensures
        row_with(rows, name, macs) == row_with(rows.take(i), name, macs),
    decreases rows.len() - i,
{
    if i == rows.len() {
        assert(rows.take(i) =~= rows);
    } else {
        assert(rows.take(i + 1).drop_last() =~= rows.take(i));
        lemma_row_with(rows, name, macs, i + 1);
    }
}

fn addresses_meet(a: &Vec<String>, b: &Vec<String>) -> (r: bool)
    ensures
        r == share_address(a.deep_view(), b.deep_view()),
{
    let ghost av = a.deep_view();
    let mut i: usize = 0;
    while i < a.len()
        invariant
            i <= a@.len(),
            av == a.deep_view(),
            forall|j: int| 0 <= j < i ==> !b.deep_view().contains(#[trigger] av[j]),
        decreases a@.len() - i,
    {
        assert(av[i as int] == a@[i as int]@);
        if list_contains(b, a[i].as_str()) {
            return true;
        }
        i += 1;
    }
    false
}

fn find_row_with(rows: &Vec<DiscoveredGroup>, name: &str, macs: &Vec<String>) -> (r: Option<usize>)
    ensures
        match r {
            Some(k) => row_with(rows.deep_view(), name@, macs.deep_view()) == Some(k as nat),
            None => row_with(rows.deep_view(), name@, macs.deep_view()) is None,
        },
{
    let ghost all = rows.deep_view();
    let mut i: usize = 0;
    assert(all.take(0).len() == 0);
    while i < rows.len()
        invariant
            i <= rows@.len(),
            all == rows.deep_view(),
            row_with(all.take(i as int), name@, macs.deep_view()) is None,
        decreases rows@.len() - i,
    {
        assert(all.take(i + 1).drop_last() =~= all.take(i as int));
        assert(all.take(i + 1).last() == rows@[i as int]@);
        if text::same(rows[i].name.as_str(), name) && addresses_meet(macs, &rows[i].macs) {
            proof {
                lemma_row_with(all, name@, macs.deep_view(), i + 1);
            }
            return Some(i);
        }
        i += 1;
    }
    assert(all.take(i as int) =~= all);
    None
}

proof fn lemma_stable_mac(items: Seq<DiscoveredModel>, macs: Seq<Seq<char>>, i: int)
    requires
        0 <= i <= macs.len(),
        stable_mac(items, macs.take(i)) is Some,
    ensures
        stable_mac(items, macs) == stable_mac(items, macs.take(i)),
    decreases macs.len() - i,
{
    if i == macs.len() {
        assert(macs.take(i) =~= macs);
    } else {
        assert(macs.take(i + 1).drop_last() =~= macs.take(i));
        lemma_stable_mac(items, macs, i + 1);
    }
}

fn find_stable_mac(items: &Vec<Discovered>, macs: &Vec<String>) -> (r: Option<String>)
    ensures
        r.deep_view() == stable_mac(items.deep_view(), macs.deep_view()),
{
    let ghost all = items.deep_view();
    let ghost ms = macs.deep_view();
    let mut i: usize = 0;
    assert(ms.take(0).len() == 0);
    while i < macs.len()
        invariant
            i <= macs@.len(),
            all == items.deep_view(),
            ms == macs.deep_view(),
            stable_mac(all, ms.take(i as int)) is None,
        decreases macs@.len() - i,
    {
        assert(ms.take(i + 1).drop_last() =~= ms.take(i as int));
        assert(ms.take(i + 1).last() == macs@[i as int]@);
        let stable: bool = match find_mac(items, macs[i].as_str()) {
            Some(k) => {
                assert(all[k as int] == items@[k as int]@);
                items[k].addr != AddrKind::Random
            },
            None => false,
        };
        if stable {
            proof {
                lemma_stable_mac(all, ms, i + 1);
            }
            return Some(macs[i].clone());
        }
        i += 1;
    }
    assert(ms.take(i as int) =~= ms);
    None
}

fn find_row_again(
    rows: &Vec<DiscoveredGroup>,
    picked: &DiscoveredGroup,
    items: &Vec<Discovered>,
) -> (r: Option<usize>)
    ensures
        match r {
            Some(k) => row_again(rows.deep_view(), picked@, items.deep_view()) == Some(k as nat),
            None => row_again(rows.deep_view(), picked@, items.deep_view()) is None,
        },
{
    let name = picked.name.as_str();
    if let Some(mac) = find_stable_mac(items, &picked.macs) {
        let one = crate::shell::args1(mac.as_str());
        if let Some(k) = find_row_with(rows, name, &one) {
            return Some(k);
        }
    }
    if let Some(k) = find_row_with(rows, name, &picked.macs) {
        return Some(k);
    }
    find_row_of_name(rows, name)
}

fn add_found(items: Vec<Discovered>, d: Discovered) -> (r: Vec<Discovered>)
    ensures
        r.deep_view() == with_found(items.deep_view(), d@),
{
    let ghost before = items.deep_view();
    let ghost dm = d@;
    let mut items = items;
    match find_mac(&items, d.mac.as_str()) {
        Some(i) => {
            let mut known = items[i].clone();
            known.name = d.name;
            known.addr = d.addr;
            let ghost km = known@;
            items.set(i, known);
            assert(items.deep_view() =~= before.update(i as int, km));
        },
        None => {
            items.push(d);
            assert(items.deep_view() =~= before.push(dm));
        },
    }
    items
}

impl App {
    pub fn handle_msg(&mut self, msg: Msg)
        ensures
            exists|now: u64| #[trigger] msg_handled(old(self)@, msg@, now) == final(self)@,
    {
        let now: u64 = self.now();
        self.handle_msg_at(msg, now);
    }

    /// Take in a message, as of `now`.
    pub fn handle_msg_at(&mut self, msg: Msg, now: u64)
        ensures
            final(self)@ == msg_handled(old(self)@, msg@, now),
    {
        match msg {
            Msg::Devices(devices) => {
                self.set_devices(devices);
            },
            Msg::ScanStarted => {
                self.ignore_scan_results = false;
                let items: Vec<Discovered> = Vec::new();
                assert(items.deep_view() =~= Seq::<DiscoveredModel>::empty());
                self.view = View::ScanResults { items, selected: 0 };
            },
            Msg::Found(d) => {
                self.add_to_picker(d);
            },
            Msg::ScanResults(items) => {
                self.set_scan_results(items);
            },
            Msg::Status(s, tone) => {
                self.push_log_at(s, tone, now);
            },
            Msg::Progress(s) => {
                self.progress = Some(s);
            },
            Msg::PairPrompt { pin, passkey } => {
                self.help = false;
                self.view = View::PairPrompt { pin, passkey, input: String::new() };
            },
            Msg::Details { name, text } => {
                self.view = View::Details { name, text, scroll: 0 };
            },
            Msg::OpDone => {
                if self.pending > 0 {
                    self.pending = self.pending - 1;
                }
                if self.pending == 0 {
                    self.busy = None;
                    self.progress = None;
                    self.last_done = now;
                }
            },
        }
    }

    fn set_devices(&mut self, devices: Vec<Device>)
        ensures
            final(self)@ == with_devices(old(self)@, devices.deep_view()),
    {
        let listed = sort_devices(&devices);
        let anchor: Option<String> = match self.current() {
            Some(d) => Some(d.mac.clone()),
            None => None,
        };
        self.devices = listed;
        let rows = self.visible();
        let ghost want = shown_rows(self@.devices, self@.filter);
        assert(rows@.len() == want.len()) by {
            assert(ints(rows@).len() == rows@.len());
        }
        assert forall|k: int| 0 <= k < rows@.len() implies (#[trigger] rows@[k])
            < self.devices@.len() by {
            assert(ints(rows@)[k] == rows@[k]);
            rows_are_devices(self@.devices, self@.filter, self@.devices.len(), k);
        }
        let row: usize = match &anchor {
            Some(mac) => match find_row_of_mac(&rows, &self.devices, mac.as_str()) {
                Some(k) => k,
                None => 0,
            },
            None => 0,
        };
        self.selected = clamp(row, rows.len());
    }

    fn take_view(&mut self) -> (r: View)
        ensures
            r@ == old(self)@.view,
            final(self)@ == (AppModel { view: ViewModel::DeviceList, ..old(self)@ }),
    {
        let mut view = View::DeviceList;
        core::mem::swap(&mut self.view, &mut view);
        view
    }

    fn add_to_picker(&mut self, d: Discovered)
        ensures
            final(self)@ == found(old(self)@, d@),
    {
        match self.take_view() {
            View::ScanResults { items, selected } => {
                let items = add_found(items, d);
                let rows = group_discovered(&items);
                let selected: usize = clamp(selected, rows.len());
                self.view = View::ScanResults { items, selected };
            },
            view => {
                self.view = view;
            },
        }
    }

    fn reanchor(&self, items: &Vec<Discovered>) -> (r: usize)
        ensures
            r == reanchored(self@.view, items.deep_view()),
    {
        match &self.view {
            View::ScanResults { items: before, selected } => {
                let at: usize = *selected;
                let groups = group_discovered(before);
                assert(groups.deep_view().len() == groups@.len());
                if at >= groups.len() {
                    return 0;
                }
                assert(groups.deep_view()[at as int] == groups@[at as int]@);
                let rows = group_discovered(items);
                match find_row_again(&rows, &groups[at], before) {
                    Some(k) => k,
                    None => 0,
                }
            },
            _ => 0,
        }
    }

    fn set_scan_results(&mut self, items: Vec<Discovered>)
        ensures
            final(self)@ == scan_ended(old(self)@, items.deep_view()),
    {
        if self.ignore_scan_results {
            self.ignore_scan_results = false;
            return ;
        }
        if items.len() > 0 {
            let selected: usize = self.reanchor(&items);
            self.view = View::ScanResults { items, selected };
            return ;
        }
        let empty: bool = match &self.view {
            View::ScanResults { items, .. } => items.len() == 0,
            _ => false,
        };
        if empty {
            self.view = View::DeviceList;
        }
    }
}

} // verus!
