//! What key presses do to the application.

use vstd::prelude::*;
use vstd::view::View as Viewed;

use crate::bt::groups::groups_of;
use crate::bt::{DeviceModel, Discovered, DiscoveredModel, GroupModel};
use crate::shell::push_text;
use crate::worker::{Cmd, CmdModel};

use super::messages::{clamp, clamped};
use super::{begun, current_device, ints, shown_rows, App, AppModel, View, ViewModel};

verus! {

/// The keys that mean something.
#[derive(Debug, Clone, Copy, PartialEq, Eq, Structural)]
pub enum KeyCode {
    Char(char),
    Enter,
    Esc,
    Backspace,
    Delete,
    Up,
    Down,
    /// Any other key.
    Other,
}

/// A key press.
#[derive(Debug, Clone, Copy, PartialEq, Eq, Structural)]
pub struct KeyEvent {
    pub code: KeyCode,
    /// Control was held down.
    pub control: bool,
}

impl KeyEvent {
    /// A key pressed alone.
    pub fn plain(code: KeyCode) -> (r: Self)
        ensures
            r == (KeyEvent { code, control: false }),
    {
        KeyEvent { code, control: false }
    }
}

/// One row down.
pub open spec fn is_down(code: KeyCode) -> bool {
    code == KeyCode::Char('j') || code == KeyCode::Down
}

/// One row up.
pub open spec fn is_up(code: KeyCode) -> bool {
    code == KeyCode::Char('k') || code == KeyCode::Up
}

/// Back, or out.
pub open spec fn is_back(code: KeyCode) -> bool {
    code == KeyCode::Char('q') || code == KeyCode::Esc
}

/// Yes.
pub open spec fn is_yes(code: KeyCode) -> bool {
    code == KeyCode::Char('y') || code == KeyCode::Char('Y')
}

/// No.
pub open spec fn is_no(code: KeyCode) -> bool {
    code == KeyCode::Char('n') || code == KeyCode::Char('N')
}

/// A character that a PIN can hold: an ASCII letter or digit, or `?`.
pub open spec fn pin_char(c: char) -> bool {
    crate::text::ascii_digit(c) || crate::text::ascii_alphabetic(c) || c == '?'
}

/// One more, as far as the number goes.
pub open spec fn one_more(n: u16) -> u16 {
    if n == u16::MAX {
        n
    } else {
        (n + 1) as u16
    }
}

/// One less, as far as zero.
pub open spec fn one_less(n: u16) -> u16 {
    if n == 0 {
        n
    } else {
        (n - 1) as u16
    }
}

/// The cursor one row down, within the rows; where it is where there are none.
pub open spec fn row_down(selected: nat, rows: nat) -> nat {
    if rows == 0 {
        selected
    } else {
        clamped(selected + 1, rows)
    }
}

/// The cursor one row up, within the rows; where it is where there are none.
pub open spec fn row_up(selected: nat, rows: nat) -> nat {
    if rows == 0 {
        selected
    } else if selected == 0 {
        0
    } else {
        clamped((selected - 1) as nat, rows)
    }
}

/// How many rows the device list shows.
pub open spec fn list_len(s: AppModel) -> nat {
    shown_rows(s.devices, s.filter).len()
}

/// Back to the device list.
pub open spec fn back(s: AppModel) -> AppModel {
    AppModel { view: ViewModel::DeviceList, ..s }
}

/// The filter is gone, and the cursor on the first row.
pub open spec fn unfiltered(s: AppModel) -> AppModel {
    AppModel { filter: Seq::empty(), selected: 0, ..s }
}

/// A key at a pairing prompt. "no" declines a yes/no prompt, but a PIN prompt
/// would take it as the literal PIN: there, an empty answer means to give up;
/// hence an empty PIN cannot be submitted.
pub open spec fn prompt_key(
    s: AppModel,
    pin: bool,
    passkey: Seq<char>,
    input: Seq<char>,
    code: KeyCode,
) -> (AppModel, Option<CmdModel>) {
    if code == KeyCode::Esc {
        (
            back(s),
            Some(
                CmdModel::PairReply(
                    if pin {
                        Seq::empty()
                    } else {
                        "no"@
                    },
                ),
            ),
        )
    } else if !pin {
        if is_yes(code) {
            (back(s), Some(CmdModel::PairReply("yes"@)))
        } else if is_no(code) {
            (back(s), Some(CmdModel::PairReply("no"@)))
        } else {
            (s, None)
        }
    } else {
        match code {
            KeyCode::Enter => if input.len() == 0 {
                (s, None)
            } else {
                (back(s), Some(CmdModel::PairReply(input)))
            },
            KeyCode::Backspace => (
                AppModel {
                    view: ViewModel::PairPrompt {
                        pin,
                        passkey,
                        input: if input.len() == 0 {
                            input
                        } else {
                            input.drop_last()
                        },
                    },
                    ..s
                },
                None,
            ),
            KeyCode::Char(c) => if pin_char(c) {
                (
                    AppModel {
                        view: ViewModel::PairPrompt { pin, passkey, input: input.push(c) },
                        ..s
                    },
                    None,
                )
            } else {
                (s, None)
            },
            _ => (s, None),
        }
    }
}

/// A key over the help overlay, which swallows them all.
pub open spec fn help_key(s: AppModel, code: KeyCode) -> AppModel {
    if code == KeyCode::Char('?') || is_back(code) || code == KeyCode::Enter {
        AppModel { help: false, ..s }
    } else if is_down(code) {
        AppModel { help_scroll: one_more(s.help_scroll), ..s }
    } else if is_up(code) {
        AppModel { help_scroll: one_less(s.help_scroll), ..s }
    } else if code == KeyCode::Char('g') {
        AppModel { help_scroll: 0, ..s }
    } else if code == KeyCode::Char('G') {
        AppModel { help_scroll: u16::MAX, ..s }
    } else {
        s
    }
}

/// A key while the filter is typed.
pub open spec fn filter_key(s: AppModel, code: KeyCode) -> AppModel {
    match code {
        KeyCode::Esc => AppModel { filtering: false, ..unfiltered(s) },
        KeyCode::Enter => AppModel { filtering: false, ..s },
        KeyCode::Backspace => AppModel {
            filter: if s.filter.len() == 0 {
                s.filter
            } else {
                s.filter.drop_last()
            },
            selected: 0,
            ..s
        },
        KeyCode::Char(c) => AppModel { filter: s.filter.push(c), selected: 0, ..s },
        _ => s,
    }
}

/// Pair the device of the picker's row, and leave the picker. The list goes
/// along, so that a failure can reopen the picker without another scan.
pub open spec fn pair_row(row: GroupModel, items: Seq<DiscoveredModel>) -> CmdModel {
    CmdModel::PairConnect { candidates: row.macs, name: row.name, others: items }
}

/// Enter in the picker while the scan runs: pair the device at once. The scan
/// is cut short, and its final list must not reopen the picker.
pub open spec fn pick_mid_scan(s: AppModel, now: u64) -> (AppModel, Option<CmdModel>) {
    match s.view {
        ViewModel::ScanResults { items, selected } => if selected < groups_of(items).len() {
            (
                AppModel {
                    kill_child: true,
                    ..begun(
                        AppModel { ignore_scan_results: true, ..back(s) },
                        "Pairing…"@,
                        now,
                    )
                },
                Some(pair_row(groups_of(items)[selected as int], items)),
            )
        } else {
            (s, None)
        },
        _ => (s, None),
    }
}

/// Back, or out, while an operation runs: as when idle, Esc peels the filter
/// before it means quit.
pub open spec fn back_while_busy(s: AppModel, code: KeyCode) -> AppModel {
    match s.view {
        ViewModel::DeviceList => if code == KeyCode::Esc && s.filter.len() > 0 {
            unfiltered(s)
        } else {
            AppModel { quit: true, ..s }
        },
        ViewModel::ScanResults { .. } => AppModel { ignore_scan_results: true, ..back(s) },
        _ => back(s),
    }
}

/// The cursor of the picker, where that is open, or of the device list moves.
pub open spec fn moved(s: AppModel, down: bool) -> AppModel {
    match s.view {
        ViewModel::ScanResults { items, selected } => {
            let rows = groups_of(items).len();
            AppModel {
                view: ViewModel::ScanResults {
                    items,
                    selected: if down {
                        row_down(selected, rows)
                    } else {
                        row_up(selected, rows)
                    },
                },
                ..s
            }
        },
        _ => AppModel {
            selected: if down {
                row_down(s.selected, list_len(s))
            } else {
                row_up(s.selected, list_len(s))
            },
            ..s
        },
    }
}

/// A key while an operation runs: navigation, back, quit, and Enter in the
/// picker, so that streamed-in devices can be paired the moment they appear.
pub open spec fn busy_key(s: AppModel, code: KeyCode, now: u64) -> (AppModel, Option<CmdModel>) {
    if is_back(code) {
        (back_while_busy(s, code), None)
    } else if code == KeyCode::Enter {
        pick_mid_scan(s, now)
    } else if is_down(code) {
        (moved(s, true), None)
    } else if is_up(code) {
        (moved(s, false), None)
    } else {
        (s, None)
    }
}

/// An operation on the device under the cursor begins, if there is one.
pub open spec fn on_current(
    s: AppModel,
    label: Seq<char>,
    cmd: spec_fn(DeviceModel) -> CmdModel,
    now: u64,
) -> (AppModel, Option<CmdModel>) {
    match current_device(s) {
        Some(d) => (begun(s, label, now), Some(cmd(d))),
        None => (s, None),
    }
}

/// A key in the device list, when idle.
pub open spec fn list_key(s: AppModel, code: KeyCode, now: u64) -> (AppModel, Option<CmdModel>) {
    match code {
        KeyCode::Esc => if s.filter.len() == 0 {
            (AppModel { quit: true, ..s }, None)
        } else {
            (unfiltered(s), None)
        },
        KeyCode::Down => (moved(s, true), None),
        KeyCode::Up => (moved(s, false), None),
        KeyCode::Enter => on_current(
            s,
            "Toggling connection…"@,
            |d: DeviceModel| CmdModel::ToggleConnect { mac: d.mac, name: d.name },
            now,
        ),
        KeyCode::Delete => (confirming(s), None),
        KeyCode::Char(c) => list_char(s, c, now),
        _ => (s, None),
    }
}

/// Removing the device under the cursor, if there is one, awaits a yes.
pub open spec fn confirming(s: AppModel) -> AppModel {
    match current_device(s) {
        Some(d) => AppModel {
            view: ViewModel::ConfirmRemove { mac: d.mac, name: d.name },
            ..s
        },
        None => s,
    }
}

/// A letter in the device list, when idle.
pub open spec fn list_char(s: AppModel, c: char, now: u64) -> (AppModel, Option<CmdModel>) {
    if c == 'q' {
        (AppModel { quit: true, ..s }, None)
    } else if c == 'j' {
        (moved(s, true), None)
    } else if c == 'k' {
        (moved(s, false), None)
    } else if c == 'g' {
        (AppModel { selected: 0, ..s }, None)
    } else if c == 'G' {
        (
            AppModel {
                selected: if list_len(s) == 0 {
                    0
                } else {
                    (list_len(s) - 1) as nat
                },
                ..s
            },
            None,
        )
    } else if c == '/' {
        (AppModel { filtering: true, ..s }, None)
    } else if c == 's' {
        (begun(s, "Scanning ~10s…"@, now), Some(CmdModel::Scan))
    } else if c == 't' {
        on_current(
            s,
            "Updating trust…"@,
            |d: DeviceModel| CmdModel::ToggleTrust { mac: d.mac },
            now,
        )
    } else if c == 'a' {
        on_current(
            s,
            "Switching audio profile…"@,
            |d: DeviceModel| CmdModel::ToggleProfile { mac: d.mac, name: d.name },
            now,
        )
    } else if c == 'i' {
        on_current(
            s,
            "Loading info…"@,
            |d: DeviceModel| CmdModel::Details { mac: d.mac, name: d.name },
            now,
        )
    } else if c == 'x' {
        (confirming(s), None)
    } else if c == 'r' {
        (begun(s, "Refreshing…"@, now), Some(CmdModel::Refresh))
    } else if c == 'd' {
        (
            begun(s, "Running diagnostics…"@, now),
            Some(
                CmdModel::Doctor {
                    device: match current_device(s) {
                        Some(d) => Some((d.mac, d.name)),
                        None => None,
                    },
                },
            ),
        )
    } else {
        (s, None)
    }
}

/// A key in the picker, when idle.
pub open spec fn picker_key(
    s: AppModel,
    items: Seq<DiscoveredModel>,
    selected: nat,
    code: KeyCode,
    now: u64,
) -> (AppModel, Option<CmdModel>) {
    let rows = groups_of(items);
    let to = |row: nat|
        AppModel { view: ViewModel::ScanResults { items, selected: row }, ..s };
    if is_back(code) {
        (AppModel { ignore_scan_results: true, ..back(s) }, None)
    } else if is_down(code) {
        (to(clamped(selected + 1, rows.len())), None)
    } else if is_up(code) {
        (
            to(
                if selected == 0 {
                    0
                } else {
                    (selected - 1) as nat
                },
            ),
            None,
        )
    } else if code == KeyCode::Char('g') {
        (to(0), None)
    } else if code == KeyCode::Char('G') {
        (
            to(
                if rows.len() == 0 {
                    0
                } else {
                    (rows.len() - 1) as nat
                },
            ),
            None,
        )
    } else if code == KeyCode::Enter && selected < rows.len() {
        (
            begun(back(s), "Pairing…"@, now),
            Some(pair_row(rows[selected as int], items)),
        )
    } else {
        (s, None)
    }
}

/// A key at the question whether to remove a device. The default is No.
pub open spec fn confirm_key(s: AppModel, mac: Seq<char>, code: KeyCode, now: u64) -> (
    AppModel,
    Option<CmdModel>,
) {
    if is_yes(code) {
        (begun(back(s), "Removing…"@, now), Some(CmdModel::Remove { mac }))
    } else {
        (back(s), None)
    }
}

/// A key in the details popup. The renderer clamps the scroll to the wrapped
/// content, which only it knows.
pub open spec fn details_key(
    s: AppModel,
    name: Seq<char>,
    text: Seq<char>,
    scroll: u16,
    code: KeyCode,
) -> AppModel {
    let to = |row: u16| AppModel { view: ViewModel::Details { name, text, scroll: row }, ..s };
    if is_back(code) || code == KeyCode::Char('i') || code == KeyCode::Enter {
        back(s)
    } else if is_down(code) {
        to(one_more(scroll))
    } else if is_up(code) {
        to(one_less(scroll))
    } else if code == KeyCode::Char('g') {
        to(0)
    } else if code == KeyCode::Char('G') {
        to(u16::MAX)
    } else {
        s
    }
}

/// A key when no operation runs and nothing lies over the view.
pub open spec fn idle_key(s: AppModel, code: KeyCode, now: u64) -> (AppModel, Option<CmdModel>) {
    match s.view {
        ViewModel::DeviceList => list_key(s, code, now),
        ViewModel::ScanResults { items, selected } => picker_key(s, items, selected, code, now),
        ViewModel::ConfirmRemove { mac, .. } => confirm_key(s, mac, code, now),
        ViewModel::Details { name, text, scroll } => (
            details_key(s, name, text, scroll, code),
            None,
        ),
        ViewModel::PairPrompt { .. } => (s, None),
    }
}

/// What a key press does, as of `now`, and the command that it triggers.
/// Ctrl-C always quits. Prompts are answered while the pairing runs. The help
/// overlay opens from anywhere except text entry, and swallows keys while it is
/// up. Then come the filter's input, and the running operation.
pub open spec fn key_pressed(s: AppModel, key: KeyEvent, now: u64) -> (AppModel, Option<CmdModel>) {
    if key.control && key.code == KeyCode::Char('c') {
        (AppModel { quit: true, ..s }, None)
    } else if s.view is PairPrompt {
        prompt_key(s, s.view->pin, s.view->passkey, s.view->input, key.code)
    } else if s.help {
        (help_key(s, key.code), None)
    } else if !s.filtering && key.code == KeyCode::Char('?') {
        (AppModel { help: true, help_scroll: 0, ..s }, None)
    } else if s.filtering {
        (filter_key(s, key.code), None)
    } else if s.busy is Some {
        busy_key(s, key.code, now)
    } else {
        idle_key(s, key.code, now)
    }
}

fn down(code: KeyCode) -> (r: bool)
    ensures
        r == is_down(code),
{
    code == KeyCode::Char('j') || code == KeyCode::Down
}

fn up(code: KeyCode) -> (r: bool)
    ensures
        r == is_up(code),
{
    code == KeyCode::Char('k') || code == KeyCode::Up
}

fn leave(code: KeyCode) -> (r: bool)
    ensures
        r == is_back(code),
{
    code == KeyCode::Char('q') || code == KeyCode::Esc
}

fn takes_in_pin(c: char) -> (r: bool)
    ensures
        r == pin_char(c),
{
    crate::text::is_ascii_digit(c) || crate::text::is_ascii_alphabetic(c) || c == '?'
}

fn yes(code: KeyCode) -> (r: bool)
    ensures
        r == is_yes(code),
{
    code == KeyCode::Char('y') || code == KeyCode::Char('Y')
}

fn no(code: KeyCode) -> (r: bool)
    ensures
        r == is_no(code),
{
    code == KeyCode::Char('n') || code == KeyCode::Char('N')
}

fn scroll_down(n: u16) -> (r: u16)
    ensures
        r == one_more(n),
{
    if n == u16::MAX {
        n
    } else {
        n + 1
    }
}

fn scroll_up(n: u16) -> (r: u16)
    ensures
        r == one_less(n),
{
    if n == 0 {
        n
    } else {
        n - 1
    }
}

/// The cursor one row down, within the rows.
fn next_row(selected: usize, rows: usize) -> (r: usize)
    ensures
        r == clamped(selected as nat + 1, rows as nat),
{
    if rows == 0 {
        0
    } else if selected >= rows - 1 {
        rows - 1
    } else {
        selected + 1
    }
}

fn step_row(selected: usize, rows: usize, go_down: bool) -> (r: usize)
    ensures
        r == (if go_down {
            row_down(selected as nat, rows as nat)
        } else {
            row_up(selected as nat, rows as nat)
        }),
{
    if rows == 0 {
        selected
    } else if go_down {
        next_row(selected, rows)
    } else if selected == 0 {
        0
    } else {
        clamp(selected - 1, rows)
    }
}

impl App {
    /// Returns a command for the worker, if the key triggers one.
    /// The Ctrl- variants (Ctrl-s/t/x/r) arrive as the same character with a
    /// modifier, so the plain-letter keys cover both.
    pub fn handle_key(&mut self, key: KeyEvent) -> (r: Option<Cmd>)
        ensures
            exists|now: u64|
                #[trigger] key_pressed(old(self)@, key, now) == (final(self)@, r.deep_view()),
    {
        let now: u64 = self.now();
        self.handle_key_at(key, now)
    }

    /// Take in a key press, as of `now`.
    pub fn handle_key_at(&mut self, key: KeyEvent, now: u64) -> (r: Option<Cmd>)
        ensures
            (final(self)@, r.deep_view()) == key_pressed(old(self)@, key, now),
    {
        // Raw mode delivers Ctrl-C as a plain 'c' keypress.
        if key.control && key.code == KeyCode::Char('c') {
            self.quit = true;
            return None;
        }
        if matches!(self.view, View::PairPrompt { .. }) {
            return self.on_prompt_key(key.code);
        }
        if self.help {
            self.on_help_key(key.code);
            return None;
        }
        if !self.filtering && key.code == KeyCode::Char('?') {
            self.help = true;
            self.help_scroll = 0;
            return None;
        }
        if self.filtering {
            self.on_filter_key(key.code);
            return None;
        }
        if self.busy.is_some() {
            return self.on_busy_key(key.code, now);
        }
        self.on_idle_key(key.code, now)
    }

    fn on_prompt_key(&mut self, code: KeyCode) -> (r: Option<Cmd>)
        requires
            old(self)@.view is PairPrompt,
        ensures
            (final(self)@, r.deep_view()) == prompt_key(
                old(self)@,
                old(self)@.view->pin,
                old(self)@.view->passkey,
                old(self)@.view->input,
                code,
            ),
    {
        match &mut self.view {
            View::PairPrompt { pin, input, .. } => {
                let pin: bool = *pin;
                if code == KeyCode::Esc {
                    let answer = if pin {
                        String::new()
                    } else {
                        String::from_str("no")
                    };
                    self.view = View::DeviceList;
                    return Some(Cmd::PairReply(answer));
                }
                if !pin {
                    if yes(code) {
                        self.view = View::DeviceList;
                        return Some(Cmd::PairReply(String::from_str("yes")));
                    }
                    if no(code) {
                        self.view = View::DeviceList;
                        return Some(Cmd::PairReply(String::from_str("no")));
                    }
                    return None;
                }
                match code {
                    KeyCode::Enter => {
                        if input.as_str().is_empty() {
                            return None;
                        }
                        let answer = input.clone();
                        self.view = View::DeviceList;
                        return Some(Cmd::PairReply(answer));
                    },
                    KeyCode::Backspace => {
                        let _ = input.pop();
                    },
                    KeyCode::Char(c) => {
                        if takes_in_pin(c) {
                            input.push(c);
                        }
                    },
                    _ => {},
                }
            },
            _ => {},
        }
        None
    }

    fn on_help_key(&mut self, code: KeyCode)
        ensures
            final(self)@ == help_key(old(self)@, code),
    {
        if code == KeyCode::Char('?') || leave(code) || code == KeyCode::Enter {
            self.help = false;
        } else if down(code) {
            self.help_scroll = scroll_down(self.help_scroll);
        } else if up(code) {
            self.help_scroll = scroll_up(self.help_scroll);
        } else if code == KeyCode::Char('g') {
            self.help_scroll = 0;
        } else if code == KeyCode::Char('G') {
            self.help_scroll = u16::MAX;
        }
    }

    fn clear_filter(&mut self)
        ensures
            final(self)@ == unfiltered(old(self)@),
    {
        self.filter.clear();
        self.selected = 0;
    }

    fn on_filter_key(&mut self, code: KeyCode)
        ensures
            final(self)@ == filter_key(old(self)@, code),
    {
        match code {
            KeyCode::Esc => {
                self.filtering = false;
                self.clear_filter();
            },
            KeyCode::Enter => {
                self.filtering = false;
            },
            KeyCode::Backspace => {
                let _ = self.filter.pop();
                self.selected = 0;
            },
            KeyCode::Char(c) => {
                self.filter.push(c);
                self.selected = 0;
            },
            _ => {},
        }
    }

    fn list_rows(&self) -> (r: usize)
        ensures
            r == list_len(self@),
    {
        let rows = self.visible();
        assert(ints(rows@).len() == rows@.len());
        rows.len()
    }

    fn move_sel(&mut self, go_down: bool)
        ensures
            final(self)@ == moved(old(self)@, go_down),
    {
        // The picker shows one row per group, not per address.
        let groups = self.scan_groups();
        let rows: usize = self.list_rows();
        assert(groups.deep_view().len() == groups@.len());
        match &mut self.view {
            View::ScanResults { selected, .. } => {
                *selected = step_row(*selected, groups.len(), go_down);
            },
            _ => {
                self.selected = step_row(self.selected, rows, go_down);
            },
        }
    }

    fn on_busy_key(&mut self, code: KeyCode, now: u64) -> (r: Option<Cmd>)
        ensures
            (final(self)@, r.deep_view()) == busy_key(old(self)@, code, now),
    {
        if leave(code) {
            match self.view {
                View::DeviceList => {
                    if code == KeyCode::Esc && !self.filter.as_str().is_empty() {
                        self.clear_filter();
                    } else {
                        self.quit = true;
                    }
                },
                View::ScanResults { .. } => {
                    self.ignore_scan_results = true;
                    self.view = View::DeviceList;
                },
                _ => {
                    self.view = View::DeviceList;
                },
            }
            return None;
        }
        if code == KeyCode::Enter {
            return self.pick(now, true);
        }
        if down(code) {
            self.move_sel(true);
        } else if up(code) {
            self.move_sel(false);
        }
        None
    }

    /// Pair the device under the picker's cursor, if there is one.
    fn pick(&mut self, now: u64, scanning: bool) -> (r: Option<Cmd>)
        ensures
            scanning ==> (final(self)@, r.deep_view()) == pick_mid_scan(old(self)@, now),
            !scanning && old(self)@.view is ScanResults ==> (final(self)@, r.deep_view())
                == picker_key(
                old(self)@,
                old(self)@.view->items,
                old(self)@.view->ScanResults_selected,
                KeyCode::Enter,
                now,
            ),
    {
        let groups = self.scan_groups();
        assert(groups.deep_view().len() == groups@.len());
        let cmd = match &self.view {
            View::ScanResults { items, selected } => {
                if *selected < groups.len() {
                    let at: usize = *selected;
                    assert(groups.deep_view()[at as int] == groups@[at as int]@);
                    let candidates = clone_texts(&groups[at].macs);
                    let others = clone_items(items);
                    Cmd::PairConnect { candidates, name: groups[at].name.clone(), others }
                } else {
                    return None;
                }
            },
            _ => {
                return None;
            },
        };
        self.view = View::DeviceList;
        if scanning {
            self.ignore_scan_results = true;
        }
        self.begin_at("Pairing…", now);
        if scanning {
            self.kill_child = true;
        }
        Some(cmd)
    }

    fn on_idle_key(&mut self, code: KeyCode, now: u64) -> (r: Option<Cmd>)
        requires
            !(old(self)@.view is PairPrompt),
        ensures
            (final(self)@, r.deep_view()) == idle_key(old(self)@, code, now),
    {
        match self.view {
            View::DeviceList => self.on_list_key(code, now),
            View::ScanResults { .. } => self.on_picker_key(code, now),
            View::ConfirmRemove { .. } => self.on_confirm_key(code, now),
            View::Details { .. } => {
                self.on_details_key(code);
                None
            },
            View::PairPrompt { .. } => None,
        }
    }

    fn on_picker_key(&mut self, code: KeyCode, now: u64) -> (r: Option<Cmd>)
        requires
            old(self)@.view is ScanResults,
        ensures
            (final(self)@, r.deep_view()) == picker_key(
                old(self)@,
                old(self)@.view->items,
                old(self)@.view->ScanResults_selected,
                code,
                now,
            ),
    {
        if code == KeyCode::Enter {
            return self.pick(now, false);
        }
        if leave(code) {
            // A straggling final scan list must not reopen the picker the user
            // just closed.
            self.ignore_scan_results = true;
            self.view = View::DeviceList;
            return None;
        }
        let groups = self.scan_groups();
        assert(groups.deep_view().len() == groups@.len());
        match &mut self.view {
            View::ScanResults { selected, .. } => {
                if down(code) {
                    *selected = next_row(*selected, groups.len());
                } else if up(code) {
                    if *selected > 0 {
                        *selected = *selected - 1;
                    }
                } else if code == KeyCode::Char('g') {
                    *selected = 0;
                } else if code == KeyCode::Char('G') {
                    *selected = if groups.len() == 0 {
                        0
                    } else {
                        groups.len() - 1
                    };
                }
            },
            _ => {},
        }
        None
    }

    fn on_confirm_key(&mut self, code: KeyCode, now: u64) -> (r: Option<Cmd>)
        requires
            old(self)@.view is ConfirmRemove,
        ensures
            (final(self)@, r.deep_view()) == confirm_key(
                old(self)@,
                old(self)@.view->mac,
                code,
                now,
            ),
    {
        if yes(code) {
            let mac = match &self.view {
                View::ConfirmRemove { mac, .. } => mac.clone(),
                _ => {
                    return None;
                },
            };
            self.view = View::DeviceList;
            self.begin_at("Removing…", now);
            return Some(Cmd::Remove { mac });
        }
        self.view = View::DeviceList;
        None
    }

    fn on_details_key(&mut self, code: KeyCode)
        requires
            old(self)@.view is Details,
        ensures
            final(self)@ == details_key(
                old(self)@,
                old(self)@.view->Details_name,
                old(self)@.view->text,
                old(self)@.view->scroll,
                code,
            ),
    {
        if leave(code) || code == KeyCode::Char('i') || code == KeyCode::Enter {
            self.view = View::DeviceList;
            return ;
        }
        match &mut self.view {
            View::Details { scroll, .. } => {
                if down(code) {
                    *scroll = scroll_down(*scroll);
                } else if up(code) {
                    *scroll = scroll_up(*scroll);
                } else if code == KeyCode::Char('g') {
                    *scroll = 0;
                } else if code == KeyCode::Char('G') {
                    *scroll = u16::MAX;
                }
            },
            _ => {},
        }
    }

    fn on_list_key(&mut self, code: KeyCode, now: u64) -> (r: Option<Cmd>)
        requires
            old(self)@.view is DeviceList,
        ensures
            (final(self)@, r.deep_view()) == list_key(old(self)@, code, now),
    {
        match code {
            KeyCode::Esc => {
                if self.filter.as_str().is_empty() {
                    self.quit = true;
                } else {
                    self.clear_filter();
                }
                None
            },
            KeyCode::Down => {
                self.move_sel(true);
                None
            },
            KeyCode::Up => {
                self.move_sel(false);
                None
            },
            KeyCode::Enter => {
                // The worker re-checks live state and picks the action.
                let (mac, name) = match self.current() {
                    Some(d) => (d.mac.clone(), d.name.clone()),
                    None => {
                        return None;
                    },
                };
                self.begin_at("Toggling connection…", now);
                Some(Cmd::ToggleConnect { mac, name })
            },
            KeyCode::Delete => {
                self.ask_to_remove();
                None
            },
            KeyCode::Char(c) => self.on_list_char(c, now),
            _ => None,
        }
    }

    fn ask_to_remove(&mut self)
        ensures
            final(self)@ == confirming(old(self)@),
    {
        let (mac, name) = match self.current() {
            Some(d) => (d.mac.clone(), d.name.clone()),
            None => {
                return ;
            },
        };
        self.view = View::ConfirmRemove { mac, name };
    }

    fn on_list_char(&mut self, c: char, now: u64) -> (r: Option<Cmd>)
        requires
            old(self)@.view is DeviceList,
        ensures
            (final(self)@, r.deep_view()) == list_char(old(self)@, c, now),
    {
        match c {
            'q' => {
                self.quit = true;
                None
            },
            'j' => {
                self.move_sel(true);
                None
            },
            'k' => {
                self.move_sel(false);
                None
            },
            'g' => {
                self.selected = 0;
                None
            },
            'G' => {
                let rows: usize = self.list_rows();
                self.selected = if rows == 0 {
                    0
                } else {
                    rows - 1
                };
                None
            },
            '/' => {
                self.filtering = true;
                None
            },
            's' => {
                self.begin_at("Scanning ~10s…", now);
                Some(Cmd::Scan)
            },
            't' => {
                let mac = match self.current() {
                    Some(d) => d.mac.clone(),
                    None => {
                        return None;
                    },
                };
                self.begin_at("Updating trust…", now);
                Some(Cmd::ToggleTrust { mac })
            },
            'a' => {
                let (mac, name) = match self.current() {
                    Some(d) => (d.mac.clone(), d.name.clone()),
                    None => {
                        return None;
                    },
                };
                self.begin_at("Switching audio profile…", now);
                Some(Cmd::ToggleProfile { mac, name })
            },
            'i' => {
                let (mac, name) = match self.current() {
                    Some(d) => (d.mac.clone(), d.name.clone()),
                    None => {
                        return None;
                    },
                };
                self.begin_at("Loading info…", now);
                Some(Cmd::Details { mac, name })
            },
            'x' => {
                self.ask_to_remove();
                None
            },
            'r' => {
                self.begin_at("Refreshing…", now);
                Some(Cmd::Refresh)
            },
            'd' => {
                // Diagnostics work with no device selected too - a missing
                // audio backend is a host problem, not a device one.
                let device: Option<(String, String)> = match self.current() {
                    Some(d) => Some((d.mac.clone(), d.name.clone())),
                    None => None,
                };
                self.begin_at("Running diagnostics…", now);
                Some(Cmd::Doctor { device })
            },
            _ => None,
        }
    }
}

fn clone_texts(v: &Vec<String>) -> (r: Vec<String>)
    ensures
        r.deep_view() == v.deep_view(),
{
    let ghost all = v.deep_view();
    let mut out: Vec<String> = Vec::new();
    let mut i: usize = 0;
    assert(out.deep_view() =~= all.take(0));
    while i < v.len()
        invariant
            i <= v@.len(),
            all == v.deep_view(),
            out.deep_view() == all.take(i as int),
        decreases v@.len() - i,
    {
        push_text(&mut out, v[i].as_str());
        assert(all.take(i + 1) =~= all.take(i as int).push(all[i as int]));
        i += 1;
    }
    assert(all.take(i as int) =~= all);
    out
}

fn clone_items(v: &Vec<Discovered>) -> (r: Vec<Discovered>)
    ensures
        r.deep_view() == v.deep_view(),
{
    let ghost all = v.deep_view();
    let mut out: Vec<Discovered> = Vec::new();
    let mut i: usize = 0;
    assert(out.deep_view() =~= all.take(0));
    while i < v.len()
        invariant
            i <= v@.len(),
            all == v.deep_view(),
            out.deep_view() == all.take(i as int),
        decreases v@.len() - i,
    {
        let ghost before = out.deep_view();
        out.push(v[i].clone());
        assert(out.deep_view() =~= before.push(all[i as int]));
        assert(all.take(i + 1) =~= all.take(i as int).push(all[i as int]));
        i += 1;
    }
    assert(all.take(i as int) =~= all);
    out
}

} // verus!
