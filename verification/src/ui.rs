//! What is put on screen: texts, styles and sizes. A painter lays them out one
//! to one.
//!
//! Bordered chrome: an outer frame with the title in the top border and
//! `[key→action]` hints in the bottom border, a bordered device panel with
//! scrollbar, a status log, and popups.

use ratatui::layout::{Constraint, Flex, Layout, Rect};
use ratatui::text::Span;

use vstd::prelude::*;
use vstd::view::View as Viewed;

use crate::app::{App, AppModel, LogModel, View, ViewModel, LOG_MAX};
use crate::text;
use crate::worker::Tone;

pub mod laws;
pub mod panel;
pub mod popup;

verus! {

// ---------------------------------------------------------------------------
// Styles
// ---------------------------------------------------------------------------

/// The palette: steel blue chrome, ice-blue highlights, burnt-orange prompt
/// accents, green for connected.
#[derive(Debug, Clone, Copy, PartialEq, Eq, Structural)]
pub enum Ink {
    /// Outer frame.
    Steel,
    /// Panel borders, tracks.
    SteelDim,
    /// Wordmark "blue", panel titles.
    Blue,
    /// Bright highlights, counters.
    Ice,
    /// Bright text, wordmark "Rat".
    Snow,
    /// Regular text.
    Plain,
    /// Muted text, MACs, brackets.
    Slate,
    /// Keys, prompt, busy.
    Orange,
    /// Connected, success.
    Green,
    /// Destructive, failure.
    Red,
    /// Selection bar.
    Bar,
}

/// The color's red, green and blue.
pub open spec fn rgb_of(ink: Ink) -> (u8, u8, u8) {
    match ink {
        Ink::Steel => (0x4a, 0x7f, 0xb8),
        Ink::SteelDim => (0x31, 0x4d, 0x70),
        Ink::Blue => (0x6a, 0xa3, 0xe0),
        Ink::Ice => (0x7f, 0xd6, 0xff),
        Ink::Snow => (0xee, 0xf6, 0xff),
        Ink::Plain => (0xc2, 0xd4, 0xe8),
        Ink::Slate => (0x77, 0x8d, 0xa8),
        Ink::Orange => (0xff, 0x8c, 0x4a),
        Ink::Green => (0x5f, 0xd7, 0x84),
        Ink::Red => (0xf2, 0x6d, 0x6d),
        Ink::Bar => (0x2e, 0x54, 0x80),
    }
}

pub fn rgb(ink: Ink) -> (r: (u8, u8, u8))
    ensures
        r == rgb_of(ink),
{
    match ink {
        Ink::Steel => (0x4a, 0x7f, 0xb8),
        Ink::SteelDim => (0x31, 0x4d, 0x70),
        Ink::Blue => (0x6a, 0xa3, 0xe0),
        Ink::Ice => (0x7f, 0xd6, 0xff),
        Ink::Snow => (0xee, 0xf6, 0xff),
        Ink::Plain => (0xc2, 0xd4, 0xe8),
        Ink::Slate => (0x77, 0x8d, 0xa8),
        Ink::Orange => (0xff, 0x8c, 0x4a),
        Ink::Green => (0x5f, 0xd7, 0x84),
        Ink::Red => (0xf2, 0x6d, 0x6d),
        Ink::Bar => (0x2e, 0x54, 0x80),
    }
}

#[derive(Debug, Clone, Copy, PartialEq, Eq, Structural)]
pub struct Look {
    pub ink: Ink,
    pub bold: bool,
    pub dim: bool,
}

pub open spec fn plain_look(ink: Ink) -> Look {
    Look { ink, bold: false, dim: false }
}

pub open spec fn bold_look(ink: Ink) -> Look {
    Look { ink, bold: true, dim: false }
}

pub fn fg(ink: Ink) -> (r: Look)
    ensures
        r == plain_look(ink),
{
    Look { ink, bold: false, dim: false }
}

pub fn bold(ink: Ink) -> (r: Look)
    ensures
        r == bold_look(ink),
{
    Look { ink, bold: true, dim: false }
}

/// The color that a message's severity stands for.
pub open spec fn look_of_tone(tone: Tone) -> Look {
    match tone {
        Tone::Failure => bold_look(Ink::Red),
        Tone::Warn => plain_look(Ink::Orange),
        Tone::Success => plain_look(Ink::Green),
        Tone::Info => plain_look(Ink::Ice),
    }
}

pub fn tone_style(tone: Tone) -> (r: Look)
    ensures
        r == look_of_tone(tone),
{
    match tone {
        Tone::Failure => bold(Ink::Red),
        Tone::Warn => fg(Ink::Orange),
        Tone::Success => fg(Ink::Green),
        Tone::Info => fg(Ink::Ice),
    }
}

// ---------------------------------------------------------------------------
// Lines
// ---------------------------------------------------------------------------

/// A piece of text in one style. A line is a list of them.
#[derive(Debug, PartialEq, Eq)]
pub struct Piece {
    pub text: String,
    pub look: Look,
}

pub ghost struct PieceModel {
    pub text: Seq<char>,
    pub look: Look,
}

impl Viewed for Piece {
    type V = PieceModel;

    open spec fn view(&self) -> PieceModel {
        PieceModel { text: self.text@, look: self.look }
    }
}

impl DeepView for Piece {
    type V = PieceModel;

    open spec fn deep_view(&self) -> PieceModel {
        self@
    }
}

pub open spec fn piece(text: Seq<char>, look: Look) -> PieceModel {
    PieceModel { text, look }
}

/// Add a piece to a line.
pub fn add_piece(line: &mut Vec<Piece>, text: &str, look: Look)
    ensures
        final(line).deep_view() == old(line).deep_view().push(piece(text@, look)),
{
    let ghost before = line.deep_view();
    line.push(Piece { text: String::from_str(text), look });
    assert(line.deep_view() =~= before.push(piece(text@, look)));
}

/// A line of one piece.
pub fn line1(text: &str, look: Look) -> (r: Vec<Piece>)
    ensures
        r.deep_view() == seq![piece(text@, look)],
{
    let mut line: Vec<Piece> = Vec::new();
    add_piece(&mut line, text, look);
    assert(line.deep_view() =~= seq![piece(text@, look)]);
    line
}

/// A line of two pieces.
pub fn line2(a: &str, a_look: Look, b: &str, b_look: Look) -> (r: Vec<Piece>)
    ensures
        r.deep_view() == seq![piece(a@, a_look), piece(b@, b_look)],
{
    let mut line = line1(a, a_look);
    add_piece(&mut line, b, b_look);
    assert(line.deep_view() =~= seq![piece(a@, a_look), piece(b@, b_look)]);
    line
}

/// A line of three pieces.
pub fn line3(a: &str, a_look: Look, b: &str, b_look: Look, c: &str, c_look: Look) -> (r: Vec<
    Piece,
>)
    ensures
        r.deep_view() == seq![piece(a@, a_look), piece(b@, b_look), piece(c@, c_look)],
{
    let mut line = line2(a, a_look, b, b_look);
    add_piece(&mut line, c, c_look);
    assert(line.deep_view() =~= seq![piece(a@, a_look), piece(b@, b_look), piece(c@, c_look)]);
    line
}

/// A list of lines.
pub type LinesModel = Seq<Seq<PieceModel>>;

/// Add a line to a list.
pub fn add_line(lines: &mut Vec<Vec<Piece>>, line: Vec<Piece>)
    ensures
        final(lines).deep_view() == old(lines).deep_view().push(line.deep_view()),
{
    let ghost before = lines.deep_view();
    let ghost lm = line.deep_view();
    lines.push(line);
    assert(lines.deep_view() =~= before.push(lm));
}

// ---------------------------------------------------------------------------
// The frame
// ---------------------------------------------------------------------------

pub const VERSION: &'static str = "0.1.0";

/// The title in the top border.
pub fn title_line() -> (r: Vec<Piece>)
    ensures
        r.deep_view() == seq![
            piece("┤ "@, plain_look(Ink::Steel)),
            piece("󰂯 "@, plain_look(Ink::Ice)),
            piece("blue"@, bold_look(Ink::Blue)),
            piece("Rat"@, bold_look(Ink::Snow)),
            piece(" v"@ + VERSION@, plain_look(Ink::Slate)),
            piece(" ├"@, plain_look(Ink::Steel)),
        ],
{
    let mut line = line3(
        "┤ ",
        fg(Ink::Steel),
        "󰂯 ",
        fg(Ink::Ice),
        "blue",
        bold(Ink::Blue),
    );
    add_piece(&mut line, "Rat", bold(Ink::Snow));
    add_piece(&mut line, text::join2(" v", VERSION).as_str(), fg(Ink::Slate));
    add_piece(&mut line, " ├", fg(Ink::Steel));
    assert(line.deep_view() =~= seq![
        piece("┤ "@, plain_look(Ink::Steel)),
        piece("󰂯 "@, plain_look(Ink::Ice)),
        piece("blue"@, bold_look(Ink::Blue)),
        piece("Rat"@, bold_look(Ink::Snow)),
        piece(" v"@ + VERSION@, plain_look(Ink::Slate)),
        piece(" ├"@, plain_look(Ink::Steel)),
    ]);
    line
}

/// The keys that work in a view, and what they do.
pub open spec fn hints_of(view: ViewModel) -> Seq<(Seq<char>, Seq<char>)> {
    match view {
        ViewModel::ScanResults { .. } => seq![
            ("Enter"@, "Pair"@),
            ("j/k"@, "Move"@),
            ("Esc"@, "Back"@),
        ],
        ViewModel::ConfirmRemove { .. } => seq![("y"@, "Yes"@), ("n"@, "No"@)],
        ViewModel::Details { .. } => seq![("j/k"@, "Scroll"@), ("Esc"@, "Close"@)],
        ViewModel::PairPrompt { pin, .. } => if pin {
            seq![("Enter"@, "Submit"@), ("Esc"@, "Cancel"@)]
        } else {
            seq![("y"@, "Yes"@), ("n"@, "No"@)]
        },
        ViewModel::DeviceList => seq![
            ("Enter"@, "Toggle"@),
            ("s"@, "Scan"@),
            ("a"@, "Audio"@),
            ("i"@, "Info"@),
            ("/"@, "Filter"@),
            ("t"@, "Trust"@),
            ("x"@, "Remove"@),
            ("r"@, "Refresh"@),
            ("q"@, "Quit"@),
        ],
    }
}

fn push_hint(v: &mut Vec<(&'static str, &'static str)>, key: &'static str, action: &'static str)
    ensures
        final(v).deep_view() == old(v).deep_view().push((key@, action@)),
{
    let ghost before = v.deep_view();
    v.push((key, action));
    assert(v.deep_view() =~= before.push((key@, action@)));
}

/// The keys that work in a view, and what they do.
pub fn hints(view: &View) -> (r: Vec<(&'static str, &'static str)>)
    ensures
        r.deep_view() == hints_of(view@),
{
    let mut v: Vec<(&'static str, &'static str)> = Vec::new();
    match view {
        View::ScanResults { .. } => {
            push_hint(&mut v, "Enter", "Pair");
            push_hint(&mut v, "j/k", "Move");
            push_hint(&mut v, "Esc", "Back");
        },
        View::ConfirmRemove { .. } => {
            push_hint(&mut v, "y", "Yes");
            push_hint(&mut v, "n", "No");
        },
        View::Details { .. } => {
            push_hint(&mut v, "j/k", "Scroll");
            push_hint(&mut v, "Esc", "Close");
        },
        View::PairPrompt { pin, .. } => {
            if *pin {
                push_hint(&mut v, "Enter", "Submit");
                push_hint(&mut v, "Esc", "Cancel");
            } else {
                push_hint(&mut v, "y", "Yes");
                push_hint(&mut v, "n", "No");
            }
        },
        View::DeviceList => {
            push_hint(&mut v, "Enter", "Toggle");
            push_hint(&mut v, "s", "Scan");
            push_hint(&mut v, "a", "Audio");
            push_hint(&mut v, "i", "Info");
            push_hint(&mut v, "/", "Filter");
            push_hint(&mut v, "t", "Trust");
            push_hint(&mut v, "x", "Remove");
            push_hint(&mut v, "r", "Refresh");
            push_hint(&mut v, "q", "Quit");
        },
    }
    assert(v.deep_view() =~= hints_of(view@));
    v
}

/// `[key→action]`.
pub open spec fn chip(hint: (Seq<char>, Seq<char>)) -> Seq<PieceModel> {
    seq![
        piece("["@, plain_look(Ink::Slate)),
        piece(hint.0, bold_look(Ink::Orange)),
        piece("→"@, plain_look(Ink::Slate)),
        piece(hint.1, plain_look(Ink::Plain)),
        piece("]"@, plain_look(Ink::Slate)),
    ]
}

/// The chips, with a dash between any two.
pub open spec fn chips(hints: Seq<(Seq<char>, Seq<char>)>) -> Seq<PieceModel>
    decreases hints.len(),
{
    if hints.len() == 0 {
        Seq::empty()
    } else if hints.len() == 1 {
        chip(hints[0])
    } else {
        chips(hints.drop_last()).push(piece("─"@, plain_look(Ink::Steel))) + chip(hints.last())
    }
}

/// Chips for the bottom border.
pub fn hint_line(hints: &Vec<(&'static str, &'static str)>) -> (r: Vec<Piece>)
    ensures
        r.deep_view() == chips(hints.deep_view()),
{
    let ghost all = hints.deep_view();
    let mut line: Vec<Piece> = Vec::new();
    let mut i: usize = 0;
    assert(line.deep_view() =~= chips(all.take(0)));
    while i < hints.len()
        invariant
            i <= hints@.len(),
            all == hints.deep_view(),
            line.deep_view() == chips(all.take(i as int)),
        decreases hints@.len() - i,
    {
        let ghost start = line.deep_view();
        assert(all.take(i + 1).drop_last() =~= all.take(i as int));
        assert(all.take(i + 1).last() == (hints@[i as int].0@, hints@[i as int].1@));
        if i > 0 {
            add_piece(&mut line, "─", fg(Ink::Steel));
        }
        let ghost before = line.deep_view();
        add_piece(&mut line, "[", fg(Ink::Slate));
        add_piece(&mut line, hints[i].0, bold(Ink::Orange));
        add_piece(&mut line, "→", fg(Ink::Slate));
        add_piece(&mut line, hints[i].1, fg(Ink::Plain));
        add_piece(&mut line, "]", fg(Ink::Slate));
        assert(line.deep_view() =~= before + chip(all[i as int]));
        assert(i == 0 ==> before + chip(all[0]) =~= chip(all[0]));
        i += 1;
    }
    assert(all.take(i as int) =~= all);
    line
}

// ---------------------------------------------------------------------------
// The event log
// ---------------------------------------------------------------------------

/// The frames of the spinner.
pub open spec fn spinner_frames() -> Seq<Seq<char>> {
    seq!["⠋"@, "⠙"@, "⠹"@, "⠸"@, "⠼"@, "⠴"@, "⠦"@, "⠧"@, "⠇"@, "⠏"@]
}

fn spinner(tick: u64) -> (r: &'static str)
    ensures
        r@ == spinner_frames()[(tick % 10) as int],
{
    match tick % 10 {
        0 => "⠋",
        1 => "⠙",
        2 => "⠹",
        3 => "⠸",
        4 => "⠼",
        5 => "⠴",
        6 => "⠦",
        7 => "⠧",
        8 => "⠇",
        _ => "⠏",
    }
}

pub open spec fn dimmed(look: Look) -> Look {
    Look { dim: true, ..look }
}

/// A line of the log: colored by severity, all but the newest dimmed.
pub open spec fn log_line(entry: LogModel, newest: bool) -> Seq<PieceModel> {
    let prompt = bold_look(Ink::Orange);
    let look = look_of_tone(entry.1);
    if newest {
        seq![piece(" ❯ "@, prompt), piece(entry.0, look)]
    } else {
        seq![piece(" ❯ "@, dimmed(prompt)), piece(entry.0, dimmed(look))]
    }
}

/// The line of a running operation: the spinner, and the live progress text.
pub open spec fn busy_line(label: Seq<char>, progress: Option<Seq<char>>, tick: u64) -> Seq<
    PieceModel,
> {
    seq![
        piece(" "@ + spinner_frames()[(tick % 10) as int] + " "@, bold_look(Ink::Orange)),
        piece(
            match progress {
                Some(text) => text,
                None => label,
            },
            plain_look(Ink::Snow),
        ),
    ]
}

pub open spec fn event_lines(log: Seq<LogModel>) -> LinesModel {
    Seq::new(log.len(), |i: int| log_line(log[i], i + 1 == log.len()))
}

/// The event log, and the line of a running operation below it.
pub open spec fn log_of(s: AppModel) -> LinesModel {
    let lines = event_lines(s.log);
    match s.busy {
        Some(label) => lines.push(busy_line(label, s.progress, s.tick)),
        None => lines,
    }
}

/// Banner-console-style event log, plus a spinner line carrying the live
/// progress text while an operation runs.
pub fn log_lines(app: &App) -> (r: Vec<Vec<Piece>>)
    ensures
        r.deep_view() == log_of(app@),
{
    let n: usize = app.log.len();
    let ghost entries = app@.log;
    let ghost want = event_lines(entries);
    let mut lines: Vec<Vec<Piece>> = Vec::new();
    let mut i: usize = 0;
    assert(lines.deep_view() =~= want.take(0));
    while i < n
        invariant
            i <= n,
            n == app.log@.len(),
            entries == app@.log,
            want == event_lines(entries),
            lines.deep_view() == want.take(i as int),
        decreases n - i,
    {
        let entry = &app.log[i];
        assert(entries[i as int] == (entry.0@, entry.1, entry.2));
        let mut prompt = bold(Ink::Orange);
        let mut look = tone_style(entry.1);
        if i + 1 != n {
            prompt.dim = true;
            look.dim = true;
        }
        let line = line2(" ❯ ", prompt, entry.0.as_str(), look);
        assert(line.deep_view() =~= want[i as int]);
        add_line(&mut lines, line);
        assert(want.take(i + 1) =~= want.take(i as int).push(want[i as int]));
        i += 1;
    }
    assert(want.take(i as int) =~= want);
    match &app.busy {
        Some(label) => {
            let spin = text::join3(" ", spinner(app.tick), " ");
            let text = match &app.progress {
                Some(text) => text.as_str(),
                None => label.as_str(),
            };
            let line = line2(spin.as_str(), bold(Ink::Orange), text, fg(Ink::Snow));
            assert(line.deep_view() =~= busy_line(label@, app@.progress, app.tick));
            add_line(&mut lines, line);
        },
        None => {},
    }
    lines
}

/// How many cells a text takes on screen, as `Span::width` tells it.
pub uninterp spec fn cells(s: Seq<char>) -> nat;

pub open spec fn printable_ascii(s: Seq<char>) -> bool {
    forall|i: int| 0 <= i < s.len() ==> 0x20 <= (#[trigger] s[i]) as u32 <= 0x7e
}

/// `Span::width` gives the cells that a text takes on screen, by the Unicode
/// rules for character widths, which the name stands for; printable ASCII takes
/// a cell for each character.
#[verifier::external_body]
fn text_width(s: &str) -> (r: usize)
    ensures
        r == cells(s@),
        printable_ascii(s@) ==> r == s@.len(),
{
    Span::raw(s).width()
}

/// How many cells a line takes on screen.
pub open spec fn line_cells(line: Seq<PieceModel>) -> nat
    decreases line.len(),
{
    if line.len() == 0 {
        0
    } else {
        line_cells(line.drop_last()) + cells(line.last().text)
    }
}

/// How many rows a line takes when it is wrapped; an empty line takes one.
pub open spec fn rows_needed(line: Seq<PieceModel>, width: nat) -> nat {
    if line_cells(line) == 0 {
        1
    } else {
        ((line_cells(line) + width - 1) / (width as int)) as nat
    }
}

/// How many of the last lines fit into the rows.
pub open spec fn tail_len(lines: LinesModel, width: nat, height: int) -> nat
    decreases lines.len(),
{
    if lines.len() == 0 || rows_needed(lines.last(), width) > height {
        0
    } else {
        1 + tail_len(lines.drop_last(), width, height - rows_needed(lines.last(), width))
    }
}

/// The newest lines that fit.
pub open spec fn tail_that_fits(lines: LinesModel, width: nat, height: nat) -> LinesModel {
    if width == 0 || height == 0 {
        Seq::empty()
    } else {
        lines.skip(lines.len() - tail_len(lines, width, height as int))
    }
}

fn width_of_line(line: &Vec<Piece>) -> (r: u128)
    ensures
        r == line_cells(line.deep_view()),
        r <= usize::MAX * line@.len(),
{
    let ghost all = line.deep_view();
    let n: usize = line.len();
    let mut total: u128 = 0;
    let mut i: usize = 0;
    assert(all.take(0).len() == 0);
    while i < n
        invariant
            i <= n,
            n == line@.len(),
            all == line.deep_view(),
            total == line_cells(all.take(i as int)),
            total <= usize::MAX * i,
        decreases n - i,
    {
        assert(all.take(i + 1).drop_last() =~= all.take(i as int));
        assert(all.take(i + 1).last() == line@[i as int]@);
        let w: usize = text_width(line[i].text.as_str());
        assert(usize::MAX * i + usize::MAX <= u128::MAX && usize::MAX * (i + 1) == usize::MAX * i
            + usize::MAX) by (nonlinear_arith)
            requires
                i < usize::MAX,
        ;
        total = total + w as u128;
        i += 1;
    }
    assert(all.take(i as int) =~= all);
    total
}

/// Keep the newest lines that fit `height` rows at `width` (accounting for
/// wrapping), dropping the oldest - the spinner and latest events must never
/// be the ones clipped.
pub fn fit_tail(lines: Vec<Vec<Piece>>, width: u16, height: u16) -> (r: Vec<Vec<Piece>>)
    ensures
        r.deep_view() == tail_that_fits(lines.deep_view(), width as nat, height as nat),
{
    let ghost all = lines.deep_view();
    let n: usize = lines.len();
    if width == 0 || height == 0 {
        let none: Vec<Vec<Piece>> = Vec::new();
        assert(none.deep_view() =~= Seq::<Seq<PieceModel>>::empty());
        return none;
    }
    let mut left: u128 = height as u128;
    let mut k: usize = n;
    assert(all.take(n as int) =~= all);
    loop
        invariant
            k <= n,
            n == lines@.len(),
            n <= usize::MAX,
            all == lines.deep_view(),
            width > 0,
            (n - k) + tail_len(all.take(k as int), width as nat, left as int) == tail_len(
                all,
                width as nat,
                height as int,
            ),
        ensures
            n - k == tail_len(all, width as nat, height as int),
            k <= n,
        decreases k,
    {
        if k == 0 {
            break ;
        }
        assert(all.take(k as int).last() == lines@[k - 1].deep_view());
        assert(all.take(k as int).drop_last() =~= all.take(k - 1));
        let w: u128 = width_of_line(&lines[k - 1]);
        let need: u128 = if w == 0 {
            1
        } else {
            (w - 1) / (width as u128) + 1
        };
        assert(w > 0 ==> (w + width - 1) / (width as int) == (w - 1) / (width as int) + 1)
            by (nonlinear_arith)
            requires
                width > 0,
        ;
        if need > left {
            break ;
        }
        left = left - need;
        k -= 1;
    }
    let mut lines = lines;
    let kept = lines.split_off(k);
    assert(kept.deep_view() =~= all.skip(k as int));
    kept
}

// ---------------------------------------------------------------------------
// Areas
// ---------------------------------------------------------------------------

/// A rectangle of cells.
#[derive(Debug, Clone, Copy, PartialEq, Eq, Structural)]
pub struct Area {
    pub x: u16,
    pub y: u16,
    pub width: u16,
    pub height: u16,
}

/// The columns of `a` are among those of `b`.
pub open spec fn columns_within(a: Area, b: Area) -> bool {
    b.x <= a.x && a.x + a.width <= b.x + b.width
}

/// The rows of `a` are among those of `b`.
pub open spec fn rows_within(a: Area, b: Area) -> bool {
    b.y <= a.y && a.y + a.height <= b.y + b.height
}

pub open spec fn same_columns(a: Area, b: Area) -> bool {
    a.x == b.x && a.width == b.width
}

pub open spec fn same_rows(a: Area, b: Area) -> bool {
    a.y == b.y && a.height == b.height
}

/// The area ends on a screen, as far as coordinates go.
pub open spec fn on_screen(area: Area) -> bool {
    area.x + area.width <= u16::MAX && area.y + area.height <= u16::MAX
}

/// How many cells the second of two parts gets out of `total`: `length`, where
/// that leaves the first its minimum; else what the first leaves.
pub open spec fn second_share(total: u16, min: u16, length: u16) -> u16 {
    if min + length <= total {
        length
    } else if min <= total {
        (total - min) as u16
    } else {
        0
    }
}

/// The area in two parts side by side, the second of that width.
pub open spec fn beside(area: Area, second: u16) -> (Area, Area) {
    (
        Area { width: (area.width - second) as u16, ..area },
        Area { x: (area.x + area.width - second) as u16, width: second, ..area },
    )
}

/// The area in two parts one above the other, the second of that height.
pub open spec fn stacked(area: Area, second: u16) -> (Area, Area) {
    (
        Area { height: (area.height - second) as u16, ..area },
        Area { y: (area.y + area.height - second) as u16, height: second, ..area },
    )
}

/// `Layout::areas` splits an area side by side by a `Constraint::Min` and a
/// `Constraint::Length`. Both parts keep the rows of the area and lie within its
/// columns. The minimum comes before the length, and the first part takes what
/// is left over; sizes are taken as signed, hence the bound on `min`.
#[verifier::external_body]
fn split_columns(area: Area, min: u16, length: u16) -> (r: (Area, Area))
    ensures
        same_rows(r.0, area),
        same_rows(r.1, area),
        columns_within(r.0, area),
        columns_within(r.1, area),
        on_screen(area) && min <= i16::MAX ==> r == beside(
            area,
            second_share(area.width, min, length),
        ),
{
    let Area { x, y, width, height } = area;
    let [a, b] = Layout::horizontal([Constraint::Min(min), Constraint::Length(length)])
        .areas(Rect { x, y, width, height });
    (
        Area { x: a.x, y: a.y, width: a.width, height: a.height },
        Area { x: b.x, y: b.y, width: b.width, height: b.height },
    )
}

/// `Layout::areas` splits an area one part above the other by a
/// `Constraint::Min` and a `Constraint::Length`. Both parts keep the columns of
/// the area and lie within its rows, which are shared out as columns are side
/// by side.
#[verifier::external_body]
fn split_rows(area: Area, min: u16, length: u16) -> (r: (Area, Area))
    ensures
        same_columns(r.0, area),
        same_columns(r.1, area),
        rows_within(r.0, area),
        rows_within(r.1, area),
        on_screen(area) && min <= i16::MAX ==> r == stacked(
            area,
            second_share(area.height, min, length),
        ),
{
    let Area { x, y, width, height } = area;
    let [a, b] = Layout::vertical([Constraint::Min(min), Constraint::Length(length)])
        .areas(Rect { x, y, width, height });
    (
        Area { x: a.x, y: a.y, width: a.width, height: a.height },
        Area { x: b.x, y: b.y, width: b.width, height: b.height },
    )
}

/// What is taken out of the middle of `total` cells: `length`, or all where that
/// is more.
pub open spec fn middle_len(total: u16, length: u16) -> u16 {
    if length <= total {
        length
    } else {
        total
    }
}

/// How many cells are left out before the middle: half of the rest, rounded up.
pub open spec fn middle_gap(total: u16, length: u16) -> u16 {
    ((total - middle_len(total, length) + 1) / 2) as u16
}

/// `Layout::areas` with `Flex::Center` takes `length` columns out of the middle
/// of an area, or all where it has fewer. They keep the rows of the area and lie
/// within its columns, with as many cells before them as behind, or one more.
#[verifier::external_body]
fn middle_columns(area: Area, length: u16) -> (r: Area)
    ensures
        same_rows(r, area),
        columns_within(r, area),
        on_screen(area) ==> r.x == area.x + middle_gap(area.width, length) && r.width == middle_len(
            area.width,
            length,
        ),
{
    let Area { x, y, width, height } = area;
    let [a] = Layout::horizontal([Constraint::Length(length)])
        .flex(Flex::Center)
        .areas(Rect { x, y, width, height });
    Area { x: a.x, y: a.y, width: a.width, height: a.height }
}

/// `Layout::areas` with `Flex::Center` takes `length` rows out of the middle of
/// an area, or all where it has fewer. They keep the columns of the area and lie
/// within its rows, with as many cells before them as behind, or one more.
#[verifier::external_body]
fn middle_rows(area: Area, length: u16) -> (r: Area)
    ensures
        same_columns(r, area),
        rows_within(r, area),
        on_screen(area) ==> r.y == area.y + middle_gap(area.height, length) && r.height
            == middle_len(area.height, length),
{
    let Area { x, y, width, height } = area;
    let [a] = Layout::vertical([Constraint::Length(length)])
        .flex(Flex::Center)
        .areas(Rect { x, y, width, height });
    Area { x: a.x, y: a.y, width: a.width, height: a.height }
}

/// An area of that size in the middle of another, and never outside it.
pub open spec fn centered(area: Area, width: u16, height: u16) -> Area {
    Area {
        x: (area.x + middle_gap(area.width, width)) as u16,
        y: (area.y + middle_gap(area.height, height)) as u16,
        width: middle_len(area.width, width),
        height: middle_len(area.height, height),
    }
}

/// An area of that size in the middle of another, and never outside it.
pub fn center(area: Area, width: u16, height: u16) -> (r: Area)
    ensures
        columns_within(r, area),
        rows_within(r, area),
        on_screen(area) ==> r == centered(area, width, height),
{
    middle_rows(middle_columns(area, width), height)
}

// Responsive log layout. At the breakpoint, the side panel takes
// max(SIDE_LOG_MIN, 35%) columns and the device panel keeps at least
// CONTENT_MIN.
pub const SIDE_LOG_BREAKPOINT: u16 = 90;

/// Percent of the total width.
pub const SIDE_LOG_RATIO: u32 = 35;

pub const SIDE_LOG_MIN: u16 = 34;

pub const CONTENT_MIN: u16 = 40;

/// The rows that the panel keeps above a log at the bottom.
pub const CONTENT_ROWS: u16 = 3;

/// The columns of the side log: at least 35% of the width, never below the
/// readable minimum.
pub open spec fn side_log_columns(width: u16) -> u16 {
    let share = width * SIDE_LOG_RATIO / 100;
    if share < SIDE_LOG_MIN {
        SIDE_LOG_MIN
    } else {
        share as u16
    }
}

pub fn side_log_width(width: u16) -> (r: u16)
    ensures
        r == side_log_columns(width),
{
    let share: u32 = width as u32 * SIDE_LOG_RATIO / 100;
    if share < SIDE_LOG_MIN as u32 {
        SIDE_LOG_MIN
    } else {
        share as u16
    }
}

/// The rows of the bottom log: constant while anything is logged or running, so
/// that the device list doesn't jump on every entry.
pub open spec fn bottom_log_rows(lines: nat) -> u16 {
    if lines == 0 {
        1
    } else {
        (LOG_MAX + 1) as u16
    }
}

pub fn bottom_log_height(lines: usize) -> (r: u16)
    ensures
        r == bottom_log_rows(lines as nat),
{
    if lines == 0 {
        1
    } else {
        LOG_MAX as u16 + 1
    }
}

/// Where the event log goes.
#[derive(Debug, Clone, Copy, PartialEq, Eq)]
pub enum LogSlot {
    Bottom(Area),
    Side(Area),
}

/// The panel's area, and the log's: wide terminals get a console panel on the
/// right, narrow ones keep the log at the bottom.
pub open spec fn arranged(inner: Area, lines: nat) -> (Area, LogSlot) {
    if inner.width >= SIDE_LOG_BREAKPOINT {
        let (panel, log) = beside(
            inner,
            second_share(inner.width, CONTENT_MIN, side_log_columns(inner.width)),
        );
        (panel, LogSlot::Side(log))
    } else {
        let (panel, log) = stacked(
            inner,
            second_share(inner.height, CONTENT_ROWS, bottom_log_rows(lines)),
        );
        (panel, LogSlot::Bottom(log))
    }
}

/// Share out the area inside the frame to the panel and the log, which has that
/// many lines.
pub fn arrange(inner: Area, lines: usize) -> (r: (Area, LogSlot))
    ensures
        columns_within(r.0, inner),
        rows_within(r.0, inner),
        match r.1 {
            LogSlot::Side(area) => inner.width >= SIDE_LOG_BREAKPOINT && same_rows(area, inner)
                && same_rows(r.0, inner) && columns_within(area, inner),
            LogSlot::Bottom(area) => inner.width < SIDE_LOG_BREAKPOINT && same_columns(area, inner)
                && same_columns(r.0, inner) && rows_within(area, inner),
        },
        on_screen(inner) ==> r == arranged(inner, lines as nat),
{
    if inner.width >= SIDE_LOG_BREAKPOINT {
        let (content, side) = split_columns(inner, CONTENT_MIN, side_log_width(inner.width));
        (content, LogSlot::Side(side))
    } else {
        let (content, bottom) = split_rows(inner, CONTENT_ROWS, bottom_log_height(lines));
        (content, LogSlot::Bottom(bottom))
    }
}

// ---------------------------------------------------------------------------
// Laws
// ---------------------------------------------------------------------------

/// Wherever the log goes to the side, it gets its share of the columns, and the
/// device panel keeps its minimum beside it.
pub proof fn side_log_leaves_room(inner: Area, lines: nat)
    requires
        on_screen(inner),
        inner.width >= SIDE_LOG_BREAKPOINT,
    ensures
        arranged(inner, lines).0.width >= CONTENT_MIN,
        arranged(inner, lines).1 matches LogSlot::Side(side) && side.width == side_log_columns(
            inner.width,
        ) && side.width >= SIDE_LOG_MIN,
{
}

/// The panel and the log share the area out: together they fill it, and do not
/// overlap.
pub proof fn panel_and_log_share_the_area(inner: Area, lines: nat)
    requires
        on_screen(inner),
    ensures
        match arranged(inner, lines) {
            (panel, LogSlot::Side(log)) => panel.x == inner.x && log.x == panel.x + panel.width
                && panel.width + log.width == inner.width,
            (panel, LogSlot::Bottom(log)) => panel.y == inner.y && log.y == panel.y + panel.height
                && panel.height + log.height == inner.height,
        },
{
}

/// The rows that lines take together.
pub open spec fn rows_taken(lines: LinesModel, width: nat) -> nat
    decreases lines.len(),
{
    if lines.len() == 0 {
        0
    } else {
        rows_taken(lines.drop_last(), width) + rows_needed(lines.last(), width)
    }
}

proof fn lemma_tail(lines: LinesModel, width: nat, height: int)
    requires
        width > 0,
        height >= 0,
    ensures
        tail_len(lines, width, height) <= lines.len(),
        rows_taken(lines.skip(lines.len() - tail_len(lines, width, height)), width) <= height,
        tail_len(lines, width, height) < lines.len() ==> rows_taken(
            lines.skip(lines.len() - tail_len(lines, width, height) - 1),
            width,
        ) > height,
    decreases lines.len(),
{
    let n = lines.len() as int;
    let t = tail_len(lines, width, height);
    if n == 0 {
        assert(lines.skip(0) =~= Seq::<Seq<PieceModel>>::empty());
    } else if rows_needed(lines.last(), width) > height {
        assert(lines.skip(n) =~= Seq::<Seq<PieceModel>>::empty());
        let one = lines.skip(n - 1);
        assert(one.drop_last() =~= Seq::<Seq<PieceModel>>::empty());
        assert(one.last() == lines.last());
        assert(rows_taken(one, width) == rows_needed(lines.last(), width)) by {
            assert(rows_taken(one.drop_last(), width) == 0);
        }
    } else {
        let rest = lines.drop_last();
        let left = height - rows_needed(lines.last(), width);
        lemma_tail(rest, width, left);
        let kept = lines.skip(n - t);
        assert(kept.drop_last() =~= rest.skip(rest.len() - (t - 1)));
        assert(kept.last() == lines.last());
        if t < n {
            let more = lines.skip(n - t - 1);
            assert(more.drop_last() =~= rest.skip(rest.len() - (t - 1) - 1));
            assert(more.last() == lines.last());
        }
    }
}

/// What is shown of the log is its newest part: it fits into the rows, and not
/// one older line would.
pub proof fn log_shows_the_newest_that_fits(lines: LinesModel, width: nat, height: nat)
    requires
        width > 0,
        height > 0,
    ensures
        ({
            let kept = tail_that_fits(lines, width, height);
            let dropped = lines.len() - kept.len();
            &&& kept.len() <= lines.len()
            &&& kept == lines.skip(dropped)
            &&& rows_taken(kept, width) <= height
            &&& dropped > 0 ==> rows_taken(lines.skip(dropped - 1), width) > height
        }),
{
    lemma_tail(lines, width, height as int);
}

/// The line of a running operation is always the last one, so that it is the
/// last to be dropped for want of room.
pub proof fn running_operation_shows_last(s: AppModel)
    requires
        s.busy is Some,
    ensures
        log_of(s).len() == s.log.len() + 1,
        log_of(s).last() == busy_line(s.busy->0, s.progress, s.tick),
{
}

} // verus!
