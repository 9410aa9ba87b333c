//! Popups: device details, pairing prompts, the question before a removal, and
//! the list of keys.

use vstd::prelude::*;
use vstd::view::View as Viewed;

use crate::app::{App, AppModel, View, ViewModel};
use crate::text;
use crate::text::{decimal, line_seq, pad, padded};

use super::{
    add_line, add_piece, bold, bold_look, fg, line1, line2, line3, piece, plain_look, Ink,
    LinesModel, Piece, PieceModel,
};

verus! {

/// A bordered box in the middle of the screen.
pub struct Popup {
    pub width: u16,
    pub height: u16,
    pub border: Ink,
    pub title: Vec<Piece>,
    /// What stands at the right of the bottom border.
    pub footer: Option<Vec<Piece>>,
    pub lines: Vec<Vec<Piece>>,
    /// The lines are centered.
    pub centered: bool,
    /// The lines are wrapped where they are too long.
    pub wrapped: bool,
}

pub ghost struct PopupModel {
    pub width: nat,
    pub height: nat,
    pub border: Ink,
    pub title: Seq<PieceModel>,
    pub footer: Option<Seq<PieceModel>>,
    pub lines: LinesModel,
    pub centered: bool,
    pub wrapped: bool,
}

impl Viewed for Popup {
    type V = PopupModel;

    open spec fn view(&self) -> PopupModel {
        PopupModel {
            width: self.width as nat,
            height: self.height as nat,
            border: self.border,
            title: self.title.deep_view(),
            footer: self.footer.deep_view(),
            lines: self.lines.deep_view(),
            centered: self.centered,
            wrapped: self.wrapped,
        }
    }
}

impl DeepView for Popup {
    type V = PopupModel;

    open spec fn deep_view(&self) -> PopupModel {
        self@
    }
}

pub open spec fn less(a: nat, b: nat) -> nat {
    if a >= b {
        (a - b) as nat
    } else {
        0
    }
}

pub open spec fn smaller(a: nat, b: nat) -> nat {
    if a <= b {
        a
    } else {
        b
    }
}

pub open spec fn larger(a: nat, b: nat) -> nat {
    if a >= b {
        a
    } else {
        b
    }
}

// ---------------------------------------------------------------------------
// Scrolling
// ---------------------------------------------------------------------------

/// The rows of a box that shows `total` rows on a screen of that height, its
/// borders included.
pub open spec fn box_height(total: nat, screen: u16) -> nat {
    smaller(total + 2, less(screen as nat, 2))
}

/// The rows that the box has for its content.
pub open spec fn room(total: nat, screen: u16) -> nat {
    less(box_height(total, screen), 2)
}

/// How far the content can be scrolled.
pub open spec fn scroll_end(total: nat, screen: u16) -> nat {
    less(total, room(total, screen))
}

/// The first row on screen: where it was scrolled to, within the content.
pub open spec fn first_row(scroll: u16, total: nat, screen: u16) -> nat {
    smaller(scroll as nat, scroll_end(total, screen))
}

/// The row behind the last one on screen.
pub open spec fn last_row(scroll: u16, total: nat, screen: u16) -> nat {
    smaller(first_row(scroll, total, screen) + room(total, screen), total)
}

/// Which rows are on screen, where not all of them are.
pub open spec fn scroll_footer(scroll: u16, total: nat, screen: u16) -> Option<Seq<PieceModel>> {
    if scroll_end(total, screen) == 0 {
        None
    } else {
        Some(
            seq![
                piece("┤"@, plain_look(Ink::Steel)),
                piece(
                    decimal(first_row(scroll, total, screen) + 1) + "–"@ + decimal(
                        last_row(scroll, total, screen),
                    ) + "/"@ + decimal(total),
                    bold_look(Ink::Ice),
                ),
                piece("├"@, plain_look(Ink::Steel)),
            ],
        )
    }
}

/// What of a long content is on screen.
pub struct Window {
    pub height: u16,
    pub start: usize,
    pub end: usize,
    pub footer: Option<Vec<Piece>>,
}

fn window(scroll: u16, total: usize, screen: u16) -> (r: Window)
    ensures
        r.height == box_height(total as nat, screen),
        r.start == first_row(scroll, total as nat, screen),
        r.end == last_row(scroll, total as nat, screen),
        r.start <= r.end <= total,
        r.start <= scroll,
        r.footer.deep_view() == scroll_footer(scroll, total as nat, screen),
{
    let most: u16 = if screen >= 2 {
        screen - 2
    } else {
        0
    };
    let height: u16 = if total as u128 + 2 <= most as u128 {
        total as u16 + 2
    } else {
        most
    };
    let space: usize = if height >= 2 {
        height as usize - 2
    } else {
        0
    };
    let furthest: usize = if total >= space {
        total - space
    } else {
        0
    };
    let start: usize = if (scroll as usize) <= furthest {
        scroll as usize
    } else {
        furthest
    };
    let end: usize = if total - start >= space {
        start + space
    } else {
        total
    };
    let footer = if furthest == 0 {
        None
    } else {
        let mut s = text::join2(text::to_decimal(start as u128 + 1).as_str(), "–");
        s.append(text::to_decimal(end as u128).as_str());
        s.append("/");
        s.append(text::to_decimal(total as u128).as_str());
        Some(line3("┤", fg(Ink::Steel), s.as_str(), bold(Ink::Ice), "├", fg(Ink::Steel)))
    };
    Window { height, start, end, footer }
}

// ---------------------------------------------------------------------------
// Device details
// ---------------------------------------------------------------------------

/// The text with two blanks for each tab.
pub open spec fn untabbed(s: Seq<char>) -> Seq<char>
    decreases s.len(),
{
    if s.len() == 0 {
        Seq::empty()
    } else if s.last() == '\t' {
        untabbed(s.drop_last()) + "  "@
    } else {
        untabbed(s.drop_last()).push(s.last())
    }
}

/// The text in pieces of `width` characters, the last one shorter; one empty
/// piece where it is empty.
pub open spec fn chunks(s: Seq<char>, width: nat) -> Seq<Seq<char>>
    decreases s.len(),
{
    if width == 0 || s.len() <= width {
        seq![s]
    } else {
        seq![s.take(width as int)] + chunks(s.skip(width as int), width)
    }
}

/// The lines wrapped by hand, so that the row count is exact.
pub open spec fn wrapped(lines: Seq<Seq<char>>, width: nat) -> Seq<Seq<char>>
    decreases lines.len(),
{
    if lines.len() == 0 {
        Seq::empty()
    } else {
        wrapped(lines.drop_last(), width) + chunks(untabbed(lines.last()), width)
    }
}

/// The columns of the details popup on a screen of that width.
pub open spec fn details_width(screen: u16) -> nat {
    larger(smaller(64, less(screen as nat, 4)), 20)
}

/// The rows of the details popup's content.
pub open spec fn details_rows(text: Seq<char>, screen: u16) -> Seq<Seq<char>> {
    wrapped(line_seq(text), (details_width(screen) - 2) as nat)
}

pub open spec fn plain_lines(rows: Seq<Seq<char>>) -> LinesModel {
    Seq::new(rows.len(), |i: int| seq![piece(rows[i], plain_look(Ink::Plain))])
}

pub open spec fn details_popup(
    name: Seq<char>,
    text: Seq<char>,
    scroll: u16,
    width: u16,
    height: u16,
) -> PopupModel {
    let rows = details_rows(text, width);
    let total = rows.len();
    PopupModel {
        width: details_width(width),
        height: box_height(total, height),
        border: Ink::Steel,
        title: seq![
            piece("┤ 󰋽 "@, plain_look(Ink::Steel)),
            piece(name, bold_look(Ink::Blue)),
            piece(" ├"@, plain_look(Ink::Steel)),
        ],
        footer: scroll_footer(scroll, total, height),
        lines: plain_lines(rows).subrange(
            first_row(scroll, total, height) as int,
            last_row(scroll, total, height) as int,
        ),
        centered: false,
        wrapped: false,
    }
}

fn untab(s: &str) -> (r: Vec<char>)
    ensures
        r@ == untabbed(s@),
{
    let v = text::chars_of(s);
    let mut out: Vec<char> = Vec::new();
    let mut i: usize = 0;
    proof {
        reveal_strlit("  ");
        assert(v@.take(0).len() == 0);
    }
    assert(out@ =~= untabbed(v@.take(0)));
    while i < v.len()
        invariant
            i <= v@.len(),
            v@ == s@,
            "  "@ =~= seq![' ', ' '],
            out@ == untabbed(v@.take(i as int)),
        decreases v@.len() - i,
    {
        assert(v@.take(i + 1).drop_last() =~= v@.take(i as int));
        if v[i] == '\t' {
            let ghost before = out@;
            out.push(' ');
            out.push(' ');
            assert(out@ =~= before + "  "@);
        } else {
            out.push(v[i]);
        }
        i += 1;
    }
    assert(v@.take(i as int) =~= v@);
    out
}

fn push_chunks(rows: &mut Vec<String>, s: &Vec<char>, width: usize)
    requires
        width > 0,
    ensures
        final(rows).deep_view() == old(rows).deep_view() + chunks(s@, width as nat),
{
    let ghost start = rows.deep_view();
    let ghost want = chunks(s@, width as nat);
    let n: usize = s.len();
    let mut i: usize = 0;
    assert(s@.skip(0) =~= s@);
    assert(rows.deep_view() + want =~= start + want);
    while n - i > width
        invariant
            i <= n,
            n == s@.len(),
            width > 0,
            want == chunks(s@, width as nat),
            rows.deep_view() + chunks(s@.skip(i as int), width as nat) == start + want,
        decreases n - i,
    {
        let ghost before = rows.deep_view();
        let ghost rest = s@.skip(i as int);
        let chunk = text::string_of(s, i, i + width);
        assert(chunk@ =~= rest.take(width as int));
        assert(rest.skip(width as int) =~= s@.skip(i + width));
        crate::shell::push_text(rows, chunk.as_str());
        assert(before.push(chunk@) + chunks(s@.skip(i + width), width as nat) =~= before + (
        seq![chunk@] + chunks(s@.skip(i + width), width as nat)));
        i += width;
    }
    let chunk = text::string_of(s, i, n);
    assert(chunk@ =~= s@.skip(i as int));
    let ghost before = rows.deep_view();
    crate::shell::push_text(rows, chunk.as_str());
    assert(before.push(chunk@) =~= before + seq![chunk@]);
}

fn wrap(text: &str, width: usize) -> (r: Vec<String>)
    requires
        width > 0,
    ensures
        r.deep_view() == wrapped(line_seq(text@), width as nat),
{
    let ls = text::lines(text);
    let ghost all = ls.deep_view();
    let mut rows: Vec<String> = Vec::new();
    let mut i: usize = 0;
    assert(rows.deep_view() =~= wrapped(all.take(0), width as nat));
    while i < ls.len()
        invariant
            i <= ls@.len(),
            width > 0,
            all == ls.deep_view(),
            all == line_seq(text@),
            rows.deep_view() == wrapped(all.take(i as int), width as nat),
        decreases ls@.len() - i,
    {
        assert(all.take(i + 1).drop_last() =~= all.take(i as int));
        assert(all.take(i + 1).last() == ls@[i as int]@);
        let line = untab(ls[i].as_str());
        push_chunks(&mut rows, &line, width);
        i += 1;
    }
    assert(all.take(i as int) =~= all);
    rows
}

fn width_of_details(screen: u16) -> (r: u16)
    ensures
        r == details_width(screen),
        r >= 20,
{
    let most: u16 = if screen >= 4 {
        screen - 4
    } else {
        0
    };
    let width: u16 = if most <= 64 {
        most
    } else {
        64
    };
    if width >= 20 {
        width
    } else {
        20
    }
}

fn details(name: &str, text: &str, scroll: u16, width: u16, height: u16) -> (r: Popup)
    ensures
        r@ == details_popup(name@, text@, scroll, width, height),
{
    let columns: u16 = width_of_details(width);
    let rows = wrap(text, columns as usize - 2);
    let ghost all = rows.deep_view();
    let w = window(scroll, rows.len(), height);
    let ghost want = plain_lines(all);
    let mut lines: Vec<Vec<Piece>> = Vec::new();
    let mut i: usize = w.start;
    assert(lines.deep_view() =~= want.subrange(w.start as int, w.start as int));
    while i < w.end
        invariant
            w.start <= i <= w.end <= rows@.len(),
            all == rows.deep_view(),
            want == plain_lines(all),
            lines.deep_view() == want.subrange(w.start as int, i as int),
        decreases w.end - i,
    {
        let line = line1(rows[i].as_str(), fg(Ink::Plain));
        assert(all[i as int] == rows@[i as int]@);
        add_line(&mut lines, line);
        assert(want.subrange(w.start as int, i + 1) =~= want.subrange(
            w.start as int,
            i as int,
        ).push(want[i as int]));
        i += 1;
    }
    let title = line3(
        "┤ 󰋽 ",
        fg(Ink::Steel),
        name,
        bold(Ink::Blue),
        " ├",
        fg(Ink::Steel),
    );
    Popup {
        width: columns,
        height: w.height,
        border: Ink::Steel,
        title,
        footer: w.footer,
        lines,
        centered: false,
        wrapped: false,
    }
}

// ---------------------------------------------------------------------------
// Questions
// ---------------------------------------------------------------------------

/// "y yes    n no".
pub open spec fn yes_no_line(yes: Ink, no: Ink) -> Seq<PieceModel> {
    seq![
        piece("y"@, bold_look(yes)),
        piece(" yes    "@, plain_look(Ink::Plain)),
        piece("n"@, bold_look(no)),
        piece(" no"@, plain_look(Ink::Plain)),
    ]
}

pub open spec fn prompt_lines(pin: bool, passkey: Seq<char>, input: Seq<char>) -> LinesModel {
    if pin {
        seq![
            seq![piece("Enter PIN code for pairing:"@, plain_look(Ink::Plain))],
            Seq::empty(),
            seq![piece(input + "▏"@, bold_look(Ink::Snow))],
        ]
    } else {
        seq![
            seq![piece("Confirm this matches the device:"@, plain_look(Ink::Plain))],
            seq![
                piece(
                    if passkey.len() == 0 {
                        "Accept pairing request?"@
                    } else {
                        "Passkey: "@ + passkey
                    },
                    bold_look(Ink::Ice),
                ),
            ],
            yes_no_line(Ink::Green, Ink::Red),
        ]
    }
}

pub open spec fn prompt_popup(pin: bool, passkey: Seq<char>, input: Seq<char>) -> PopupModel {
    PopupModel {
        width: 42,
        height: 5,
        border: Ink::Orange,
        title: seq![piece("┤ 󰌆 Pairing ├"@, bold_look(Ink::Orange))],
        footer: None,
        lines: prompt_lines(pin, passkey, input),
        centered: true,
        wrapped: false,
    }
}

/// The columns of the removal popup: they fit the longest line, measured in
/// characters, as far as the screen goes.
pub open spec fn confirm_width(name: nat, screen: u16) -> nat {
    smaller(larger(name + 21, 34), less(screen as nat, 2))
}

/// The rows of the removal popup: one more for each that "Remove (unpair)
/// <name>?" is wrapped onto.
pub open spec fn confirm_height(name: nat, screen: u16) -> nat {
    let inner = larger(less(confirm_width(name, screen), 2), 1);
    smaller(5 + (16 + name) / inner, 65535)
}

pub open spec fn confirm_popup(mac: Seq<char>, name: Seq<char>, width: u16) -> PopupModel {
    PopupModel {
        width: confirm_width(name.len(), width),
        height: confirm_height(name.len(), width),
        border: Ink::Red,
        title: seq![piece("┤ 󰩹 Remove ├"@, bold_look(Ink::Red))],
        footer: None,
        lines: seq![
            seq![
                piece("Remove (unpair) "@, plain_look(Ink::Plain)),
                piece(name, bold_look(Ink::Snow)),
                piece("?"@, plain_look(Ink::Plain)),
            ],
            seq![piece(mac, plain_look(Ink::Slate))],
            yes_no_line(Ink::Red, Ink::Ice),
        ],
        centered: true,
        wrapped: true,
    }
}

fn yes_no(yes: Ink, no: Ink) -> (r: Vec<Piece>)
    ensures
        r.deep_view() == yes_no_line(yes, no),
{
    let mut line = line3("y", bold(yes), " yes    ", fg(Ink::Plain), "n", bold(no));
    add_piece(&mut line, " no", fg(Ink::Plain));
    assert(line.deep_view() =~= yes_no_line(yes, no));
    line
}

fn prompt(pin: bool, passkey: &str, input: &str) -> (r: Popup)
    ensures
        r@ == prompt_popup(pin, passkey@, input@),
{
    let mut lines: Vec<Vec<Piece>> = Vec::new();
    if pin {
        add_line(&mut lines, line1("Enter PIN code for pairing:", fg(Ink::Plain)));
        let blank: Vec<Piece> = Vec::new();
        assert(blank.deep_view() =~= Seq::<PieceModel>::empty());
        add_line(&mut lines, blank);
        add_line(&mut lines, line1(text::join2(input, "▏").as_str(), bold(Ink::Snow)));
    } else {
        let shown = if passkey.is_empty() {
            String::from_str("Accept pairing request?")
        } else {
            text::join2("Passkey: ", passkey)
        };
        add_line(&mut lines, line1("Confirm this matches the device:", fg(Ink::Plain)));
        add_line(&mut lines, line1(shown.as_str(), bold(Ink::Ice)));
        add_line(&mut lines, yes_no(Ink::Green, Ink::Red));
    }
    assert(lines.deep_view() =~= prompt_lines(pin, passkey@, input@));
    Popup {
        width: 42,
        height: 5,
        border: Ink::Orange,
        title: line1("┤ 󰌆 Pairing ├", bold(Ink::Orange)),
        footer: None,
        lines,
        centered: true,
        wrapped: false,
    }
}

fn confirm(mac: &str, name: &str, width: u16) -> (r: Popup)
    ensures
        r@ == confirm_popup(mac@, name@, width),
{
    let n: u128 = name.unicode_len() as u128;
    let most: u128 = if width >= 2 {
        width as u128 - 2
    } else {
        0
    };
    let wanted: u128 = if n + 21 >= 34 {
        n + 21
    } else {
        34
    };
    let columns: u128 = if wanted <= most {
        wanted
    } else {
        most
    };
    let inner: u128 = if columns >= 3 {
        columns - 2
    } else {
        1
    };
    let rows: u128 = 5 + (16 + n) / inner;
    let height: u16 = if rows <= 65535 {
        rows as u16
    } else {
        65535
    };
    let mut lines: Vec<Vec<Piece>> = Vec::new();
    add_line(
        &mut lines,
        line3(
            "Remove (unpair) ",
            fg(Ink::Plain),
            name,
            bold(Ink::Snow),
            "?",
            fg(Ink::Plain),
        ),
    );
    add_line(&mut lines, line1(mac, fg(Ink::Slate)));
    add_line(&mut lines, yes_no(Ink::Red, Ink::Ice));
    let popup = Popup {
        width: columns as u16,
        height,
        border: Ink::Red,
        title: line1("┤ 󰩹 Remove ├", bold(Ink::Red)),
        footer: None,
        lines,
        centered: true,
        wrapped: true,
    };
    assert(popup@.lines =~= confirm_popup(mac@, name@, width).lines);
    popup
}

/// The popup that the view calls for, on a screen of that size.
pub open spec fn popup_of(s: AppModel, width: u16, height: u16) -> Option<PopupModel> {
    match s.view {
        ViewModel::Details { name, text, scroll } => Some(
            details_popup(name, text, scroll, width, height),
        ),
        ViewModel::PairPrompt { pin, passkey, input } => Some(prompt_popup(pin, passkey, input)),
        ViewModel::ConfirmRemove { mac, name } => Some(confirm_popup(mac, name, width)),
        _ => None,
    }
}

/// The popup that the view calls for, on a screen of that size.
pub fn popup(app: &App, width: u16, height: u16) -> (r: Option<Popup>)
    ensures
        r.deep_view() == popup_of(app@, width, height),
{
    match &app.view {
        View::Details { name, text, scroll } => Some(
            details(name.as_str(), text.as_str(), *scroll, width, height),
        ),
        View::PairPrompt { pin, passkey, input } => Some(
            prompt(*pin, passkey.as_str(), input.as_str()),
        ),
        View::ConfirmRemove { mac, name } => Some(confirm(mac.as_str(), name.as_str(), width)),
        _ => None,
    }
}

// ---------------------------------------------------------------------------
// Help
// ---------------------------------------------------------------------------

/// All keys, and what they do.
pub open spec fn key_table() -> Seq<(Seq<char>, Seq<char>)> {
    seq![
        ("j / k / arrows"@, "navigate"@),
        ("g / G"@, "first / last row"@),
        ("Enter"@, "connect / disconnect (in picker: pair)"@),
        ("s"@, "scan & pair new device"@),
        ("a"@, "toggle audio profile"@),
        ("i"@, "device details"@),
        ("d"@, "audio diagnostics"@),
        ("/"@, "filter the device list"@),
        ("t"@, "toggle trust"@),
        ("x / Del"@, "remove device"@),
        ("r"@, "refresh"@),
        ("?"@, "this help"@),
        ("q / Esc / Ctrl-C"@, "quit / back (Esc clears the filter)"@),
    ]
}

pub open spec fn key_line(row: (Seq<char>, Seq<char>)) -> Seq<PieceModel> {
    seq![
        piece(" "@ + padded(row.0, 18), bold_look(Ink::Orange)),
        piece(row.1, plain_look(Ink::Plain)),
    ]
}

pub open spec fn key_lines() -> LinesModel {
    Seq::new(key_table().len(), |i: int| key_line(key_table()[i]))
}

/// The help overlay, where it is up.
pub open spec fn help_of(s: AppModel, width: u16, height: u16) -> Option<PopupModel> {
    if !s.help {
        None
    } else {
        let total = key_table().len();
        Some(
            PopupModel {
                width: details_width(width),
                height: box_height(total, height),
                border: Ink::Steel,
                title: seq![piece("┤ Keys ├"@, bold_look(Ink::Blue))],
                footer: scroll_footer(s.help_scroll, total, height),
                lines: key_lines().subrange(
                    first_row(s.help_scroll, total, height) as int,
                    last_row(s.help_scroll, total, height) as int,
                ),
                centered: false,
                wrapped: false,
            },
        )
    }
}

fn key_row(i: usize) -> (r: (&'static str, &'static str))
    requires
        i < 13,
    ensures
        (r.0@, r.1@) == key_table()[i as int],
{
    match i {
        0 => ("j / k / arrows", "navigate"),
        1 => ("g / G", "first / last row"),
        2 => ("Enter", "connect / disconnect (in picker: pair)"),
        3 => ("s", "scan & pair new device"),
        4 => ("a", "toggle audio profile"),
        5 => ("i", "device details"),
        6 => ("d", "audio diagnostics"),
        7 => ("/", "filter the device list"),
        8 => ("t", "toggle trust"),
        9 => ("x / Del", "remove device"),
        10 => ("r", "refresh"),
        11 => ("?", "this help"),
        _ => ("q / Esc / Ctrl-C", "quit / back (Esc clears the filter)"),
    }
}

/// The help overlay, where it is up, on a screen of that size.
pub fn help(app: &App, width: u16, height: u16) -> (r: Option<Popup>)
    ensures
        r.deep_view() == help_of(app@, width, height),
{
    if !app.help {
        return None;
    }
    let ghost want = key_lines();
    let w = window(app.help_scroll, 13, height);
    let mut lines: Vec<Vec<Piece>> = Vec::new();
    let mut i: usize = w.start;
    assert(lines.deep_view() =~= want.subrange(w.start as int, w.start as int));
    while i < w.end
        invariant
            w.start <= i <= w.end <= 13,
            want == key_lines(),
            want.len() == 13,
            lines.deep_view() == want.subrange(w.start as int, i as int),
        decreases w.end - i,
    {
        let (key, action) = key_row(i);
        let padded_key = text::join2(" ", pad(key, 18).as_str());
        let line = line2(padded_key.as_str(), bold(Ink::Orange), action, fg(Ink::Plain));
        add_line(&mut lines, line);
        assert(want.subrange(w.start as int, i + 1) =~= want.subrange(
            w.start as int,
            i as int,
        ).push(want[i as int]));
        i += 1;
    }
    Some(
        Popup {
            width: width_of_details(width),
            height: w.height,
            border: Ink::Steel,
            title: line1("┤ Keys ├", bold(Ink::Blue)),
            footer: w.footer,
            lines,
            centered: false,
            wrapped: false,
        },
    )
}

// ---------------------------------------------------------------------------
// Clamping
// ---------------------------------------------------------------------------

/// The state with its scrolls clamped to the content, which depends on the
/// screen's size.
pub open spec fn clamped_scrolls(s: AppModel, width: u16, height: u16) -> AppModel {
    let view = match s.view {
        ViewModel::Details { name, text, scroll } => ViewModel::Details {
            name,
            text,
            scroll: first_row(scroll, details_rows(text, width).len(), height) as u16,
        },
        view => view,
    };
    let help_scroll = if s.help {
        first_row(s.help_scroll, key_table().len(), height) as u16
    } else {
        s.help_scroll
    };
    AppModel { view, help_scroll, ..s }
}

/// Clamp the scrolls to the content, so that the next key press moves what is
/// on screen.
pub fn clamp_scrolls(app: &mut App, width: u16, height: u16)
    ensures
        final(app)@ == clamped_scrolls(old(app)@, width, height),
{
    match &mut app.view {
        View::Details { text, scroll, .. } => {
            let columns: u16 = width_of_details(width);
            let rows = wrap(text.as_str(), columns as usize - 2);
            assert(rows.deep_view().len() == rows@.len());
            let w = window(*scroll, rows.len(), height);
            *scroll = w.start as u16;
        },
        _ => {},
    }
    if app.help {
        let w = window(app.help_scroll, 13, height);
        app.help_scroll = w.start as u16;
    }
}

// ---------------------------------------------------------------------------
// Laws
// ---------------------------------------------------------------------------

/// A clamped scroll stays within the content, whatever it was; clamping again
/// changes nothing.
pub proof fn clamping_settles(scroll: u16, total: nat, screen: u16)
    ensures
        first_row(scroll, total, screen) <= scroll,
        first_row(scroll, total, screen) <= total,
        first_row(first_row(scroll, total, screen) as u16, total, screen) == first_row(
            scroll,
            total,
            screen,
        ),
        last_row(scroll, total, screen) <= total,
        first_row(scroll, total, screen) <= last_row(scroll, total, screen),
{
}

/// Scrolled to the end, the last row is on screen; unscrolled, the first is.
pub proof fn every_row_can_be_reached(total: nat, screen: u16)
    requires
        total <= u16::MAX,
        screen > 4,
        total > 0,
    ensures
        first_row(0, total, screen) == 0,
        last_row(u16::MAX, total, screen) == total,
{
}

/// All characters of the rows, in order.
pub open spec fn joined(rows: Seq<Seq<char>>) -> Seq<char>
    decreases rows.len(),
{
    if rows.len() == 0 {
        Seq::empty()
    } else {
        rows[0] + joined(rows.drop_first())
    }
}

/// Wrapping a line clips nothing: its rows together are the line, and none is
/// wider than the box.
pub proof fn wrapping_clips_nothing(s: Seq<char>, width: nat)
    requires
        width > 0,
    ensures
        joined(chunks(s, width)) == s,
        forall|i: int|
            0 <= i < chunks(s, width).len() ==> (#[trigger] chunks(s, width)[i]).len() <= width,
    decreases s.len(),
{
    let rows = chunks(s, width);
    if s.len() <= width {
        assert(rows.drop_first() =~= Seq::<Seq<char>>::empty());
        assert(joined(rows.drop_first()) =~= Seq::<char>::empty());
        assert(rows[0] + Seq::<char>::empty() =~= s);
    } else {
        let rest = s.skip(width as int);
        wrapping_clips_nothing(rest, width);
        assert(rows.drop_first() =~= chunks(rest, width));
        assert(s.take(width as int) + rest =~= s);
        assert forall|i: int| 0 <= i < rows.len() implies (#[trigger] rows[i]).len() <= width by {
            if i > 0 {
                assert(rows[i] == chunks(rest, width)[i - 1]);
            }
        }
    }
}

} // verus!
