//! What can be read off the screen.

use vstd::prelude::*;

use crate::app::{shown_rows, AppModel, ViewModel};
use crate::bt::groups::groups_of;
use crate::bt::{DeviceModel, DiscoveredModel, GroupModel};
use crate::text::laws::prefixes_come_off;
use crate::text::{decimal, has_prefix, line_seq};
use crate::worker::Tone;

use super::panel::{
    badge_line, connected_count, device_line, group_line, list_title, panel_of, BodyModel,
};
use super::popup::{
    chunks, clamped_scrolls, confirm_height, confirm_popup, confirm_width, details_popup,
    details_rows, details_width, first_row, help_of, joined, key_lines, key_table, last_row,
    popup_of, untabbed, wrapped, wrapping_clips_nothing,
};
use super::{
    arranged, bottom_log_rows, centered, chip, chips, hints_of, line_cells, log_of, look_of_tone,
    on_screen, rgb_of, rows_needed, side_log_columns, Area, Ink, LogSlot, Look, PieceModel,
};

verus! {

/// All characters of the line.
pub open spec fn read_out(line: Seq<PieceModel>) -> Seq<char>
    decreases line.len(),
{
    if line.len() == 0 {
        Seq::empty()
    } else {
        read_out(line.drop_last()) + line.last().text
    }
}

/// 1 where it holds.
pub open spec fn one_if(b: bool) -> int {
    if b {
        1
    } else {
        0
    }
}

// ---------------------------------------------------------------------------
// Rows
// ---------------------------------------------------------------------------

/// The row of a device shows its name, bright where it is connected, and its
/// address at the end. Between them it says whether the device is connected, how
/// full its battery is, where that is known, and whether it is trusted: green from
/// 50 %, orange from 20 %, red below.
pub proof fn rows_tell_the_state_of_a_device(d: DeviceModel)
    ensures
        ({
            let line = device_line(d);
            let k = 2 + one_if(d.connected);
            let m = k + one_if(d.battery is Some);
            &&& line.len() == m + one_if(d.trusted) + 1
            &&& line[1].text == d.name
            &&& line[1].look == (if d.connected {
                Look { ink: Ink::Snow, bold: true, dim: false }
            } else {
                Look { ink: Ink::Plain, bold: false, dim: false }
            })
            &&& line.last().text == "  "@ + d.mac
            &&& d.connected ==> line[2].text == " [CONNECTED]"@ && line[2].look.ink == Ink::Green
            &&& d.battery matches Some(level) ==> {
                &&& (decimal(level as nat) + "%"@).is_suffix_of(line[k].text)
                &&& line[k].look.ink == (if level < 20 {
                    Ink::Red
                } else if level < 50 {
                    Ink::Orange
                } else {
                    Ink::Green
                })
            }
            &&& d.trusted ==> "trusted"@.is_suffix_of(line[m].text)
        }),
{
    let line = device_line(d);
    let k = 2 + one_if(d.connected);
    let m = k + one_if(d.battery is Some);
    if let Some(level) = d.battery {
        let whole = line[k].text;
        let tail = decimal(level as nat) + "%"@;
        assert(whole == " 󰁹 "@ + decimal(level as nat) + "%"@);
        assert(whole.subrange(whole.len() - tail.len(), whole.len() as int) =~= tail);
    }
    if d.trusted {
        reveal_strlit(" 󰒘 trusted");
        reveal_strlit("trusted");
        let whole = line[m].text;
        assert(whole == " 󰒘 trusted"@);
        assert(whole.subrange(whole.len() - 7, whole.len() as int) =~= "trusted"@);
    }
}

/// The row of the picker shows the name and the first address; where the device
/// has more, it says how many.
pub proof fn rows_of_the_picker_count_addresses(g: GroupModel)
    ensures
        ({
            let line = group_line(g);
            &&& line[1].text == g.name
            &&& g.macs.len() == 0 ==> line.len() == 2
            &&& g.macs.len() == 1 ==> line.len() == 3 && line[2].text == "  "@ + g.macs[0]
            &&& g.macs.len() > 1 ==> line.len() == 3 && line[2].text == "  "@ + g.macs[0] + " (+"@
                + decimal((g.macs.len() - 1) as nat) + " more)"@
        }),
{
}

/// The list has one row for each device that the filter lets through, in order,
/// with the cursor where it stands and its place counted from one.
pub proof fn the_panel_lists_what_is_shown(s: AppModel, k: int)
    requires
        !(s.view is ScanResults),
        s.devices.len() > 0,
    ensures
        panel_of(s).body matches BodyModel::Rows { rows, selected, counter } && {
            let shown = shown_rows(s.devices, s.filter);
            &&& selected == s.selected
            &&& rows.len() == shown.len()
            &&& 0 <= k < shown.len() ==> rows[k] == device_line(s.devices[shown[k]])
            &&& counter.len() == 3
            &&& counter[1].text == (if shown.len() == 0 {
                decimal(0)
            } else {
                decimal(s.selected + 1)
            }) + "/"@ + decimal(shown.len())
        },
{
}

/// With no device there is a message in place of the rows, which names the key
/// that scans for one.
pub proof fn an_empty_list_says_so(s: AppModel)
    requires
        !(s.view is ScanResults),
        s.devices.len() == 0,
    ensures
        panel_of(s).badge is None,
        panel_of(s).body matches BodyModel::Message(lines) && lines.len() == 4
            && lines[2][0].text == "No paired devices"@ && lines[3][1].text == "s"@,
{
}

/// The picker has one row for each device that was found, with the cursor where
/// it stands; while there is none, it says that it listens.
pub proof fn the_panel_lists_what_is_found(
    s: AppModel,
    items: Seq<DiscoveredModel>,
    selected: nat,
    k: int,
)
    requires
        s.view == (ViewModel::ScanResults { items, selected }),
    ensures
        panel_of(s).badge is None,
        items.len() == 0 ==> (panel_of(s).body matches BodyModel::Message(lines) && lines.len() == 1
            && lines[0].len() == 1 && lines[0][0].text == "listening for devices…"@),
        items.len() > 0 ==> (panel_of(s).body matches BodyModel::Rows {
            rows,
            selected: at,
            counter,
        } && {
            let groups = groups_of(items);
            &&& at == selected
            &&& rows.len() == groups.len()
            &&& 0 <= k < groups.len() ==> rows[k] == group_line(groups[k])
            &&& counter.len() == 3
            &&& groups.len() > 0 ==> counter[1].text == decimal(selected + 1) + "/"@ + decimal(
                groups.len(),
            )
        }),
{
}

/// The badge counts the connected devices, whatever the filter; with none there
/// is no badge.
pub proof fn the_badge_counts_the_connected(devices: Seq<DeviceModel>)
    ensures
        ({
            let n = devices.filter(|d: DeviceModel| d.connected).len();
            match badge_line(devices) {
                None => n == 0,
                Some(line) => n > 0 && line.len() == 3 && line[1].text == "● "@ + decimal(n)
                    + " connected"@,
            }
        }),
{
    lemma_connected(devices);
}

proof fn lemma_connected(devices: Seq<DeviceModel>)
    ensures
        connected_count(devices) == devices.filter(|d: DeviceModel| d.connected).len(),
    decreases devices.len(),
{
    reveal(Seq::filter);
    if devices.len() > 0 {
        lemma_connected(devices.drop_last());
    }
}

/// The title shows the filter behind a slash, while it is typed or in force, and
/// a cursor while it is typed.
pub proof fn the_title_shows_the_filter(filter: Seq<char>, filtering: bool)
    ensures
        ({
            let title = list_title(filter, filtering);
            &&& filter.len() == 0 && !filtering ==> title.len() == 1
            &&& filter.len() > 0 || filtering ==> title.len() == 2
            &&& filter.len() > 0 && !filtering ==> title[1].text == "/"@ + filter + " "@
            &&& filtering ==> title[1].text == "/"@ + filter + "▏"@ + " "@
        }),
{
    reveal_strlit("");
    assert("/"@ + filter + ""@ + " "@ =~= "/"@ + filter + " "@);
}

// ---------------------------------------------------------------------------
// Hints, colors, log
// ---------------------------------------------------------------------------

/// The view's hints say so.
pub open spec fn hinted(view: ViewModel, key: Seq<char>, action: Seq<char>) -> bool {
    hints_of(view).contains((key, action))
}

/// The hints of each view name the keys that it takes.
pub proof fn hints_fit_the_view(view: ViewModel)
    ensures
        match view {
            ViewModel::DeviceList => hints_of(view).len() == 9 && hinted(view, "Enter"@, "Toggle"@)
                && hinted(view, "s"@, "Scan"@) && hinted(view, "a"@, "Audio"@) && hinted(
                view,
                "i"@,
                "Info"@,
            ) && hinted(view, "/"@, "Filter"@) && hinted(view, "t"@, "Trust"@) && hinted(
                view,
                "x"@,
                "Remove"@,
            ) && hinted(view, "r"@, "Refresh"@) && hinted(view, "q"@, "Quit"@),
            ViewModel::ScanResults { .. } => hints_of(view).len() == 3 && hinted(
                view,
                "Enter"@,
                "Pair"@,
            ) && hinted(view, "j/k"@, "Move"@) && hinted(view, "Esc"@, "Back"@),
            ViewModel::ConfirmRemove { .. } => hints_of(view).len() == 2 && hinted(
                view,
                "y"@,
                "Yes"@,
            ) && hinted(view, "n"@, "No"@),
            ViewModel::Details { .. } => hints_of(view).len() == 2 && hinted(
                view,
                "j/k"@,
                "Scroll"@,
            ) && hinted(view, "Esc"@, "Close"@),
            ViewModel::PairPrompt { pin, .. } => hints_of(view).len() == 2 && (if pin {
                hinted(view, "Enter"@, "Submit"@) && hinted(view, "Esc"@, "Cancel"@)
            } else {
                hinted(view, "y"@, "Yes"@) && hinted(view, "n"@, "No"@)
            }),
        },
{
    let h = hints_of(view);
    match view {
        ViewModel::DeviceList => {
            assert(h[0] == ("Enter"@, "Toggle"@) && h[1] == ("s"@, "Scan"@));
            assert(h[2] == ("a"@, "Audio"@) && h[3] == ("i"@, "Info"@));
            assert(h[4] == ("/"@, "Filter"@) && h[5] == ("t"@, "Trust"@));
            assert(h[6] == ("x"@, "Remove"@) && h[7] == ("r"@, "Refresh"@));
            assert(h[8] == ("q"@, "Quit"@));
        },
        ViewModel::ScanResults { .. } => {
            assert(h[0] == ("Enter"@, "Pair"@) && h[1] == ("j/k"@, "Move"@));
            assert(h[2] == ("Esc"@, "Back"@));
        },
        ViewModel::ConfirmRemove { .. } => {
            assert(h[0] == ("y"@, "Yes"@) && h[1] == ("n"@, "No"@));
        },
        ViewModel::Details { .. } => {
            assert(h[0] == ("j/k"@, "Scroll"@) && h[1] == ("Esc"@, "Close"@));
        },
        ViewModel::PairPrompt { pin, .. } => {
            if pin {
                assert(h[0] == ("Enter"@, "Submit"@) && h[1] == ("Esc"@, "Cancel"@));
            } else {
                assert(h[0] == ("y"@, "Yes"@) && h[1] == ("n"@, "No"@));
            }
        },
    }
}

/// A hint reads `[key→action]`, and one more hint stands behind the others, with
/// a stroke between them.
pub proof fn hints_are_strung_together(
    hints: Seq<(Seq<char>, Seq<char>)>,
    key: Seq<char>,
    action: Seq<char>,
)
    ensures
        read_out(chip((key, action))) == "["@ + key + "→"@ + action + "]"@,
        hints.len() == 0 ==> chips(hints.push((key, action))) == chip((key, action)),
        hints.len() > 0 ==> read_out(chips(hints.push((key, action)))) == read_out(chips(hints))
            + "─"@ + ("["@ + key + "→"@ + action + "]"@),
{
    let c = chip((key, action));
    assert(read_out(c) == "["@ + key + "→"@ + action + "]"@) by {
        reveal_with_fuel(read_out, 6);
        assert(c.drop_last().drop_last().drop_last().drop_last().drop_last() =~= Seq::<
            PieceModel,
        >::empty());
        assert(c.drop_last().last() == c[3] && c.drop_last().drop_last().last() == c[2]);
        assert(c.drop_last().drop_last().drop_last().last() == c[1]);
        assert(c.drop_last().drop_last().drop_last().drop_last().last() == c[0]);
        assert(Seq::<char>::empty() + "["@ =~= "["@);
    }
    let more = hints.push((key, action));
    assert(more.drop_last() =~= hints);
    if hints.len() > 0 {
        let before = chips(hints).push(chips(more)[chips(hints).len() as int]);
        assert(chips(more) == before + c);
        lemma_read_out_adds(before, c);
        assert(before.drop_last() =~= chips(hints));
    }
}

proof fn lemma_read_out_adds(a: Seq<PieceModel>, b: Seq<PieceModel>)
    ensures
        read_out(a + b) == read_out(a) + read_out(b),
    decreases b.len(),
{
    if b.len() == 0 {
        assert(a + b =~= a);
        assert(read_out(a) + read_out(b) =~= read_out(a));
    } else {
        lemma_read_out_adds(a, b.drop_last());
        assert((a + b).drop_last() =~= a + b.drop_last());
        assert(read_out(a + b) =~= read_out(a) + read_out(b));
    }
}

/// Failures are bold and red, warnings orange, successes green, the rest ice.
pub proof fn tones_are_told_by_color(tone: Tone)
    ensures
        look_of_tone(tone).bold <==> tone is Failure,
        !look_of_tone(tone).dim,
        look_of_tone(tone).ink == Ink::Red <==> tone is Failure,
        look_of_tone(tone).ink == Ink::Orange <==> tone is Warn,
        look_of_tone(tone).ink == Ink::Green <==> tone is Success,
        look_of_tone(tone).ink == Ink::Ice <==> tone is Info,
{
}

/// No two inks have the same color.
pub proof fn inks_are_told_apart(a: Ink, b: Ink)
    ensures
        rgb_of(a) == rgb_of(b) ==> a == b,
{
}

/// The log shows each entry on a line of its own, in the color of its tone, the
/// newest bright and the others dim. Behind them stands what runs: its latest
/// progress, or where it has told none its label.
pub proof fn the_log_shows_what_happened(s: AppModel, i: int)
    ensures
        log_of(s).len() == s.log.len() + one_if(s.busy is Some),
        0 <= i < s.log.len() ==> {
            let line = log_of(s)[i];
            let look = look_of_tone(s.log[i].1);
            &&& line.len() == 2
            &&& line[1].text == s.log[i].0
            &&& line[1].look.ink == look.ink
            &&& line[1].look.bold == look.bold
            &&& line[1].look.dim <==> i + 1 < s.log.len()
        },
        s.busy matches Some(label) ==> {
            let line = log_of(s).last();
            &&& line.len() == 2
            &&& line[1].text == (if s.progress is Some {
                s.progress->0
            } else {
                label
            })
        },
{
}

// ---------------------------------------------------------------------------
// Popups
// ---------------------------------------------------------------------------

/// A prompt shows what is asked: the passkey to compare, or what is typed of the
/// PIN. A removal names the device, with its address. Other views have no popup.
pub proof fn popups_show_what_is_asked(s: AppModel, width: u16, height: u16)
    ensures
        match s.view {
            ViewModel::PairPrompt { pin, passkey, input } => popup_of(s, width, height) matches Some(
                popup,
            ) && popup.lines.len() == 3 && (pin ==> popup.lines[0][0].text
                == "Enter PIN code for pairing:"@ && popup.lines[2][0].text == input + "▏"@) && (
            !pin ==> popup.lines[0][0].text == "Confirm this matches the device:"@ && (
            passkey.len() > 0 ==> popup.lines[1][0].text == "Passkey: "@ + passkey) && (
            passkey.len() == 0 ==> popup.lines[1][0].text == "Accept pairing request?"@)
                && popup.lines[2][0].text == "y"@ && popup.lines[2][2].text == "n"@),
            ViewModel::ConfirmRemove { mac, name } => popup_of(s, width, height) matches Some(popup)
                && popup.lines.len() == 3 && popup.lines[0][0].text == "Remove (unpair) "@
                && popup.lines[0][1].text == name && popup.lines[1][0].text == mac
                && popup.lines[2][0].text == "y"@ && popup.lines[2][2].text == "n"@,
            ViewModel::Details { name, text, scroll } => popup_of(s, width, height) matches Some(
                popup,
            ) && popup.title[1].text == name,
            ViewModel::DeviceList => popup_of(s, width, height) is None,
            ViewModel::ScanResults { .. } => popup_of(s, width, height) is None,
        },
{
}

/// The details show their rows from the scroll on, as many as fit between the
/// borders of a box that keeps off the screen's edges; the footer says which,
/// where not all do.
pub proof fn details_show_the_rows_in_sight(
    name: Seq<char>,
    text: Seq<char>,
    scroll: u16,
    width: u16,
    height: u16,
    i: int,
)
    requires
        height > 4,
    ensures
        ({
            let popup = details_popup(name, text, scroll, width, height);
            let rows = details_rows(text, width);
            let fits = height - 4;
            let top = first_row(scroll, rows.len(), height);
            let end = last_row(scroll, rows.len(), height);
            &&& popup.height == (if rows.len() <= fits {
                rows.len() + 2int
            } else {
                fits + 2
            })
            &&& rows.len() <= fits ==> top == 0 && end == rows.len() && popup.footer is None
            &&& rows.len() > fits ==> {
                &&& end == top + fits
                &&& top == (if scroll + fits <= rows.len() {
                    scroll as int
                } else {
                    rows.len() - fits
                })
                &&& popup.footer matches Some(line) && line.len() == 3 && line[1].text == decimal(
                    top + 1,
                ) + "–"@ + decimal(end) + "/"@ + decimal(rows.len())
            }
            &&& popup.lines.len() == end - top
            &&& 0 <= i < end - top ==> popup.lines[i].len() == 1 && popup.lines[i][0].text
                == rows[top + i]
        }),
{
}

/// The box of the details is 64 columns wide, less where the screen is narrow,
/// and never under 20.
pub proof fn details_fit_the_screen(screen: u16)
    ensures
        screen >= 68 ==> details_width(screen) == 64,
        24 <= screen <= 68 ==> details_width(screen) == screen - 4,
        screen <= 24 ==> details_width(screen) == 20,
{
}

/// A tab is shown as two blanks, and every other character as it is.
pub proof fn tabs_become_blanks(s: Seq<char>, c: char)
    ensures
        untabbed(Seq::empty()) == Seq::<char>::empty(),
        untabbed(s.push(c)) == (if c == '\t' {
            untabbed(s).push(' ').push(' ')
        } else {
            untabbed(s).push(c)
        }),
{
    assert(s.push(c).drop_last() =~= s);
    reveal_strlit("  ");
    assert(untabbed(s) + "  "@ =~= untabbed(s).push(' ').push(' '));
}

/// A line that fits is one row; of a longer one every row but the last is full.
/// The rows of a text are those of its lines, one behind the other.
pub proof fn lines_wrap_one_by_one(
    lines: Seq<Seq<char>>,
    line: Seq<char>,
    width: nat,
)
    requires
        width > 0,
    ensures
        line.len() <= width ==> chunks(line, width) == seq![line],
        line.len() > width ==> chunks(line, width)[0] == line.take(width as int) && chunks(
            line,
            width,
        ).skip(1) == chunks(line.skip(width as int), width),
        wrapped(Seq::empty(), width) == Seq::<Seq<char>>::empty(),
        wrapped(lines.push(line), width) == wrapped(lines, width) + chunks(untabbed(line), width),
{
    if line.len() > width {
        assert(chunks(line, width).skip(1) =~= chunks(line.skip(width as int), width));
    }
    assert(lines.push(line).drop_last() =~= lines);
}

/// The details clip nothing: their rows together are the lines of the text, with
/// the tabs shown as blanks, and none is wider than the inside of the box.
pub proof fn details_hold_the_whole_text(text: Seq<char>, screen: u16)
    ensures
        joined(details_rows(text, screen)) == joined(
            line_seq(text).map_values(|line: Seq<char>| untabbed(line)),
        ),
        forall|i: int|
            0 <= i < details_rows(text, screen).len() ==> (#[trigger] details_rows(
                text,
                screen,
            )[i]).len() <= details_width(screen) - 2,
{
    lemma_wrapped_whole(line_seq(text), (details_width(screen) - 2) as nat);
}

proof fn lemma_wrapped_whole(lines: Seq<Seq<char>>, width: nat)
    requires
        width > 0,
    ensures
        joined(wrapped(lines, width)) == joined(
            lines.map_values(|line: Seq<char>| untabbed(line)),
        ),
        forall|i: int|
            0 <= i < wrapped(lines, width).len() ==> (#[trigger] wrapped(lines, width)[i]).len()
                <= width,
    decreases lines.len(),
{
    let shown = lines.map_values(|line: Seq<char>| untabbed(line));
    if lines.len() > 0 {
        let before = lines.drop_last();
        let last = untabbed(lines.last());
        lemma_wrapped_whole(before, width);
        wrapping_clips_nothing(last, width);
        lemma_joined_adds(wrapped(before, width), chunks(last, width));
        assert(shown =~= before.map_values(|line: Seq<char>| untabbed(line)) + seq![last]);
        lemma_joined_adds(before.map_values(|line: Seq<char>| untabbed(line)), seq![last]);
        assert(seq![last].drop_first() =~= Seq::<Seq<char>>::empty());
        assert(joined(seq![last]) =~= last) by {
            assert(joined(seq![last].drop_first()) =~= Seq::<char>::empty());
        }
    }
}

proof fn lemma_joined_adds(a: Seq<Seq<char>>, b: Seq<Seq<char>>)
    ensures
        joined(a + b) == joined(a) + joined(b),
    decreases a.len(),
{
    if a.len() == 0 {
        assert(a + b =~= b);
        assert(joined(a) + joined(b) =~= joined(b));
    } else {
        lemma_joined_adds(a.drop_first(), b);
        assert((a + b).drop_first() =~= a.drop_first() + b);
        assert(joined(a + b) =~= joined(a) + joined(b));
    }
}

/// Scrolls are brought back to the last position that fills the box, and nothing
/// else changes.
pub proof fn scrolls_are_brought_back(s: AppModel, width: u16, height: u16)
    requires
        height > 4,
    ensures
        ({
            let t = clamped_scrolls(s, width, height);
            &&& t == (AppModel { view: t.view, help_scroll: t.help_scroll, ..s })
            &&& !(s.view is Details) ==> t.view == s.view
            &&& !s.help ==> t.help_scroll == s.help_scroll
            &&& s.help ==> t.help_scroll == first_row(s.help_scroll, key_table().len(), height)
            &&& s.view matches ViewModel::Details { name, text, scroll } ==> t.view == (
            ViewModel::Details {
                name,
                text,
                scroll: {
                    let rows = details_rows(text, width).len();
                    if scroll + height - 4 <= rows {
                        scroll
                    } else if rows >= height - 4 {
                        (rows - (height - 4)) as u16
                    } else {
                        0
                    }
                },
            })
        }),
{
}

/// A running operation turns its wheel by one frame with each tick, through ten.
pub proof fn the_wheel_turns(s: AppModel)
    requires
        s.busy is Some,
    ensures
        ({
            let wheel = log_of(s).last()[0].text;
            let at = s.tick % 10;
            &&& at == 0 ==> wheel == " "@ + "⠋"@ + " "@
            &&& at == 1 ==> wheel == " "@ + "⠙"@ + " "@
            &&& at == 2 ==> wheel == " "@ + "⠹"@ + " "@
            &&& at == 3 ==> wheel == " "@ + "⠸"@ + " "@
            &&& at == 4 ==> wheel == " "@ + "⠼"@ + " "@
            &&& at == 5 ==> wheel == " "@ + "⠴"@ + " "@
            &&& at == 6 ==> wheel == " "@ + "⠦"@ + " "@
            &&& at == 7 ==> wheel == " "@ + "⠧"@ + " "@
            &&& at == 8 ==> wheel == " "@ + "⠇"@ + " "@
            &&& at == 9 ==> wheel == " "@ + "⠏"@ + " "@
        }),
{
}

/// The question before a removal fits into its box: between the borders there is
/// room for the question, for the address and for the answers.
pub proof fn removal_questions_fit(name: Seq<char>, mac: Seq<char>, screen: u16)
    requires
        screen >= 5,
        name.len() <= 65000,
    ensures
        ({
            let popup = confirm_popup(mac, name, screen);
            let inner = popup.width - 2;
            let text = "Remove (unpair) "@.len() + name.len() + "?"@.len();
            &&& popup.width <= screen - 2
            &&& inner > 0
            &&& (popup.height - 4) * inner >= text
            &&& (popup.height - 5) * inner < text
            &&& screen >= name.len() + 23 && name.len() >= 13 ==> inner == name.len() + 19
                && popup.height == 5
        }),
{
    reveal_strlit("Remove (unpair) ");
    reveal_strlit("?");
    let n = name.len() as int;
    let inner = confirm_width(name.len(), screen) - 2;
    let q = (16 + n) / inner;
    assert(q * inner <= 16 + n && (q + 1) * inner > 16 + n && q <= 16 + n) by (nonlinear_arith)
        requires
            inner > 0,
            n >= 0,
            q == (16 + n) / inner,
    ;
    assert(confirm_height(name.len(), screen) == 5 + q);
    if screen >= n + 23 && n >= 13 {
        assert((16 + n) / (n + 19) == 0) by (nonlinear_arith)
            requires
                n >= 0,
        ;
    }
}

/// The help lists every key, from its scroll on, and is up exactly while it is
/// asked for.
pub proof fn help_lists_the_keys(s: AppModel, width: u16, height: u16, i: int)
    ensures
        help_of(s, width, height) is Some <==> s.help,
        help_of(s, width, height) matches Some(popup) ==> {
            let top = first_row(s.help_scroll, key_table().len(), height);
            let end = last_row(s.help_scroll, key_table().len(), height);
            &&& popup.lines.len() == end - top
            &&& 0 <= i < end - top ==> popup.lines[i] == key_lines()[top + i]
                && popup.lines[i][1].text == key_table()[top + i].1
        },
{
}

/// The help says so.
pub open spec fn explained(key: Seq<char>, action: Seq<char>) -> bool {
    key_table().contains((key, action))
}

/// The help explains every key by what it does, each on a row that begins with
/// the key.
pub proof fn help_explains_every_key(i: int)
    ensures
        key_table().len() == 13,
        explained("j / k / arrows"@, "navigate"@),
        explained("g / G"@, "first / last row"@),
        explained("Enter"@, "connect / disconnect (in picker: pair)"@),
        explained("s"@, "scan & pair new device"@),
        explained("a"@, "toggle audio profile"@),
        explained("i"@, "device details"@),
        explained("d"@, "audio diagnostics"@),
        explained("/"@, "filter the device list"@),
        explained("t"@, "toggle trust"@),
        explained("x / Del"@, "remove device"@),
        explained("r"@, "refresh"@),
        explained("?"@, "this help"@),
        explained("q / Esc / Ctrl-C"@, "quit / back (Esc clears the filter)"@),
        0 <= i < 13 ==> key_lines()[i].len() == 2 && has_prefix(
            key_lines()[i][0].text,
            " "@ + key_table()[i].0,
        ),
{
    let t = key_table();
    assert(t[0] == ("j / k / arrows"@, "navigate"@) && t[1] == ("g / G"@, "first / last row"@));
    assert(t[2] == ("Enter"@, "connect / disconnect (in picker: pair)"@));
    assert(t[3] == ("s"@, "scan & pair new device"@) && t[4] == ("a"@, "toggle audio profile"@));
    assert(t[5] == ("i"@, "device details"@) && t[6] == ("d"@, "audio diagnostics"@));
    assert(t[7] == ("/"@, "filter the device list"@) && t[8] == ("t"@, "toggle trust"@));
    assert(t[9] == ("x / Del"@, "remove device"@) && t[10] == ("r"@, "refresh"@));
    assert(t[11] == ("?"@, "this help"@));
    assert(t[12] == ("q / Esc / Ctrl-C"@, "quit / back (Esc clears the filter)"@));
    if 0 <= i < 13 {
        let key = t[i].0;
        let text = key_lines()[i][0].text;
        assert(text.take((" "@ + key).len() as int) =~= " "@ + key);
        let rest = text.skip((" "@ + key).len() as int);
        prefixes_come_off(" "@ + key, rest, text);
        assert((" "@ + key) + rest =~= text);
    }
}

// ---------------------------------------------------------------------------
// Layout
// ---------------------------------------------------------------------------

/// A line takes as many rows as it has widths begun, and one where it is empty.
pub proof fn lines_take_the_rows_they_need(line: Seq<PieceModel>, width: nat)
    requires
        width > 0,
    ensures
        line_cells(line) == 0 ==> rows_needed(line, width) == 1,
        line_cells(line) > 0 ==> rows_needed(line, width) * width >= line_cells(line) > (
        rows_needed(line, width) - 1) * width,
{
    let (c, w) = (line_cells(line) as int, width as int);
    if c > 0 {
        let r = (c + w - 1) / w;
        assert(r * w >= c && c > (r - 1) * w && r >= 0) by (nonlinear_arith)
            requires
                w > 0,
                c > 0,
                r == (c + w - 1) / w,
        ;
    }
}

/// A popup keeps its size where the screen has room for it, and its margins on
/// either side differ by one at most.
pub proof fn popups_are_centered(area: Area, width: u16, height: u16)
    requires
        on_screen(area),
    ensures
        ({
            let r = centered(area, width, height);
            let left = r.x - area.x;
            let right = area.width - r.width - left;
            let above = r.y - area.y;
            let below = area.height - r.height - above;
            &&& width <= area.width ==> r.width == width
            &&& width > area.width ==> r.width == area.width
            &&& height <= area.height ==> r.height == height
            &&& height > area.height ==> r.height == area.height
            &&& right >= 0 && below >= 0
            &&& left == right || left == right + 1
            &&& above == below || above == below + 1
        }),
{
}

/// From 90 columns on the log stands beside the panel, on 35 of a hundred columns
/// but 34 at least; on a narrower screen it stands below, on five rows, or one
/// while it is empty.
pub proof fn wide_screens_put_the_log_aside(inner: Area, lines: nat)
    requires
        on_screen(inner),
    ensures
        inner.width >= 90 <==> arranged(inner, lines).1 is Side,
        inner.width >= 90 ==> ({
            let w = side_log_columns(inner.width);
            &&& w >= 34
            &&& w == 34 || 100 * w <= 35 * inner.width < 100 * (w + 1)
            &&& 35 * inner.width >= 3400 ==> 100 * w <= 35 * inner.width < 100 * (w + 1)
            &&& arranged(inner, lines).1 matches LogSlot::Side(log) && log.width == w
        }),
        inner.width < 90 ==> (arranged(inner, lines).1 matches LogSlot::Bottom(log) && (
        inner.height >= 8 ==> log.height == (if lines == 0 {
            1int
        } else {
            5
        }))),
{
    assert(bottom_log_rows(lines) <= 5);
}

} // verus!
