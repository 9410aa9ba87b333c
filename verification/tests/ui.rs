use bluerat::app::{App, KeyCode, KeyEvent, View};
use bluerat::bt::{AddrKind, Device, Discovered};
use bluerat::ui::panel::{device_row, panel, position, Body};
use bluerat::ui::popup::{clamp_scrolls, help, popup};
use bluerat::ui::{
    arrange, bold, bottom_log_height, center, fg, fit_tail, hint_line, hints, line1, log_lines,
    rgb, side_log_width, title_line, tone_style, Area, Ink, LogSlot, Piece,
};
use bluerat::worker::{Msg, Tone};

fn text(line: &Vec<Piece>) -> String {
    line.iter().map(|p| p.text.clone()).collect()
}

fn texts(lines: &Vec<Vec<Piece>>) -> Vec<String> {
    lines.iter().map(|l| text(l)).collect()
}

fn device(name: &str, connected: bool, battery: Option<u8>) -> Device {
    Device { mac: "AA".into(), name: name.into(), connected, trusted: connected, battery }
}

fn disc(mac: &str, name: &str, addr: AddrKind) -> Discovered {
    Discovered { mac: mac.into(), name: name.into(), addr }
}

#[test]
fn colors_follow_meaning() {
    assert_eq!(rgb(Ink::Orange), (0xff, 0x8c, 0x4a));
    assert_eq!(tone_style(Tone::Failure), bold(Ink::Red));
    assert_eq!(tone_style(Tone::Warn), fg(Ink::Orange));
    assert_eq!(tone_style(Tone::Success), fg(Ink::Green));
    assert_eq!(tone_style(Tone::Info), fg(Ink::Ice));
}

#[test]
fn hints_change_with_the_view() {
    assert_eq!(
        text(&hint_line(&hints(&View::ConfirmRemove { mac: "AA".into(), name: "x".into() }))),
        "[y→Yes]─[n→No]"
    );
    assert_eq!(
        text(&hint_line(&hints(&View::ScanResults { items: Vec::new(), selected: 0 }))),
        "[Enter→Pair]─[j/k→Move]─[Esc→Back]"
    );
    let pin = View::PairPrompt { pin: true, passkey: String::new(), input: String::new() };
    assert_eq!(text(&hint_line(&hints(&pin))), "[Enter→Submit]─[Esc→Cancel]");
    assert_eq!(hints(&View::DeviceList).len(), 9);
    assert_eq!(text(&hint_line(&Vec::new())), "");
    assert!(text(&title_line()).contains("blueRat v0.1.0"));
}

#[test]
fn the_log_dims_all_but_the_newest_and_spins() {
    let mut app = App::new();
    app.push_log_at("old".into(), Tone::Info, 0);
    app.push_log_at("new".into(), Tone::Failure, 0);
    let lines = log_lines(&app);
    assert_eq!(texts(&lines), vec![" ❯ old", " ❯ new"]);
    assert!(lines[0][1].look.dim);
    assert_eq!(lines[1][1].look, bold(Ink::Red));
    app.busy = Some("Loading…".into());
    app.tick = 12;
    assert_eq!(text(&log_lines(&app)[2]), " ⠹ Loading…");
    app.progress = Some("Connecting X…".into());
    assert_eq!(text(&log_lines(&app)[2]), " ⠹ Connecting X…");
}

#[test]
fn the_newest_lines_that_fit_are_kept() {
    let lines = || {
        vec![
            line1("oldest", fg(Ink::Snow)),
            line1("abcdefghij", fg(Ink::Snow)),
            line1("", fg(Ink::Snow)),
            line1("newest", fg(Ink::Snow)),
        ]
    };
    assert_eq!(texts(&fit_tail(lines(), 10, 10)).len(), 4);
    assert_eq!(texts(&fit_tail(lines(), 10, 3)), vec!["abcdefghij", "", "newest"]);
    // Nine columns wrap the ten characters onto two rows.
    assert_eq!(texts(&fit_tail(lines(), 9, 3)), vec!["", "newest"]);
    assert_eq!(texts(&fit_tail(lines(), 5, 1)).len(), 0);
    assert!(fit_tail(lines(), 0, 5).is_empty());
    assert!(fit_tail(lines(), 5, 0).is_empty());
}

#[test]
fn wide_characters_take_two_cells() {
    let line = || vec![line1("日本", fg(Ink::Snow))];
    assert_eq!(fit_tail(line(), 4, 1).len(), 1);
    assert_eq!(fit_tail(line(), 3, 1).len(), 0);
}

#[test]
fn the_side_log_takes_its_share() {
    assert_eq!(side_log_width(90), 34);
    assert_eq!(side_log_width(100), 35);
    assert_eq!(side_log_width(2000), 700);
    assert_eq!(side_log_width(u16::MAX), 22937);
    assert_eq!(bottom_log_height(0), 1);
    assert_eq!(bottom_log_height(1), 5);
}

#[test]
fn wide_screens_put_the_log_at_the_side() {
    let wide = Area { x: 1, y: 1, width: 120, height: 30 };
    match arrange(wide, 2) {
        (content, LogSlot::Side(side)) => {
            assert_eq!(side, Area { x: 79, y: 1, width: 42, height: 30 });
            assert_eq!(content, Area { x: 1, y: 1, width: 78, height: 30 });
        }
        _ => panic!("the log should be at the side"),
    }
    let narrow = Area { x: 1, y: 1, width: 60, height: 20 };
    match arrange(narrow, 2) {
        (content, LogSlot::Bottom(bottom)) => {
            assert_eq!(content, Area { x: 1, y: 1, width: 60, height: 15 });
            assert_eq!(bottom, Area { x: 1, y: 16, width: 60, height: 5 });
        }
        _ => panic!("the log should be at the bottom"),
    }
}

/// The second of two parts, of which the first has a minimum.
fn second_of(total: u16, min: u16, length: u16) -> u16 {
    length.min(total.saturating_sub(min))
}

#[test]
fn the_area_is_shared_out_at_every_size() {
    for width in 0..240u16 {
        let inner = Area { x: 3, y: 2, width, height: 17 };
        match arrange(inner, 0) {
            (content, LogSlot::Side(side)) => {
                assert!(width >= 90);
                let second = second_of(width, 40, side_log_width(width));
                assert_eq!(content, Area { width: width - second, ..inner });
                assert_eq!(side, Area { x: 3 + width - second, width: second, ..inner });
            }
            (_, LogSlot::Bottom(bottom)) => {
                assert!(width < 90);
                assert_eq!(bottom, Area { y: 18, height: 1, ..inner });
            }
        }
    }
    for height in 0..60u16 {
        let inner = Area { x: 1, y: 5, width: 50, height };
        for lines in vec![0, 3] {
            let second = second_of(height, 3, bottom_log_height(lines));
            let (content, slot) = arrange(inner, lines);
            assert_eq!(content, Area { height: height - second, ..inner });
            assert_eq!(slot, LogSlot::Bottom(Area { y: 5 + height - second, height: second, ..inner }));
        }
    }
}

#[test]
fn the_middle_is_found_at_every_size() {
    let middle = |total: u16, length: u16| {
        let len = length.min(total);
        ((total - len + 1) / 2, len)
    };
    for size in 0..70u16 {
        for wanted in 0..75u16 {
            let screen = Area { x: 4, y: 9, width: size, height: 70 - size };
            let (dx, width) = middle(screen.width, wanted);
            let (dy, height) = middle(screen.height, wanted / 2);
            assert_eq!(
                center(screen, wanted, wanted / 2),
                Area { x: 4 + dx, y: 9 + dy, width, height }
            );
        }
    }
}

#[test]
fn huge_screens_are_laid_out_too() {
    let huge = Area { x: 0, y: 0, width: u16::MAX, height: u16::MAX };
    assert_eq!(
        center(huge, 40000, 1),
        Area { x: 12768, y: 32767, width: 40000, height: 1 }
    );
    match arrange(huge, 1) {
        (content, LogSlot::Side(side)) => {
            assert_eq!(content.width, 42598);
            assert_eq!(side, Area { x: 42598, y: 0, width: 22937, height: u16::MAX });
        }
        _ => panic!("the log should be at the side"),
    }
}

#[test]
fn popups_sit_in_the_middle() {
    let screen = Area { x: 0, y: 0, width: 80, height: 25 };
    assert_eq!(center(screen, 42, 5), Area { x: 19, y: 10, width: 42, height: 5 });
    let small = Area { x: 0, y: 0, width: 10, height: 3 };
    assert_eq!(center(small, 42, 5), small);
}

#[test]
fn device_rows_tell_their_state() {
    let row = device_row(&device("Buds", true, Some(49)));
    assert!(text(&row).ends_with("Buds [CONNECTED] \u{f0079} 49% \u{f0498} trusted  AA"));
    assert_eq!(row[3].look, fg(Ink::Orange));
    assert_eq!(device_row(&device("Buds", true, Some(50)))[3].look, fg(Ink::Green));
    assert_eq!(device_row(&device("Buds", true, Some(19)))[3].look, fg(Ink::Red));
    assert!(text(&device_row(&device("Mouse", false, None))).ends_with(" Mouse  AA"));
}

#[test]
fn the_panel_lists_devices_with_a_counter_and_a_badge() {
    let mut app = App::new();
    let empty = panel(&app);
    assert!(empty.badge.is_none());
    assert!(matches!(empty.body, Body::Message(ref lines)
        if texts(lines)[3] == "press s to scan & pair"));
    app.handle_msg(Msg::Devices(vec![device("Buds", true, None), device("Mouse", false, None)]));
    app.handle_key(KeyEvent::plain(KeyCode::Down));
    let listed = panel(&app);
    assert_eq!(listed.badge.map(|b| text(&b)).as_deref(), Some("┤● 1 connected├"));
    match listed.body {
        Body::Rows { rows, selected, counter } => {
            assert_eq!(rows.len(), 2);
            assert_eq!(selected, 1);
            assert_eq!(text(&counter), "┤2/2├");
        }
        _ => panic!("the devices should be listed"),
    }
    app.filter = "zz".into();
    app.filtering = true;
    let filtered = panel(&app);
    assert!(text(&filtered.title).ends_with("Paired Devices /zz▏ "));
    match filtered.body {
        Body::Rows { rows, counter, .. } => {
            assert!(rows.is_empty());
            assert_eq!(text(&counter), "┤0/0├");
        }
        _ => panic!("the list should stay"),
    }
    assert_eq!(text(&position(usize::MAX, 1)), "┤18446744073709551616/1├");
}

#[test]
fn the_panel_shows_the_picker_by_device() {
    let mut app = App::new();
    app.handle_msg(Msg::ScanStarted);
    assert!(matches!(panel(&app).body, Body::Message(ref lines)
        if texts(lines) == vec!["listening for devices…"]));
    app.handle_msg(Msg::Found(disc("AA", "Buds", AddrKind::Public)));
    app.handle_msg(Msg::Found(disc("BB", "Buds", AddrKind::Random)));
    app.handle_msg(Msg::Found(disc("CC", "TV", AddrKind::Public)));
    match panel(&app).body {
        Body::Rows { rows, counter, .. } => {
            assert_eq!(rows.len(), 2);
            assert!(text(&rows[0]).ends_with("Buds  AA (+1 more)"));
            assert!(text(&rows[1]).ends_with("TV  CC"));
            assert_eq!(text(&counter), "┤1/2├");
        }
        _ => panic!("the picker should list the devices"),
    }
}

#[test]
fn details_are_wrapped_and_scrolled_within_bounds() {
    let mut app = App::new();
    assert!(popup(&app, 80, 24).is_none());
    let long = format!("{}\n\tx\n\n", "y".repeat(70));
    app.handle_msg(Msg::Details { name: "Buds".into(), text: long });
    let shown = popup(&app, 80, 24).unwrap();
    assert_eq!(shown.width, 64);
    assert_eq!(shown.height, 6);
    assert!(shown.footer.is_none());
    let expected: Vec<String> =
        vec!["y".repeat(62), "y".repeat(8), "  x".to_string(), String::new()];
    assert_eq!(texts(&shown.lines), expected);

    app.handle_key(KeyEvent::plain(KeyCode::Char('G')));
    let shown = popup(&app, 80, 6).unwrap();
    assert_eq!(shown.height, 4);
    assert_eq!(texts(&shown.lines), expected[2..].to_vec());
    assert_eq!(shown.footer.map(|f| text(&f)).as_deref(), Some("┤3–4/4├"));
    clamp_scrolls(&mut app, 80, 6);
    assert!(matches!(app.view, View::Details { scroll: 2, .. }));
    assert_eq!(popup(&app, 10, 6).unwrap().width, 20);
    assert_eq!(popup(&app, 80, 0).unwrap().height, 0);
}

#[test]
fn prompts_show_what_they_ask() {
    let mut app = App::new();
    app.handle_msg(Msg::PairPrompt { pin: false, passkey: "461829".into() });
    let shown = popup(&app, 80, 24).unwrap();
    assert_eq!((shown.width, shown.height), (42, 5));
    assert_eq!(
        texts(&shown.lines),
        vec!["Confirm this matches the device:", "Passkey: 461829", "y yes    n no"]
    );
    app.handle_msg(Msg::PairPrompt { pin: false, passkey: String::new() });
    assert_eq!(texts(&popup(&app, 80, 24).unwrap().lines)[1], "Accept pairing request?");
    app.handle_msg(Msg::PairPrompt { pin: true, passkey: String::new() });
    app.handle_key(KeyEvent::plain(KeyCode::Char('7')));
    assert_eq!(
        texts(&popup(&app, 80, 24).unwrap().lines),
        vec!["Enter PIN code for pairing:", "", "7▏"]
    );
}

#[test]
fn the_removal_popup_fits_the_name() {
    let mut app = App::new();
    app.view = View::ConfirmRemove { mac: "AA".into(), name: "n".repeat(20) };
    let shown = popup(&app, 80, 24).unwrap();
    assert_eq!((shown.width, shown.height), (41, 5));
    assert_eq!(texts(&shown.lines)[0], format!("Remove (unpair) {}?", "n".repeat(20)));
    assert_eq!(texts(&shown.lines)[1], "AA");
    let shown = popup(&app, 24, 24).unwrap();
    assert_eq!((shown.width, shown.height), (22, 6));
    app.view = View::ConfirmRemove { mac: "AA".into(), name: "Buds".into() };
    assert_eq!(popup(&app, 80, 24).unwrap().width, 34);
}

#[test]
fn help_lists_the_keys_and_scrolls() {
    let mut app = App::new();
    assert!(help(&app, 80, 24).is_none());
    app.handle_key(KeyEvent::plain(KeyCode::Char('?')));
    let shown = help(&app, 80, 24).unwrap();
    assert_eq!(shown.lines.len(), 13);
    assert_eq!(shown.height, 15);
    assert_eq!(text(&shown.lines[3]), " s                 scan & pair new device");
    app.handle_key(KeyEvent::plain(KeyCode::Char('G')));
    clamp_scrolls(&mut app, 80, 10);
    assert_eq!(app.help_scroll, 7);
    let shown = help(&app, 80, 10).unwrap();
    assert_eq!(shown.lines.len(), 6);
    assert_eq!(shown.footer.map(|f| text(&f)).as_deref(), Some("┤8–13/13├"));
}
