use bluerat::app::{
    fuzzy_match, whole_nanos, App, KeyCode, KeyEvent, View, LOG_MAX, LOG_TTL,
};
use bluerat::bt::{AddrKind, Device, Discovered};
use bluerat::worker::{Cmd, Msg, Tone};

fn key(code: KeyCode) -> KeyEvent {
    KeyEvent::plain(code)
}

fn app_with_devices() -> App {
    let mut app = App::new();
    app.handle_msg(Msg::Devices(vec![Device {
        mac: "AA:BB:CC:DD:EE:FF".into(),
        name: "Fake Headphones".into(),
        connected: true,
        trusted: true,
        battery: Some(80),
    }]));
    app
}

#[test]
fn fuzzy_matches_subsequences() {
    assert!(fuzzy_match("WH-1000XM4", "wh4"));
    assert!(fuzzy_match("JBL Flip 5", "jblf5"));
    assert!(fuzzy_match("Anything", ""));
    assert!(!fuzzy_match("WH-1000XM4", "xm5"));
    assert!(!fuzzy_match("abc", "cba"));
}

#[test]
fn slash_enters_filter_mode_and_enter_leaves_it() {
    let mut app = app_with_devices();
    assert!(app.handle_key(key(KeyCode::Char('/'))).is_none());
    assert!(app.filtering);
    app.handle_key(key(KeyCode::Char('f')));
    assert_eq!(app.filter, "f");
    assert_eq!(app.visible().len(), 1);
    app.handle_key(key(KeyCode::Enter));
    assert!(!app.filtering);
    assert_eq!(app.filter, "f");
    // Esc clears the filter before quitting.
    app.handle_key(key(KeyCode::Esc));
    assert!(!app.quit);
    assert!(app.filter.is_empty());
    app.handle_key(key(KeyCode::Esc));
    assert!(app.quit);
}

#[test]
fn filter_with_no_matches_blocks_actions_safely() {
    let mut app = app_with_devices();
    app.handle_key(key(KeyCode::Char('/')));
    app.handle_key(key(KeyCode::Char('z')));
    app.handle_key(key(KeyCode::Enter));
    assert_eq!(app.visible().len(), 0);
    assert!(app.handle_key(key(KeyCode::Enter)).is_none());
    assert!(app.busy.is_none());
}

/// A device's stable (classic) address.
fn disc(mac: &str, name: &str) -> Discovered {
    Discovered {
        mac: mac.into(),
        name: name.into(),
        addr: AddrKind::Public,
    }
}

/// One of the rotating LE addresses the same unit also advertises.
fn disc_le(mac: &str, name: &str) -> Discovered {
    Discovered {
        mac: mac.into(),
        name: name.into(),
        addr: AddrKind::Random,
    }
}

fn scanning_app() -> App {
    let mut app = app_with_devices();
    app.begin("Scanning ~10s…");
    app.pending = 1;
    app.handle_msg(Msg::ScanStarted);
    app.handle_msg(Msg::Found(disc("11:11:11:11:11:11", "Buds A")));
    app.handle_msg(Msg::Found(disc("22:22:22:22:22:22", "Buds B")));
    app
}

#[test]
fn scan_results_reanchor_selection_by_mac() {
    let mut app = scanning_app();
    // Cursor onto "Buds B" (index 1 in stream order).
    app.handle_key(key(KeyCode::Char('j')));
    // Authoritative list arrives reordered: B is now index 0.
    app.handle_msg(Msg::ScanResults(vec![
        disc("22:22:22:22:22:22", "Buds B"),
        disc("11:11:11:11:11:11", "Buds A"),
    ]));
    match &app.view {
        View::ScanResults { items, selected } => {
            assert_eq!(items[*selected].mac, "22:22:22:22:22:22");
        }
        _ => panic!("picker should stay open"),
    }
}

#[test]
fn dismissed_picker_is_not_reopened_by_final_results() {
    let mut app = scanning_app();
    app.handle_key(key(KeyCode::Esc));
    assert!(matches!(app.view, View::DeviceList));
    app.handle_msg(Msg::ScanResults(vec![disc("11:11:11:11:11:11", "Buds A")]));
    assert!(matches!(app.view, View::DeviceList));
    // The suppression is one-shot: a pair-failure reopen still works.
    app.handle_msg(Msg::ScanResults(vec![disc("11:11:11:11:11:11", "Buds A")]));
    assert!(matches!(app.view, View::ScanResults { .. }));
}

#[test]
fn enter_pairs_mid_scan_and_suppresses_the_final_list() {
    let mut app = scanning_app();
    let cmd = app.handle_key(key(KeyCode::Enter));
    assert!(matches!(cmd, Some(Cmd::PairConnect { ref candidates, .. })
            if candidates == &["11:11:11:11:11:11"]));
    assert!(matches!(app.view, View::DeviceList));
    // The scan's own final list is dropped; the pairing runs next.
    app.handle_msg(Msg::ScanResults(vec![disc("11:11:11:11:11:11", "Buds A")]));
    assert!(matches!(app.view, View::DeviceList));
}

/// One pair of earbuds advertising three addresses must be one row, and
/// pairing it must hand the worker every address to try.
#[test]
fn picker_collapses_one_device_advertising_many_addresses() {
    let mut app = app_with_devices();
    app.begin("Scanning ~10s…");
    app.pending = 1;
    app.handle_msg(Msg::ScanStarted);
    app.handle_msg(Msg::Found(disc("40:7E:72:67:25:64", "Buds3 Pro")));
    app.handle_msg(Msg::Found(disc_le("7C:AF:C1:52:DC:A8", "Buds3 Pro")));
    app.handle_msg(Msg::Found(disc_le("A0:B0:BD:F3:BA:41", "Buds3 Pro")));
    app.handle_msg(Msg::Found(disc("78:C1:1D:12:D4:96", "Phone")));

    let groups = app.scan_groups();
    assert_eq!(groups.len(), 2, "three addresses, one device");
    assert_eq!(groups[0].macs.len(), 3);

    match app.handle_key(key(KeyCode::Enter)) {
        Some(Cmd::PairConnect {
            candidates, name, ..
        }) => {
            assert_eq!(name, "Buds3 Pro");
            assert_eq!(candidates.len(), 3, "worker gets every address to try");
        }
        _ => panic!("Enter should pair the highlighted group"),
    }
}

/// Navigation must step over rows, not over raw addresses — otherwise
/// `j` appears to do nothing while the cursor walks a collapsed group.
#[test]
fn picker_navigation_steps_over_groups() {
    let mut app = app_with_devices();
    app.begin("Scanning ~10s…");
    app.pending = 1;
    app.handle_msg(Msg::ScanStarted);
    app.handle_msg(Msg::Found(disc("40:7E:72:67:25:64", "Buds3 Pro")));
    app.handle_msg(Msg::Found(disc_le("7C:AF:C1:52:DC:A8", "Buds3 Pro")));
    app.handle_msg(Msg::Found(disc("78:C1:1D:12:D4:96", "Phone")));

    app.handle_key(key(KeyCode::Char('j')));
    match app.handle_key(key(KeyCode::Enter)) {
        Some(Cmd::PairConnect { name, .. }) => assert_eq!(name, "Phone"),
        _ => panic!("one j should land on the second group"),
    }
}

#[test]
fn doctor_key_works_with_no_device_selected() {
    let mut app = App::new();
    match app.handle_key(key(KeyCode::Char('d'))) {
        Some(Cmd::Doctor { device }) => assert!(device.is_none()),
        _ => panic!("d should run host-only diagnostics"),
    }
}

#[test]
fn question_mark_toggles_the_help_popup() {
    let mut app = app_with_devices();
    assert!(app.handle_key(key(KeyCode::Char('?'))).is_none());
    assert!(app.help);
    app.handle_key(key(KeyCode::Char('?')));
    assert!(!app.help);
}

#[test]
fn help_opens_while_busy() {
    // Exactly when it is needed most: mid-operation the border row is at
    // its shortest, so the dropped keys have to be reachable some way.
    let mut app = app_with_devices();
    app.begin("Scanning ~10s…");
    app.handle_key(key(KeyCode::Char('?')));
    assert!(app.help);
    app.handle_key(key(KeyCode::Esc));
    assert!(!app.help);
    assert!(!app.quit, "Esc should close the popup, not quit");
}

#[test]
fn help_scrolls_while_busy_without_moving_the_hidden_cursor() {
    // j/k must reach the overlay, not the device list underneath it.
    let mut app = app_with_devices();
    app.handle_msg(Msg::Devices(vec![
        Device {
            mac: "AA:BB:CC:DD:EE:FF".into(),
            name: "A".into(),
            connected: false,
            trusted: false,
            battery: None,
        },
        Device {
            mac: "11:22:33:44:55:66".into(),
            name: "B".into(),
            connected: false,
            trusted: false,
            battery: None,
        },
    ]));
    app.begin("Scanning ~10s…");
    app.handle_key(key(KeyCode::Char('?')));
    app.handle_key(key(KeyCode::Char('j')));
    assert_eq!(app.help_scroll, 1);
    assert_eq!(app.selected, 0, "the list behind the popup must not move");
    app.handle_key(key(KeyCode::Char('k')));
    assert_eq!(app.help_scroll, 0);
    app.handle_key(key(KeyCode::Char('G')));
    assert_eq!(app.help_scroll, u16::MAX, "renderer clamps this");
}

#[test]
fn help_preserves_the_view_underneath() {
    // Opening help over a running scan must not drop the picker: its
    // items would stop accumulating and closing help would strand the
    // user on the device list.
    let mut app = scanning_app();
    app.handle_key(key(KeyCode::Char('?')));
    assert!(app.help);
    assert!(matches!(app.view, View::ScanResults { .. }));
    // Devices found while help is up still land in the picker.
    app.handle_msg(Msg::Found(disc("33:33:33:33:33:33", "Buds C")));
    app.handle_key(key(KeyCode::Char('?')));
    assert!(!app.help);
    match &app.view {
        View::ScanResults { items, .. } => assert_eq!(items.len(), 3),
        _ => panic!("should return to the picker it was opened over"),
    }
}

#[test]
fn help_over_a_confirmation_does_not_answer_it() {
    // y/n belong to the overlay while it is up; the pending remove must
    // survive untouched.
    let mut app = app_with_devices();
    app.handle_key(key(KeyCode::Char('x')));
    assert!(matches!(app.view, View::ConfirmRemove { .. }));
    app.handle_key(key(KeyCode::Char('?')));
    assert!(app.handle_key(key(KeyCode::Char('y'))).is_none());
    assert!(matches!(app.view, View::ConfirmRemove { .. }));
    app.handle_key(key(KeyCode::Esc));
    assert!(!app.help);
    assert!(matches!(app.view, View::ConfirmRemove { .. }));
}

#[test]
fn a_pairing_prompt_takes_the_screen_back_from_help() {
    let mut app = app_with_devices();
    app.begin("Pairing…");
    app.handle_key(key(KeyCode::Char('?')));
    assert!(app.help);
    app.handle_msg(Msg::PairPrompt {
        pin: false,
        passkey: "461829".into(),
    });
    assert!(!app.help, "the prompt blocks pairing until answered");
    assert!(matches!(app.view, View::PairPrompt { .. }));
}

#[test]
fn question_mark_is_filter_text_not_a_shortcut() {
    let mut app = app_with_devices();
    app.handle_key(key(KeyCode::Char('/')));
    app.handle_key(key(KeyCode::Char('?')));
    assert_eq!(app.filter, "?");
    assert!(matches!(app.view, View::DeviceList));
}

#[test]
fn help_does_not_hijack_a_pairing_prompt() {
    // A PIN can legitimately contain '?'; answering the prompt wins.
    let mut app = app_with_devices();
    app.begin("Pairing…");
    app.handle_msg(Msg::PairPrompt {
        pin: true,
        passkey: String::new(),
    });
    app.handle_key(key(KeyCode::Char('?')));
    assert!(matches!(app.view, View::PairPrompt { .. }));
    assert!(!app.help);
}

#[test]
fn esc_while_busy_clears_filter_before_quitting() {
    let mut app = app_with_devices();
    app.handle_key(key(KeyCode::Char('/')));
    app.handle_key(key(KeyCode::Char('f')));
    app.handle_key(key(KeyCode::Enter));
    app.begin("Updating trust…");
    app.handle_key(key(KeyCode::Esc));
    assert!(!app.quit);
    assert!(app.filter.is_empty());
    app.handle_key(key(KeyCode::Esc));
    assert!(app.quit);
}

#[test]
fn esc_on_pin_prompt_sends_cancel_not_a_pin() {
    let mut app = app_with_devices();
    app.begin("Pairing…");
    app.handle_msg(Msg::PairPrompt {
        pin: true,
        passkey: String::new(),
    });
    // Empty submit is a no-op, not an accidental cancel.
    assert!(app.handle_key(key(KeyCode::Enter)).is_none());
    assert!(matches!(app.view, View::PairPrompt { .. }));
    match app.handle_key(key(KeyCode::Esc)) {
        Some(Cmd::PairReply(ans)) => assert!(ans.is_empty()),
        other => panic!("expected empty PairReply, got {:?}", other.is_some()),
    }
}

fn device(mac: &str, name: &str, connected: bool) -> Device {
    Device { mac: mac.into(), name: name.into(), connected, trusted: false, battery: None }
}

fn names(app: &App) -> Vec<String> {
    app.devices.iter().map(|d| d.name.clone()).collect()
}

#[test]
fn fuzzy_match_folds_case_beyond_ascii() {
    assert!(fuzzy_match("ÄPFEL", "äf"));
    assert!(fuzzy_match("äpfel", "ÄL"));
    assert!(!fuzzy_match("apfel", "ä"));
}

#[test]
fn connected_devices_come_first_then_names() {
    let mut app = App::new();
    app.handle_msg(Msg::Devices(vec![
        device("1", "beta", false),
        device("2", "Alpha", false),
        device("3", "zulu", true),
        device("4", "ALPHA", false),
    ]));
    assert_eq!(names(&app), vec!["zulu", "Alpha", "ALPHA", "beta"]);
    assert_eq!(app.devices[1].mac, "2");
}

#[test]
fn the_cursor_follows_its_device_across_refreshes() {
    let mut app = App::new();
    app.handle_msg(Msg::Devices(vec![device("1", "a", false), device("2", "b", false)]));
    app.handle_key(key(KeyCode::Down));
    assert_eq!(app.current().unwrap().mac, "2");
    app.handle_msg(Msg::Devices(vec![
        device("1", "a", false),
        device("2", "b", true),
        device("3", "c", false),
    ]));
    assert_eq!(app.selected, 0);
    assert_eq!(app.current().unwrap().mac, "2");
    app.handle_msg(Msg::Devices(Vec::new()));
    assert_eq!(app.selected, 0);
    assert!(app.current().is_none());
}

#[test]
fn navigation_stays_on_the_rows() {
    let mut app = App::new();
    app.handle_msg(Msg::Devices(vec![device("1", "a", false), device("2", "b", false)]));
    app.handle_key(key(KeyCode::Up));
    assert_eq!(app.selected, 0);
    app.handle_key(key(KeyCode::Char('G')));
    assert_eq!(app.selected, 1);
    app.handle_key(key(KeyCode::Char('j')));
    assert_eq!(app.selected, 1);
    app.handle_key(key(KeyCode::Char('k')));
    assert_eq!(app.selected, 0);
    app.handle_key(key(KeyCode::Down));
    app.handle_key(key(KeyCode::Char('g')));
    assert_eq!(app.selected, 0);
}

#[test]
fn list_keys_start_their_operations() {
    let mut app = app_with_devices();
    match app.handle_key(key(KeyCode::Enter)) {
        Some(Cmd::ToggleConnect { mac, name }) => {
            assert_eq!(mac, "AA:BB:CC:DD:EE:FF");
            assert_eq!(name, "Fake Headphones");
        }
        _ => panic!("Enter should toggle the connection"),
    }
    assert_eq!(app.busy.as_deref(), Some("Toggling connection…"));

    let labels = vec![
        ('s', "Scanning ~10s…"),
        ('t', "Updating trust…"),
        ('a', "Switching audio profile…"),
        ('i', "Loading info…"),
        ('r', "Refreshing…"),
        ('d', "Running diagnostics…"),
    ];
    for (c, label) in labels {
        let mut app = app_with_devices();
        let cmd = app.handle_key(key(KeyCode::Char(c)));
        assert_eq!(app.busy.as_deref(), Some(label));
        let right = match c {
            's' => matches!(cmd, Some(Cmd::Scan)),
            't' => matches!(cmd, Some(Cmd::ToggleTrust { ref mac }) if mac == "AA:BB:CC:DD:EE:FF"),
            'a' => matches!(cmd, Some(Cmd::ToggleProfile { ref name, .. }) if name == "Fake Headphones"),
            'i' => matches!(cmd, Some(Cmd::Details { ref name, .. }) if name == "Fake Headphones"),
            'r' => matches!(cmd, Some(Cmd::Refresh)),
            _ => matches!(cmd, Some(Cmd::Doctor { device: Some(ref d) }) if d.0 == "AA:BB:CC:DD:EE:FF"),
        };
        assert!(right, "{} starts the wrong operation", c);
    }
}

#[test]
fn removing_asks_first() {
    let mut app = app_with_devices();
    assert!(app.handle_key(key(KeyCode::Delete)).is_none());
    assert!(matches!(app.view, View::ConfirmRemove { .. }));
    assert!(app.handle_key(key(KeyCode::Enter)).is_none());
    assert!(matches!(app.view, View::DeviceList));
    app.handle_key(key(KeyCode::Char('x')));
    assert!(matches!(app.handle_key(key(KeyCode::Char('Y'))), Some(Cmd::Remove { ref mac })
        if mac == "AA:BB:CC:DD:EE:FF"));
    assert_eq!(app.busy.as_deref(), Some("Removing…"));
}

#[test]
fn ctrl_c_quits_from_a_prompt() {
    let mut app = app_with_devices();
    app.handle_msg(Msg::PairPrompt { pin: true, passkey: String::new() });
    assert!(app.handle_key(KeyEvent { code: KeyCode::Char('c'), control: true }).is_none());
    assert!(app.quit);
    assert!(matches!(app.view, View::PairPrompt { ref input, .. } if input.is_empty()));
}

#[test]
fn control_with_a_letter_counts_as_the_letter() {
    let mut app = app_with_devices();
    let cmd = app.handle_key(KeyEvent { code: KeyCode::Char('s'), control: true });
    assert!(matches!(cmd, Some(Cmd::Scan)));
}

#[test]
fn a_pin_is_typed_and_submitted() {
    let mut app = app_with_devices();
    app.handle_msg(Msg::PairPrompt { pin: true, passkey: String::new() });
    for c in vec!['1', '-', '2', '3'] {
        app.handle_key(key(KeyCode::Char(c)));
    }
    app.handle_key(key(KeyCode::Backspace));
    assert!(matches!(app.handle_key(key(KeyCode::Enter)), Some(Cmd::PairReply(ref a)) if a == "12"));
    assert!(matches!(app.view, View::DeviceList));
}

#[test]
fn a_passkey_is_confirmed_or_declined() {
    for (code, answer) in vec![
        (KeyCode::Char('y'), "yes"),
        (KeyCode::Char('N'), "no"),
        (KeyCode::Esc, "no"),
    ] {
        let mut app = app_with_devices();
        app.handle_msg(Msg::PairPrompt { pin: false, passkey: "1".into() });
        assert!(app.handle_key(key(KeyCode::Enter)).is_none());
        assert!(matches!(app.handle_key(key(code)), Some(Cmd::PairReply(ref a)) if a == answer));
    }
}

#[test]
fn details_scroll_and_close() {
    let mut app = app_with_devices();
    app.handle_msg(Msg::Details { name: "X".into(), text: "t".into() });
    app.handle_key(key(KeyCode::Char('j')));
    app.handle_key(key(KeyCode::Down));
    app.handle_key(key(KeyCode::Char('k')));
    assert!(matches!(app.view, View::Details { scroll: 1, .. }));
    app.handle_key(key(KeyCode::Char('G')));
    assert!(matches!(app.view, View::Details { scroll: u16::MAX, .. }));
    app.handle_key(key(KeyCode::Char('j')));
    assert!(matches!(app.view, View::Details { scroll: u16::MAX, .. }));
    app.handle_key(key(KeyCode::Char('g')));
    assert!(matches!(app.view, View::Details { scroll: 0, .. }));
    app.handle_key(key(KeyCode::Char('i')));
    assert!(matches!(app.view, View::DeviceList));
}

#[test]
fn busy_keys_start_nothing() {
    let mut app = app_with_devices();
    app.begin("Updating trust…");
    for c in vec!['s', 't', 'a', 'i', 'x', 'r', 'd', '/'] {
        assert!(app.handle_key(key(KeyCode::Char(c))).is_none());
    }
    assert!(app.handle_key(key(KeyCode::Enter)).is_none());
    assert!(!app.filtering);
    assert!(matches!(app.view, View::DeviceList));
    app.handle_key(key(KeyCode::Char('q')));
    assert!(app.quit);
}

#[test]
fn pairing_mid_scan_cuts_the_scan_short_once() {
    let mut app = scanning_app();
    app.handle_key(key(KeyCode::Enter));
    assert!(app.take_kill());
    assert!(!app.take_kill());
}

#[test]
fn an_idle_picker_pairs_without_cutting_anything_short() {
    let mut app = scanning_app();
    app.handle_msg(Msg::OpDone);
    assert!(app.busy.is_none());
    app.handle_key(key(KeyCode::Char('G')));
    match app.handle_key(key(KeyCode::Enter)) {
        Some(Cmd::PairConnect { candidates, name, others }) => {
            assert_eq!(candidates, vec!["22:22:22:22:22:22"]);
            assert_eq!(name, "Buds B");
            assert_eq!(others.len(), 2);
        }
        _ => panic!("Enter should pair"),
    }
    assert!(!app.take_kill());
    assert!(!app.ignore_scan_results);
    assert_eq!(app.busy.as_deref(), Some("Pairing…"));
}

#[test]
fn a_rename_that_merges_rows_takes_the_cursor_along() {
    let mut app = App::new();
    app.handle_msg(Msg::ScanStarted);
    app.handle_msg(Msg::Found(disc("1", "Buds")));
    app.handle_msg(Msg::Found(disc_le("2", "Other")));
    app.handle_key(key(KeyCode::Down));
    app.handle_msg(Msg::Found(disc_le("2", "Buds")));
    assert_eq!(app.scan_groups().len(), 1);
    assert!(matches!(app.view, View::ScanResults { selected: 0, .. }));
}

#[test]
fn an_empty_scan_closes_an_empty_picker() {
    let mut app = App::new();
    app.handle_msg(Msg::ScanStarted);
    app.handle_msg(Msg::ScanResults(Vec::new()));
    assert!(matches!(app.view, View::DeviceList));
    app.handle_msg(Msg::ScanStarted);
    app.handle_msg(Msg::Found(disc("1", "Buds")));
    app.handle_msg(Msg::ScanResults(Vec::new()));
    assert!(matches!(app.view, View::ScanResults { ref items, .. } if items.len() == 1));
}

#[test]
fn the_log_keeps_the_newest_and_folds_repeats() {
    let mut app = App::new();
    for i in 0..6 {
        app.push_log_at(format!("line {}", i), Tone::Info, i);
    }
    assert_eq!(app.log.len(), LOG_MAX);
    assert_eq!(app.log[0].0, "line 2");
    app.push_log_at("line 5".into(), Tone::Info, 9);
    assert_eq!(app.log.len(), LOG_MAX);
    assert_eq!(app.log[3], ("line 5".to_string(), Tone::Info, 9));
    app.push_log_at("line 5".into(), Tone::Warn, 9);
    assert_eq!(app.log[3].1, Tone::Warn);
    assert_eq!(app.log[0].0, "line 3");
}

#[test]
fn warnings_outlive_their_time_until_the_user_acts() {
    let mut app = App::new();
    app.push_log_at("info".into(), Tone::Info, 0);
    app.push_log_at("warn".into(), Tone::Warn, 0);
    app.on_tick_at(LOG_TTL);
    assert_eq!(app.log.len(), 2);
    app.on_tick_at(LOG_TTL + 1);
    assert_eq!(app.log.len(), 1);
    assert_eq!(app.log[0].0, "warn");
    app.begin_at("Refreshing…", LOG_TTL + 1);
    assert!(app.log.is_empty());
    assert_eq!(app.tick, 2);
}

#[test]
fn messages_reach_the_log_and_the_spinner() {
    let mut app = App::new();
    app.handle_msg(Msg::Status("Removed".into(), Tone::Success));
    assert_eq!(app.log[0].0, "Removed");
    app.begin("Scanning ~10s…");
    app.handle_msg(Msg::Progress("Connecting X…".into()));
    assert_eq!(app.progress.as_deref(), Some("Connecting X…"));
}

#[test]
fn the_app_goes_idle_with_its_last_operation() {
    let mut app = App::new();
    app.begin("Loading…");
    app.sent(&Cmd::Refresh);
    app.sent(&Cmd::AutoRefresh);
    app.sent(&Cmd::PairReply("yes".into()));
    assert_eq!(app.pending, 2);
    app.handle_msg_at(Msg::OpDone, 5);
    assert!(app.busy.is_some());
    assert!(!app.auto_refresh_due_at(u64::MAX));
    app.handle_msg_at(Msg::OpDone, 7);
    assert!(app.busy.is_none());
    assert_eq!(app.last_done, 7);
    assert!(!app.auto_refresh_due_at(8_000_000_006));
    assert!(app.auto_refresh_due_at(8_000_000_007));
    assert!(!app.auto_refresh_due());
    app.handle_msg_at(Msg::OpDone, 9);
    assert_eq!(app.pending, 0);
}

#[test]
fn time_goes_by_on_the_clock() {
    let mut app = App::new();
    app.push_log("first".into(), Tone::Info);
    app.push_log("second".into(), Tone::Info);
    assert!(app.log[0].2 <= app.log[1].2);
    app.on_tick();
    assert_eq!(app.log.len(), 2);
    assert_eq!(app.tick, 1);
}

#[test]
fn the_list_shows_what_passes_the_filter() {
    let mut app = App::new();
    app.handle_msg(Msg::Devices(vec![
        device("1", "Alpha Buds", false),
        device("2", "Mouse", false),
        device("3", "Zulu Buds", false),
    ]));
    app.filter = "buds".into();
    assert_eq!(app.visible(), vec![0, 2]);
    app.filter = "zbuds".into();
    assert_eq!(app.visible(), vec![2]);
    app.filter = "Mouse".into();
    assert_eq!(app.visible(), vec![1]);
    app.filter.clear();
    assert_eq!(app.visible(), vec![0, 1, 2]);
}

#[test]
fn editing_the_filter_goes_back_to_the_first_row() {
    let mut app = App::new();
    app.handle_msg(Msg::Devices(vec![device("1", "aa", false), device("2", "ab", false)]));
    app.handle_key(key(KeyCode::Down));
    app.handle_key(key(KeyCode::Char('/')));
    app.handle_key(key(KeyCode::Char('a')));
    assert_eq!(app.selected, 0);
    app.handle_key(key(KeyCode::Char('b')));
    assert_eq!(app.current().unwrap().mac, "2");
    app.handle_key(key(KeyCode::Backspace));
    assert_eq!(app.filter, "a");
    app.handle_key(key(KeyCode::Other));
    assert_eq!(app.filter, "a");
    app.handle_key(key(KeyCode::Esc));
    assert!(app.filter.is_empty() && !app.filtering);
}

#[test]
fn overlong_spans_count_as_the_longest() {
    assert_eq!(whole_nanos(0), 0);
    assert_eq!(whole_nanos(8_000_000_000), 8_000_000_000);
    assert_eq!(whole_nanos(u64::MAX as u128), u64::MAX);
    assert_eq!(whole_nanos(u64::MAX as u128 + 1), u64::MAX);
    assert_eq!(whole_nanos(u128::MAX), u64::MAX);
}

#[test]
fn a_pin_takes_letters_digits_and_question_marks() {
    let mut app = app_with_devices();
    app.handle_msg(Msg::PairPrompt { pin: true, passkey: String::new() });
    for c in "?aZ9- é\n\u{1b}0".chars() {
        assert!(app.handle_key(key(KeyCode::Char(c))).is_none());
    }
    assert!(!app.help);
    assert!(matches!(app.view, View::PairPrompt { ref input, .. } if input == "?aZ90"));
    assert!(matches!(app.handle_key(key(KeyCode::Enter)), Some(Cmd::PairReply(ref a)) if a == "?aZ90"));
}

/// The row of the picker's cursor once the final list takes the place of the
/// devices found, with the cursor on row `down`.
fn reanchored(found: Vec<Discovered>, down: usize, last: Vec<Discovered>) -> usize {
    let mut app = App::new();
    app.handle_msg(Msg::ScanStarted);
    for d in found {
        app.handle_msg(Msg::Found(d));
    }
    for _ in 0..down {
        app.handle_key(key(KeyCode::Char('j')));
    }
    app.handle_msg(Msg::ScanResults(last));
    match app.view {
        View::ScanResults { selected, .. } => selected,
        _ => panic!("picker should stay open"),
    }
}

#[test]
fn the_picker_tells_devices_of_one_name_apart() {
    let twins = || vec![disc("AA", "Buds"), disc("BB", "Buds")];
    assert_eq!(reanchored(twins(), 1, twins()), 1);
    assert_eq!(reanchored(twins(), 0, twins()), 0);
    let swapped = vec![disc("BB", "Buds"), disc("AA", "Buds")];
    assert_eq!(reanchored(twins(), 1, swapped), 0);
}

#[test]
fn the_picker_goes_by_the_stable_address_first() {
    // The rotating address folds into whichever of the two comes first.
    let found = vec![disc("AA", "Buds"), disc_le("RR", "Buds"), disc("BB", "Buds")];
    let last = vec![disc("BB", "Buds"), disc_le("RR", "Buds"), disc("AA", "Buds")];
    assert_eq!(reanchored(found, 0, last), 1);
    // With rotating addresses only, any of them will do.
    let found = vec![disc("AA", "Phone"), disc_le("R1", "Buds"), disc_le("R2", "Buds")];
    let last = vec![disc_le("R2", "Buds"), disc("AA", "Phone")];
    assert_eq!(reanchored(found, 1, last), 0);
}

#[test]
fn the_picker_goes_by_name_and_else_starts_over() {
    let found = || vec![disc("AA", "Phone"), disc("BB", "Buds")];
    let moved = vec![disc("AA", "Phone"), disc("CC", "Buds")];
    assert_eq!(reanchored(found(), 1, moved), 1);
    let gone = vec![disc("DD", "Mouse"), disc("BB", "Buds Pro")];
    assert_eq!(reanchored(found(), 1, gone), 0);
}

#[test]
fn the_picker_stays_on_the_row_that_keeps_name_and_address() {
    let found = vec![disc_le("40:7E:72:67:25:64", "Buds"), disc_le("7C:AF:C1:52:DC:A8", "Buds")];
    let last = vec![disc_le("7C:AF:C1:52:DC:A8", "Phone"), disc_le("40:7E:72:67:25:64", "Buds")];
    assert_eq!(reanchored(found, 0, last), 1);
}
