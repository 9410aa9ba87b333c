use bluerat::ansi::{strip_ansi, strip_ansi_stream};
use bluerat::bt::calls::{fill_addr_kinds, scan_found};
use bluerat::bt::pairing::{trim_backlog, PairSession, PairStep};
use bluerat::bt::{
    adapter_up, candidate_rank, connect, disconnect, discovered_unpaired, error_text,
    extract_passkey, group_discovered, has_device_lines, info, info_raw, name_is_mac, pair,
    pair_interactive, paired_devices, parse_addr_kind, parse_audio_kind, parse_battery,
    parse_device_line, parse_info, parse_scan_event, rank_candidates, remove, scan_live, trust,
    untrust, AddrKind, AudioKind, Device, Discovered, Info, PairEvent,
};
use bluerat::shell::{Reply, Step};

#[test]
fn parses_device_line() {
    assert_eq!(
        parse_device_line("Device AA:BB:CC:DD:EE:FF WH-1000XM4"),
        Some(("AA:BB:CC:DD:EE:FF".into(), "WH-1000XM4".into()))
    );
}

#[test]
fn keeps_spaces_in_name() {
    assert_eq!(
        parse_device_line("Device 11:22:33:44:55:66 My Cool Speaker"),
        Some(("11:22:33:44:55:66".into(), "My Cool Speaker".into()))
    );
}

#[test]
fn rejects_non_device_lines() {
    assert_eq!(parse_device_line(""), None);
    assert_eq!(
        parse_device_line("Controller 00:11:22:33:44:55 laptop"),
        None
    );
    assert_eq!(parse_device_line("Device AA:BB:CC:DD:EE:FF"), None);
}

#[test]
fn detects_mac_as_name() {
    assert!(name_is_mac("AA:BB:CC:DD:EE:FF", "AA:BB:CC:DD:EE:FF"));
    assert!(name_is_mac("aa-bb-cc-dd-ee-ff", "AA:BB:CC:DD:EE:FF"));
    assert!(!name_is_mac("WH-1000XM4", "AA:BB:CC:DD:EE:FF"));
}

#[test]
fn error_text_prefers_first_diagnostic() {
    assert_eq!(
        error_text(&["", "No default controller available"]),
        "No default controller available"
    );
    assert_eq!(
        error_text(&["", "  "]),
        "bluetoothctl failed (is bluetoothd running?)"
    );
}

#[test]
fn detects_device_lines() {
    assert!(has_device_lines("Device AA:BB:CC:DD:EE:FF Buds"));
    assert!(!has_device_lines("Too many arguments"));
}

#[test]
fn parses_info_output() {
    let out = "Device AA:BB:CC:DD:EE:FF (public)\n\
               \tName: WH-1000XM4\n\
               \tPaired: yes\n\
               \tTrusted: yes\n\
               \tConnected: no\n\
               \tUUID: Audio Sink                (0000110b-0000-1000-8000-00805f9b34fb)\n\
               \tBattery Percentage: 0x50 (80)\n";
    assert_eq!(
        parse_info(out),
        Info {
            connected: false,
            trusted: true,
            audio: AudioKind::Classic,
            addr: AddrKind::Public,
            battery: Some(80),
        }
    );
    assert_eq!(parse_info(""), Info::default());
}

#[test]
fn detects_le_audio_only_device() {
    // Real Buds3 Pro advertisement: BAP services, no A2DP Audio Sink.
    let out = "Device A0:B0:BD:F3:BA:7E (public)\n\
               \tName: Buds3 Pro\n\
               \tUUID: Volume Control           (00001844-0000-1000-8000-00805f9b34fb)\n\
               \tUUID: Audio Stream Control     (0000184e-0000-1000-8000-00805f9b34fb)\n\
               \tUUID: Published Audio Capabil.. (00001850-0000-1000-8000-00805f9b34fb)\n\
               \tUUID: Common Audio             (00001853-0000-1000-8000-00805f9b34fb)\n";
    let info = parse_info(out);
    assert_eq!(info.audio, AudioKind::LeAudioOnly);
    assert!(info.audio.routable());
}

#[test]
fn a2dp_wins_when_a_device_offers_both() {
    let out = "Device AA:BB:CC:DD:EE:FF (public)\n\
               \tUUID: Audio Sink               (0000110b-0000-1000-8000-00805f9b34fb)\n\
               \tUUID: Audio Stream Control     (0000184e-0000-1000-8000-00805f9b34fb)\n";
    assert_eq!(parse_info(out).audio, AudioKind::Classic);
}

#[test]
fn le_audio_client_is_not_a_sink() {
    // A phone advertises LE Audio control services without being able to
    // play anything; treating it as a sink costs an 8s poll per connect
    // and produces a misleading warning.
    let phone = "Device AA:BB:CC:DD:EE:FF (public)\n\
                 \tUUID: Common Audio            (00001853-0000-1000-8000-00805f9b34fb)\n\
                 \tUUID: Call Control            (00001852-0000-1000-8000-00805f9b34fb)\n";
    assert_eq!(parse_audio_kind(phone), AudioKind::NoAudio);

    let earbuds = "Device AA:BB:CC:DD:EE:FF (random)\n\
                   \tUUID: Audio Stream Control    (0000184e-0000-1000-8000-00805f9b34fb)\n\
                   \tUUID: Published Audio Capabil (00001850-0000-1000-8000-00805f9b34fb)\n";
    assert_eq!(parse_audio_kind(earbuds), AudioKind::LeAudioOnly);
}

#[test]
fn non_audio_device_is_not_routable() {
    let out = "Device AA:BB:CC:DD:EE:FF (random)\n\
               \tUUID: Human Interface Device   (00001812-0000-1000-8000-00805f9b34fb)\n";
    let info = parse_info(out);
    assert_eq!(info.audio, AudioKind::NoAudio);
    assert_eq!(info.addr, AddrKind::Random);
    assert!(!info.audio.routable());
}

fn disc(mac: &str, name: &str, addr: AddrKind) -> Discovered {
    Discovered {
        mac: mac.into(),
        name: name.into(),
        addr,
    }
}

#[test]
fn groups_discovered_by_name() {
    let items = vec![
        disc("40:7E:72:67:25:64", "Pavel's Buds3 Pro", AddrKind::Public),
        disc("7C:AF:C1:52:DC:A8", "Pavel's Buds3 Pro", AddrKind::Random),
        disc("78:C1:1D:12:D4:96", "S26 Ultra", AddrKind::Public),
        // A duplicate address must not be listed twice.
        disc("40:7E:72:67:25:64", "Pavel's Buds3 Pro", AddrKind::Public),
    ];
    let groups = group_discovered(&items);
    assert_eq!(groups.len(), 2);
    assert_eq!(groups[0].name, "Pavel's Buds3 Pro");
    assert_eq!(groups[0].macs.len(), 2);
    assert_eq!(groups[1].macs, vec!["78:C1:1D:12:D4:96"]);
}

#[test]
fn two_identical_devices_stay_separately_pairable() {
    // Two people with the same earbuds in one room: both announce the same
    // name on their own stable address. Merging them would hide one device
    // and aim a pairing attempt at a stranger's.
    let items = vec![
        disc("40:7E:72:67:25:64", "Galaxy Buds3 Pro", AddrKind::Public),
        disc("52:11:22:33:44:55", "Galaxy Buds3 Pro", AddrKind::Random),
        disc("AA:BB:CC:DD:EE:FF", "Galaxy Buds3 Pro", AddrKind::Public),
    ];
    let groups = group_discovered(&items);
    assert_eq!(groups.len(), 2);
    // The rotating LE address folds into the first unit, not the second.
    assert_eq!(groups[0].macs.len(), 2);
    assert_eq!(groups[1].macs, vec!["AA:BB:CC:DD:EE:FF"]);
}

#[test]
fn unknown_address_kinds_do_not_merge() {
    // Before `fill_addr_kinds` runs, nothing is known to rotate — stay on
    // the safe side and keep every address pickable.
    let items = vec![
        disc("40:7E:72:67:25:64", "Buds", AddrKind::Unknown),
        disc("7C:AF:C1:52:DC:A8", "Buds", AddrKind::Unknown),
    ];
    assert_eq!(group_discovered(&items).len(), 2);
}

#[test]
fn ranks_classic_audio_above_le_only() {
    // The exact trap: an LE-only address must never be tried before a
    // classic one, and an unprobed public address beats a known LE one.
    assert!(
        candidate_rank(AudioKind::Classic, AddrKind::Public)
            < candidate_rank(AudioKind::LeAudioOnly, AddrKind::Public)
    );
    assert!(
        candidate_rank(AudioKind::NoAudio, AddrKind::Public)
            < candidate_rank(AudioKind::LeAudioOnly, AddrKind::Public)
    );
    assert!(
        candidate_rank(AudioKind::LeAudioOnly, AddrKind::Public)
            < candidate_rank(AudioKind::LeAudioOnly, AddrKind::Random)
    );
}

#[test]
fn parses_scan_events() {
    assert_eq!(
        parse_scan_event("[NEW] Device AA:BB:CC:DD:EE:FF JBL Flip 5"),
        Some(("AA:BB:CC:DD:EE:FF".into(), "JBL Flip 5".into()))
    );
    assert_eq!(
        parse_scan_event("\x1b[0;92m[NEW]\x1b[0m Device AA:BB:CC:DD:EE:FF Buds"),
        Some(("AA:BB:CC:DD:EE:FF".into(), "Buds".into()))
    );
    assert_eq!(
        parse_scan_event("[CHG] Device AA:BB:CC:DD:EE:FF Name: Real Name"),
        Some(("AA:BB:CC:DD:EE:FF".into(), "Real Name".into()))
    );
    assert_eq!(
        parse_scan_event("[CHG] Device AA:BB:CC:DD:EE:FF RSSI: -60"),
        None
    );
    assert_eq!(parse_scan_event("Discovery started"), None);
}

#[test]
fn scan_event_keeps_device_in_name() {
    assert_eq!(
        parse_scan_event("[NEW] Device AA:BB:CC:DD:EE:FF My Device Pro"),
        Some(("AA:BB:CC:DD:EE:FF".into(), "My Device Pro".into()))
    );
    assert_eq!(
        parse_scan_event("[CHG] Device AA:BB:CC:DD:EE:FF Name: My Device Pro"),
        Some(("AA:BB:CC:DD:EE:FF".into(), "My Device Pro".into()))
    );
}

#[test]
fn strip_ansi_stream_carries_split_escape() {
    let mut carry = String::new();
    carry.push_str("foo\x1b[0");
    let mut out = strip_ansi_stream(&mut carry);
    assert_eq!(out, "foo");
    assert_eq!(carry, "\x1b[0");
    carry.push_str("1mbar");
    out.push_str(&strip_ansi_stream(&mut carry));
    assert_eq!(out, "foobar");
    assert!(carry.is_empty());
}

#[test]
fn extracts_passkey() {
    assert_eq!(
        extract_passkey("[agent] Confirm passkey 461829 (yes/no):"),
        Some("461829".into())
    );
    assert_eq!(extract_passkey("Confirm passkey (yes/no)"), None);
}

fn ok(out: &str) -> Reply {
    Reply { ok: true, out: out.into(), err: String::new() }
}

fn failed(err: &str) -> Reply {
    Reply::of_failure(err.into())
}

/// The arguments of the call that the step asks for.
fn asked<T>(step: Step<T>) -> Vec<String> {
    match step {
        Step::Run(args) => args,
        Step::Done(_) => panic!("expected another call"),
    }
}

fn done<T>(step: Step<T>) -> T {
    match step {
        Step::Run(args) => panic!("unexpected call {:?}", args),
        Step::Done(t) => t,
    }
}

#[test]
fn single_calls_name_their_verb_and_report_the_exit_status() {
    let none: Vec<Reply> = Vec::new();
    assert_eq!(asked(connect("AA", &none)), vec!["connect", "AA"]);
    assert_eq!(asked(disconnect("AA", &none)), vec!["disconnect", "AA"]);
    assert_eq!(asked(pair("AA", &none)), vec!["pair", "AA"]);
    assert_eq!(asked(trust("AA", &none)), vec!["trust", "AA"]);
    assert_eq!(asked(untrust("AA", &none)), vec!["untrust", "AA"]);
    assert_eq!(asked(remove("AA", &none)), vec!["remove", "AA"]);
    assert!(done(connect("AA", &vec![ok("")])));
    assert!(!done(remove("AA", &vec![failed("gone")])));
}

#[test]
fn replies_decode_bytes_lossily() {
    let reply = Reply::of_output(true, "Größe".as_bytes(), &[0x66, 0xff, 0x6f]);
    assert!(reply.ok);
    assert_eq!(reply.out, "Größe");
    assert_eq!(reply.err, "f\u{fffd}o");
}

#[test]
fn a_failed_info_query_is_an_error() {
    assert_eq!(asked(info("AA", &Vec::new())), vec!["info", "AA"]);
    assert_eq!(
        done(info("AA", &vec![failed(" no bus \n")])),
        Err("no bus".to_string())
    );
    assert_eq!(
        done(info_raw("AA", &vec![Reply { ok: false, out: "Device AA not available".into(), err: String::new() }])),
        Err("Device AA not available".to_string())
    );
    assert_eq!(done(info_raw("AA", &vec![ok("Device AA")])), Ok("Device AA".to_string()));
    assert!(done(info("AA", &vec![ok("Connected: yes")])).unwrap().connected);
}

#[test]
fn adapter_is_powered_on_only_when_it_is_off() {
    assert_eq!(asked(adapter_up(&Vec::new())), vec!["show"]);
    assert_eq!(done(adapter_up(&vec![ok("Powered: yes")])), Ok(()));
    assert_eq!(asked(adapter_up(&vec![ok("Powered: no")])), vec!["power", "on"]);
    assert_eq!(done(adapter_up(&vec![ok("Powered: no"), ok("")])), Ok(()));
    assert_eq!(
        done(adapter_up(&vec![failed("No default controller available")])),
        Err("Bluetooth adapter unavailable: No default controller available".to_string())
    );
    assert_eq!(
        done(adapter_up(&vec![ok("Powered: no"), failed("blocked")])),
        Err("Failed to power on adapter (rfkill blocked?): blocked".to_string())
    );
}

#[test]
fn paired_devices_take_whole_list_queries_and_batteries() {
    let listing = ok("Device AA Buds\nnoise\nDevice BB Mouse\n");
    let mut replies = Vec::new();
    assert_eq!(asked(paired_devices(&replies)), vec!["devices", "Paired"]);
    replies.push(listing);
    assert_eq!(asked(paired_devices(&replies)), vec!["devices", "Connected"]);
    replies.push(ok("Device AA Buds"));
    assert_eq!(asked(paired_devices(&replies)), vec!["devices", "Trusted"]);
    replies.push(ok("Device BB Mouse"));
    assert_eq!(asked(paired_devices(&replies)), vec!["info", "AA"]);
    replies.push(ok("Battery Percentage: 0x50 (80)"));
    assert_eq!(
        done(paired_devices(&replies)),
        Ok(vec![
            Device { mac: "AA".into(), name: "Buds".into(), connected: true, trusted: false, battery: Some(80) },
            Device { mac: "BB".into(), name: "Mouse".into(), connected: false, trusted: true, battery: None },
        ])
    );
}

#[test]
fn paired_devices_fall_back_on_an_older_bluez() {
    let mut replies = vec![failed("Invalid argument")];
    assert_eq!(asked(paired_devices(&replies)), vec!["paired-devices"]);
    replies.push(ok("Device AA Buds"));
    assert_eq!(asked(paired_devices(&replies)), vec!["devices", "Connected"]);
    replies.push(failed("Too many arguments"));
    assert_eq!(asked(paired_devices(&replies)), vec!["devices", "Trusted"]);
    replies.push(failed("Too many arguments"));
    assert_eq!(asked(paired_devices(&replies)), vec!["info", "AA"]);
    replies.push(ok("Connected: yes\nTrusted: yes\nBattery Percentage: 0x0a (10)"));
    assert_eq!(
        done(paired_devices(&replies)),
        Ok(vec![Device { mac: "AA".into(), name: "Buds".into(), connected: true, trusted: true, battery: Some(10) }])
    );
}

#[test]
fn paired_devices_report_why_they_cannot_be_listed() {
    assert_eq!(
        done(paired_devices(&vec![failed(""), failed("no daemon")])),
        Err("no daemon".to_string())
    );
    assert_eq!(
        done(paired_devices(&vec![failed(""), failed("")])),
        Err("bluetoothctl failed (is bluetoothd running?)".to_string())
    );
}

#[test]
fn discovered_devices_are_new_and_named() {
    let mut replies = vec![ok("Device AA Paired one")];
    assert_eq!(asked(discovered_unpaired(&replies)), vec!["devices"]);
    replies.push(ok("Device AA Paired one\nDevice BB BB\nDevice CC Speaker"));
    assert_eq!(
        done(discovered_unpaired(&replies)),
        Ok(vec![disc("CC", "Speaker", AddrKind::Unknown)])
    );
    assert_eq!(
        done(discovered_unpaired(&vec![ok("Device AA x"), failed("boom")])),
        Err("boom".to_string())
    );
}

#[test]
fn live_scan_leaves_out_paired_and_nameless_devices() {
    let (paired, args) = done(scan_live(10, &vec![ok("Device AA Buds")]));
    assert_eq!(paired, vec!["AA"]);
    assert_eq!(args, vec!["--timeout", "10", "scan", "on"]);
    assert_eq!(scan_found(&paired, "[NEW] Device AA Buds"), None);
    assert_eq!(scan_found(&paired, "[NEW] Device BB BB"), None);
    assert_eq!(
        scan_found(&paired, "[NEW] Device CC Speaker"),
        Some(disc("CC", "Speaker", AddrKind::Unknown))
    );
    let (paired, _) = done(scan_live(10, &vec![failed("a"), failed("b")]));
    assert!(paired.is_empty());
}

#[test]
fn address_kinds_are_looked_up_where_unknown() {
    let items = vec![
        disc("AA", "Buds", AddrKind::Public),
        disc("BB", "Buds", AddrKind::Unknown),
        disc("CC", "Buds", AddrKind::Unknown),
    ];
    assert_eq!(asked(fill_addr_kinds(&items, &Vec::new())), vec!["info", "BB"]);
    let mut replies = vec![ok("Device BB (random)")];
    assert_eq!(asked(fill_addr_kinds(&items, &replies)), vec!["info", "CC"]);
    replies.push(failed("gone"));
    let filled = done(fill_addr_kinds(&items, &replies));
    assert_eq!(filled[0].addr, AddrKind::Public);
    assert_eq!(filled[1].addr, AddrKind::Random);
    assert_eq!(filled[2].addr, AddrKind::Unknown);
}

#[test]
fn ranking_puts_classic_first_and_keeps_every_candidate() {
    let macs: Vec<String> = vec!["LE".into(), "NEW".into(), "A2DP".into(), "GONE".into()];
    assert_eq!(asked(rank_candidates(&macs, &Vec::new())), vec!["info", "LE"]);
    let replies = vec![
        ok("Device LE (public)\nAudio Stream Control\nPublished Audio Capabil"),
        ok("Device NEW (public)"),
        ok("Device A2DP (public)\nAudio Sink"),
        failed("gone"),
    ];
    assert_eq!(done(rank_candidates(&macs, &replies)), vec!["A2DP", "NEW", "LE", "GONE"]);
}

#[test]
fn every_rank_has_its_number() {
    assert_eq!(candidate_rank(AudioKind::Classic, AddrKind::Random), 0);
    assert_eq!(candidate_rank(AudioKind::NoAudio, AddrKind::Public), 1);
    assert_eq!(candidate_rank(AudioKind::LeAudioOnly, AddrKind::Public), 2);
    assert_eq!(candidate_rank(AudioKind::LeAudioOnly, AddrKind::Unknown), 3);
    assert_eq!(candidate_rank(AudioKind::NoAudio, AddrKind::Unknown), 4);
}

#[test]
fn battery_and_address_lines_are_read_with_care() {
    assert_eq!(parse_battery("Battery Percentage: 0x64 (100)"), Some(100));
    assert_eq!(parse_battery("Battery Percentage: 0x64 (300)"), None);
    assert_eq!(parse_battery("no battery"), None);
    assert_eq!(parse_addr_kind("Device AA (random)"), AddrKind::Random);
    assert_eq!(parse_addr_kind("Device AA"), AddrKind::Unknown);
    assert_eq!(parse_addr_kind("(public)"), AddrKind::Unknown);
}

#[test]
fn escape_sequences_and_controls_are_stripped() {
    assert_eq!(strip_ansi("\x1b[0;92mgreen\x1b[0m\r\u{7}"), "green");
    assert_eq!(strip_ansi("plain"), "plain");
    assert_eq!(strip_ansi("a\x1bb"), "ab");
}

#[test]
fn a_pairing_session_prompts_and_ends() {
    let (mut session, first) = pair_interactive("AA");
    assert_eq!(first, "pair AA");
    assert!(matches!(session.feed(b"Attempting to pair\n"), PairStep::Read));
    match session.feed(b"[agent] Confirm passkey 461829 (yes/no): ") {
        PairStep::Ask(ev) => {
            assert!(matches!(ev, PairEvent::ConfirmPasskey(ref pk) if pk == "461829"));
            assert_eq!(session.answer(&ev, Some("yes".into())), Some("yes".to_string()));
        }
        _ => panic!("expected a prompt"),
    }
    assert!(session.clean.is_empty());
    assert!(matches!(session.feed(b"Pairing succ"), PairStep::Read));
    assert!(matches!(session.feed(b"essful"), PairStep::End(true)));
}

#[test]
fn a_pairing_session_can_fail() {
    let mut session = PairSession::new();
    assert!(matches!(session.feed(b"Failed to pair: org.bluez.Error"), PairStep::End(false)));
    let mut session = PairSession::new();
    assert!(matches!(session.feed(b"Device AA not available"), PairStep::End(false)));
    let mut session = PairSession::new();
    assert!(matches!(session.feed(b"org.bluez.Error.AlreadyExists"), PairStep::End(true)));
}

#[test]
fn cancelling_a_pin_ends_the_session_by_force() {
    let mut session = PairSession::new();
    match session.feed(b"Enter PIN code: ") {
        PairStep::Ask(ev) => {
            assert!(matches!(ev, PairEvent::RequestPin));
            assert_eq!(session.answer(&ev, Some(String::new())), None);
            assert_eq!(session.answer(&ev, None), None);
            assert_eq!(session.answer(&ev, Some("1234".into())), Some("1234".to_string()));
        }
        _ => panic!("expected a prompt"),
    }
    let mut session = PairSession::new();
    match session.feed(b"Authorize service (yes/no): ") {
        PairStep::Ask(ev) => assert_eq!(session.answer(&ev, None), Some("no".to_string())),
        _ => panic!("expected a prompt"),
    }
}

#[test]
fn a_long_backlog_is_cut_to_its_tail() {
    let short = "x".repeat(16384);
    assert_eq!(trim_backlog(&short), short);
    let long = "x".repeat(20000);
    assert_eq!(trim_backlog(&long).len(), 4096);
    let lined = format!("{}\n{}", "a".repeat(15000), "b".repeat(5000));
    assert_eq!(trim_backlog(&lined), "b".repeat(5000));
}

#[test]
fn rows_go_by_name_whatever_its_case_in_first_seen_order() {
    let items = vec![
        disc("1", "Phone", AddrKind::Public),
        disc("2", " buds ", AddrKind::Random),
        disc("3", "BUDS", AddrKind::Public),
        disc("4", "phone", AddrKind::Random),
        disc("5", "Buds", AddrKind::Unknown),
        disc("3", "Renamed", AddrKind::Public),
    ];
    let groups = group_discovered(&items);
    let rows: Vec<(String, Vec<String>)> = groups.into_iter().map(|g| (g.name, g.macs)).collect();
    assert_eq!(
        rows,
        vec![
            ("Phone".to_string(), vec!["1".to_string(), "4".to_string()]),
            (" buds ".to_string(), vec!["2".to_string(), "3".to_string()]),
            ("Buds".to_string(), vec!["5".to_string()]),
        ]
    );
}

#[test]
fn a_chatty_session_stays_bounded() {
    let mut session = PairSession::new();
    for _ in 0..100 {
        assert!(matches!(session.feed("[CHG] chatter ".repeat(40).as_bytes()), PairStep::Read));
        assert!(session.clean.len() <= 16384);
    }
    assert!(session.clean.len() >= 4096);
    assert!(matches!(session.feed(b"Enter passkey: "), PairStep::Ask(PairEvent::RequestPin)));
}

#[test]
fn a_session_reads_across_split_escapes() {
    let mut session = PairSession::new();
    assert!(matches!(session.feed(b"Pairing \x1b[0;9"), PairStep::Read));
    assert_eq!(session.carry, "\x1b[0;9");
    assert!(matches!(session.feed(b"4msuccessful"), PairStep::End(true)));
}

#[test]
fn a_tag_in_the_name_does_not_decide_the_event() {
    let mac = "AA:BB:CC:DD:EE:FF".to_string();
    assert_eq!(
        parse_scan_event("[NEW] Device AA:BB:CC:DD:EE:FF Foo [CHG]"),
        Some((mac.clone(), "Foo [CHG]".to_string()))
    );
    assert_eq!(
        parse_scan_event("[CHG] Device AA:BB:CC:DD:EE:FF Name: Foo [NEW] Device X"),
        Some((mac.clone(), "Foo [NEW] Device X".to_string()))
    );
    assert_eq!(
        parse_scan_event("[bluetooth]# [NEW] Device AA:BB:CC:DD:EE:FF Foo"),
        Some((mac, "Foo".to_string()))
    );
    assert_eq!(parse_scan_event("[CHG] Device AA:BB:CC:DD:EE:FF RSSI: -60 [NEW]"), None);
    assert_eq!(parse_scan_event("[DEL] Device AA:BB:CC:DD:EE:FF Foo [NEW]"), None);
    assert_eq!(parse_scan_event("] Device AA:BB:CC:DD:EE:FF [NEW]"), None);
}

#[test]
fn a_failed_query_is_not_read_as_disconnected() {
    let mut replies = vec![
        ok("Device AA Buds\nDevice BB Mouse"),
        failed("Too many arguments"),
        ok(""),
        ok("Connected: no"),
    ];
    assert_eq!(asked(paired_devices(&replies)), vec!["info", "BB"]);
    replies.push(failed("timed out"));
    assert_eq!(done(paired_devices(&replies)), Err("timed out".to_string()));
    // The first failure ends it; the rest is not asked for.
    replies.truncate(3);
    replies.push(failed(""));
    assert_eq!(
        done(paired_devices(&replies)),
        Err("bluetoothctl failed (is bluetoothd running?)".to_string())
    );
}

#[test]
fn a_whole_session_from_pair_to_quit() {
    let (mut session, first) = pair_interactive("AA:BB:CC:DD:EE:FF");
    assert_eq!(first, "pair AA:BB:CC:DD:EE:FF");
    match session.feed(b"[agent] Confirm passkey 461829 (yes/no):") {
        PairStep::Ask(ev) => {
            assert!(matches!(ev, PairEvent::ConfirmPasskey(ref p) if p == "461829"));
            assert_eq!(session.answer(&ev, Some("yes".into())), Some("yes".to_string()));
        }
        _ => panic!("expected a prompt"),
    }
    assert!(matches!(session.feed(b"Pairing successful"), PairStep::End(true)));
    assert_eq!(session.closing_line(), Some("quit".to_string()));
}

#[test]
fn a_cancelled_session_is_told_nothing() {
    let (mut session, _) = pair_interactive("AA:BB:CC:DD:EE:FF");
    match session.feed(b"Enter PIN code: ") {
        PairStep::Ask(ev) => assert_eq!(session.answer(&ev, None), None),
        _ => panic!("expected a prompt"),
    }
    assert_eq!(session.closing_line(), None);
    let (mut session, _) = pair_interactive("AA:BB:CC:DD:EE:FF");
    match session.feed(b"Accept (yes/no): ") {
        PairStep::Ask(ev) => assert_eq!(session.answer(&ev, None), Some("no".to_string())),
        _ => panic!("expected a prompt"),
    }
    assert_eq!(session.closing_line(), Some("quit".to_string()));
}

#[test]
fn rotating_addresses_fold_in() {
    let items = vec![
        disc("1", "Buds", AddrKind::Random),
        disc("2", "Buds", AddrKind::Random),
        disc("3", "Buds", AddrKind::Public),
        disc("4", "Buds", AddrKind::Public),
        disc("5", "Buds", AddrKind::Random),
    ];
    let macs: Vec<Vec<String>> = group_discovered(&items).into_iter().map(|g| g.macs).collect();
    assert_eq!(macs, vec![vec!["1", "2", "3", "5"], vec!["4"]]);
}
