use bluerat::bt::{AddrKind, AudioKind, Device, Discovered, Info, PairEvent};
use bluerat::shell::Reply;
use bluerat::worker::moves::Move;
use bluerat::worker::task::{Action, Event, Task, Turn};
use bluerat::worker::{carry_out, expects, run, start, Cmd, Msg, Tone};

/// Answer a turn's action.
fn answer(turn: Turn, event: Event) -> Turn {
    assert!(expects(&turn.task, &event), "the task waits for something else");
    run(turn.task, event, true)
}

fn begin(cmd: Cmd) -> Turn {
    match start(cmd, true) {
        Some(turn) => turn,
        None => panic!("the command should be carried out"),
    }
}

fn statuses(turn: &Turn) -> Vec<(String, Tone)> {
    turn.say
        .iter()
        .filter_map(|m| match m {
            Msg::Status(s, tone) => Some((s.clone(), *tone)),
            _ => None,
        })
        .collect()
}

fn progress(turn: &Turn) -> Vec<String> {
    turn.say
        .iter()
        .filter_map(|m| match m {
            Msg::Progress(s) => Some(s.clone()),
            _ => None,
        })
        .collect()
}

fn status(text: &str, tone: Tone) -> Vec<(String, Tone)> {
    vec![(text.to_string(), tone)]
}

fn state(connected: bool, audio: AudioKind) -> Event {
    Event::State(Ok(Info { connected, trusted: connected, audio, addr: AddrKind::Public, battery: None }))
}

fn disc(mac: &str, name: &str, addr: AddrKind) -> Discovered {
    Discovered { mac: mac.into(), name: name.into(), addr }
}

fn toggle() -> Cmd {
    Cmd::ToggleConnect { mac: "AA".into(), name: "Buds".into() }
}

fn pairing(candidates: Vec<&str>) -> Turn {
    let turn = begin(Cmd::PairConnect {
        candidates: candidates.iter().map(|s| s.to_string()).collect(),
        name: "Buds".into(),
        others: vec![disc("AA", "Buds", AddrKind::Public), disc("ZZ", "Phone", AddrKind::Public)],
    });
    let turn = answer(turn, Event::Powered(Ok(())));
    assert_eq!(progress(&turn), vec!["Pairing Buds…"]);
    let ranked = match turn.action {
        Action::Rank(ref macs) => macs.clone(),
        _ => panic!("the addresses should be ranked"),
    };
    answer(turn, Event::Ranked(ranked))
}

/// The list that a turn reopens the picker with.
fn reopened(turn: &Turn) -> Vec<String> {
    match turn.action {
        Action::Send(Msg::ScanResults(ref items)) => items.iter().map(|d| d.mac.clone()).collect(),
        _ => panic!("the picker should reopen"),
    }
}

#[test]
fn stray_answers_are_ignored() {
    assert!(start(Cmd::PairReply("yes".into()), true).is_none());
}

#[test]
fn every_command_ends_with_a_list_and_one_op_done() {
    let turn = begin(Cmd::AutoRefresh);
    assert!(matches!(turn.action, Action::ListPaired));
    let device = Device { mac: "AA".into(), name: "Buds".into(), connected: true, trusted: true, battery: None };
    let turn = answer(turn, Event::Listed(Ok(vec![device])));
    assert!(matches!(turn.action, Action::Finish(true)));
    assert_eq!(turn.say.len(), 2);
    assert!(matches!(turn.say[0], Msg::Devices(ref ds) if ds.len() == 1));
    assert!(matches!(turn.say[1], Msg::OpDone));
    assert!(matches!(turn.task, Task::Over));
}

#[test]
fn a_failed_listing_is_retried_once() {
    let turn = begin(Cmd::AutoRefresh);
    let turn = answer(turn, Event::Listed(Err("hiccup".into())));
    assert!(matches!(turn.action, Action::Pause(300)));
    assert!(turn.say.is_empty());
    let turn = answer(turn, Event::Rested);
    assert!(matches!(turn.action, Action::ListPaired));
    let turn = answer(turn, Event::Listed(Err("dead".into())));
    assert!(matches!(turn.action, Action::Finish(true)));
    assert_eq!(statuses(&turn), status("Device list may be stale: dead", Tone::Warn));
    assert!(matches!(turn.say[1], Msg::OpDone));
}

#[test]
fn refresh_powers_the_adapter_and_auto_refresh_does_not() {
    let turn = begin(Cmd::Refresh);
    assert!(matches!(turn.action, Action::AdapterUp));
    let turn = answer(turn, Event::Powered(Err("blocked".into())));
    assert_eq!(statuses(&turn), status("blocked", Tone::Failure));
    assert!(matches!(turn.action, Action::ListPaired));
    assert!(matches!(begin(Cmd::AutoRefresh).action, Action::ListPaired));
}

#[test]
fn toggling_disconnects_a_connected_device() {
    let turn = answer(begin(toggle()), Event::Powered(Ok(())));
    assert!(matches!(turn.action, Action::Info(ref mac) if mac == "AA"));
    let turn = answer(turn, state(true, AudioKind::Classic));
    assert_eq!(progress(&turn), vec!["Disconnecting Buds…"]);
    assert!(matches!(turn.action, Action::Disconnect(ref mac) if mac == "AA"));
    let turn = answer(turn, Event::Done(true));
    assert_eq!(statuses(&turn), status("Disconnected Buds", Tone::Success));
}

#[test]
fn toggling_reports_what_fails() {
    let turn = answer(begin(toggle()), Event::Powered(Ok(())));
    let turn = answer(turn, Event::State(Err("no bus".into())));
    assert_eq!(statuses(&turn), status("Cannot read state of Buds: no bus", Tone::Failure));
    assert!(matches!(turn.action, Action::ListPaired));

    let turn = answer(begin(toggle()), Event::Powered(Ok(())));
    let turn = answer(turn, state(true, AudioKind::Classic));
    let turn = answer(turn, Event::Done(false));
    assert_eq!(statuses(&turn), status("Failed to disconnect Buds", Tone::Failure));

    let turn = answer(begin(toggle()), Event::Powered(Ok(())));
    let turn = answer(turn, state(false, AudioKind::Classic));
    assert_eq!(progress(&turn), vec!["Connecting Buds…"]);
    let turn = answer(turn, Event::Done(false));
    assert_eq!(
        statuses(&turn),
        status("Connect failed (is the device on / out of the case?)", Tone::Failure)
    );
}

fn connected(kind: AudioKind) -> Turn {
    let turn = answer(begin(toggle()), Event::Powered(Ok(())));
    let turn = answer(turn, state(false, kind));
    assert!(matches!(turn.action, Action::Connect(ref mac) if mac == "AA"));
    answer(turn, Event::Done(true))
}

#[test]
fn a_mouse_does_not_wait_for_a_sink() {
    let turn = connected(AudioKind::NoAudio);
    assert_eq!(statuses(&turn), status("Connected Buds", Tone::Success));
    assert!(matches!(turn.action, Action::ListPaired));
}

#[test]
fn headphones_get_the_audio() {
    let turn = connected(AudioKind::Classic);
    assert!(matches!(turn.action, Action::Route(ref mac) if mac == "AA"));
    let turn = answer(turn, Event::Routed(true));
    assert_eq!(
        statuses(&turn),
        vec![
            ("Audio routed".to_string(), Tone::Success),
            ("Connected Buds".to_string(), Tone::Success),
        ]
    );
}

#[test]
fn a_failed_routing_is_explained() {
    let turn = answer(connected(AudioKind::Classic), Event::Routed(false));
    assert!(matches!(turn.action, Action::RoutingFacts(ref mac) if mac == "AA"));
    let turn = answer(turn, Event::Facts { iso: false, has_card: false });
    let said = statuses(&turn);
    assert!(said[0].0.contains("built no card"));
    assert_eq!(said[0].1, Tone::Warn);
    assert_eq!(said[1].0, "Connected Buds");
}

#[test]
fn le_audio_without_iso_is_not_polled_for() {
    let turn = connected(AudioKind::LeAudioOnly);
    assert!(matches!(turn.action, Action::ProbeIso));
    let turn = answer(turn, Event::Iso(false));
    assert!(matches!(turn.action, Action::ListPaired));
    assert!(statuses(&turn)[0].0.contains("classic address"));

    let turn = answer(connected(AudioKind::LeAudioOnly), Event::Iso(true));
    assert!(matches!(turn.action, Action::Route(_)));
}

#[test]
fn without_pactl_routing_says_so() {
    let turn = match start(toggle(), false) {
        Some(turn) => turn,
        None => panic!("the command should be carried out"),
    };
    let turn = run(turn.task, Event::Powered(Ok(())), false);
    let turn = run(turn.task, state(false, AudioKind::Classic), false);
    let turn = run(turn.task, Event::Done(true), false);
    assert_eq!(
        statuses(&turn)[0],
        ("Connected, but audio cannot be routed ('pactl' not found)".to_string(), Tone::Warn)
    );
    let turn = match start(Cmd::ToggleProfile { mac: "AA".into(), name: "Buds".into() }, false) {
        Some(turn) => turn,
        None => panic!("the command should be carried out"),
    };
    assert_eq!(
        statuses(&turn),
        status("pactl not available — cannot switch profiles", Tone::Failure)
    );
}

fn scanning() -> Turn {
    let turn = answer(begin(Cmd::Scan), Event::Powered(Ok(())));
    assert!(matches!(turn.action, Action::Send(Msg::ScanStarted)));
    let turn = answer(turn, Event::Sent(true));
    assert_eq!(progress(&turn), vec!["Scanning ~10s — put the device in pairing mode…"]);
    assert!(matches!(turn.action, Action::Discover));
    let turn = answer(turn, Event::Discovered(Ok(vec![disc("AA", "Buds", AddrKind::Unknown)])));
    assert!(matches!(turn.action, Action::FillKinds(ref items) if items.len() == 1));
    let turn = answer(turn, Event::Classified(vec![disc("AA", "Buds", AddrKind::Public)]));
    assert!(matches!(turn.say[0], Msg::Found(ref d) if d.mac == "AA"));
    assert!(matches!(turn.action, Action::ScanLive(10)));
    turn
}

#[test]
fn a_scan_streams_devices_and_ends_with_the_full_list() {
    let turn = answer(scanning(), Event::Announced(disc("BB", "Phone", AddrKind::Unknown)));
    assert!(turn.say.is_empty());
    assert!(matches!(turn.action, Action::FillKinds(ref items) if items[0].mac == "BB"));
    let turn = answer(turn, Event::Classified(vec![disc("BB", "Phone", AddrKind::Random)]));
    assert!(matches!(turn.say[0], Msg::Found(ref d) if d.addr == AddrKind::Random));
    assert!(matches!(turn.action, Action::NextFind));
    // A known address is not looked up again.
    let turn = answer(turn, Event::Announced(disc("BB", "My Phone", AddrKind::Unknown)));
    assert!(matches!(turn.say[0], Msg::Found(ref d)
        if d.addr == AddrKind::Random && d.name == "My Phone"));
    assert!(matches!(turn.action, Action::NextFind));
    let turn = answer(turn, Event::ScanEnded);
    assert!(matches!(turn.action, Action::Discover));
    let turn = answer(turn, Event::Discovered(Ok(vec![disc("CC", "TV", AddrKind::Unknown)])));
    let turn = answer(turn, Event::Classified(vec![disc("CC", "TV", AddrKind::Public)]));
    assert_eq!(reopened(&turn), vec!["CC"]);
    let turn = answer(turn, Event::Sent(true));
    assert!(matches!(turn.action, Action::ListPaired));
}

#[test]
fn a_scan_that_finds_nothing_says_so() {
    let turn = answer(scanning(), Event::ScanEnded);
    let turn = answer(turn, Event::Discovered(Ok(Vec::new())));
    assert_eq!(statuses(&turn), status("Nothing new found", Tone::Info));
}

#[test]
fn a_failed_listing_hands_back_what_was_seen() {
    let turn = answer(scanning(), Event::Announced(disc("AA", "Renamed", AddrKind::Unknown)));
    let turn = answer(turn, Event::ScanEnded);
    let turn = answer(turn, Event::Discovered(Err("gone".into())));
    assert_eq!(statuses(&turn), status("Scan listing failed: gone", Tone::Failure));
    assert!(matches!(turn.action, Action::Send(Msg::ScanResults(ref items))
        if items.len() == 1 && items[0].name == "Renamed" && items[0].addr == AddrKind::Public));
}

#[test]
fn a_vanished_user_interface_stops_the_worker() {
    let turn = answer(begin(Cmd::Scan), Event::Powered(Ok(())));
    let turn = answer(turn, Event::Sent(false));
    assert!(matches!(turn.action, Action::ListPaired));
    let turn = answer(turn, Event::Listed(Ok(Vec::new())));
    assert!(matches!(turn.action, Action::Finish(false)));
}

#[test]
fn pairing_trusts_and_connects() {
    let turn = pairing(vec!["AA"]);
    assert!(turn.say.is_empty());
    assert!(matches!(turn.action, Action::PairInteractive(ref mac) if mac == "AA"));
    let turn = answer(turn, Event::PairEnded(Some(true)));
    assert!(matches!(turn.action, Action::Trust(ref mac) if mac == "AA"));
    let turn = answer(turn, Event::Done(false));
    assert_eq!(progress(&turn), vec!["Connecting Buds…"]);
    assert!(matches!(turn.action, Action::Connect(ref mac) if mac == "AA"));
    let turn = answer(turn, Event::Done(true));
    assert!(matches!(turn.action, Action::Info(ref mac) if mac == "AA"));
    let turn = answer(turn, Event::State(Err("no bus".into())));
    assert_eq!(statuses(&turn), status("Paired & connected Buds", Tone::Success));
}

#[test]
fn pairing_may_connect_in_vain() {
    let turn = answer(pairing(vec!["AA"]), Event::PairEnded(Some(true)));
    let turn = answer(turn, Event::Done(true));
    let turn = answer(turn, Event::Done(false));
    assert_eq!(
        statuses(&turn),
        status("Paired Buds, but connect failed — press Enter on it to retry", Tone::Warn)
    );
}

#[test]
fn a_refused_address_leads_to_the_next() {
    let turn = pairing(vec!["AA", "BB"]);
    assert_eq!(progress(&turn), vec!["Pairing Buds — address 1/2…"]);
    let turn = answer(turn, Event::PairEnded(Some(false)));
    assert_eq!(
        progress(&turn),
        vec!["Buds: address 1 refused, trying the next…", "Pairing Buds — address 2/2…"]
    );
    assert!(matches!(turn.action, Action::PairInteractive(ref mac) if mac == "BB"));
    let turn = answer(turn, Event::PairEnded(None));
    assert!(matches!(turn.action, Action::Pair(ref mac) if mac == "BB"));
    let turn = answer(turn, Event::Done(false));
    assert_eq!(
        statuses(&turn),
        status("Pairing failed: Buds — pick a device to retry, Esc to leave", Tone::Failure)
    );
    assert_eq!(reopened(&turn), vec!["AA", "ZZ"]);
}

#[test]
fn declining_a_prompt_stops_the_pairing() {
    for answer_text in vec!["", "no"] {
        let turn = answer(pairing(vec!["AA", "BB"]), Event::Prompt(PairEvent::RequestPin));
        assert!(matches!(turn.action, Action::Send(Msg::PairPrompt { pin: true, ref passkey })
            if passkey.is_empty()));
        let turn = answer(turn, Event::Sent(true));
        assert!(matches!(turn.action, Action::Receive));
        // Nothing else is expected meanwhile.
        let turn = answer(turn, Event::Received(Some(Cmd::Refresh)));
        assert!(matches!(turn.action, Action::Receive));
        let turn = answer(turn, Event::Received(Some(Cmd::PairReply(answer_text.into()))));
        assert!(matches!(turn.action, Action::Answer(Some(ref a)) if a == answer_text));
        let turn = answer(turn, Event::PairEnded(Some(false)));
        assert_eq!(statuses(&turn), status("Pairing cancelled: Buds", Tone::Info));
        assert_eq!(reopened(&turn), vec!["AA", "ZZ"]);
    }
}

#[test]
fn a_confirmed_passkey_goes_on() {
    let prompt = Event::Prompt(PairEvent::ConfirmPasskey("461829".into()));
    let turn = answer(pairing(vec!["AA"]), prompt);
    assert!(matches!(turn.action, Action::Send(Msg::PairPrompt { pin: false, ref passkey })
        if passkey == "461829"));
    let turn = answer(turn, Event::Sent(true));
    let turn = answer(turn, Event::Received(Some(Cmd::PairReply("yes".into()))));
    let turn = answer(turn, Event::PairEnded(Some(true)));
    assert!(matches!(turn.action, Action::Trust(_)));
}

#[test]
fn a_prompt_that_no_one_sees_is_declined() {
    let turn = answer(pairing(vec!["AA", "BB"]), Event::Prompt(PairEvent::RequestPin));
    let turn = answer(turn, Event::Sent(false));
    assert!(matches!(turn.action, Action::Answer(None)));
    let turn = answer(turn, Event::PairEnded(Some(false)));
    assert_eq!(statuses(&turn), status("Pairing cancelled: Buds", Tone::Info));

    let turn = answer(pairing(vec!["AA"]), Event::Prompt(PairEvent::RequestPin));
    let turn = answer(turn, Event::Sent(true));
    let turn = answer(turn, Event::Received(None));
    assert!(matches!(turn.action, Action::Answer(None)));
}

#[test]
fn pairing_without_candidates_fails_at_once() {
    let turn = pairing(Vec::new());
    assert_eq!(reopened(&turn), vec!["AA", "ZZ"]);
    assert_eq!(statuses(&turn)[0].1, Tone::Failure);
}

#[test]
fn trust_is_toggled_by_live_state() {
    let cmd = || Cmd::ToggleTrust { mac: "AA".into() };
    let turn = answer(begin(cmd()), state(true, AudioKind::Classic));
    assert!(matches!(turn.action, Action::Untrust(ref mac) if mac == "AA"));
    assert_eq!(statuses(&answer(turn, Event::Done(true))), status("Untrusted AA", Tone::Success));
    let turn = answer(begin(cmd()), state(true, AudioKind::Classic));
    assert_eq!(
        statuses(&answer(turn, Event::Done(false))),
        status("Failed to untrust AA", Tone::Failure)
    );
    let turn = answer(begin(cmd()), state(false, AudioKind::Classic));
    assert!(matches!(turn.action, Action::Trust(ref mac) if mac == "AA"));
    assert_eq!(statuses(&answer(turn, Event::Done(true))), status("Trusted AA", Tone::Success));
    let turn = answer(begin(cmd()), state(false, AudioKind::Classic));
    assert_eq!(
        statuses(&answer(turn, Event::Done(false))),
        status("Failed to trust AA", Tone::Failure)
    );
    let turn = answer(begin(cmd()), Event::State(Err("no bus".into())));
    assert_eq!(statuses(&turn), status("Cannot read state of AA: no bus", Tone::Failure));
}

#[test]
fn removing_reports_its_outcome() {
    let cmd = || Cmd::Remove { mac: "AA".into() };
    let turn = begin(cmd());
    assert!(matches!(turn.action, Action::Remove(ref mac) if mac == "AA"));
    assert_eq!(statuses(&answer(turn, Event::Done(true))), status("Removed", Tone::Success));
    let turn = answer(begin(cmd()), Event::Done(false));
    assert_eq!(statuses(&turn), status("Failed to remove AA", Tone::Failure));
}

#[test]
fn profiles_are_switched_and_named() {
    let cmd = || Cmd::ToggleProfile { mac: "AA".into(), name: "Buds".into() };
    let turn = begin(cmd());
    assert_eq!(progress(&turn), vec!["Switching audio profile of Buds…"]);
    assert!(matches!(turn.action, Action::SwitchProfile(ref mac) if mac == "AA"));
    let turn = answer(turn, Event::Switched(Ok("a2dp-sink".into())));
    assert_eq!(statuses(&turn), status("Buds: switched to A2DP (high quality)", Tone::Success));
    let turn = answer(begin(cmd()), Event::Switched(Err("no card".into())));
    assert_eq!(statuses(&turn), status("Profile switch failed: no card", Tone::Failure));
}

#[test]
fn details_and_reports_open_the_popup() {
    let cmd = || Cmd::Details { mac: "AA".into(), name: "Buds".into() };
    let turn = begin(cmd());
    assert!(matches!(turn.action, Action::InfoRaw(ref mac) if mac == "AA"));
    let turn = answer(turn, Event::Text(Ok("raw".into())));
    assert!(matches!(turn.say[0], Msg::Details { ref name, ref text } if name == "Buds" && text == "raw"));
    let turn = answer(begin(cmd()), Event::Text(Err("no bus".into())));
    assert_eq!(statuses(&turn), status("Cannot read info of Buds: no bus", Tone::Failure));

    let turn = begin(Cmd::Doctor { device: Some(("AA".into(), "Buds".into())) });
    assert_eq!(progress(&turn), vec!["Running diagnostics…"]);
    assert!(matches!(turn.action, Action::Report(Some(ref d)) if d.0 == "AA" && d.1 == "Buds"));
    let turn = answer(turn, Event::Reported("Host\n".into()));
    assert!(matches!(turn.say[0], Msg::Details { ref name, .. } if name == "Audio diagnostics"));
}

#[test]
fn answers_out_of_turn_are_told_apart() {
    let turn = begin(Cmd::AutoRefresh);
    assert!(!expects(&turn.task, &Event::Rested));
    assert!(!expects(&Task::Over, &Event::Rested));
}

fn reply(ok: bool, out: &str) -> Reply {
    Reply { ok, out: out.into(), err: String::new() }
}

#[test]
fn actions_on_an_address_take_one_call() {
    let mac = || "AA".to_string();
    for (action, word) in vec![
        (Action::Connect(mac()), "connect"),
        (Action::Disconnect(mac()), "disconnect"),
        (Action::Pair(mac()), "pair"),
        (Action::Trust(mac()), "trust"),
        (Action::Untrust(mac()), "untrust"),
        (Action::Remove(mac()), "remove"),
    ] {
        assert!(matches!(carry_out(&action, &Vec::new()), Move::Ctl(ref args) if args == &[word, "AA"]));
        assert!(matches!(carry_out(&action, &vec![reply(true, "")]), Move::Ready(Event::Done(true))));
        assert!(matches!(carry_out(&action, &vec![reply(false, "")]), Move::Ready(Event::Done(false))));
    }
}

#[test]
fn queries_come_to_their_events() {
    let info = Action::Info("AA".into());
    assert!(matches!(carry_out(&info, &Vec::new()), Move::Ctl(ref args) if args == &["info", "AA"]));
    assert!(matches!(carry_out(&info, &vec![reply(true, "Connected: yes")]),
        Move::Ready(Event::State(Ok(ref i))) if i.connected));
    let raw = Action::InfoRaw("AA".into());
    assert!(matches!(carry_out(&raw, &vec![reply(false, "why")]),
        Move::Ready(Event::Text(Err(ref e))) if e == "why"));
    assert!(matches!(carry_out(&Action::AdapterUp, &vec![reply(true, "Powered: no")]),
        Move::Ctl(ref args) if args == &["power", "on"]));
    assert!(matches!(carry_out(&Action::ListPaired, &Vec::new()),
        Move::Ctl(ref args) if args == &["devices", "Paired"]));
    assert!(matches!(carry_out(&Action::Discover, &vec![reply(true, "Device AA x"), reply(true, "Device BB y")]),
        Move::Ready(Event::Discovered(Ok(ref items))) if items.len() == 1));
    assert!(matches!(carry_out(&Action::Rank(vec!["AA".into()]), &vec![reply(false, "")]),
        Move::Ready(Event::Ranked(ref best)) if best == &["AA"]));
    assert!(matches!(carry_out(&Action::FillKinds(Vec::new()), &Vec::new()),
        Move::Ready(Event::Classified(ref items)) if items.is_empty()));
}

#[test]
fn audio_actions_go_to_pactl() {
    let route = Action::Route("AA".into());
    assert!(matches!(carry_out(&route, &Vec::new()),
        Move::Poll { note: None, wait: false, ref args } if args == &["list", "short", "sinks"]));
    assert!(matches!(carry_out(&route, &vec![reply(true, "1\tsink.AA"), reply(false, "")]),
        Move::Ready(Event::Routed(false))));
    assert!(matches!(carry_out(&route, &vec![reply(true, "1\tsink.AA")]),
        Move::Pactl(ref args) if args == &["set-default-sink", "sink.AA"]));
    let switch = Action::SwitchProfile("AA".into());
    assert!(matches!(carry_out(&switch, &Vec::new()),
        Move::Pactl(ref args) if args == &["list", "short", "cards"]));
    assert!(matches!(carry_out(&switch, &vec![reply(true, "")]), Move::Ready(Event::Switched(Err(_)))));
}

#[test]
fn other_actions_take_more_than_tool_calls() {
    for action in vec![
        Action::ScanLive(10),
        Action::NextFind,
        Action::PairInteractive("AA".into()),
        Action::Answer(None),
        Action::Receive,
        Action::Send(Msg::OpDone),
        Action::ProbeIso,
        Action::RoutingFacts("AA".into()),
        Action::Report(None),
        Action::Pause(300),
        Action::Finish(true),
    ] {
        assert!(matches!(carry_out(&action, &Vec::new()), Move::Elsewhere));
    }
}
