use bluerat::bt::{AddrKind, AudioKind, Info};
use bluerat::diag::{
    device_checks, host_checks, pulse_bluez_module, report, routing_failure_hint,
    spa_bluez_paths, spa_bluez_plugin, Check, DeviceFacts, HostFacts, Status,
};
use bluerat::shell::Reply;

fn reply(ok: bool, out: &str) -> Reply {
    Reply { ok, out: out.into(), err: String::new() }
}

fn bare_host() -> HostFacts {
    HostFacts {
        show: reply(false, ""),
        pactl: false,
        server: None,
        present: Vec::new(),
        modules: reply(false, ""),
        iso: false,
    }
}

fn good_host() -> HostFacts {
    HostFacts {
        show: reply(true, "Powered: yes"),
        pactl: true,
        server: Some("PulseAudio (on PipeWire 1.0)".into()),
        present: vec![false, false, true],
        modules: reply(true, ""),
        iso: true,
    }
}

fn buds(audio: AudioKind, connected: bool) -> DeviceFacts {
    DeviceFacts {
        mac: "AA:BB:CC:DD:EE:FF".into(),
        name: "Buds".into(),
        info: Ok(Info { connected, trusted: true, audio, addr: AddrKind::Public, battery: None }),
        iso: false,
        card: None,
        sink: None,
        profile: None,
    }
}

fn values(checks: &Vec<Check>) -> Vec<String> {
    checks.iter().map(|c| format!("{}={}", c.label, c.value)).collect()
}

#[test]
fn report_includes_host_section() {
    for host in vec![bare_host(), good_host()] {
        let text = report(&host, None);
        assert!(text.starts_with("Host\n"));
        assert!(text.contains("LE Audio (ISO)"));
    }
}

#[test]
fn hint_calls_out_le_audio_devices() {
    let hint = routing_failure_hint(AudioKind::LeAudioOnly, false, true);
    assert!(hint.contains("classic address"));
    assert!(!routing_failure_hint(AudioKind::LeAudioOnly, true, true).contains("classic address"));
}

#[test]
fn hint_tells_a_missing_card_from_a_missing_sink() {
    assert_eq!(
        routing_failure_hint(AudioKind::Classic, false, false),
        "no audio sink: the audio backend built no card — bluez plugin missing? (d for details)"
    );
    assert_eq!(
        routing_failure_hint(AudioKind::Classic, false, true),
        "no audio sink appeared — audio stays on the current output (d for details)"
    );
}

#[test]
fn checks_render_with_hints() {
    let mut s = String::new();
    Check::fail("sink", "missing", "do a thing").render(&mut s);
    assert!(s.contains("✗ sink"));
    assert!(s.contains("→ do a thing"));
}

#[test]
fn checks_render_in_columns() {
    let mut s = String::from(">");
    Check::ok("sink", "there").render(&mut s);
    assert_eq!(s, ">  ✓ sink                 there\n");
    let mut s = String::new();
    Check::warn("a label of twenty-two", "x", "one\ntwo").render(&mut s);
    assert_eq!(s, "  ! a label of twenty-two x\n      → one\n      → two\n");
}

#[test]
fn a_bare_host_fails_its_checks() {
    let checks = host_checks(&bare_host());
    assert_eq!(
        values(&checks),
        vec![
            "bluetoothd=not reachable",
            "sound server=pactl not found",
            "LE Audio (ISO)=kernel refuses ISO sockets",
        ]
    );
    assert_eq!(checks[0].ok, Status::Fail);
    assert_eq!(checks[2].ok, Status::Warn);
}

#[test]
fn a_good_host_passes_its_checks() {
    let checks = host_checks(&good_host());
    assert_eq!(
        values(&checks),
        vec![
            "bluetoothd=running",
            "adapter=powered on",
            "sound server=PulseAudio (on PipeWire 1.0)",
            "bluez audio backend=/usr/lib/spa-0.2/bluez5/libspa-bluez5.so",
            "LE Audio (ISO)=supported",
        ]
    );
    assert!(checks.iter().all(|c| c.ok == Status::Good && c.hint.is_none()));
}

#[test]
fn the_audio_backend_is_looked_for_in_turn() {
    let backend = |host: HostFacts| host_checks(&host)[3].value.clone();
    let mut host = good_host();
    host.present = Vec::new();
    assert_eq!(backend(host), "libspa-bluez5.so not found");
    let mut host = good_host();
    host.present = Vec::new();
    host.server = Some("pulseaudio".into());
    host.modules = reply(true, "12\tmodule-bluez5-discover\t");
    assert_eq!(backend(host), "module-bluez5 loaded");
    let mut host = good_host();
    host.present = Vec::new();
    host.server = None;
    assert_eq!(host_checks(&host)[2].value, "not responding");
    assert_eq!(backend(host), "not detected");
    let mut host = good_host();
    host.show = reply(true, "Powered: no");
    assert_eq!(host_checks(&host)[1].value, "powered off");
}

#[test]
fn the_first_installed_plugin_counts() {
    assert_eq!(spa_bluez_paths().len(), 5);
    assert_eq!(
        spa_bluez_plugin(&vec![false, true, true, false, false]).as_deref(),
        Some("/usr/lib/aarch64-linux-gnu/spa-0.2/bluez5/libspa-bluez5.so")
    );
    assert_eq!(spa_bluez_plugin(&vec![false; 5]), None);
    assert!(pulse_bluez_module(&reply(false, "module-bluez5-device")));
    assert!(!pulse_bluez_module(&reply(true, "module-null-sink")));
}

#[test]
fn device_checks_follow_its_state() {
    assert_eq!(
        values(&device_checks(&buds(AudioKind::Classic, false))),
        vec!["address=public", "audio profile=A2DP (classic)", "connected=no"]
    );
    assert_eq!(
        values(&device_checks(&buds(AudioKind::LeAudioOnly, true))),
        vec![
            "address=public",
            "audio profile=LE Audio only",
            "connected=yes",
            "audio card=missing",
            "sink=missing",
        ]
    );
    assert_eq!(
        values(&device_checks(&buds(AudioKind::NoAudio, true))),
        vec![
            "address=public",
            "audio profile=none advertised",
            "connected=yes",
            "audio card=n/a (not an audio device)",
            "sink=n/a",
        ]
    );
    let mut full = buds(AudioKind::LeAudioOnly, true);
    full.iso = true;
    full.card = Some("card".into());
    full.sink = Some("sink0".into());
    full.profile = Some("bap".into());
    assert_eq!(
        values(&device_checks(&full)),
        vec![
            "address=public",
            "audio profile=LE Audio (BAP)",
            "connected=yes",
            "audio card=card",
            "sink=sink0",
            "active profile=bap",
        ]
    );
    let mut unread = buds(AudioKind::Classic, true);
    unread.info = Err("no bus".into());
    let checks = device_checks(&unread);
    assert_eq!(values(&checks), vec!["device=cannot read state"]);
    assert_eq!(checks[0].hint.as_deref(), Some("no bus"));
}

#[test]
fn a_report_adds_the_device() {
    let text = report(&bare_host(), Some(&buds(AudioKind::Classic, false)));
    assert!(text.contains("\nDevice — Buds (AA:BB:CC:DD:EE:FF)\n  ✓ address"));
    assert!(text.ends_with("→ Connect it first; cards and sinks only exist while connected.\n"));
}
