use bluerat::audio::{
    active_profile, card_for, field, parse_card_profiles, profile_label, route_audio, server_name,
    sink_for, sink_matches, toggle_profile, RouteStep,
};
use bluerat::shell::{Reply, Step};

#[test]
fn matches_pipewire_sink_name() {
    assert!(sink_matches(
        "bluez_output.AA_BB_CC_DD_EE_FF.1",
        "AA_BB_CC_DD_EE_FF"
    ));
}

#[test]
fn matches_pulseaudio_sink_name() {
    assert!(sink_matches(
        "bluez_sink.aa_bb_cc_dd_ee_ff.a2dp_sink",
        "AA_BB_CC_DD_EE_FF"
    ));
}

#[test]
fn rejects_other_sinks() {
    assert!(!sink_matches(
        "alsa_output.pci-0000_00_1f.3.analog-stereo",
        "AA_BB_CC_DD_EE_FF"
    ));
}

#[test]
fn parses_card_profiles() {
    let out = "Card #52\n\
               \tName: bluez_card.AA_BB_CC_DD_EE_FF\n\
               \tDriver: module-bluez5-device.c\n\
               \tProfiles:\n\
               \t\ta2dp-sink: High Fidelity Playback (A2DP Sink) (sinks: 1, sources: 0, priority: 40, available: yes)\n\
               \t\theadset-head-unit: Headset Head Unit (HSP/HFP) (sinks: 1, sources: 1, priority: 30, available: yes)\n\
               \t\toff: Off (sinks: 0, sources: 0, priority: 0, available: yes)\n\
               \tActive Profile: a2dp-sink\n\
               Card #53\n\
               \tName: alsa_card.pci-0000_00_1f.3\n";
    let (active, avail) = parse_card_profiles(out, "bluez_card.AA_BB_CC_DD_EE_FF");
    assert_eq!(active.as_deref(), Some("a2dp-sink"));
    assert_eq!(avail, vec!["a2dp-sink", "headset-head-unit"]);
    let (none, empty) = parse_card_profiles(out, "bluez_card.other");
    assert_eq!(none, None);
    assert!(empty.is_empty());
}

#[test]
fn parses_tab_separated_fields() {
    let line =
        "57\tbluez_output.AA_BB_CC_DD_EE_FF.1\tmodule-bluez5-device.c\ts16le 2ch 48000Hz\tIDLE";
    assert_eq!(field(line, 0).as_deref(), Some("57"));
    assert_eq!(field(line, 1).as_deref(), Some("bluez_output.AA_BB_CC_DD_EE_FF.1"));
}

const MAC: &str = "AA:BB:CC:DD:EE:FF";
const SINK: &str = "57\tbluez_output.AA_BB_CC_DD_EE_FF.1\tmodule\n";
const CARD: &str = "52\tbluez_card.AA_BB_CC_DD_EE_FF\tmodule\n";
const CARDS: &str = "Name: bluez_card.AA_BB_CC_DD_EE_FF\nProfiles:\n\
    a2dp-sink: A2DP (available: yes)\n\
    headset-head-unit: HFP (available: yes)\n\
    Active Profile: a2dp-sink\n";

fn ok(out: &str) -> Reply {
    Reply { ok: true, out: out.into(), err: String::new() }
}

fn bad() -> Reply {
    Reply { ok: false, out: String::new(), err: String::new() }
}

#[test]
fn fields_run_out() {
    assert_eq!(field("a\tb", 2), None);
    assert_eq!(field("", 0).as_deref(), Some(""));
}

#[test]
fn routing_waits_for_the_sink_and_moves_every_stream() {
    let mut replies = Vec::new();
    match route_audio(MAC, &replies) {
        RouteStep::Poll { note, wait, args } => {
            assert_eq!(note, None);
            assert!(!wait);
            assert_eq!(args, vec!["list", "short", "sinks"]);
        }
        _ => panic!("expected a look for the sink"),
    }
    replies.push(ok("1\talsa\n"));
    match route_audio(MAC, &replies) {
        RouteStep::Poll { note, wait, .. } => {
            assert_eq!(note.as_deref(), Some("Waiting for audio sink… (1/8)"));
            assert!(wait);
        }
        _ => panic!("expected another look"),
    }
    replies.push(ok(SINK));
    assert!(matches!(route_audio(MAC, &replies), RouteStep::Run(ref a)
        if a == &["set-default-sink", "bluez_output.AA_BB_CC_DD_EE_FF.1"]));
    replies.push(ok(""));
    assert!(matches!(route_audio(MAC, &replies), RouteStep::Run(ref a)
        if a == &["list", "short", "sink-inputs"]));
    replies.push(ok("7\tx\n9\ty\n"));
    assert!(matches!(route_audio(MAC, &replies), RouteStep::Run(ref a)
        if a == &["move-sink-input", "7", "bluez_output.AA_BB_CC_DD_EE_FF.1"]));
    replies.push(bad());
    assert!(matches!(route_audio(MAC, &replies), RouteStep::Run(ref a)
        if a == &["move-sink-input", "9", "bluez_output.AA_BB_CC_DD_EE_FF.1"]));
    replies.push(ok(""));
    assert!(matches!(route_audio(MAC, &replies), RouteStep::Done(true)));
}

#[test]
fn routing_gives_up_after_nine_looks() {
    let mut replies = Vec::new();
    for _ in 0..8 {
        replies.push(ok(""));
    }
    match route_audio(MAC, &replies) {
        RouteStep::Poll { note, .. } => {
            assert_eq!(note.as_deref(), Some("Waiting for audio sink… (8/8)"))
        }
        _ => panic!("expected a last look"),
    }
    replies.push(ok(""));
    assert!(matches!(route_audio(MAC, &replies), RouteStep::Done(false)));
}

#[test]
fn routing_fails_where_the_default_cannot_be_set() {
    assert!(matches!(route_audio(MAC, &vec![ok(SINK), bad()]), RouteStep::Done(false)));
}

#[test]
fn toggling_switches_to_the_other_kind() {
    assert!(matches!(toggle_profile(MAC, &Vec::new()), Step::Run(ref a)
        if a == &["list", "short", "cards"]));
    assert!(matches!(toggle_profile(MAC, &vec![ok(CARD)]), Step::Run(ref a)
        if a == &["list", "cards"]));
    assert!(matches!(toggle_profile(MAC, &vec![ok(CARD), ok(CARDS)]), Step::Run(ref a)
        if a == &["set-card-profile", "bluez_card.AA_BB_CC_DD_EE_FF", "headset-head-unit"]));
    assert!(matches!(toggle_profile(MAC, &vec![ok(CARD), ok(CARDS), ok("")]), Step::Done(Ok(ref p))
        if p == "headset-head-unit"));
    assert!(matches!(toggle_profile(MAC, &vec![ok(CARD), ok(CARDS), bad()]), Step::Done(Err(ref e))
        if e == "failed to switch profile to headset-head-unit"));
}

#[test]
fn toggling_says_why_it_cannot() {
    let err = |replies: Vec<Reply>| match toggle_profile(MAC, &replies) {
        Step::Done(Err(e)) => e,
        _ => panic!("expected an error"),
    };
    assert_eq!(err(vec![ok("")]), "no audio card for this device (is it connected?)");
    assert_eq!(err(vec![ok(CARD), ok("")]), "could not determine active profile");
    let only = |p: &str| {
        ok(&format!("Name: bluez_card.AA_BB_CC_DD_EE_FF\nActive Profile: {}\n", p))
    };
    assert_eq!(err(vec![ok(CARD), only("a2dp-sink")]), "device has no headset/mic profile");
    assert_eq!(err(vec![ok(CARD), only("headset-head-unit")]), "device has no A2DP profile");
}

#[test]
fn lookups_find_the_devices_own_entries() {
    assert!(matches!(card_for(MAC, &Vec::new()), Step::Run(ref a) if a == &["list", "short", "cards"]));
    assert!(matches!(card_for(MAC, &vec![ok(CARD)]), Step::Done(Some(ref c))
        if c == "bluez_card.AA_BB_CC_DD_EE_FF"));
    assert!(matches!(sink_for(MAC, &Vec::new()), Step::Run(ref a) if a == &["list", "short", "sinks"]));
    assert!(matches!(sink_for(MAC, &vec![ok("1\talsa")]), Step::Done(None)));
    assert!(matches!(active_profile(MAC, &vec![ok(CARD)]), Step::Run(ref a) if a == &["list", "cards"]));
    assert!(matches!(active_profile(MAC, &vec![ok(CARD), ok(CARDS)]), Step::Done(Some(ref p))
        if p == "a2dp-sink"));
    assert!(matches!(active_profile(MAC, &vec![ok("")]), Step::Done(None)));
    assert!(matches!(server_name(&Vec::new()), Step::Run(ref a) if a == &["info"]));
    assert!(matches!(server_name(&vec![ok("User: x\nServer Name: PulseAudio (on PipeWire)\n")]),
        Step::Done(Some(ref s)) if s == "PulseAudio (on PipeWire)"));
    assert!(matches!(server_name(&vec![bad()]), Step::Done(None)));
}

#[test]
fn profiles_are_labelled() {
    assert_eq!(profile_label("a2dp-sink"), "A2DP (high quality)");
    assert_eq!(profile_label("bap-sink"), "LE Audio (BAP)");
    assert_eq!(profile_label("headset-head-unit"), "headset (microphone enabled)");
}
