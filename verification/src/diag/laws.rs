//! What a diagnosis finds, whatever the host and the device are like.

use vstd::prelude::*;

use crate::bt::reading::{flag_line, has_line, lemma_flag, only_on};
use crate::bt::{AudioKind, Info};
use crate::text;
use crate::text::laws::{padding_only_adds_blanks, parts_occur, prefixes_come_off};
use crate::text::{has_prefix, line_seq, occurs};

use super::{
    all_rendered, backend_paths, device_report, failure_hint, first_present, host_report,
    lemma_occurs_shifted, remedy, rendered, report_text, CheckModel, DeviceFactsModel,
    HostFactsModel, Status, LE_ONLY, NOT_CONNECTED, NO_BACKEND, NO_CARD, NO_DAEMON, NO_ISO,
    NO_PACTL, NO_PLUGIN, NO_PROFILE, NO_SERVER, NO_SINK, POWERED_OFF, RANDOM_ADDRESS,
};

verus! {

/// The checks tell this of what goes by the label: there is such a check, and
/// each that there is has that status and value, and a remedy exactly where it
/// is no good news.
pub open spec fn finds(
    checks: Seq<CheckModel>,
    label: Seq<char>,
    ok: Status,
    value: Seq<char>,
) -> bool {
    &&& exists|i: int| 0 <= i < checks.len() && (#[trigger] checks[i]).label == label
    &&& forall|i: int|
        0 <= i < checks.len() && (#[trigger] checks[i]).label == label ==> checks[i].ok == ok
            && checks[i].value == value && (checks[i].hint is None <==> ok is Good)
}

/// The checks tell nothing of what goes by the label.
pub open spec fn silent_on(checks: Seq<CheckModel>, label: Seq<char>) -> bool {
    forall|i: int| 0 <= i < checks.len() ==> (#[trigger] checks[i]).label != label
}

proof fn lemma_labels()
    ensures
        "device"@.len() == 6,
        "address"@.len() == 7,
        "audio profile"@.len() == 13,
        "connected"@.len() == 9,
        "audio card"@.len() == 10,
        "sink"@.len() == 4,
        "active profile"@.len() == 14,
        "bluetoothd"@.len() == 10,
        "bluetoothd"@[0] == 'b',
        "adapter"@.len() == 7,
        "sound server"@.len() == 12,
        "bluez audio backend"@.len() == 19,
        "LE Audio (ISO)"@.len() == 14,
{
    reveal_strlit("device");
    reveal_strlit("address");
    reveal_strlit("audio profile");
    reveal_strlit("connected");
    reveal_strlit("audio card");
    reveal_strlit("sink");
    reveal_strlit("active profile");
    reveal_strlit("bluetoothd");
    reveal_strlit("adapter");
    reveal_strlit("sound server");
    reveal_strlit("bluez audio backend");
    reveal_strlit("LE Audio (ISO)");
}

// ---------------------------------------------------------------------------
// A device
// ---------------------------------------------------------------------------

/// A device whose state cannot be read is reported so, with the reason, and
/// nothing else is claimed of it.
pub proof fn unreadable_devices_are_reported(d: DeviceFactsModel)
    requires
        d.info is Err,
    ensures
        finds(device_report(d), "device"@, Status::Fail, "cannot read state"@),
        device_report(d).len() == 1,
        device_report(d)[0].hint == Some(d.info->Err_0),
{
    assert(device_report(d)[0].label == "device"@);
}

/// A random address is warned of, since it carries no classic audio; any other
/// is not.
pub proof fn random_addresses_are_warned_of(d: DeviceFactsModel, info: Info)
    requires
        d.info == Ok::<Info, Seq<char>>(info),
    ensures
        info.addr is Public ==> finds(device_report(d), "address"@, Status::Good, "public"@),
        info.addr is Random ==> finds(
            device_report(d),
            "address"@,
            Status::Warn,
            "random (LE only)"@,
        ),
        info.addr is Unknown ==> finds(device_report(d), "address"@, Status::Good, "unknown"@),
{
    lemma_labels();
    assert(device_report(d)[0].label == "address"@);
}

/// A device can play classic audio, or LE Audio where the kernel carries it; one
/// that can play neither fails, and one that offers no audio is warned of.
pub proof fn transports_are_judged(d: DeviceFactsModel, info: Info)
    requires
        d.info == Ok::<Info, Seq<char>>(info),
    ensures
        info.audio is Classic ==> finds(
            device_report(d),
            "audio profile"@,
            Status::Good,
            "A2DP (classic)"@,
        ),
        info.audio is LeAudioOnly && d.iso ==> finds(
            device_report(d),
            "audio profile"@,
            Status::Good,
            "LE Audio (BAP)"@,
        ),
        info.audio is LeAudioOnly && !d.iso ==> finds(
            device_report(d),
            "audio profile"@,
            Status::Fail,
            "LE Audio only"@,
        ),
        info.audio is NoAudio ==> finds(
            device_report(d),
            "audio profile"@,
            Status::Warn,
            "none advertised"@,
        ),
{
    lemma_labels();
    assert(device_report(d)[1].label == "audio profile"@);
}

/// A device that is not connected is warned of, and then nothing is claimed of a
/// card or a sink, which exist only while it is.
pub proof fn disconnected_devices_are_warned_of(d: DeviceFactsModel, info: Info)
    requires
        d.info == Ok::<Info, Seq<char>>(info),
    ensures
        info.connected ==> finds(device_report(d), "connected"@, Status::Good, "yes"@),
        !info.connected ==> finds(device_report(d), "connected"@, Status::Warn, "no"@) && silent_on(
            device_report(d),
            "audio card"@,
        ) && silent_on(device_report(d), "sink"@) && silent_on(
            device_report(d),
            "active profile"@,
        ),
{
    lemma_labels();
    assert(device_report(d)[2].label == "connected"@);
}

/// A connected audio device without a card fails, and so does one without a
/// sink: that is the failure a diagnosis is for. Where there is one it is named.
/// Only a device that offers no audio may do without.
pub proof fn missing_cards_and_sinks_are_found(d: DeviceFactsModel, info: Info)
    requires
        d.info == Ok::<Info, Seq<char>>(info),
        info.connected,
    ensures
        d.card matches Some(card) ==> finds(device_report(d), "audio card"@, Status::Good, card),
        d.card is None && (info.audio is Classic || info.audio is LeAudioOnly) ==> finds(
            device_report(d),
            "audio card"@,
            Status::Fail,
            "missing"@,
        ),
        d.card is None && info.audio is NoAudio ==> finds(
            device_report(d),
            "audio card"@,
            Status::Good,
            "n/a (not an audio device)"@,
        ),
        d.sink matches Some(sink) ==> finds(device_report(d), "sink"@, Status::Good, sink),
        d.sink is None && (info.audio is Classic || info.audio is LeAudioOnly) ==> finds(
            device_report(d),
            "sink"@,
            Status::Fail,
            "missing"@,
        ),
        d.sink is None && info.audio is NoAudio ==> finds(
            device_report(d),
            "sink"@,
            Status::Good,
            "n/a"@,
        ),
        d.profile matches Some(profile) ==> finds(
            device_report(d),
            "active profile"@,
            Status::Good,
            profile,
        ),
        d.profile is None ==> silent_on(device_report(d), "active profile"@),
{
    lemma_labels();
    let checks = device_report(d);
    assert(checks[3].label == "audio card"@);
    assert(checks[4].label == "sink"@);
    if d.profile is Some {
        assert(checks[5].label == "active profile"@);
    }
}

// ---------------------------------------------------------------------------
// The host
// ---------------------------------------------------------------------------

/// The daemon runs where it answers; where it does not, nothing is claimed of
/// the adapter. The adapter is on where it says so, and fails where it says that
/// it is off.
pub proof fn daemon_and_adapter_are_judged(h: HostFactsModel, yes: bool)
    requires
        h.show.ok ==> has_line(h.show.out, flag_line("Powered"@, yes)) && only_on(
            h.show.out,
            "Powered: "@,
            flag_line("Powered"@, yes),
        ),
    ensures
        h.show.ok ==> finds(host_report(h), "bluetoothd"@, Status::Good, "running"@),
        !h.show.ok ==> finds(host_report(h), "bluetoothd"@, Status::Fail, "not reachable"@)
            && silent_on(host_report(h), "adapter"@),
        h.show.ok && yes ==> finds(host_report(h), "adapter"@, Status::Good, "powered on"@),
        h.show.ok && !yes ==> finds(host_report(h), "adapter"@, Status::Fail, "powered off"@),
{
    lemma_labels();
    let checks = host_report(h);
    assert(checks[0].label == "bluetoothd"@);
    if h.show.ok {
        assert("Powered"@ + ": yes"@ == "Powered: yes"@ && "Powered"@ + ": "@ == "Powered: "@
            && "Powered"@.len() > 0 && "Powered"@[0] == 'P' && text::laws::one_line(
            "Powered: yes"@,
        )) by {
            reveal_strlit("Powered");
            reveal_strlit("Powered: ");
            reveal_strlit("Powered: yes");
            reveal_strlit(": ");
            reveal_strlit(": yes");
            assert("Powered"@ + ": yes"@ =~= "Powered: yes"@);
            assert("Powered"@ + ": "@ =~= "Powered: "@);
        }
        lemma_flag(h.show.out, "Powered"@, yes, "Powered: yes"@);
        assert(checks[1].label == "adapter"@);
    }
}

/// A sound server is named where one answers; without one, or without the tool
/// to ask it, that fails. Without the tool nothing is claimed of a backend.
pub proof fn sound_servers_are_judged(h: HostFactsModel)
    ensures
        !h.pactl ==> finds(host_report(h), "sound server"@, Status::Fail, "pactl not found"@)
            && silent_on(host_report(h), "bluez audio backend"@),
        h.pactl ==> (h.server matches Some(name) ==> finds(
            host_report(h),
            "sound server"@,
            Status::Good,
            name,
        )),
        h.pactl && h.server is None ==> finds(
            host_report(h),
            "sound server"@,
            Status::Fail,
            "not responding"@,
        ),
{
    lemma_labels();
    let checks = host_report(h);
    let n: int = if h.show.ok {
        2
    } else {
        1
    };
    assert(checks[n].label == "sound server"@);
}

proof fn lemma_first_present(paths: Seq<Seq<char>>, present: Seq<bool>, k: int)
    requires
        0 <= k,
        forall|j: int| 0 <= j < k && j < present.len() ==> !#[trigger] present[j],
        k < paths.len() && k < present.len() ==> present[k],
        k >= paths.len() || k >= present.len() || present[k],
    ensures
        k < paths.len() && k < present.len() ==> first_present(paths, present) == Some(paths[k]),
        k >= paths.len() || k >= present.len() ==> first_present(paths, present) is None,
    decreases paths.len(),
{
    if paths.len() > 0 && present.len() > 0 && k > 0 {
        assert(!present[0]);
        let rest = present.drop_first();
        assert forall|j: int| 0 <= j < k - 1 && j < rest.len() implies !#[trigger] rest[j] by {
            assert(rest[j] == present[j + 1]);
        }
        if k < present.len() {
            assert(rest[k - 1] == present[k]);
        }
        lemma_first_present(paths.drop_first(), rest, k - 1);
    }
}

/// The installed backend is named: the first of the usual paths that is there.
pub proof fn installed_backends_are_named(h: HostFactsModel, k: int)
    requires
        h.pactl,
        0 <= k < 5,
        k < h.present.len(),
        h.present[k],
        forall|j: int| 0 <= j < k ==> !#[trigger] h.present[j],
    ensures
        finds(host_report(h), "bluez audio backend"@, Status::Good, backend_paths()[k]),
{
    lemma_labels();
    let checks = host_report(h);
    lemma_first_present(backend_paths(), h.present, k);
    let n: int = if h.show.ok {
        3
    } else {
        2
    };
    assert(checks[n].label == "bluez audio backend"@);
}

/// Without an installed backend PipeWire is warned of; another server is not
/// where its own module is loaded, and is where it is not.
pub proof fn missing_backends_are_warned_of(h: HostFactsModel)
    requires
        h.pactl,
        forall|j: int| 0 <= j < h.present.len() ==> !#[trigger] h.present[j],
    ensures
        ({
            let pipewire = h.server matches Some(name) && occurs(name, "PipeWire"@);
            let module = occurs(h.modules.out, "bluez5"@);
            &&& pipewire ==> finds(
                host_report(h),
                "bluez audio backend"@,
                Status::Warn,
                "libspa-bluez5.so not found"@,
            )
            &&& !pipewire && module ==> finds(
                host_report(h),
                "bluez audio backend"@,
                Status::Good,
                "module-bluez5 loaded"@,
            )
            &&& !pipewire && !module ==> finds(
                host_report(h),
                "bluez audio backend"@,
                Status::Warn,
                "not detected"@,
            )
        }),
{
    lemma_labels();
    let checks = host_report(h);
    lemma_first_present(backend_paths(), h.present, h.present.len() as int);
    let n: int = if h.show.ok {
        3
    } else {
        2
    };
    assert(checks[n].label == "bluez audio backend"@);
}

/// Whether the kernel carries LE Audio is always told.
pub proof fn le_audio_is_always_judged(h: HostFactsModel)
    ensures
        h.iso ==> finds(host_report(h), "LE Audio (ISO)"@, Status::Good, "supported"@),
        !h.iso ==> finds(
            host_report(h),
            "LE Audio (ISO)"@,
            Status::Warn,
            "kernel refuses ISO sockets"@,
        ),
{
    lemma_labels();
    let checks = host_report(h);
    assert(checks[checks.len() - 1].label == "LE Audio (ISO)"@);
}

// ---------------------------------------------------------------------------
// Remedies
// ---------------------------------------------------------------------------

/// What is said to a finding about the host is about that finding: how to start
/// the daemon, to switch the adapter on, to get a sound server or its Bluetooth
/// plugin, or to enable LE Audio.
pub proof fn host_remedies_fit_the_finding(h: HostFactsModel, i: int)
    requires
        0 <= i < host_report(h).len(),
        host_report(h)[i].hint is Some,
    ensures
        ({
            let c = host_report(h)[i];
            let hint = c.hint->0;
            &&& c.label == "bluetoothd"@ ==> hint == NO_DAEMON@
            &&& c.label == "adapter"@ ==> hint == POWERED_OFF@
            &&& c.label == "sound server"@ ==> hint == (if h.pactl {
                NO_SERVER@
            } else {
                NO_PACTL@
            })
            &&& c.label == "bluez audio backend"@ ==> hint == (if h.server is Some && occurs(
                h.server->0,
                "PipeWire"@,
            ) {
                NO_PLUGIN@
            } else {
                NO_BACKEND@
            })
            &&& c.label == "LE Audio (ISO)"@ ==> hint == NO_ISO@
        }),
{
    lemma_labels();
}

/// What is said to a finding about the device is about that finding; where its
/// state cannot be read, it is the reason.
pub proof fn device_remedies_fit_the_finding(d: DeviceFactsModel, i: int)
    requires
        0 <= i < device_report(d).len(),
        device_report(d)[i].hint is Some,
    ensures
        ({
            let c = device_report(d)[i];
            let hint = c.hint->0;
            &&& c.label == "device"@ ==> d.info == Err::<Info, Seq<char>>(hint)
            &&& c.label == "address"@ ==> hint == RANDOM_ADDRESS@
            &&& c.label == "audio profile"@ ==> hint == (if d.info->Ok_0.audio is LeAudioOnly {
                LE_ONLY@
            } else {
                NO_PROFILE@
            })
            &&& c.label == "connected"@ ==> hint == NOT_CONNECTED@
            &&& c.label == "audio card"@ ==> hint == NO_CARD@
            &&& c.label == "sink"@ ==> hint == NO_SINK@
        }),
{
    lemma_labels();
}

// ---------------------------------------------------------------------------
// The report
// ---------------------------------------------------------------------------

/// A printed check begins with the sign of its status, a different one for each,
/// and holds its label, its value, and every line of its remedy behind an arrow.
#[verifier::rlimit(40)]
#[verifier::spinoff_prover]
pub proof fn printed_checks_tell_all(c: CheckModel, k: int)
    ensures
        c.ok is Good <==> has_prefix(rendered(c), "  ✓ "@),
        c.ok is Warn <==> has_prefix(rendered(c), "  ! "@),
        c.ok is Fail <==> has_prefix(rendered(c), "  ✗ "@),
        occurs(rendered(c), c.label),
        occurs(rendered(c), c.value),
        c.hint matches Some(hint) ==> 0 <= k < line_seq(hint).len() ==> occurs(
            rendered(c),
            "      → "@ + line_seq(hint)[k],
        ),
{
    let sign = match c.ok {
        Status::Good => "✓"@,
        Status::Warn => "!"@,
        Status::Fail => "✗"@,
    };
    let label = text::padded(c.label, 20);
    let head = "  "@ + sign + " "@ + label + " "@ + c.value + "\n"@;
    let hints = match c.hint {
        Some(hint) => remedy(line_seq(hint)),
        None => Seq::empty(),
    };
    assert(rendered(c) =~= head + hints);
    lemma_sign(c.ok, label + " "@ + c.value + "\n"@ + hints);
    assert(rendered(c) =~= "  "@ + sign + " "@ + (label + " "@ + c.value + "\n"@ + hints));
    padding_only_adds_blanks(c.label, 20);
    let pad = label.skip(c.label.len() as int);
    assert(label =~= c.label + pad);
    assert(rendered(c) =~= ("  "@ + sign + " "@) + c.label + (pad + " "@ + c.value + "\n"@
        + hints));
    parts_occur("  "@ + sign + " "@, c.label, pad + " "@ + c.value + "\n"@ + hints);
    assert(rendered(c) =~= ("  "@ + sign + " "@ + label + " "@) + c.value + ("\n"@ + hints));
    parts_occur("  "@ + sign + " "@ + label + " "@, c.value, "\n"@ + hints);
    if let Some(hint) = c.hint {
        if 0 <= k < line_seq(hint).len() {
            let line = "      → "@ + line_seq(hint)[k];
            lemma_remedy(line_seq(hint), k);
            let at = choose|at: int| text::occurs_at(hints, line, at);
            lemma_occurs_shifted(hints, line, at, head, Seq::empty());
            assert(head + hints + Seq::<char>::empty() =~= rendered(c));
        }
    }
}

proof fn lemma_sign(ok: Status, rest: Seq<char>)
    ensures
        ({
            let sign = match ok {
                Status::Good => "✓"@,
                Status::Warn => "!"@,
                Status::Fail => "✗"@,
            };
            let s = "  "@ + sign + " "@ + rest;
            &&& ok is Good <==> has_prefix(s, "  ✓ "@)
            &&& ok is Warn <==> has_prefix(s, "  ! "@)
            &&& ok is Fail <==> has_prefix(s, "  ✗ "@)
        }),
{
    reveal_strlit("  ");
    reveal_strlit(" ");
    reveal_strlit("✓");
    reveal_strlit("!");
    reveal_strlit("✗");
    reveal_strlit("  ✓ ");
    reveal_strlit("  ! ");
    reveal_strlit("  ✗ ");
    let sign = match ok {
        Status::Good => "✓"@,
        Status::Warn => "!"@,
        Status::Fail => "✗"@,
    };
    let s = "  "@ + sign + " "@ + rest;
    assert("  ✓ "@ =~= "  "@ + "✓"@ + " "@);
    assert("  ! "@ =~= "  "@ + "!"@ + " "@);
    assert("  ✗ "@ =~= "  "@ + "✗"@ + " "@);
    assert(s =~= ("  "@ + sign + " "@) + rest);
    prefixes_come_off("  "@ + sign + " "@, rest, s);
    let four = s.subrange(0, 4);
    assert(four[2] == sign[0]);
    assert("  ✓ "@[2] == '✓' && "  ! "@[2] == '!' && "  ✗ "@[2] == '✗');
}

proof fn lemma_remedy(lines: Seq<Seq<char>>, k: int)
    requires
        0 <= k < lines.len(),
    ensures
        occurs(remedy(lines), "      → "@ + lines[k]),
    decreases lines.len(),
{
    let before = remedy(lines.drop_last());
    let last = "      → "@ + lines.last() + "\n"@;
    let part = "      → "@ + lines[k];
    if k < lines.len() - 1 {
        lemma_remedy(lines.drop_last(), k);
        let at = choose|at: int| text::occurs_at(before, part, at);
        lemma_occurs_shifted(before, part, at, Seq::empty(), last);
        assert(Seq::<char>::empty() + before + last =~= remedy(lines));
    } else {
        parts_occur(before, part, "\n"@);
        assert(remedy(lines) =~= before + part + "\n"@);
    }
}

proof fn lemma_all_rendered(checks: Seq<CheckModel>, i: int)
    requires
        0 <= i < checks.len(),
    ensures
        occurs(all_rendered(checks), rendered(checks[i])),
    decreases checks.len(),
{
    let before = all_rendered(checks.drop_last());
    let last = rendered(checks.last());
    let part = rendered(checks[i]);
    if i < checks.len() - 1 {
        lemma_all_rendered(checks.drop_last(), i);
        let at = choose|at: int| text::occurs_at(before, part, at);
        lemma_occurs_shifted(before, part, at, Seq::empty(), last);
        assert(Seq::<char>::empty() + before + last =~= all_rendered(checks));
    } else {
        parts_occur(before, part, Seq::empty());
        assert(all_rendered(checks) =~= before + part + Seq::<char>::empty());
    }
}

/// A report holds every check of the host as it is printed, and, where it is
/// about a device, names that device and holds every check of it.
pub proof fn reports_hold_every_check(
    h: HostFactsModel,
    device: Option<DeviceFactsModel>,
    i: int,
)
    ensures
        0 <= i < host_report(h).len() ==> occurs(
            report_text(h, device),
            rendered(host_report(h)[i]),
        ),
        device matches Some(d) ==> {
            &&& occurs(report_text(h, device), "Device — "@ + d.name + " ("@ + d.mac + ")"@)
            &&& 0 <= i < device_report(d).len() ==> occurs(
                report_text(h, device),
                rendered(device_report(d)[i]),
            )
        },
{
    let hosts = all_rendered(host_report(h));
    let whole = report_text(h, device);
    let tail = match device {
        Some(d) => "\nDevice — "@ + d.name + " ("@ + d.mac + ")\n"@ + all_rendered(device_report(d)),
        None => Seq::empty(),
    };
    assert(whole =~= "Host\n"@ + hosts + tail);
    if 0 <= i < host_report(h).len() {
        let part = rendered(host_report(h)[i]);
        lemma_all_rendered(host_report(h), i);
        let at = choose|at: int| text::occurs_at(hosts, part, at);
        lemma_occurs_shifted(hosts, part, at, "Host\n"@, tail);
    }
    if let Some(d) = device {
        let front = "Host\n"@ + hosts;
        let title = "Device — "@ + d.name + " ("@ + d.mac + ")"@;
        let devices = all_rendered(device_report(d));
        assert("\nDevice — "@ == "\n"@ + "Device — "@ && ")\n"@ == ")"@ + "\n"@) by {
            reveal_strlit("\nDevice — ");
            reveal_strlit("\n");
            reveal_strlit("Device — ");
            reveal_strlit(")\n");
            reveal_strlit(")");
            assert("\nDevice — "@ =~= "\n"@ + "Device — "@);
            assert(")\n"@ =~= ")"@ + "\n"@);
        }
        assert(whole =~= (front + "\n"@) + title + ("\n"@ + devices));
        parts_occur(front + "\n"@, title, "\n"@ + devices);
        if 0 <= i < device_report(d).len() {
            let part = rendered(device_report(d)[i]);
            lemma_all_rendered(device_report(d), i);
            let at = choose|at: int| text::occurs_at(devices, part, at);
            let before = front + ("\nDevice — "@ + d.name + " ("@ + d.mac + ")\n"@);
            lemma_occurs_shifted(devices, part, at, before, Seq::empty());
            assert(before + devices + Seq::<char>::empty() =~= whole);
        }
    }
}

/// Why an audio device has no sink: LE Audio that the kernel does not carry, a
/// card that was not built, or neither.
pub proof fn hints_tell_the_cause(audio: AudioKind, iso: bool, has_card: bool)
    ensures
        audio is LeAudioOnly && !iso ==> failure_hint(audio, iso, has_card)
            == "no audio sink: device is LE-Audio-only and this system has no ISO support — pair its classic address instead (d for details)"@,
        !has_card && (audio is Classic || (audio is LeAudioOnly && iso)) ==> failure_hint(
            audio,
            iso,
            has_card,
        )
            == "no audio sink: the audio backend built no card — bluez plugin missing? (d for details)"@,
        audio is NoAudio || (has_card && (audio is Classic || (audio is LeAudioOnly && iso)))
            ==> failure_hint(audio, iso, has_card)
            == "no audio sink appeared — audio stays on the current output (d for details)"@,
{
}

} // verus!
