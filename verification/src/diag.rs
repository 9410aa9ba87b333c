//! Self-diagnosis for the "device is connected but audio still goes to the
//! speakers" case - by far the most common way Bluetooth audio fails, and the
//! hardest to reason about from the outside, because every layer reports
//! success: the device pairs, connects, and simply never grows a sink.
//!
//! The checks mirror the order you'd debug it by hand: is the daemon up, does
//! the audio backend exist, can this kernel carry LE Audio at all, and finally
//! what does this one device actually offer. What was found out about the host
//! and the device comes in as plain values.

use vstd::prelude::*;

use crate::bt::{AddrKind, AudioKind, Info};
use crate::shell::{push_text, result_model, Reply, ReplyModel};
use crate::text;
use crate::text::{line_seq, occurs, pad, padded};

pub mod laws;

verus! {

// ---------------------------------------------------------------------------
// One line of the report
// ---------------------------------------------------------------------------

#[derive(Debug, Clone, Copy, PartialEq, Eq, Structural)]
pub enum Status {
    Good,
    Warn,
    Fail,
}

/// One line of the report: a status glyph, a label, a value, and an optional
/// indented remedy.
pub struct Check {
    pub ok: Status,
    pub label: &'static str,
    pub value: String,
    pub hint: Option<String>,
}

pub ghost struct CheckModel {
    pub ok: Status,
    pub label: Seq<char>,
    pub value: Seq<char>,
    pub hint: Option<Seq<char>>,
}

impl View for Check {
    type V = CheckModel;

    open spec fn view(&self) -> CheckModel {
        CheckModel {
            ok: self.ok,
            label: self.label@,
            value: self.value@,
            hint: self.hint.deep_view(),
        }
    }
}

impl DeepView for Check {
    type V = CheckModel;

    open spec fn deep_view(&self) -> CheckModel {
        self@
    }
}

pub open spec fn good(label: Seq<char>, value: Seq<char>) -> CheckModel {
    CheckModel { ok: Status::Good, label, value, hint: None }
}

pub open spec fn warning(label: Seq<char>, value: Seq<char>, hint: Seq<char>) -> CheckModel {
    CheckModel { ok: Status::Warn, label, value, hint: Some(hint) }
}

pub open spec fn failure(label: Seq<char>, value: Seq<char>, hint: Seq<char>) -> CheckModel {
    CheckModel { ok: Status::Fail, label, value, hint: Some(hint) }
}

pub open spec fn glyph(ok: Status) -> Seq<char> {
    match ok {
        Status::Good => "✓"@,
        Status::Warn => "!"@,
        Status::Fail => "✗"@,
    }
}

/// Each line of a remedy, indented behind an arrow.
pub open spec fn remedy(lines: Seq<Seq<char>>) -> Seq<char>
    decreases lines.len(),
{
    if lines.len() == 0 {
        Seq::empty()
    } else {
        remedy(lines.drop_last()) + ("      → "@ + lines.last() + "\n"@)
    }
}

/// The check as it is printed.
pub open spec fn rendered(c: CheckModel) -> Seq<char> {
    let head = "  "@ + glyph(c.ok) + " "@ + padded(c.label, 20) + " "@ + c.value + "\n"@;
    match c.hint {
        None => head,
        Some(hint) => head + remedy(line_seq(hint)),
    }
}

pub open spec fn all_rendered(checks: Seq<CheckModel>) -> Seq<char>
    decreases checks.len(),
{
    if checks.len() == 0 {
        Seq::empty()
    } else {
        all_rendered(checks.drop_last()) + rendered(checks.last())
    }
}

impl Check {
    pub fn ok(label: &'static str, value: &str) -> (r: Self)
        ensures
            r@ == good(label@, value@),
    {
        Check { ok: Status::Good, label, value: String::from_str(value), hint: None }
    }

    pub fn warn(label: &'static str, value: &str, hint: &str) -> (r: Self)
        ensures
            r@ == warning(label@, value@, hint@),
    {
        Check {
            ok: Status::Warn,
            label,
            value: String::from_str(value),
            hint: Some(String::from_str(hint)),
        }
    }

    pub fn fail(label: &'static str, value: &str, hint: &str) -> (r: Self)
        ensures
            r@ == failure(label@, value@, hint@),
    {
        Check {
            ok: Status::Fail,
            label,
            value: String::from_str(value),
            hint: Some(String::from_str(hint)),
        }
    }

    pub fn render(&self, into: &mut String)
        ensures
            final(into)@ == old(into)@ + rendered(self@),
    {
        let glyph = match self.ok {
            Status::Good => "✓",
            Status::Warn => "!",
            Status::Fail => "✗",
        };
        let mut head = text::join3("  ", glyph, " ");
        head.append(pad(self.label, 20).as_str());
        head.append(" ");
        head.append(self.value.as_str());
        head.append("\n");
        match &self.hint {
            None => {},
            Some(hint) => {
                let ls = text::lines(hint.as_str());
                let ghost all = ls.deep_view();
                let ghost start = head@;
                let mut i: usize = 0;
                assert(start + remedy(all.take(0)) =~= start);
                while i < ls.len()
                    invariant
                        i <= ls@.len(),
                        all == ls.deep_view(),
                        head@ == start + remedy(all.take(i as int)),
                    decreases ls@.len() - i,
                {
                    assert(all.take(i + 1).drop_last() =~= all.take(i as int));
                    assert(all.take(i + 1).last() == ls@[i as int]@);
                    let line = text::join3("      → ", ls[i].as_str(), "\n");
                    head.append(line.as_str());
                    assert(head@ =~= start + remedy(all.take(i + 1)));
                    i += 1;
                }
                assert(all.take(i as int) =~= all);
            },
        }
        into.append(head.as_str());
    }
}

/// Add a check to a list.
fn push_check(v: &mut Vec<Check>, c: Check)
    ensures
        final(v).deep_view() == old(v).deep_view().push(c@),
{
    let ghost before = v.deep_view();
    let ghost cm = c@;
    v.push(c);
    assert(v.deep_view() =~= before.push(cm));
}

fn render_all(checks: &Vec<Check>, into: &mut String)
    ensures
        final(into)@ == old(into)@ + all_rendered(checks.deep_view()),
{
    let ghost start = into@;
    let ghost all = checks.deep_view();
    let mut i: usize = 0;
    assert(start + all_rendered(all.take(0)) =~= start);
    while i < checks.len()
        invariant
            i <= checks@.len(),
            all == checks.deep_view(),
            into@ == start + all_rendered(all.take(i as int)),
        decreases checks@.len() - i,
    {
        assert(all.take(i + 1).drop_last() =~= all.take(i as int));
        assert(all.take(i + 1).last() == checks@[i as int]@);
        checks[i].render(into);
        assert(into@ =~= start + all_rendered(all.take(i + 1)));
        i += 1;
    }
    assert(all.take(i as int) =~= all);
}

// ---------------------------------------------------------------------------
// Remedies
// ---------------------------------------------------------------------------

pub const POWERED_OFF: &'static str = "Press r to power it on, or check `rfkill list`.";

pub const NO_DAEMON: &'static str = "Start it: systemctl start bluetooth";

pub const NO_PACTL: &'static str = "Install pulseaudio-utils (or pipewire-pulse). Without it\nblueRat cannot route audio at all.";

pub const NO_SERVER: &'static str = "pactl is installed but no server answered. Is the user\nsession running (systemctl --user status pipewire)?";

pub const NO_PLUGIN: &'static str = "PipeWire is running but its Bluetooth plugin is missing from\nthe usual paths. Install libspa-0.2-bluetooth (Debian/Ubuntu),\npipewire-audio (Fedora) or pipewire (Arch).";

pub const NO_BACKEND: &'static str = "No bluez audio module found. Bluetooth devices will connect\nbut never produce a sink.";

pub const NO_ISO: &'static str = "Only affects LE-Audio-only devices; classic A2DP is unaffected.\nNeeds Experimental=true and KernelExperimental=true in\n/etc/bluetooth/main.conf plus a kernel that allows ISO sockets\n— many shipping kernels enable the flag and still refuse them.";

pub const RANDOM_ADDRESS: &'static str = "A random address never carries classic audio. If this device\nalso has a classic address, pair that one instead.";

pub const LE_ONLY: &'static str = "This device offers no classic A2DP, and this system cannot\ncarry LE Audio — so it will connect but never play sound.\nPut it in pairing mode and pair its classic address instead\n(many earbuds expose a separate BR/EDR address).";

pub const NO_PROFILE: &'static str = "Not an audio device — or its services haven't been probed yet.";

pub const NOT_CONNECTED: &'static str = "Connect it first; cards and sinks only exist while connected.";

pub const NO_CARD: &'static str = "Connected, but the audio backend built no card for it. This is\nthe bluez-backend or LE-Audio problem above, not the device.";

pub const NO_SINK: &'static str = "Nothing to route audio to. If a card exists but no sink does,\nthe selected profile failed to start — try `a` to switch it.";

// ---------------------------------------------------------------------------
// The host
// ---------------------------------------------------------------------------

/// What was found out about the host.
pub struct HostFacts {
    /// The reply to `bluetoothctl show`.
    pub show: Reply,
    /// `pactl` can be run.
    pub pactl: bool,
    /// What the sound server calls itself, if one answered.
    pub server: Option<String>,
    /// For each of `spa_bluez_paths`, whether there is such a file.
    pub present: Vec<bool>,
    /// The reply to `pactl list short modules`.
    pub modules: Reply,
    /// The kernel opens ISO sockets.
    pub iso: bool,
}

pub ghost struct HostFactsModel {
    pub show: ReplyModel,
    pub pactl: bool,
    pub server: Option<Seq<char>>,
    pub present: Seq<bool>,
    pub modules: ReplyModel,
    pub iso: bool,
}

impl View for HostFacts {
    type V = HostFactsModel;

    open spec fn view(&self) -> HostFactsModel {
        HostFactsModel {
            show: self.show@,
            pactl: self.pactl,
            server: self.server.deep_view(),
            present: self.present@,
            modules: self.modules@,
            iso: self.iso,
        }
    }
}

/// Where distributions install PipeWire's bluez backend. Its absence is a
/// silent killer: PipeWire runs fine and simply never builds a bluez card.
pub open spec fn backend_paths() -> Seq<Seq<char>> {
    seq![
        "/usr/lib/x86_64-linux-gnu/spa-0.2/bluez5/libspa-bluez5.so"@,
        "/usr/lib/aarch64-linux-gnu/spa-0.2/bluez5/libspa-bluez5.so"@,
        "/usr/lib/spa-0.2/bluez5/libspa-bluez5.so"@,
        "/usr/lib64/spa-0.2/bluez5/libspa-bluez5.so"@,
        "/usr/local/lib/spa-0.2/bluez5/libspa-bluez5.so"@,
    ]
}

/// Where distributions install PipeWire's bluez backend.
pub fn spa_bluez_paths() -> (r: Vec<String>)
    ensures
        r.deep_view() == backend_paths(),
{
    let mut v: Vec<String> = Vec::new();
    push_text(&mut v, "/usr/lib/x86_64-linux-gnu/spa-0.2/bluez5/libspa-bluez5.so");
    push_text(&mut v, "/usr/lib/aarch64-linux-gnu/spa-0.2/bluez5/libspa-bluez5.so");
    push_text(&mut v, "/usr/lib/spa-0.2/bluez5/libspa-bluez5.so");
    push_text(&mut v, "/usr/lib64/spa-0.2/bluez5/libspa-bluez5.so");
    push_text(&mut v, "/usr/local/lib/spa-0.2/bluez5/libspa-bluez5.so");
    assert(v.deep_view() =~= backend_paths());
    v
}

/// The first path that is present.
pub open spec fn first_present(paths: Seq<Seq<char>>, present: Seq<bool>) -> Option<Seq<char>>
    decreases paths.len(),
{
    if paths.len() == 0 || present.len() == 0 {
        None
    } else if present[0] {
        Some(paths[0])
    } else {
        first_present(paths.drop_first(), present.drop_first())
    }
}

/// The installed bluez backend, if any.
pub fn spa_bluez_plugin(present: &Vec<bool>) -> (r: Option<String>)
    ensures
        r.deep_view() == first_present(backend_paths(), present@),
{
    let paths = spa_bluez_paths();
    let ghost all = paths.deep_view();
    let mut i: usize = 0;
    assert(all.skip(0) =~= all);
    assert(present@.skip(0) =~= present@);
    while i < paths.len() && i < present.len()
        invariant
            i <= paths@.len(),
            i <= present@.len(),
            all == paths.deep_view(),
            all == backend_paths(),
            first_present(all.skip(i as int), present@.skip(i as int)) == first_present(
                all,
                present@,
            ),
        decreases paths@.len() - i,
    {
        assert(all.skip(i as int)[0] == paths@[i as int]@);
        assert(all.skip(i as int).drop_first() =~= all.skip(i + 1));
        assert(present@.skip(i as int).drop_first() =~= present@.skip(i + 1));
        if present[i] {
            return Some(paths[i].clone());
        }
        i += 1;
    }
    None
}

/// Does PulseAudio proper have its bluez module loaded?
pub fn pulse_bluez_module(modules: &Reply) -> (r: bool)
    ensures
        r == occurs(modules.out@, "bluez5"@),
{
    text::contains(modules.out.as_str(), "bluez5")
}

/// Is the daemon up, and the adapter on?
pub open spec fn daemon_checks(show: ReplyModel) -> Seq<CheckModel> {
    if !show.ok {
        seq![failure("bluetoothd"@, "not reachable"@, NO_DAEMON@)]
    } else if occurs(show.out, "Powered: yes"@) {
        seq![good("bluetoothd"@, "running"@), good("adapter"@, "powered on"@)]
    } else {
        seq![
            good("bluetoothd"@, "running"@),
            failure("adapter"@, "powered off"@, POWERED_OFF@),
        ]
    }
}

/// Is there a sound server?
pub open spec fn server_check(server: Option<Seq<char>>) -> CheckModel {
    match server {
        Some(name) => good("sound server"@, name),
        None => failure("sound server"@, "not responding"@, NO_SERVER@),
    }
}

/// Is there what turns a connected device into a card and a sink?
pub open spec fn backend_check(h: HostFactsModel) -> CheckModel {
    let pipewire = h.server is Some && occurs(h.server->0, "PipeWire"@);
    match first_present(backend_paths(), h.present) {
        Some(path) => good("bluez audio backend"@, path),
        None => if pipewire {
            warning("bluez audio backend"@, "libspa-bluez5.so not found"@, NO_PLUGIN@)
        } else if occurs(h.modules.out, "bluez5"@) {
            good("bluez audio backend"@, "module-bluez5 loaded"@)
        } else {
            warning("bluez audio backend"@, "not detected"@, NO_BACKEND@)
        },
    }
}

/// Can this kernel carry LE Audio?
pub open spec fn iso_check(iso: bool) -> CheckModel {
    if iso {
        good("LE Audio (ISO)"@, "supported"@)
    } else {
        warning("LE Audio (ISO)"@, "kernel refuses ISO sockets"@, NO_ISO@)
    }
}

/// The checks of the host. Without `pactl` the sound server cannot be asked,
/// nor what backs it.
pub open spec fn host_report(h: HostFactsModel) -> Seq<CheckModel> {
    let sound = if h.pactl {
        seq![server_check(h.server), backend_check(h)]
    } else {
        seq![failure("sound server"@, "pactl not found"@, NO_PACTL@)]
    };
    daemon_checks(h.show) + sound + seq![iso_check(h.iso)]
}

pub fn host_checks(h: &HostFacts) -> (r: Vec<Check>)
    ensures
        r.deep_view() == host_report(h@),
{
    let mut checks: Vec<Check> = Vec::new();
    if h.show.ok {
        push_check(&mut checks, Check::ok("bluetoothd", "running"));
        if text::contains(h.show.out.as_str(), "Powered: yes") {
            push_check(&mut checks, Check::ok("adapter", "powered on"));
        } else {
            push_check(&mut checks, Check::fail("adapter", "powered off", POWERED_OFF));
        }
    } else {
        push_check(&mut checks, Check::fail("bluetoothd", "not reachable", NO_DAEMON));
    }
    assert(checks.deep_view() =~= daemon_checks(h.show@));
    if h.pactl {
        match &h.server {
            Some(name) => {
                push_check(&mut checks, Check::ok("sound server", name.as_str()));
            },
            None => {
                push_check(&mut checks, Check::fail("sound server", "not responding", NO_SERVER));
            },
        }
        let pipewire: bool = match &h.server {
            Some(name) => text::contains(name.as_str(), "PipeWire"),
            None => false,
        };
        let backend = match spa_bluez_plugin(&h.present) {
            Some(path) => Check::ok("bluez audio backend", path.as_str()),
            None => {
                if pipewire {
                    Check::warn("bluez audio backend", "libspa-bluez5.so not found", NO_PLUGIN)
                } else if pulse_bluez_module(&h.modules) {
                    Check::ok("bluez audio backend", "module-bluez5 loaded")
                } else {
                    Check::warn("bluez audio backend", "not detected", NO_BACKEND)
                }
            },
        };
        push_check(&mut checks, backend);
    } else {
        push_check(&mut checks, Check::fail("sound server", "pactl not found", NO_PACTL));
    }
    if h.iso {
        push_check(&mut checks, Check::ok("LE Audio (ISO)", "supported"));
    } else {
        push_check(
            &mut checks,
            Check::warn("LE Audio (ISO)", "kernel refuses ISO sockets", NO_ISO),
        );
    }
    assert(checks.deep_view() =~= host_report(h@));
    checks
}

// ---------------------------------------------------------------------------
// One device
// ---------------------------------------------------------------------------

/// What was found out about a device.
pub struct DeviceFacts {
    pub mac: String,
    pub name: String,
    /// Its live state, or why that could not be read.
    pub info: Result<Info, String>,
    /// The kernel opens ISO sockets.
    pub iso: bool,
    pub card: Option<String>,
    pub sink: Option<String>,
    pub profile: Option<String>,
}

pub ghost struct DeviceFactsModel {
    pub mac: Seq<char>,
    pub name: Seq<char>,
    pub info: Result<Info, Seq<char>>,
    pub iso: bool,
    pub card: Option<Seq<char>>,
    pub sink: Option<Seq<char>>,
    pub profile: Option<Seq<char>>,
}

impl View for DeviceFacts {
    type V = DeviceFactsModel;

    open spec fn view(&self) -> DeviceFactsModel {
        DeviceFactsModel {
            mac: self.mac@,
            name: self.name@,
            info: result_model(self.info),
            iso: self.iso,
            card: self.card.deep_view(),
            sink: self.sink.deep_view(),
            profile: self.profile.deep_view(),
        }
    }
}

pub open spec fn address_check(addr: AddrKind) -> CheckModel {
    match addr {
        AddrKind::Public => good("address"@, "public"@),
        AddrKind::Random => warning("address"@, "random (LE only)"@, RANDOM_ADDRESS@),
        AddrKind::Unknown => good("address"@, "unknown"@),
    }
}

pub open spec fn audio_check(audio: AudioKind, iso: bool) -> CheckModel {
    match audio {
        AudioKind::Classic => good("audio profile"@, "A2DP (classic)"@),
        AudioKind::LeAudioOnly => if iso {
            good("audio profile"@, "LE Audio (BAP)"@)
        } else {
            failure("audio profile"@, "LE Audio only"@, LE_ONLY@)
        },
        AudioKind::NoAudio => warning("audio profile"@, "none advertised"@, NO_PROFILE@),
    }
}

pub open spec fn card_check(card: Option<Seq<char>>, audio: AudioKind) -> CheckModel {
    match card {
        Some(card) => good("audio card"@, card),
        None => if !(audio is NoAudio) {
            failure("audio card"@, "missing"@, NO_CARD@)
        } else {
            good("audio card"@, "n/a (not an audio device)"@)
        },
    }
}

pub open spec fn sink_check(sink: Option<Seq<char>>, audio: AudioKind) -> CheckModel {
    match sink {
        Some(sink) => good("sink"@, sink),
        None => if !(audio is NoAudio) {
            failure("sink"@, "missing"@, NO_SINK@)
        } else {
            good("sink"@, "n/a"@)
        },
    }
}

/// The checks of a device. Cards and sinks only exist while it is connected.
pub open spec fn device_report(d: DeviceFactsModel) -> Seq<CheckModel> {
    match d.info {
        Err(e) => seq![failure("device"@, "cannot read state"@, e)],
        Ok(info) => {
            let first = seq![address_check(info.addr), audio_check(info.audio, d.iso)];
            if !info.connected {
                first.push(warning("connected"@, "no"@, NOT_CONNECTED@))
            } else {
                let checks = first.push(good("connected"@, "yes"@)).push(
                    card_check(d.card, info.audio),
                ).push(sink_check(d.sink, info.audio));
                match d.profile {
                    Some(profile) => checks.push(good("active profile"@, profile)),
                    None => checks,
                }
            }
        },
    }
}

pub fn device_checks(d: &DeviceFacts) -> (r: Vec<Check>)
    ensures
        r.deep_view() == device_report(d@),
{
    let mut checks: Vec<Check> = Vec::new();
    assert(checks.deep_view() =~= Seq::<CheckModel>::empty());
    let info = match &d.info {
        Ok(info) => *info,
        Err(e) => {
            push_check(&mut checks, Check::fail("device", "cannot read state", e.as_str()));
            assert(checks.deep_view() =~= device_report(d@));
            return checks;
        },
    };
    let address = match info.addr {
        AddrKind::Public => Check::ok("address", "public"),
        AddrKind::Random => Check::warn("address", "random (LE only)", RANDOM_ADDRESS),
        AddrKind::Unknown => Check::ok("address", "unknown"),
    };
    push_check(&mut checks, address);
    let profile = match info.audio {
        AudioKind::Classic => Check::ok("audio profile", "A2DP (classic)"),
        AudioKind::LeAudioOnly => {
            if d.iso {
                Check::ok("audio profile", "LE Audio (BAP)")
            } else {
                Check::fail("audio profile", "LE Audio only", LE_ONLY)
            }
        },
        AudioKind::NoAudio => Check::warn("audio profile", "none advertised", NO_PROFILE),
    };
    push_check(&mut checks, profile);
    assert(checks.deep_view() =~= seq![
        address_check(info.addr),
        audio_check(info.audio, d.iso),
    ]);
    if !info.connected {
        push_check(&mut checks, Check::warn("connected", "no", NOT_CONNECTED));
        return checks;
    }
    push_check(&mut checks, Check::ok("connected", "yes"));
    let card = match &d.card {
        Some(card) => Check::ok("audio card", card.as_str()),
        None => {
            if info.audio.routable() {
                Check::fail("audio card", "missing", NO_CARD)
            } else {
                Check::ok("audio card", "n/a (not an audio device)")
            }
        },
    };
    push_check(&mut checks, card);
    let sink = match &d.sink {
        Some(sink) => Check::ok("sink", sink.as_str()),
        None => {
            if info.audio.routable() {
                Check::fail("sink", "missing", NO_SINK)
            } else {
                Check::ok("sink", "n/a")
            }
        },
    };
    push_check(&mut checks, sink);
    match &d.profile {
        Some(profile) => {
            push_check(&mut checks, Check::ok("active profile", profile.as_str()));
        },
        None => {},
    }
    checks
}

// ---------------------------------------------------------------------------
// The report
// ---------------------------------------------------------------------------

/// The text of a report.
pub open spec fn report_text(h: HostFactsModel, device: Option<DeviceFactsModel>) -> Seq<char> {
    let host = "Host\n"@ + all_rendered(host_report(h));
    match device {
        None => host,
        Some(d) => host + ("\nDevice — "@ + d.name + " ("@ + d.mac + ")\n"@) + all_rendered(
            device_report(d),
        ),
    }
}

/// Full report. `device` is an optional device to inspect on top of the
/// host-wide checks.
pub fn report(host: &HostFacts, device: Option<&DeviceFacts>) -> (r: String)
    ensures
        r@ == report_text(
            host@,
            match device {
                Some(d) => Some(d@),
                None => None,
            },
        ),
{
    let mut out = String::from_str("Host\n");
    render_all(&host_checks(host), &mut out);
    match device {
        None => {},
        Some(d) => {
            let mut head = text::join3("\nDevice — ", d.name.as_str(), " (");
            head.append(d.mac.as_str());
            head.append(")\n");
            out.append(head.as_str());
            render_all(&device_checks(d), &mut out);
        },
    }
    out
}

/// Why a connected device of that kind produced no sink.
pub open spec fn failure_hint(audio: AudioKind, iso: bool, has_card: bool) -> Seq<char> {
    if audio is LeAudioOnly && !iso {
        "no audio sink: device is LE-Audio-only and this system has no ISO support — pair its classic address instead (d for details)"@
    } else if !(audio is NoAudio) && !has_card {
        "no audio sink: the audio backend built no card — bluez plugin missing? (d for details)"@
    } else {
        "no audio sink appeared — audio stays on the current output (d for details)"@
    }
}

/// One-line explanation for a device that connected but produced no sink.
/// This is what turns the silent failure into something the user can act on.
/// `iso` tells whether the kernel opens ISO sockets, `has_card` whether the
/// sound server built a card for the device.
pub fn routing_failure_hint(audio: AudioKind, iso: bool, has_card: bool) -> (r: String)
    ensures
        r@ == failure_hint(audio, iso, has_card),
{
    if audio == AudioKind::LeAudioOnly && !iso {
        return String::from_str(
            "no audio sink: device is LE-Audio-only and this system has no ISO support — pair its classic address instead (d for details)",
        );
    }
    if audio.routable() && !has_card {
        return String::from_str(
            "no audio sink: the audio backend built no card — bluez plugin missing? (d for details)",
        );
    }
    String::from_str("no audio sink appeared — audio stays on the current output (d for details)")
}

// ---------------------------------------------------------------------------
// Laws
// ---------------------------------------------------------------------------

/// Whatever was found out, a report begins with the host, and names every
/// check of the host: also whether the kernel carries LE Audio.
pub proof fn report_names_every_host_check(
    h: HostFactsModel,
    device: Option<DeviceFactsModel>,
    i: int,
)
    requires
        0 <= i < host_report(h).len(),
    ensures
        text::has_prefix(report_text(h, device), "Host\n"@),
        occurs(report_text(h, device), host_report(h)[i].label),
        host_report(h).contains(iso_check(h.iso)),
{
    let host = "Host\n"@ + all_rendered(host_report(h));
    let whole = report_text(h, device);
    assert(exists|rest: Seq<char>| whole =~= host + rest) by {
        match device {
            None => {
                assert(whole =~= host + Seq::<char>::empty());
            },
            Some(d) => {
                let a = "\nDevice — "@ + d.name + " ("@ + d.mac + ")\n"@;
                let b = all_rendered(device_report(d));
                assert(whole =~= host + (a + b));
            },
        }
    }
    let rest = choose|rest: Seq<char>| whole =~= host + rest;
    assert(whole.take("Host\n"@.len() as int) =~= "Host\n"@);
    lemma_label_is_rendered(host_report(h), i);
    let at = choose|at: int|
        text::occurs_at(all_rendered(host_report(h)), host_report(h)[i].label, at);
    lemma_occurs_shifted(
        all_rendered(host_report(h)),
        host_report(h)[i].label,
        at,
        "Host\n"@,
        rest,
    );
    assert(whole =~= "Host\n"@ + all_rendered(host_report(h)) + rest);
    assert(host_report(h).last() == iso_check(h.iso));
}

pub(crate) proof fn lemma_occurs_shifted(
    s: Seq<char>,
    pat: Seq<char>,
    at: int,
    before: Seq<char>,
    after: Seq<char>,
)
    requires
        text::occurs_at(s, pat, at),
    ensures
        text::occurs_at(before + s + after, pat, before.len() + at),
        occurs(before + s + after, pat),
{
    let t = before + s + after;
    assert(t.subrange(before.len() + at, before.len() + at + pat.len()) =~= s.subrange(
        at,
        at + pat.len(),
    ));
    assert(text::occurs_at(t, pat, before.len() + at));
}

proof fn lemma_label_is_rendered(checks: Seq<CheckModel>, i: int)
    requires
        0 <= i < checks.len(),
    ensures
        occurs(all_rendered(checks), checks[i].label),
    decreases checks.len(),
{
    let before = all_rendered(checks.drop_last());
    if i < checks.len() - 1 {
        lemma_label_is_rendered(checks.drop_last(), i);
        let at = choose|at: int| text::occurs_at(before, checks[i].label, at);
        lemma_occurs_shifted(before, checks[i].label, at, Seq::empty(), rendered(checks.last()));
        assert(Seq::<char>::empty() + before + rendered(checks.last()) =~= all_rendered(checks));
    } else {
        let c = checks.last();
        let front = "  "@ + glyph(c.ok) + " "@;
        let pad = padded(c.label, 20).skip(c.label.len() as int);
        assert(padded(c.label, 20) =~= c.label + pad);
        let tail = " "@ + c.value + "\n"@;
        let hint = match c.hint {
            None => Seq::empty(),
            Some(hint) => remedy(line_seq(hint)),
        };
        assert(rendered(c) =~= front + c.label + (pad + tail + hint));
        assert(text::occurs_at(c.label, c.label, 0)) by {
            assert(c.label.subrange(0, c.label.len() as int) =~= c.label);
        }
        lemma_occurs_shifted(c.label, c.label, 0, before + front, pad + tail + hint);
        assert(all_rendered(checks) =~= (before + front) + c.label + (pad + tail + hint));
    }
}

/// A device that plays only LE Audio is told apart from every other failure:
/// where the kernel carries none, and only there, the hint is the one that
/// points to the device's classic address.
pub proof fn le_audio_hint_points_to_the_classic_address(
    audio: AudioKind,
    iso: bool,
    has_card: bool,
)
    ensures
        occurs(failure_hint(AudioKind::LeAudioOnly, false, has_card), "classic address"@),
        failure_hint(audio, iso, has_card) == failure_hint(AudioKind::LeAudioOnly, false, has_card)
            <==> audio is LeAudioOnly && !iso,
{
    let hint = failure_hint(AudioKind::LeAudioOnly, false, has_card);
    reveal_strlit(
        "no audio sink: device is LE-Audio-only and this system has no ISO support — pair its classic address instead (d for details)",
    );
    reveal_strlit(
        "no audio sink: the audio backend built no card — bluez plugin missing? (d for details)",
    );
    reveal_strlit("no audio sink appeared — audio stays on the current output (d for details)");
    reveal_strlit("classic address");
    assert(hint.subrange(85, 85int + "classic address"@.len()) =~= "classic address"@);
    assert(text::occurs_at(hint, "classic address"@, 85));
}

} // verus!
