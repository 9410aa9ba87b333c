//! What `bluetoothctl` says, and what to ask it.

use vstd::prelude::*;

use crate::ansi::{strip_ansi, stripped};
use crate::text;
use crate::text::{
    after_last_char, after_prefix, before_char, byte_value, char_replaced, cut_at, first_with,
    first_with_prefix, leading_digits, line_seq, occurs, position, same_ignoring_ascii_case,
    start_trimmed, texts, trimmed,
};

pub mod asking;
pub mod calls;
pub mod groups;
pub mod laws;
pub mod pairing;
pub mod reading;

pub use calls::{
    adapter_up, candidate_rank, connect, disconnect, discovered_unpaired, fill_addr_kinds, info,
    info_raw, list_paired_output, pair, paired_devices, paired_macs, rank_candidates, remove,
    scan_found, scan_live, trust, untrust,
};
pub use groups::group_discovered;
pub use pairing::pair_interactive;

verus! {

// ---------------------------------------------------------------------------
// Types
// ---------------------------------------------------------------------------

#[derive(Debug, PartialEq, Eq)]
pub struct Device {
    pub mac: String,
    pub name: String,
    pub connected: bool,
    pub trusted: bool,
    /// Battery percentage, when the device reports one (usually only while
    /// connected).
    pub battery: Option<u8>,
}

pub ghost struct DeviceModel {
    pub mac: Seq<char>,
    pub name: Seq<char>,
    pub connected: bool,
    pub trusted: bool,
    pub battery: Option<u8>,
}

impl View for Device {
    type V = DeviceModel;

    open spec fn view(&self) -> DeviceModel {
        DeviceModel {
            mac: self.mac@,
            name: self.name@,
            connected: self.connected,
            trusted: self.trusted,
            battery: self.battery,
        }
    }
}

impl DeepView for Device {
    type V = DeviceModel;

    open spec fn deep_view(&self) -> DeviceModel {
        self@
    }
}

impl Clone for Device {
    fn clone(&self) -> (r: Self)
        ensures
            r == *self,
    {
        Device {
            mac: self.mac.clone(),
            name: self.name.clone(),
            connected: self.connected,
            trusted: self.trusted,
            battery: self.battery,
        }
    }
}

#[derive(Debug, PartialEq, Eq)]
pub struct Discovered {
    pub mac: String,
    pub name: String,
    /// Public or random, which decides whether this address may be folded
    /// into a same-named group. Filled in by `fill_addr_kinds`; `Unknown`
    /// until then, and treated as stable (its own row) when it stays that way.
    pub addr: AddrKind,
}

pub ghost struct DiscoveredModel {
    pub mac: Seq<char>,
    pub name: Seq<char>,
    pub addr: AddrKind,
}

impl View for Discovered {
    type V = DiscoveredModel;

    open spec fn view(&self) -> DiscoveredModel {
        DiscoveredModel { mac: self.mac@, name: self.name@, addr: self.addr }
    }
}

impl DeepView for Discovered {
    type V = DiscoveredModel;

    open spec fn deep_view(&self) -> DiscoveredModel {
        self@
    }
}

impl Clone for Discovered {
    fn clone(&self) -> (r: Self)
        ensures
            r == *self,
    {
        Discovered { mac: self.mac.clone(), name: self.name.clone(), addr: self.addr }
    }
}

/// One physical device as offered in the scan picker. Modern earbuds announce
/// themselves on several addresses at once (a classic BR/EDR one plus rotating
/// LE private ones), all under the same name; pairing the wrong one yields a
/// connection with no audio sink. The picker shows one row per name and the
/// worker picks the address.
#[derive(Debug, PartialEq, Eq)]
pub struct DiscoveredGroup {
    pub name: String,
    pub macs: Vec<String>,
}

pub ghost struct GroupModel {
    pub name: Seq<char>,
    pub macs: Seq<Seq<char>>,
}

impl View for DiscoveredGroup {
    type V = GroupModel;

    open spec fn view(&self) -> GroupModel {
        GroupModel { name: self.name@, macs: self.macs.deep_view() }
    }
}

impl DeepView for DiscoveredGroup {
    type V = GroupModel;

    open spec fn deep_view(&self) -> GroupModel {
        self@
    }
}

/// How a device's address was assigned. Random addresses are LE-only; a
/// classic (audio-capable) radio always uses a public one.
#[derive(Debug, Default, Clone, Copy, PartialEq, Eq, Structural)]
pub enum AddrKind {
    Public,
    Random,
    #[default]
    Unknown,
}

/// Which audio transport a device offers, as advertised in its UUID list.
#[derive(Debug, Default, Clone, Copy, PartialEq, Eq, Structural)]
pub enum AudioKind {
    /// No audio profile at all (mouse, keyboard, phone).
    #[default]
    NoAudio,
    /// A2DP Audio Sink (0000110b) - classic audio. Works with any
    /// PipeWire/PulseAudio bluez backend.
    Classic,
    /// Only LE Audio (BAP) services, no A2DP. Routing these needs a kernel
    /// ISO socket *and* a BAP-capable session manager; without both, the
    /// device connects happily and no sink ever appears.
    LeAudioOnly,
}

impl AudioKind {
    /// Worth waiting on a sink for after connecting.
    pub fn routable(self) -> (r: bool)
        ensures
            r == !(self is NoAudio),
    {
        !matches!(self, AudioKind::NoAudio)
    }
}

/// Live state of one device, from `bluetoothctl info`.
#[derive(Debug, Clone, Copy, PartialEq, Eq)]
pub struct Info {
    pub connected: bool,
    pub trusted: bool,
    /// Which audio transport the device offers, if any.
    pub audio: AudioKind,
    pub addr: AddrKind,
    pub battery: Option<u8>,
}

/// The state of a device of which nothing is known.
pub open spec fn unknown_info() -> Info {
    Info {
        connected: false,
        trusted: false,
        audio: AudioKind::NoAudio,
        addr: AddrKind::Unknown,
        battery: None,
    }
}

impl DeepView for Info {
    type V = Info;

    open spec fn deep_view(&self) -> Info {
        *self
    }
}

impl Default for Info {
    fn default() -> (r: Self)
        ensures
            r == unknown_info(),
    {
        Info {
            connected: false,
            trusted: false,
            audio: AudioKind::NoAudio,
            addr: AddrKind::Unknown,
            battery: None,
        }
    }
}

/// An agent prompt raised during interactive pairing.
pub enum PairEvent {
    /// "Confirm passkey NNNNNN (yes/no)" - the string is the passkey, empty
    /// for generic yes/no authorization prompts.
    ConfirmPasskey(String),
    /// "Enter PIN code:" / "Enter passkey:".
    RequestPin,
}

pub ghost enum PairEventModel {
    ConfirmPasskey(Seq<char>),
    RequestPin,
}

impl View for PairEvent {
    type V = PairEventModel;

    open spec fn view(&self) -> PairEventModel {
        match self {
            PairEvent::ConfirmPasskey(s) => PairEventModel::ConfirmPasskey(s@),
            PairEvent::RequestPin => PairEventModel::RequestPin,
        }
    }
}

// ---------------------------------------------------------------------------
// Reading what bluetoothctl prints
// ---------------------------------------------------------------------------

/// "Device <MAC> <name>" as (mac, name). Other lines are no entries.
pub open spec fn device_entry(line: Seq<char>) -> Option<(Seq<char>, Seq<char>)> {
    match after_prefix(line, "Device "@) {
        None => None,
        Some(rest) => match cut_at(rest, ' ') {
            None => None,
            Some((mac, name)) => if mac.len() == 0 || name.len() == 0 {
                None
            } else {
                Some((mac, name))
            },
        },
    }
}

pub open spec fn entry_of_line() -> spec_fn(Seq<char>) -> Option<(Seq<char>, Seq<char>)> {
    |line: Seq<char>| device_entry(line)
}

/// All entries of a listing, in order.
pub open spec fn device_entries(listing: Seq<char>) -> Seq<(Seq<char>, Seq<char>)> {
    line_seq(listing).filter_map(entry_of_line())
}

/// The addresses of all entries of a listing, in order.
pub open spec fn listed_macs(listing: Seq<char>) -> Seq<Seq<char>> {
    device_entries(listing).map_values(|e: (Seq<char>, Seq<char>)| e.0)
}

/// "Device <MAC> <name>" as (mac, name). Other lines: `None`.
pub fn parse_device_line(line: &str) -> (r: Option<(String, String)>)
    ensures
        r.deep_view() == device_entry(line@),
{
    let rest = match text::strip_prefix(line, "Device ") {
        Some(rest) => rest,
        None => {
            return None;
        },
    };
    let (mac, name) = match text::split_once(rest.as_str(), ' ') {
        Some(pair) => pair,
        None => {
            return None;
        },
    };
    if mac.as_str().is_empty() || name.as_str().is_empty() {
        return None;
    }
    Some((mac, name))
}

fn parse_device_lines(listing: &str) -> (r: Vec<(String, String)>)
    ensures
        r.deep_view() == device_entries(listing@),
{
    let ls = text::lines(listing);
    let ghost all = ls.deep_view();
    let mut out: Vec<(String, String)> = Vec::new();
    let mut i: usize = 0;
    assert(out.deep_view() =~= all.take(0).filter_map(entry_of_line()));
    while i < ls.len()
        invariant
            i <= ls@.len(),
            all == ls.deep_view(),
            out.deep_view() == all.take(i as int).filter_map(entry_of_line()),
        decreases ls@.len() - i,
    {
        let ghost before = out.deep_view();
        proof {
            all.lemma_filter_map_take_succ(entry_of_line(), i as int);
        }
        match parse_device_line(ls[i].as_str()) {
            Some(pair) => {
                let ghost e = (pair.0@, pair.1@);
                out.push(pair);
                assert(out.deep_view() =~= before.push(e));
                assert(before + seq![e] =~= before.push(e));
            },
            None => {
                assert(before + seq![] =~= before);
            },
        }
        i += 1;
    }
    assert(all.take(i as int) =~= all);
    out
}

/// Does the listing hold any device entry?
pub fn has_device_lines(out: &str) -> (r: bool)
    ensures
        r == (device_entries(out@).len() > 0),
{
    parse_device_lines(out).len() > 0
}

fn parse_macs(listing: &str) -> (r: Vec<String>)
    ensures
        r.deep_view() == listed_macs(listing@),
{
    let pairs = parse_device_lines(listing);
    let mut out: Vec<String> = Vec::new();
    let mut i: usize = 0;
    while i < pairs.len()
        invariant
            i <= pairs@.len(),
            pairs.deep_view() == device_entries(listing@),
            out.deep_view() == listed_macs(listing@).take(i as int),
        decreases pairs@.len() - i,
    {
        let ghost before = out.deep_view();
        assert(pairs.deep_view()[i as int] == (pairs@[i as int].0@, pairs@[i as int].1@));
        out.push(pairs[i].0.clone());
        assert(out.deep_view() =~= before.push(listed_macs(listing@)[i as int]));
        i += 1;
    }
    assert(listed_macs(listing@).take(i as int) =~= listed_macs(listing@));
    out
}

/// Does the text hold an audio sink's services? A2DP beats LE Audio when a
/// device offers both; LE Audio takes both services that a sink publishes.
pub open spec fn audio_kind(out: Seq<char>) -> AudioKind {
    if occurs(out, "Audio Sink"@) {
        AudioKind::Classic
    } else if occurs(out, "Audio Stream Control"@) && occurs(out, "Published Audio Capabil"@) {
        AudioKind::LeAudioOnly
    } else {
        AudioKind::NoAudio
    }
}

/// What the first "Device ..." line says of the address.
pub open spec fn addr_kind(out: Seq<char>) -> AddrKind {
    match first_with_prefix(line_seq(out), "Device "@) {
        None => AddrKind::Unknown,
        Some(line) => if occurs(line, "(public)"@) {
            AddrKind::Public
        } else if occurs(line, "(random)"@) {
            AddrKind::Random
        } else {
            AddrKind::Unknown
        },
    }
}

/// The number in the last parentheses of the first "Battery Percentage" line.
pub open spec fn battery_level(out: Seq<char>) -> Option<u8> {
    match first_with(line_seq(out), "Battery Percentage"@) {
        None => None,
        Some(line) => byte_value(trimmed(before_char(after_last_char(line, '('), ')'))),
    }
}

/// The state that an `info` output tells.
pub open spec fn info_of(out: Seq<char>) -> Info {
    Info {
        connected: occurs(out, "Connected: yes"@),
        trusted: occurs(out, "Trusted: yes"@),
        audio: audio_kind(out),
        addr: addr_kind(out),
        battery: battery_level(out),
    }
}

pub fn parse_info(out: &str) -> (r: Info)
    ensures
        r == info_of(out@),
{
    Info {
        connected: text::contains(out, "Connected: yes"),
        trusted: text::contains(out, "Trusted: yes"),
        audio: parse_audio_kind(out),
        addr: parse_addr_kind(out),
        battery: parse_battery(out),
    }
}

/// A2DP beats LE Audio when a device offers both: classic audio needs no
/// experimental kernel support, so it is the transport that actually works.
///
/// An LE Audio *sink* publishes both ASCS, to carry the stream, and PACS, to
/// describe what it can play; bluetoothctl cuts long names to a fixed column,
/// so these are matched as prefixes. Requiring both matters: phones and
/// watches advertise LE Audio *client* services without being able to play
/// anything, and treating those as sinks makes every connect wait out the sink
/// poll for nothing.
pub fn parse_audio_kind(out: &str) -> (r: AudioKind)
    ensures
        r == audio_kind(out@),
{
    if text::contains(out, "Audio Sink") {
        return AudioKind::Classic;
    }
    if text::contains(out, "Audio Stream Control") && text::contains(
        out,
        "Published Audio Capabil",
    ) {
        return AudioKind::LeAudioOnly;
    }
    AudioKind::NoAudio
}

/// "Device AA:BB:CC:DD:EE:FF (public)" is `Public`.
pub fn parse_addr_kind(out: &str) -> (r: AddrKind)
    ensures
        r == addr_kind(out@),
{
    let line = match text::first_line_with_prefix(out, "Device ") {
        Some(line) => line,
        None => {
            return AddrKind::Unknown;
        },
    };
    if text::contains(line.as_str(), "(public)") {
        AddrKind::Public
    } else if text::contains(line.as_str(), "(random)") {
        AddrKind::Random
    } else {
        AddrKind::Unknown
    }
}

/// "Battery Percentage: 0x50 (80)" is 80.
pub fn parse_battery(out: &str) -> (r: Option<u8>)
    ensures
        r == battery_level(out@),
{
    let line = match text::first_line_with(out, "Battery Percentage") {
        Some(line) => line,
        None => {
            return None;
        },
    };
    let tail = text::after_last(line.as_str(), '(');
    let inside = text::up_to_char(tail.as_str(), ')');
    let inside = text::trim(inside.as_str());
    text::parse_byte(inside.as_str())
}

/// The text up to `end` closes with the tag.
pub open spec fn tagged(s: Seq<char>, end: int, tag: Seq<char>) -> bool {
    tag.len() <= end <= s.len() && s.subrange(end - tag.len(), end) == tag
}

/// The (mac, name) that a line of scan output tells: "[NEW] Device <mac>
/// <name>" or "[CHG] Device <mac> Name: <name>". The entry is anchored on the
/// first "] Device ", since names may hold "Device " too, and the tag that this
/// closes tells the kind of event, since names may hold a tag.
pub open spec fn scan_entry(line: Seq<char>) -> Option<(Seq<char>, Seq<char>)> {
    let clean = trimmed(stripped(line).0);
    match position(clean, "] Device "@) {
        None => None,
        Some(i) => {
            let is_new = tagged(clean, i + 1, "[NEW]"@);
            let is_chg = tagged(clean, i + 1, "[CHG]"@);
            match cut_at(clean.skip(i + "] Device "@.len()), ' ') {
                None => None,
                Some((mac, tail)) => if is_chg {
                    match after_prefix(tail, "Name: "@) {
                        None => None,
                        Some(name) => Some((mac, name)),
                    }
                } else if is_new {
                    Some((mac, tail))
                } else {
                    None
                },
            }
        },
    }
}

fn closes_with(v: &Vec<char>, end: usize, tag: &str) -> (r: bool)
    requires
        end <= v@.len(),
    ensures
        r == tagged(v@, end as int, tag@),
{
    let n: usize = tag.unicode_len();
    if end < n {
        return false;
    }
    let closing = text::string_of(v, end - n, end);
    text::same(closing.as_str(), tag)
}

/// "[NEW] Device <mac> <name>" or "[CHG] Device <mac> Name: <name>" as
/// (mac, name). ANSI escapes and control characters are stripped first.
pub fn parse_scan_event(line: &str) -> (r: Option<(String, String)>)
    ensures
        r.deep_view() == scan_entry(line@),
{
    let clean = strip_ansi(line);
    let clean = text::trim(clean.as_str());
    let at: usize = match text::find(clean.as_str(), "] Device ") {
        Some(at) => at,
        None => {
            return None;
        },
    };
    proof {
        reveal_strlit("] Device ");
    }
    let v = text::chars_of(clean.as_str());
    let n: usize = v.len();
    let is_new = closes_with(&v, at + 1, "[NEW]");
    let is_chg = closes_with(&v, at + 1, "[CHG]");
    let rest = text::string_of(&v, at + "] Device ".unicode_len(), n);
    let (mac, tail) = match text::split_once(rest.as_str(), ' ') {
        Some(pair) => pair,
        None => {
            return None;
        },
    };
    if is_chg {
        let name = match text::strip_prefix(tail.as_str(), "Name: ") {
            Some(name) => name,
            None => {
                return None;
            },
        };
        return Some((mac, name));
    }
    if is_new {
        return Some((mac, tail));
    }
    None
}

/// The digits that follow the first "Confirm passkey".
pub open spec fn passkey_in(s: Seq<char>) -> Option<Seq<char>> {
    match position(s, "Confirm passkey"@) {
        None => None,
        Some(i) => {
            let digits = leading_digits(start_trimmed(s.skip(i + "Confirm passkey"@.len())));
            if digits.len() == 0 {
                None
            } else {
                Some(digits)
            }
        },
    }
}

/// Digits following "Confirm passkey".
pub fn extract_passkey(s: &str) -> (r: Option<String>)
    ensures
        r.deep_view() == passkey_in(s@),
{
    let at: usize = match text::find(s, "Confirm passkey") {
        Some(at) => at,
        None => {
            return None;
        },
    };
    let v = text::chars_of(s);
    let n: usize = v.len();
    let after = text::string_of(&v, at + "Confirm passkey".unicode_len(), n);
    let after = text::trim_start(after.as_str());
    let digits = text::take_digits(after.as_str());
    if digits.as_str().is_empty() {
        None
    } else {
        Some(digits)
    }
}

/// The name is the address itself, possibly with dashes for colons.
pub open spec fn is_mac_name(name: Seq<char>, mac: Seq<char>) -> bool {
    same_ignoring_ascii_case(char_replaced(name, '-', ':'), mac)
}

/// Nameless devices are reported with their MAC as the name (sometimes
/// dash-separated).
pub fn name_is_mac(name: &str, mac: &str) -> (r: bool)
    ensures
        r == is_mac_name(name@, mac@),
{
    let colons = text::replace_char(name, '-', ':');
    text::eq_ignore_ascii_case(colons.as_str(), mac)
}

/// Not already paired, and carrying a real name.
pub open spec fn is_discoverable(paired: Seq<Seq<char>>, mac: Seq<char>, name: Seq<char>) -> bool {
    !paired.contains(mac) && !is_mac_name(name, mac)
}

/// Where the address first stands among the discovered devices.
pub open spec fn mac_index(items: Seq<DiscoveredModel>, mac: Seq<char>) -> Option<int>
    decreases items.len(),
{
    if items.len() == 0 {
        None
    } else {
        match mac_index(items.drop_last(), mac) {
            Some(i) => Some(i),
            None => if items.last().mac == mac {
                Some(items.len() - 1)
            } else {
                None
            },
        }
    }
}

proof fn lemma_mac_index(items: Seq<DiscoveredModel>, mac: Seq<char>, i: int)
    requires
        0 <= i <= items.len(),
        mac_index(items.take(i), mac) is Some,
    ensures
        mac_index(items, mac) == mac_index(items.take(i), mac),
    decreases items.len() - i,
{
    if i == items.len() {
        assert(items.take(i) =~= items);
    } else {
        assert(items.take(i + 1).drop_last() =~= items.take(i));
        lemma_mac_index(items, mac, i + 1);
    }
}

/// Where the address first stands among the discovered devices.
pub fn find_mac(items: &Vec<Discovered>, mac: &str) -> (r: Option<usize>)
    ensures
        match r {
            Some(i) => i < items@.len() && mac_index(items.deep_view(), mac@) == Some(i as int),
            None => mac_index(items.deep_view(), mac@) is None,
        },
{
    let ghost all = items.deep_view();
    let mut i: usize = 0;
    assert(all.take(0).len() == 0);
    while i < items.len()
        invariant
            i <= items@.len(),
            all == items.deep_view(),
            mac_index(all.take(i as int), mac@) is None,
        decreases items@.len() - i,
    {
        assert(all.take(i + 1).drop_last() =~= all.take(i as int));
        assert(all.take(i + 1).last() == items@[i as int]@);
        if text::same(items[i].mac.as_str(), mac) {
            proof {
                lemma_mac_index(all, mac@, i + 1);
            }
            return Some(i);
        }
        i += 1;
    }
    assert(all.take(i as int) =~= all);
    None
}

/// Is the text one of the list?
pub fn list_contains(list: &Vec<String>, s: &str) -> (r: bool)
    ensures
        r == list.deep_view().contains(s@),
{
    let mut i: usize = 0;
    while i < list.len()
        invariant
            i <= list@.len(),
            forall|j: int| 0 <= j < i ==> list.deep_view()[j] != s@,
        decreases list@.len() - i,
    {
        if text::same(list[i].as_str(), s) {
            assert(list.deep_view()[i as int] == s@);
            return true;
        }
        i += 1;
    }
    false
}

/// Worth offering in the scan picker: not already paired, and carrying a
/// real name rather than its own MAC.
pub fn discoverable(paired: &Vec<String>, mac: &str, name: &str) -> (r: bool)
    ensures
        r == is_discoverable(paired.deep_view(), mac@, name@),
{
    !list_contains(paired, mac) && !name_is_mac(name, mac)
}

/// The first text that is more than white space, trimmed; failing that, a
/// generic hint.
pub open spec fn diagnostic(parts: Seq<Seq<char>>) -> Seq<char>
    decreases parts.len(),
{
    if parts.len() == 0 {
        "bluetoothctl failed (is bluetoothd running?)"@
    } else if trimmed(parts[0]).len() > 0 {
        trimmed(parts[0])
    } else {
        diagnostic(parts.drop_first())
    }
}

/// First non-empty diagnostic out of stderr/stdout, else a generic hint.
pub fn error_text(parts: &[&str]) -> (r: String)
    ensures
        r@ == diagnostic(texts(parts@)),
{
    let ghost all = texts(parts@);
    let mut i: usize = 0;
    assert(all.skip(0) =~= all);
    while i < parts.len()
        invariant
            i <= parts@.len(),
            all == texts(parts@),
            diagnostic(all.skip(i as int)) == diagnostic(all),
        decreases parts@.len() - i,
    {
        let t = text::trim(parts[i]);
        assert(all.skip(i as int)[0] == parts@[i as int]@);
        if !t.as_str().is_empty() {
            return t;
        }
        assert(all.skip(i as int).drop_first() =~= all.skip(i + 1));
        i += 1;
    }
    String::from_str("bluetoothctl failed (is bluetoothd running?)")
}

} // verus!
