//! Audio routing via `pactl`: what it prints, and what to ask it.

use vstd::prelude::*;

use crate::shell::{args1, args2, args3, push_text, step_model, Reply, ReplyModel, Step, StepModel};
use crate::text;
use crate::text::{
    after_prefix, ascii_folded, before_char, char_replaced, cut_at, first_with_prefix, has_prefix,
    line_seq, occurs, trimmed,
};

pub mod laws;

verus! {

// ---------------------------------------------------------------------------
// Short listings
// ---------------------------------------------------------------------------

/// The name holds the address, whatever the case.
pub open spec fn names_device(name: Seq<char>, mac_underscored: Seq<char>) -> bool {
    occurs(ascii_folded(name), ascii_folded(mac_underscored))
}

/// Does this sink belong to the device? Matches the underscored MAC anywhere
/// in the sink name, so both PipeWire (`bluez_output.<MAC>.1`) and PulseAudio
/// (`bluez_sink.<MAC>.a2dp_sink`) naming schemes work.
pub fn sink_matches(sink: &str, mac_underscored: &str) -> (r: bool)
    ensures
        r == names_device(sink@, mac_underscored@),
{
    let name = text::to_ascii_lowercase(sink);
    let mac = text::to_ascii_lowercase(mac_underscored);
    text::contains(name.as_str(), mac.as_str())
}

/// The field of that index, of tab-separated fields.
pub open spec fn nth_field(line: Seq<char>, idx: nat) -> Option<Seq<char>>
    decreases idx,
{
    if idx == 0 {
        Some(before_char(line, '\t'))
    } else {
        match cut_at(line, '\t') {
            None => None,
            Some((_, rest)) => nth_field(rest, (idx - 1) as nat),
        }
    }
}

/// `pactl list short ...` is tab-separated: field 0 = index, field 1 = name.
pub fn field(line: &str, idx: usize) -> (r: Option<String>)
    ensures
        r.deep_view() == nth_field(line@, idx as nat),
{
    let mut rest = String::from_str(line);
    let mut left: usize = idx;
    while left > 0
        invariant
            nth_field(rest@, left as nat) == nth_field(line@, idx as nat),
        decreases left,
    {
        match text::split_once(rest.as_str(), '\t') {
            None => {
                return None;
            },
            Some((_, tail)) => {
                rest = tail;
            },
        }
        left -= 1;
    }
    Some(text::up_to_char(rest.as_str(), '\t'))
}

/// The first name of a short listing that belongs to the device.
pub open spec fn first_named(lines: Seq<Seq<char>>, mac_underscored: Seq<char>) -> Option<Seq<char>>
    decreases lines.len(),
{
    if lines.len() == 0 {
        None
    } else {
        match nth_field(lines[0], 1) {
            Some(name) => if names_device(name, mac_underscored) {
                Some(name)
            } else {
                first_named(lines.drop_first(), mac_underscored)
            },
            None => first_named(lines.drop_first(), mac_underscored),
        }
    }
}

/// The address as sound servers spell it.
pub open spec fn underscored(mac: Seq<char>) -> Seq<char> {
    char_replaced(mac, ':', '_')
}

/// The entry of a short listing that belongs to the device.
pub open spec fn entry_for(listing: Seq<char>, mac: Seq<char>) -> Option<Seq<char>> {
    first_named(line_seq(listing), underscored(mac))
}

/// The sink, or card, of a short listing that belongs to the device.
pub fn find_sink(listing: &str, mac_underscored: &str) -> (r: Option<String>)
    ensures
        r.deep_view() == first_named(line_seq(listing@), mac_underscored@),
{
    let ls = text::lines(listing);
    let ghost all = ls.deep_view();
    let mut i: usize = 0;
    assert(all.skip(0) =~= all);
    while i < ls.len()
        invariant
            i <= ls@.len(),
            all == ls.deep_view(),
            all == line_seq(listing@),
            first_named(all.skip(i as int), mac_underscored@) == first_named(
                all,
                mac_underscored@,
            ),
        decreases ls@.len() - i,
    {
        assert(all.skip(i as int)[0] == ls@[i as int]@);
        assert(all.skip(i as int).drop_first() =~= all.skip(i + 1));
        match field(ls[i].as_str(), 1) {
            Some(name) => {
                if sink_matches(name.as_str(), mac_underscored) {
                    return Some(name);
                }
            },
            None => {},
        }
        i += 1;
    }
    None
}

/// The sink, or card, of a short listing that belongs to the device.
pub fn find_entry(listing: &str, mac: &str) -> (r: Option<String>)
    ensures
        r.deep_view() == entry_for(listing@, mac@),
{
    let mac_us = text::replace_char(mac, ':', '_');
    find_sink(listing, mac_us.as_str())
}

/// The first fields of a short listing.
pub open spec fn listed_ids(listing: Seq<char>) -> Seq<Seq<char>> {
    line_seq(listing).map_values(|l: Seq<char>| before_char(l, '\t'))
}

/// The ids of a short listing of sink inputs.
pub fn short_sink_input_ids(listing: &str) -> (r: Vec<String>)
    ensures
        r.deep_view() == listed_ids(listing@),
{
    let ls = text::lines(listing);
    let ghost all = ls.deep_view();
    let ghost want = listed_ids(listing@);
    let mut out: Vec<String> = Vec::new();
    let mut i: usize = 0;
    assert(out.deep_view() =~= want.take(0));
    while i < ls.len()
        invariant
            i <= ls@.len(),
            all == ls.deep_view(),
            all == line_seq(listing@),
            want == listed_ids(listing@),
            out.deep_view() == want.take(i as int),
        decreases ls@.len() - i,
    {
        let id = text::up_to_char(ls[i].as_str(), '\t');
        assert(all[i as int] == ls@[i as int]@);
        push_text(&mut out, id.as_str());
        assert(want.take(i + 1) =~= want.take(i as int).push(want[i as int]));
        i += 1;
    }
    assert(want.take(i as int) =~= want);
    out
}

/// One short listing, and the device's entry in it.
pub open spec fn entry_steps(
    what: Seq<char>,
    mac: Seq<char>,
    replies: Seq<ReplyModel>,
) -> StepModel<Option<Seq<char>>> {
    if replies.len() == 0 {
        StepModel::Run(seq!["list"@, "short"@, what])
    } else {
        StepModel::Done(entry_for(replies[0].out, mac))
    }
}

/// The device's audio card, if the sound server built one.
pub fn card_for(mac: &str, replies: &Vec<Reply>) -> (r: Step<Option<String>>)
    ensures
        r@ == entry_steps("cards"@, mac@, replies.deep_view()),
{
    if replies.len() == 0 {
        return Step::Run(args3("list", "short", "cards"));
    }
    Step::Done(find_entry(replies[0].out.as_str(), mac))
}

/// The device's sink, if it has one.
pub fn sink_for(mac: &str, replies: &Vec<Reply>) -> (r: Step<Option<String>>)
    ensures
        r@ == entry_steps("sinks"@, mac@, replies.deep_view()),
{
    if replies.len() == 0 {
        return Step::Run(args3("list", "short", "sinks"));
    }
    Step::Done(find_entry(replies[0].out.as_str(), mac))
}

/// What follows "Server Name: " in the first line that begins so.
pub open spec fn server_in(out: Seq<char>) -> Option<Seq<char>> {
    match first_with_prefix(line_seq(out), "Server Name: "@) {
        None => None,
        Some(line) => after_prefix(line, "Server Name: "@),
    }
}

/// The sound server's name for itself, if one answers.
pub fn server_name(replies: &Vec<Reply>) -> (r: Step<Option<String>>)
    ensures
        r@ == (if replies@.len() == 0 {
            StepModel::Run(seq!["info"@])
        } else {
            StepModel::Done(server_in(replies.deep_view()[0].out))
        }),
{
    if replies.len() == 0 {
        return Step::Run(args1("info"));
    }
    match text::first_line_with_prefix(replies[0].out.as_str(), "Server Name: ") {
        None => Step::Done(None),
        Some(line) => Step::Done(text::strip_prefix(line.as_str(), "Server Name: ")),
    }
}

// ---------------------------------------------------------------------------
// Routing
// ---------------------------------------------------------------------------

/// The sink is looked for once at once, then this often after a second each.
pub const SINK_RETRIES: usize = 8;

/// The next move of an attempt to route audio.
pub enum RouteStep {
    /// Tell the user `note`, if there is one, wait a second if told to, then
    /// call `pactl` with the arguments.
    Poll { note: Option<String>, wait: bool, args: Vec<String> },
    /// Call `pactl` with these arguments.
    Run(Vec<String>),
    /// Done: audio was routed, or was not.
    Done(bool),
}

pub ghost enum RouteStepModel {
    Poll { note: Option<Seq<char>>, wait: bool, args: Seq<Seq<char>> },
    Run(Seq<Seq<char>>),
    Done(bool),
}

impl View for RouteStep {
    type V = RouteStepModel;

    open spec fn view(&self) -> RouteStepModel {
        match self {
            RouteStep::Poll { note, wait, args } => RouteStepModel::Poll {
                note: note.deep_view(),
                wait: *wait,
                args: args.deep_view(),
            },
            RouteStep::Run(args) => RouteStepModel::Run(args.deep_view()),
            RouteStep::Done(ok) => RouteStepModel::Done(*ok),
        }
    }
}

/// The sink showed up in the reply of that index, and in none before.
pub open spec fn sink_first_in(mac: Seq<char>, replies: Seq<ReplyModel>, k: int) -> bool {
    0 <= k < replies.len() && k <= SINK_RETRIES && entry_for(replies[k].out, mac) is Some
        && forall|j: int| 0 <= j < k ==> entry_for((#[trigger] replies[j]).out, mac) is None
}

/// The reply in which the sink first showed up, within the allowed attempts.
pub open spec fn sink_attempt(mac: Seq<char>, replies: Seq<ReplyModel>) -> Option<int> {
    if exists|k: int| sink_first_in(mac, replies, k) {
        Some(choose|k: int| sink_first_in(mac, replies, k))
    } else {
        None
    }
}

/// "Waiting for audio sink... (n/8)".
pub open spec fn waiting_note(n: nat) -> Seq<char> {
    "Waiting for audio sink… ("@ + text::decimal(n) + "/8)"@
}

/// Once the sink is known: make it the default, then move every stream to it.
pub open spec fn move_steps(sink: Seq<char>, replies: Seq<ReplyModel>) -> RouteStepModel {
    if replies.len() == 0 {
        RouteStepModel::Run(seq!["set-default-sink"@, sink])
    } else if !replies[0].ok {
        RouteStepModel::Done(false)
    } else if replies.len() == 1 {
        RouteStepModel::Run(seq!["list"@, "short"@, "sink-inputs"@])
    } else {
        let ids = listed_ids(replies[1].out);
        let moved = replies.len() - 2;
        if moved < ids.len() {
            RouteStepModel::Run(seq!["move-sink-input"@, ids[moved], sink])
        } else {
            RouteStepModel::Done(true)
        }
    }
}

/// Wait for the device's sink, up to the last attempt; then route to it.
pub open spec fn route_steps(mac: Seq<char>, replies: Seq<ReplyModel>) -> RouteStepModel {
    match sink_attempt(mac, replies) {
        Some(k) => move_steps(entry_for(replies[k].out, mac)->0, replies.skip(k + 1)),
        None => if replies.len() <= SINK_RETRIES {
            RouteStepModel::Poll {
                note: if replies.len() > 0 {
                    Some(waiting_note(replies.len()))
                } else {
                    None
                },
                wait: replies.len() > 0,
                args: seq!["list"@, "short"@, "sinks"@],
            }
        } else {
            RouteStepModel::Done(false)
        },
    }
}

fn route_to(sink: &str, replies: &Vec<Reply>, from: usize) -> (r: RouteStep)
    requires
        from <= replies@.len(),
    ensures
        r@ == move_steps(sink@, replies.deep_view().skip(from as int)),
{
    let ghost rs = replies.deep_view().skip(from as int);
    let n: usize = replies.len();
    if n == from {
        return RouteStep::Run(args2("set-default-sink", sink));
    }
    assert(rs[0] == replies@[from as int]@);
    if !replies[from].ok {
        return RouteStep::Done(false);
    }
    if n - from == 1 {
        return RouteStep::Run(args3("list", "short", "sink-inputs"));
    }
    assert(rs[1] == replies@[from + 1]@);
    let ids = short_sink_input_ids(replies[from + 1].out.as_str());
    let moved: usize = n - from - 2;
    if moved < ids.len() {
        assert(ids.deep_view()[moved as int] == ids@[moved as int]@);
        return RouteStep::Run(args3("move-sink-input", ids[moved].as_str(), sink));
    }
    RouteStep::Done(true)
}

/// Make a freshly-connected audio device the default output and move all
/// existing streams to it. Waits up to 8s for the sink to appear; if it never
/// does (e.g. a mouse), silently gives up.
pub fn route_audio(mac: &str, replies: &Vec<Reply>) -> (r: RouteStep)
    ensures
        r@ == route_steps(mac@, replies.deep_view()),
{
    let ghost rs = replies.deep_view();
    let n: usize = replies.len();
    let mut k: usize = 0;
    while k < n && k <= SINK_RETRIES
        invariant
            k <= n,
            k <= SINK_RETRIES + 1,
            n == replies@.len(),
            rs == replies.deep_view(),
            forall|j: int| 0 <= j < k ==> entry_for((#[trigger] rs[j]).out, mac@) is None,
        decreases n - k,
    {
        assert(rs[k as int] == replies@[k as int]@);
        match find_entry(replies[k].out.as_str(), mac) {
            Some(sink) => {
                proof {
                    assert(sink_first_in(mac@, rs, k as int));
                    let c = choose|c: int| sink_first_in(mac@, rs, c);
                    assert(sink_first_in(mac@, rs, c));
                    assert(c == k);
                }
                return route_to(sink.as_str(), replies, k + 1);
            },
            None => {},
        }
        k += 1;
    }
    assert forall|c: int| !sink_first_in(mac@, rs, c) by {
        if sink_first_in(mac@, rs, c) {
            assert(entry_for(rs[c].out, mac@) is None);
        }
    }
    if n > SINK_RETRIES {
        return RouteStep::Done(false);
    }
    let args = args3("list", "short", "sinks");
    if n == 0 {
        return RouteStep::Poll { note: None, wait: false, args };
    }
    let mut note = String::from_str("Waiting for audio sink… (");
    note.append(text::to_decimal(n as u128).as_str());
    note.append("/8)");
    RouteStep::Poll { note: Some(note), wait: true, args }
}

// ---------------------------------------------------------------------------
// Profiles
// ---------------------------------------------------------------------------

/// What has been read of a card's profiles.
pub ghost struct ProfilesModel {
    pub in_card: bool,
    pub in_profiles: bool,
    pub active: Option<Seq<char>>,
    pub available: Seq<Seq<char>>,
}

/// Read one more line of `pactl list cards`: only lines between the card's own
/// "Name: " and the next card's count, and of those in the "Profiles:" section
/// the available ones but "off".
pub open spec fn with_card_line(
    s: ProfilesModel,
    card: Seq<char>,
    line: Seq<char>,
) -> ProfilesModel {
    let t = trimmed(line);
    match after_prefix(t, "Name: "@) {
        Some(name) => ProfilesModel { in_card: name == card, in_profiles: false, ..s },
        None => if !s.in_card {
            s
        } else if has_prefix(t, "Profiles:"@) {
            ProfilesModel { in_profiles: true, ..s }
        } else {
            match after_prefix(t, "Active Profile: "@) {
                Some(p) => ProfilesModel { active: Some(p), in_profiles: false, ..s },
                None => if !s.in_profiles {
                    s
                } else {
                    match cut_at(t, ':') {
                        Some((name, rest)) => if occurs(rest, "available: yes"@) && name
                            != "off"@ {
                            ProfilesModel { available: s.available.push(name), ..s }
                        } else {
                            s
                        },
                        None => s,
                    }
                },
            }
        },
    }
}

pub open spec fn card_lines_read(lines: Seq<Seq<char>>, card: Seq<char>) -> ProfilesModel
    decreases lines.len(),
{
    if lines.len() == 0 {
        ProfilesModel {
            in_card: false,
            in_profiles: false,
            active: None,
            available: Seq::empty(),
        }
    } else {
        with_card_line(card_lines_read(lines.drop_last(), card), card, lines.last())
    }
}

/// The active profile of the named card, and its available ones.
pub open spec fn card_profiles(out: Seq<char>, card: Seq<char>) -> (
    Option<Seq<char>>,
    Seq<Seq<char>>,
) {
    let s = card_lines_read(line_seq(out), card);
    (s.active, s.available)
}

/// From `pactl list cards` output, extract (active profile, available
/// profiles) for the named card.
pub fn parse_card_profiles(out: &str, card: &str) -> (r: (Option<String>, Vec<String>))
    ensures
        (r.0.deep_view(), r.1.deep_view()) == card_profiles(out@, card@),
{
    let ls = text::lines(out);
    let ghost all = ls.deep_view();
    let mut in_card: bool = false;
    let mut in_profiles: bool = false;
    let mut active: Option<String> = None;
    let mut available: Vec<String> = Vec::new();
    let mut i: usize = 0;
    assert(available.deep_view() =~= Seq::<Seq<char>>::empty());
    while i < ls.len()
        invariant
            i <= ls@.len(),
            all == ls.deep_view(),
            all == line_seq(out@),
            card_lines_read(all.take(i as int), card@) == (ProfilesModel {
                in_card,
                in_profiles,
                active: active.deep_view(),
                available: available.deep_view(),
            }),
        decreases ls@.len() - i,
    {
        assert(all.take(i + 1).drop_last() =~= all.take(i as int));
        assert(all.take(i + 1).last() == ls@[i as int]@);
        let t = text::trim(ls[i].as_str());
        match text::strip_prefix(t.as_str(), "Name: ") {
            Some(name) => {
                in_card = text::same(name.as_str(), card);
                in_profiles = false;
            },
            None => {
                if in_card {
                    if text::starts_with(t.as_str(), "Profiles:") {
                        in_profiles = true;
                    } else {
                        match text::strip_prefix(t.as_str(), "Active Profile: ") {
                            Some(p) => {
                                active = Some(p);
                                in_profiles = false;
                            },
                            None => {
                                if in_profiles {
                                    match text::split_once(t.as_str(), ':') {
                                        Some((name, rest)) => {
                                            if text::contains(rest.as_str(), "available: yes")
                                                && !text::same(name.as_str(), "off") {
                                                push_text(&mut available, name.as_str());
                                            }
                                        },
                                        None => {},
                                    }
                                }
                            },
                        }
                    }
                }
            },
        }
        i += 1;
    }
    assert(all.take(i as int) =~= all);
    (active, available)
}

/// The active profile of the device's card, where there is one.
pub open spec fn active_profile_steps(mac: Seq<char>, replies: Seq<ReplyModel>) -> StepModel<
    Option<Seq<char>>,
> {
    if replies.len() == 0 {
        StepModel::Run(seq!["list"@, "short"@, "cards"@])
    } else {
        match entry_for(replies[0].out, mac) {
            None => StepModel::Done(None),
            Some(card) => if replies.len() == 1 {
                StepModel::Run(seq!["list"@, "cards"@])
            } else {
                StepModel::Done(card_profiles(replies[1].out, card).0)
            },
        }
    }
}

/// The active profile of the device's card, where there is one.
pub fn active_profile(mac: &str, replies: &Vec<Reply>) -> (r: Step<Option<String>>)
    ensures
        r@ == active_profile_steps(mac@, replies.deep_view()),
{
    if replies.len() == 0 {
        return Step::Run(args3("list", "short", "cards"));
    }
    let card = match find_entry(replies[0].out.as_str(), mac) {
        Some(card) => card,
        None => {
            return Step::Done(None);
        },
    };
    if replies.len() == 1 {
        return Step::Run(args2("list", "cards"));
    }
    Step::Done(parse_card_profiles(replies[1].out.as_str(), card.as_str()).0)
}

/// What a profile is called in a status line.
pub open spec fn label_of_profile(profile: Seq<char>) -> Seq<char> {
    if occurs(profile, "a2dp"@) {
        "A2DP (high quality)"@
    } else if occurs(profile, "bap"@) {
        "LE Audio (BAP)"@
    } else {
        "headset (microphone enabled)"@
    }
}

/// What a profile is called in a status line. "a2dp" alone would call a switch
/// to BAP a switch to the headset.
pub fn profile_label(profile: &str) -> (r: String)
    ensures
        r@ == label_of_profile(profile@),
{
    if text::contains(profile, "a2dp") {
        String::from_str("A2DP (high quality)")
    } else if text::contains(profile, "bap") {
        String::from_str("LE Audio (BAP)")
    } else {
        String::from_str("headset (microphone enabled)")
    }
}

/// The profile is of the kind wanted: with a microphone, or high quality.
pub open spec fn profile_suits(profile: Seq<char>, want_headset: bool) -> bool {
    if want_headset {
        occurs(profile, "headset"@) || occurs(profile, "handsfree"@) || occurs(profile, "hfp"@)
    } else {
        occurs(profile, "a2dp"@)
    }
}

pub open spec fn first_suiting(available: Seq<Seq<char>>, want_headset: bool) -> Option<Seq<char>>
    decreases available.len(),
{
    if available.len() == 0 {
        None
    } else if profile_suits(available[0], want_headset) {
        Some(available[0])
    } else {
        first_suiting(available.drop_first(), want_headset)
    }
}

/// The profile to switch the card to, or why there is none.
pub open spec fn profile_target(out: Seq<char>, card: Seq<char>) -> Result<Seq<char>, Seq<char>> {
    let (active, available) = card_profiles(out, card);
    match active {
        None => Err("could not determine active profile"@),
        Some(active) => {
            let want_headset = occurs(active, "a2dp"@);
            match first_suiting(available, want_headset) {
                Some(p) => Ok(p),
                None => if want_headset {
                    Err("device has no headset/mic profile"@)
                } else {
                    Err("device has no A2DP profile"@)
                },
            }
        },
    }
}

/// Find the device's card, its profiles, and switch to the other kind.
pub open spec fn toggle_steps(mac: Seq<char>, replies: Seq<ReplyModel>) -> StepModel<
    Result<Seq<char>, Seq<char>>,
> {
    if replies.len() == 0 {
        StepModel::Run(seq!["list"@, "short"@, "cards"@])
    } else {
        match entry_for(replies[0].out, mac) {
            None => StepModel::Done(Err("no audio card for this device (is it connected?)"@)),
            Some(card) => if replies.len() == 1 {
                StepModel::Run(seq!["list"@, "cards"@])
            } else {
                match profile_target(replies[1].out, card) {
                    Err(e) => StepModel::Done(Err(e)),
                    Ok(target) => if replies.len() == 2 {
                        StepModel::Run(seq!["set-card-profile"@, card, target])
                    } else if replies[2].ok {
                        StepModel::Done(Ok(target))
                    } else {
                        StepModel::Done(Err("failed to switch profile to "@ + target))
                    },
                }
            },
        }
    }
}

fn find_target(out: &str, card: &str) -> (r: Result<String, String>)
    ensures
        crate::shell::result_model(r) == profile_target(out@, card@),
{
    let (active, available) = parse_card_profiles(out, card);
    let active = match active {
        Some(active) => active,
        None => {
            return Err(String::from_str("could not determine active profile"));
        },
    };
    let want_headset: bool = text::contains(active.as_str(), "a2dp");
    let ghost all = available.deep_view();
    let mut i: usize = 0;
    assert(all.skip(0) =~= all);
    while i < available.len()
        invariant
            i <= available@.len(),
            all == available.deep_view(),
            profile_target(out@, card@) == (match first_suiting(all, want_headset) {
                Some(p) => Ok::<Seq<char>, Seq<char>>(p),
                None => if want_headset {
                    Err("device has no headset/mic profile"@)
                } else {
                    Err("device has no A2DP profile"@)
                },
            }),
            first_suiting(all.skip(i as int), want_headset) == first_suiting(all, want_headset),
        decreases available@.len() - i,
    {
        let p = available[i].as_str();
        assert(all.skip(i as int)[0] == p@);
        assert(all.skip(i as int).drop_first() =~= all.skip(i + 1));
        let suits: bool = if want_headset {
            text::contains(p, "headset") || text::contains(p, "handsfree") || text::contains(
                p,
                "hfp",
            )
        } else {
            text::contains(p, "a2dp")
        };
        if suits {
            return Ok(available[i].clone());
        }
        i += 1;
    }
    if want_headset {
        Err(String::from_str("device has no headset/mic profile"))
    } else {
        Err(String::from_str("device has no A2DP profile"))
    }
}

/// Toggle the device's card between its A2DP (high quality) and headset
/// (mic-enabled) profiles. Ends with the name of the newly active profile.
pub fn toggle_profile(mac: &str, replies: &Vec<Reply>) -> (r: Step<Result<String, String>>)
    ensures
        step_model(r) == toggle_steps(mac@, replies.deep_view()),
{
    if replies.len() == 0 {
        return Step::Run(args3("list", "short", "cards"));
    }
    let card = match find_entry(replies[0].out.as_str(), mac) {
        Some(card) => card,
        None => {
            return Step::Done(
                Err(String::from_str("no audio card for this device (is it connected?)")),
            );
        },
    };
    if replies.len() == 1 {
        return Step::Run(args2("list", "cards"));
    }
    let target = match find_target(replies[1].out.as_str(), card.as_str()) {
        Ok(target) => target,
        Err(e) => {
            return Step::Done(Err(e));
        },
    };
    if replies.len() == 2 {
        return Step::Run(args3("set-card-profile", card.as_str(), target.as_str()));
    }
    if !replies[2].ok {
        let mut e = String::from_str("failed to switch profile to ");
        e.append(target.as_str());
        return Step::Done(Err(e));
    }
    Step::Done(Ok(target))
}

// ---------------------------------------------------------------------------
// Laws
// ---------------------------------------------------------------------------

/// The wait for a sink is bounded: where none of the first replies names one,
/// the attempt gives up, and has waited once for each retry.
pub proof fn routing_gives_up(mac: Seq<char>, replies: Seq<ReplyModel>)
    requires
        forall|j: int|
            0 <= j < replies.len() ==> entry_for((#[trigger] replies[j]).out, mac) is None,
    ensures
        replies.len() > SINK_RETRIES ==> route_steps(mac, replies) == RouteStepModel::Done(false),
        replies.len() <= SINK_RETRIES ==> (route_steps(mac, replies) matches RouteStepModel::Poll {
            wait,
            ..
        } && wait == (replies.len() > 0)),
{
    assert forall|k: int| !sink_first_in(mac, replies, k) by {
        if sink_first_in(mac, replies, k) {
            assert(entry_for(replies[k].out, mac) is None);
        }
    }
}

/// Once the sink is the default output, every stream is moved to it, one after
/// the other, and only then is audio routed.
pub proof fn routing_moves_every_stream(sink: Seq<char>, replies: Seq<ReplyModel>)
    requires
        replies.len() >= 2,
        replies[0].ok,
    ensures
        ({
            let ids = listed_ids(replies[1].out);
            let moved = replies.len() - 2;
            move_steps(sink, replies) == (if moved < ids.len() {
                RouteStepModel::Run(seq!["move-sink-input"@, ids[moved], sink])
            } else {
                RouteStepModel::Done(true)
            })
        }),
{
}

proof fn lemma_first_suiting(available: Seq<Seq<char>>, want_headset: bool)
    ensures
        first_suiting(available, want_headset) matches Some(p) ==> available.contains(p)
            && profile_suits(p, want_headset),
        first_suiting(available, want_headset) is None ==> forall|i: int|
            0 <= i < available.len() ==> !profile_suits(#[trigger] available[i], want_headset),
    decreases available.len(),
{
    if available.len() > 0 && !profile_suits(available[0], want_headset) {
        let rest = available.drop_first();
        lemma_first_suiting(rest, want_headset);
        match first_suiting(rest, want_headset) {
            Some(p) => {
                let i = choose|i: int| 0 <= i < rest.len() && rest[i] == p;
                assert(available[i + 1] == p);
            },
            None => {
                assert forall|i: int| 0 <= i < available.len() implies !profile_suits(
                    #[trigger] available[i],
                    want_headset,
                ) by {
                    if i > 0 {
                        assert(rest[i - 1] == available[i]);
                    }
                }
            },
        }
    } else if available.len() > 0 {
        assert(available[0] == first_suiting(available, want_headset)->0);
    }
}

/// The profile that a toggle switches to is one that the card offers, and of the
/// other kind: from A2DP to one with a microphone, and from any other to A2DP.
/// It is found wherever the card offers one.
pub proof fn toggle_leads_to_the_other_kind(out: Seq<char>, card: Seq<char>)
    ensures
        ({
            let (active, available) = card_profiles(out, card);
            match active {
                None => profile_target(out, card) is Err,
                Some(active) => {
                    let want_headset = occurs(active, "a2dp"@);
                    match profile_target(out, card) {
                        Ok(p) => available.contains(p) && profile_suits(p, want_headset),
                        Err(_) => forall|i: int|
                            0 <= i < available.len() ==> !profile_suits(
                                #[trigger] available[i],
                                want_headset,
                            ),
                    }
                },
            }
        }),
{
    let (active, available) = card_profiles(out, card);
    match active {
        None => {},
        Some(active) => {
            lemma_first_suiting(available, occurs(active, "a2dp"@));
        },
    }
}

} // verus!
