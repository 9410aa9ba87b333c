//! What holds of sound servers, whatever they list.

use vstd::prelude::*;

use crate::shell::{ReplyModel, StepModel};
use crate::text;
use crate::text::laws::{
    all_one_line, cuts_read_back, first_lines_are_found, lines_read_back, one_line,
    prefixes_come_off, printed, trimming_keeps_the_core,
};
use crate::text::{ascii_lower, decimal, has_prefix, line_seq, occurs, occurs_at, trimmed, white};

use super::{
    active_profile_steps, card_lines_read, card_profiles, entry_for, entry_steps, first_named,
    first_suiting, label_of_profile, listed_ids, names_device, nth_field, profile_target,
    route_steps, server_in, sink_first_in, toggle_steps, underscored, with_card_line, ProfilesModel,
    RouteStepModel,
};

verus! {

// ---------------------------------------------------------------------------
// Short listings
// ---------------------------------------------------------------------------

/// The fields of a line are what stands between its tabs.
pub proof fn fields_are_between_tabs(first: Seq<char>, rest: Seq<char>, n: nat)
    requires
        !first.contains('\t'),
    ensures
        nth_field(first, 0) == Some(first),
        nth_field(first, n + 1) is None,
        nth_field(first.push('\t') + rest, 0) == Some(first),
        nth_field(first.push('\t') + rest, n + 1) == nth_field(rest, n),
{
    cuts_read_back(first, '\t', rest);
}

/// A character of an address as sound servers spell it.
pub open spec fn spelt(c: char) -> char {
    if c == ':' {
        '_'
    } else {
        c
    }
}

/// The name spells the address from place `i` on, with underscores for colons, in
/// whatever case.
pub open spec fn spells_at(name: Seq<char>, mac: Seq<char>, i: int) -> bool {
    0 <= i && i + mac.len() <= name.len() && forall|j: int|
        0 <= j < mac.len() ==> ascii_lower(name[i + j]) == ascii_lower(spelt(#[trigger] mac[j]))
}

/// The name spells the address somewhere.
pub open spec fn spells(name: Seq<char>, mac: Seq<char>) -> bool {
    exists|i: int| #[trigger] spells_at(name, mac, i)
}

proof fn lemma_spells_at(name: Seq<char>, mac: Seq<char>, i: int)
    ensures
        spells_at(name, mac, i) <==> occurs_at(
            text::ascii_folded(name),
            text::ascii_folded(underscored(mac)),
            i,
        ),
{
    let a = text::ascii_folded(name);
    let b = text::ascii_folded(underscored(mac));
    assert(a.len() == name.len() && b.len() == mac.len());
    assert forall|j: int| 0 <= j < mac.len() implies b[j] == ascii_lower(
        spelt(#[trigger] mac[j]),
    ) by {}
    if 0 <= i && i + mac.len() <= name.len() {
        let part = a.subrange(i, i + b.len());
        assert forall|j: int| 0 <= j < mac.len() implies #[trigger] part[j] == ascii_lower(
            name[i + j],
        ) by {}
        if spells_at(name, mac, i) {
            assert forall|j: int| 0 <= j < mac.len() implies #[trigger] part[j] == b[j] by {
                assert(mac[j] == mac[j]);
            }
            assert(part =~= b);
        }
        if part == b {
            assert forall|j: int| 0 <= j < mac.len() implies ascii_lower(name[i + j])
                == ascii_lower(spelt(#[trigger] mac[j])) by {
                assert(part[j] == b[j]);
            }
        }
    }
}

/// A sink or card belongs to a device where its name spells the device's
/// address, with underscores for colons, anywhere and in whatever case.
pub proof fn names_spell_addresses(name: Seq<char>, mac: Seq<char>)
    ensures
        names_device(name, underscored(mac)) <==> spells(name, mac),
{
    let a = text::ascii_folded(name);
    let b = text::ascii_folded(underscored(mac));
    if spells(name, mac) {
        let i = choose|i: int| #[trigger] spells_at(name, mac, i);
        lemma_spells_at(name, mac, i);
        assert(occurs_at(a, b, i));
    }
    if occurs(a, b) {
        let i = choose|i: int| occurs_at(a, b, i);
        lemma_spells_at(name, mac, i);
        assert(spells_at(name, mac, i));
    }
}

/// The second field of the line spells the device's address.
pub open spec fn line_is_for(line: Seq<char>, mac: Seq<char>) -> bool {
    nth_field(line, 1) matches Some(name) && spells(name, mac)
}

/// Line `k` of the listing is the first that is for the device.
pub open spec fn first_line_for(listing: Seq<char>, mac: Seq<char>, k: int) -> bool {
    &&& 0 <= k < line_seq(listing).len()
    &&& line_is_for(line_seq(listing)[k], mac)
    &&& forall|j: int| 0 <= j < k ==> !line_is_for(#[trigger] line_seq(listing)[j], mac)
}

/// No line of the listing is for the device.
pub open spec fn no_line_for(listing: Seq<char>, mac: Seq<char>) -> bool {
    forall|j: int|
        0 <= j < line_seq(listing).len() ==> !line_is_for(#[trigger] line_seq(listing)[j], mac)
}

proof fn lemma_first_named(lines: Seq<Seq<char>>, mac: Seq<char>, k: int)
    requires
        0 <= k <= lines.len(),
        forall|j: int| 0 <= j < k ==> !line_is_for(#[trigger] lines[j], mac),
        k < lines.len() ==> line_is_for(lines[k], mac),
    ensures
        k < lines.len() ==> first_named(lines, underscored(mac)) == nth_field(lines[k], 1),
        k == lines.len() ==> first_named(lines, underscored(mac)) is None,
    decreases lines.len(),
{
    if lines.len() > 0 {
        if let Some(name) = nth_field(lines[0], 1) {
            names_spell_addresses(name, mac);
        }
        if k > 0 {
            assert(!line_is_for(lines[0], mac));
            let rest = lines.drop_first();
            assert forall|j: int| 0 <= j < k - 1 implies !line_is_for(#[trigger] rest[j], mac) by {
                assert(rest[j] == lines[j + 1]);
            }
            if k < lines.len() {
                assert(rest[k - 1] == lines[k]);
            }
            lemma_first_named(rest, mac, k - 1);
        }
    }
}

/// A device's sink or card is found wherever it stands in a listing: it is what
/// the first line for the device names, and is missed only where no line is.
pub proof fn entries_are_found_wherever_they_stand(listing: Seq<char>, mac: Seq<char>, k: int)
    ensures
        first_line_for(listing, mac, k) ==> entry_for(listing, mac) == nth_field(
            line_seq(listing)[k],
            1,
        ) && entry_for(listing, mac) is Some,
        no_line_for(listing, mac) ==> entry_for(listing, mac) is None,
        entry_for(listing, mac) is None ==> no_line_for(listing, mac),
        entry_for(listing, mac) matches Some(name) ==> spells(name, mac),
{
    let lines = line_seq(listing);
    if first_line_for(listing, mac, k) {
        lemma_first_named(lines, mac, k);
    }
    if no_line_for(listing, mac) {
        lemma_first_named(lines, mac, lines.len() as int);
    } else {
        let j = choose|j: int| 0 <= j < lines.len() && line_is_for(#[trigger] lines[j], mac);
        let f = lemma_some_first_line(listing, mac, j);
        lemma_first_named(lines, mac, f);
    }
}

proof fn lemma_some_first_line(listing: Seq<char>, mac: Seq<char>, j: int) -> (k: int)
    requires
        0 <= j < line_seq(listing).len(),
        line_is_for(line_seq(listing)[j], mac),
    ensures
        first_line_for(listing, mac, k),
    decreases j,
{
    let lines = line_seq(listing);
    if forall|i: int| 0 <= i < j ==> !line_is_for(#[trigger] lines[i], mac) {
        j
    } else {
        let i = choose|i: int| 0 <= i < j && line_is_for(#[trigger] lines[i], mac);
        lemma_some_first_line(listing, mac, i)
    }
}

/// A short listing is asked for by what it lists, and searched for the device.
pub proof fn listings_are_searched_for_the_device(
    what: Seq<char>,
    mac: Seq<char>,
    reply: ReplyModel,
)
    ensures
        entry_steps(what, mac, Seq::empty()) == StepModel::<Option<Seq<char>>>::Run(
            seq!["list"@, "short"@, what],
        ),
        entry_steps(what, mac, seq![reply]) == StepModel::Done(entry_for(reply.out, mac)),
{
}

/// The ids of a listing are the first fields of its lines, one each.
pub proof fn ids_are_the_first_fields(listing: Seq<char>, i: int)
    requires
        0 <= i < line_seq(listing).len(),
    ensures
        listed_ids(listing).len() == line_seq(listing).len(),
        Some(listed_ids(listing)[i]) == nth_field(line_seq(listing)[i], 0),
{
}

/// The sound server is called what it calls itself.
pub proof fn servers_name_themselves(out: Seq<char>, name: Seq<char>, k: int)
    requires
        0 <= k < line_seq(out).len(),
        line_seq(out)[k] == "Server Name: "@ + name,
        forall|j: int| 0 <= j < k ==> !has_prefix(#[trigger] line_seq(out)[j], "Server Name: "@),
    ensures
        server_in(out) == Some(name),
{
    let ls = line_seq(out);
    let line = ls[k];
    prefixes_come_off("Server Name: "@, name, line);
    first_lines_are_found(ls, "Server Name: "@);
    match text::first_with_prefix(ls, "Server Name: "@) {
        Some(l) => {
            let m = choose|m: int|
                0 <= m < ls.len() && #[trigger] ls[m] == l && has_prefix(l, "Server Name: "@)
                    && forall|j: int| 0 <= j < m ==> !has_prefix(#[trigger] ls[j], "Server Name: "@);
            if m < k {
                assert(!has_prefix(ls[m], "Server Name: "@));
            } else if k < m {
                assert(!has_prefix(ls[k], "Server Name: "@));
            }
        },
        None => {
            assert(!has_prefix(ls[k], "Server Name: "@));
        },
    }
}

// ---------------------------------------------------------------------------
// Routing
// ---------------------------------------------------------------------------

/// None of the replies lists a sink of the device.
pub open spec fn no_sink_in(mac: Seq<char>, replies: Seq<ReplyModel>) -> bool {
    forall|j: int| 0 <= j < replies.len() ==> no_line_for((#[trigger] replies[j]).out, mac)
}

proof fn lemma_no_sink(mac: Seq<char>, replies: Seq<ReplyModel>)
    requires
        no_sink_in(mac, replies),
    ensures
        forall|k: int| !sink_first_in(mac, replies, k),
{
    assert forall|k: int| !sink_first_in(mac, replies, k) by {
        if 0 <= k < replies.len() {
            assert(no_line_for(replies[k].out, mac));
            entries_are_found_wherever_they_stand(replies[k].out, mac, 0);
        }
    }
}

/// While no sink of the device is listed, the sinks are listed again: at once the
/// first time, then after a second each, eight times, with the user told how
/// often. After nine looks without one, audio is not routed.
pub proof fn routing_looks_nine_times(mac: Seq<char>, replies: Seq<ReplyModel>)
    requires
        no_sink_in(mac, replies),
    ensures
        replies.len() == 0 ==> route_steps(mac, replies) == (RouteStepModel::Poll {
            note: None,
            wait: false,
            args: seq!["list"@, "short"@, "sinks"@],
        }),
        1 <= replies.len() <= 8 ==> route_steps(mac, replies) == (RouteStepModel::Poll {
            note: Some("Waiting for audio sink… ("@ + decimal(replies.len()) + "/8)"@),
            wait: true,
            args: seq!["list"@, "short"@, "sinks"@],
        }),
        replies.len() >= 9 ==> route_steps(mac, replies) == RouteStepModel::Done(false),
{
    lemma_no_sink(mac, replies);
}

/// The first `k` replies list no sink of the device, and the next one lists
/// `sink`, as the first that is the device's.
pub open spec fn sink_shows_up(
    mac: Seq<char>,
    replies: Seq<ReplyModel>,
    k: int,
    line: int,
    sink: Seq<char>,
) -> bool {
    &&& 0 <= k < replies.len()
    &&& k <= 8
    &&& no_sink_in(mac, replies.take(k))
    &&& first_line_for(replies[k].out, mac, line)
    &&& nth_field(line_seq(replies[k].out)[line], 1) == Some(sink)
}

/// Once the device's sink shows up, it is made the default output; then the
/// streams are listed, and each is moved to that sink, one after the other; only
/// then is audio routed. Where the sink cannot be made the default, audio is not
/// routed, and no stream is touched.
pub proof fn routing_moves_sound_to_the_device(
    mac: Seq<char>,
    replies: Seq<ReplyModel>,
    k: int,
    line: int,
    sink: Seq<char>,
)
    requires
        sink_shows_up(mac, replies, k, line, sink),
    ensures
        ({
            let n = replies.len() - k - 1;
            let step = route_steps(mac, replies);
            &&& n == 0 ==> step == RouteStepModel::Run(seq!["set-default-sink"@, sink])
            &&& n >= 1 && !replies[k + 1].ok ==> step == RouteStepModel::Done(false)
            &&& n == 1 && replies[k + 1].ok ==> step == RouteStepModel::Run(
                seq!["list"@, "short"@, "sink-inputs"@],
            )
            &&& n >= 2 && replies[k + 1].ok ==> ({
                let streams = line_seq(replies[k + 2].out);
                let moved = n - 2;
                if moved < streams.len() {
                    nth_field(streams[moved], 0) matches Some(id) && step == RouteStepModel::Run(
                        seq!["move-sink-input"@, id, sink],
                    )
                } else {
                    step == RouteStepModel::Done(true)
                }
            })
        }),
{
    entries_are_found_wherever_they_stand(replies[k].out, mac, line);
    assert forall|j: int| 0 <= j < k implies entry_for((#[trigger] replies[j]).out, mac)
        is None by {
        assert(replies.take(k)[j] == replies[j]);
        assert(no_line_for(replies.take(k)[j].out, mac));
        entries_are_found_wherever_they_stand(replies[j].out, mac, 0);
    }
    assert(sink_first_in(mac, replies, k));
    let c = choose|c: int| sink_first_in(mac, replies, c);
    assert(sink_first_in(mac, replies, c));
    assert(c == k);
    let rs = replies.skip(k + 1);
    assert(rs.len() == replies.len() - k - 1);
    if rs.len() >= 1 {
        assert(rs[0] == replies[k + 1]);
    }
    if rs.len() >= 2 {
        assert(rs[1] == replies[k + 2]);
        let moved = rs.len() - 2;
        if moved < line_seq(rs[1].out).len() {
            ids_are_the_first_fields(rs[1].out, moved);
        }
    }
}

// ---------------------------------------------------------------------------
// Profiles
// ---------------------------------------------------------------------------

/// A profile of a card, as it is listed: its name, and what is told of it.
pub open spec fn profile_line(name: Seq<char>, told: Seq<char>) -> Seq<char> {
    "\t\t"@ + name.push(':') + told
}

/// A profile can be listed so.
pub open spec fn listable(name: Seq<char>, told: Seq<char>) -> bool {
    &&& name.len() > 0
    &&& !name.contains(':')
    &&& !white(name[0])
    &&& name != "Name"@
    &&& name != "Profiles"@
    &&& name != "Active Profile"@
    &&& told.len() > 0
    &&& !white(told.last())
}

/// Of the profiles, the names of those that are available, but for the one that
/// switches the card off.
pub open spec fn usable(profiles: Seq<(Seq<char>, Seq<char>)>) -> Seq<Seq<char>>
    decreases profiles.len(),
{
    if profiles.len() == 0 {
        Seq::empty()
    } else {
        let before = usable(profiles.drop_last());
        let (name, told) = profiles.last();
        if occurs(told, "available: yes"@) && name != "off"@ {
            before.push(name)
        } else {
            before
        }
    }
}

pub open spec fn profile_lines(profiles: Seq<(Seq<char>, Seq<char>)>) -> Seq<Seq<char>> {
    profiles.map_values(|p: (Seq<char>, Seq<char>)| profile_line(p.0, p.1))
}

/// What is listed of a card.
pub open spec fn card_section(
    card: Seq<char>,
    profiles: Seq<(Seq<char>, Seq<char>)>,
    active: Seq<char>,
) -> Seq<Seq<char>> {
    seq!["\tName: "@ + card, "\tProfiles:"@] + profile_lines(profiles) + seq![
        "\tActive Profile: "@ + active,
    ]
}

/// The line names a card.
pub open spec fn names_card(line: Seq<char>, card: Seq<char>) -> bool {
    text::after_prefix(trimmed(line), "Name: "@) == Some(card)
}

proof fn lemma_tabbed(tabs: Seq<char>, core: Seq<char>)
    requires
        tabs == "\t"@ || tabs == "\t\t"@,
        core.len() > 0,
        !white(core[0]),
        !white(core.last()),
    ensures
        trimmed(tabs + core) == core,
{
    reveal_strlit("\t");
    reveal_strlit("\t\t");
    assert forall|i: int| 0 <= i < tabs.len() implies white(#[trigger] tabs[i]) by {}
    trimming_keeps_the_core(tabs, core, Seq::empty());
    assert(tabs + core + Seq::<char>::empty() =~= tabs + core);
}

proof fn lemma_profile_line(
    s: ProfilesModel,
    card: Seq<char>,
    name: Seq<char>,
    told: Seq<char>,
)
    requires
        listable(name, told),
        s.in_card,
        s.in_profiles,
    ensures
        with_card_line(s, card, profile_line(name, told)) == (if occurs(told, "available: yes"@)
            && name != "off"@ {
            ProfilesModel { available: s.available.push(name), ..s }
        } else {
            s
        }),
{
    let t = name.push(':') + told;
    assert(t[0] == name[0]);
    assert(t.last() == told.last());
    assert(profile_line(name, told) =~= "\t\t"@ + t);
    lemma_tabbed("\t\t"@, t);
    cuts_read_back(name, ':', told);
    lemma_other_word(name, told, "Name"@, "Name: "@);
    lemma_other_word(name, told, "Profiles"@, "Profiles:"@);
    lemma_other_word(name, told, "Active Profile"@, "Active Profile: "@);
}

/// A line whose first word is another does not begin with the word.
proof fn lemma_other_word(name: Seq<char>, told: Seq<char>, word: Seq<char>, prefix: Seq<char>)
    requires
        !name.contains(':'),
        name != word,
        (word == "Name"@ && prefix == "Name: "@) || (word == "Profiles"@ && prefix == "Profiles:"@)
            || (word == "Active Profile"@ && prefix == "Active Profile: "@),
    ensures
        !has_prefix(name.push(':') + told, prefix),
{
    let t = name.push(':') + told;
    assert(!word.contains(':') && has_prefix(prefix, word.push(':'))) by {
        reveal_strlit("Name");
        reveal_strlit("Name: ");
        reveal_strlit("Profiles");
        reveal_strlit("Profiles:");
        reveal_strlit("Active Profile");
        reveal_strlit("Active Profile: ");
        assert(prefix.subrange(0, word.len() + 1int) =~= word.push(':'));
    }
    if has_prefix(t, prefix) {
        let n = word.len() as int;
        assert(prefix.subrange(0, n + 1) == word.push(':'));
        assert(t.subrange(0, prefix.len() as int) == prefix);
        assert(t.take(n + 1) =~= word.push(':')) by {
            assert(t.take(n + 1) =~= prefix.subrange(0, n + 1));
        }
        assert(t =~= word.push(':') + t.skip(n + 1));
        cuts_read_back(word, ':', t.skip(n + 1));
        cuts_read_back(name, ':', told);
    }
}

proof fn lemma_profile_lines(
    lines: Seq<Seq<char>>,
    card: Seq<char>,
    profiles: Seq<(Seq<char>, Seq<char>)>,
)
    requires
        card_lines_read(lines, card).in_card,
        card_lines_read(lines, card).in_profiles,
        forall|i: int|
            0 <= i < profiles.len() ==> listable(
                (#[trigger] profiles[i]).0,
                profiles[i].1,
            ),
    ensures
        card_lines_read(lines + profile_lines(profiles), card) == (ProfilesModel {
            available: card_lines_read(lines, card).available + usable(profiles),
            ..card_lines_read(lines, card)
        }),
    decreases profiles.len(),
{
    let s = card_lines_read(lines, card);
    if profiles.len() == 0 {
        assert(lines + profile_lines(profiles) =~= lines);
        assert(s.available + usable(profiles) =~= s.available);
    } else {
        let short = profiles.drop_last();
        assert forall|i: int| 0 <= i < short.len() implies listable(
            (#[trigger] short[i]).0,
            short[i].1,
        ) by {
            assert(short[i] == profiles[i]);
        }
        lemma_profile_lines(lines, card, short);
        let all = lines + profile_lines(profiles);
        let (name, told) = profiles.last();
        assert(all.drop_last() =~= lines + profile_lines(short));
        assert(all.last() == profile_line(name, told));
        assert(listable(profiles[profiles.len() - 1].0, profiles[profiles.len() - 1].1));
        lemma_profile_line(card_lines_read(all.drop_last(), card), card, name, told);
        assert(s.available + usable(short).push(name) =~= (s.available + usable(short)).push(name));
    }
}

proof fn lemma_other_lines(lines: Seq<Seq<char>>, more: Seq<Seq<char>>, card: Seq<char>)
    requires
        !card_lines_read(lines, card).in_card,
        forall|i: int| 0 <= i < more.len() ==> !names_card(#[trigger] more[i], card),
    ensures
        card_lines_read(lines + more, card).available == card_lines_read(lines, card).available,
        card_lines_read(lines + more, card).active == card_lines_read(lines, card).active,
        !card_lines_read(lines + more, card).in_card,
    decreases more.len(),
{
    if more.len() == 0 {
        assert(lines + more =~= lines);
    } else {
        let short = more.drop_last();
        assert forall|i: int| 0 <= i < short.len() implies !names_card(
            #[trigger] short[i],
            card,
        ) by {
            assert(short[i] == more[i]);
        }
        lemma_other_lines(lines, short, card);
        let all = lines + more;
        assert(all.drop_last() =~= lines + short);
        assert(all.last() == more.last());
        assert(!names_card(more[more.len() - 1], card));
    }
}

proof fn lemma_card_head(lines: Seq<Seq<char>>, card: Seq<char>)
    requires
        card.len() > 0,
        !white(card.last()),
    ensures
        ({
            let s = card_lines_read(lines, card);
            let t = card_lines_read(lines.push("\tName: "@ + card).push("\tProfiles:"@), card);
            t == (ProfilesModel { in_card: true, in_profiles: true, ..s })
        }),
{
    let named = lines.push("\tName: "@ + card);
    let opened = named.push("\tProfiles:"@);
    assert(named.drop_last() =~= lines);
    assert(opened.drop_last() =~= named);
    let core = "Name: "@ + card;
    assert("\tName: "@ == "\t"@ + "Name: "@ && "Name: "@.len() > 0 && "Name: "@[0] == 'N') by {
        reveal_strlit("\tName: ");
        reveal_strlit("\t");
        reveal_strlit("Name: ");
        assert("\tName: "@ =~= "\t"@ + "Name: "@);
    }
    assert("\tName: "@ + card =~= "\t"@ + core);
    assert(core[0] == 'N' && core.last() == card.last());
    text::laws::characters_are_told_apart('N');
    lemma_tabbed("\t"@, core);
    prefixes_come_off("Name: "@, card, core);
    let p = "Profiles:"@;
    assert("\tProfiles:"@ == "\t"@ + p && p.len() == 9 && p[0] == 'P' && p[8] == ':') by {
        reveal_strlit("\tProfiles:");
        reveal_strlit("\t");
        reveal_strlit("Profiles:");
        assert("\tProfiles:"@ =~= "\t"@ + p);
    }
    text::laws::characters_are_told_apart('P');
    text::laws::characters_are_told_apart(':');
    lemma_tabbed("\t"@, p);
    assert(!has_prefix(p, "Name: "@)) by {
        if has_prefix(p, "Name: "@) {
            assert(p.subrange(0, "Name: "@.len() as int)[0] == 'N');
        }
    }
    assert(has_prefix(p, p)) by {
        assert(p.subrange(0, p.len() as int) =~= p);
    }
    let s = card_lines_read(lines, card);
    assert(named.last() == "\tName: "@ + card);
    assert(card_lines_read(named, card) == (ProfilesModel {
        in_card: true,
        in_profiles: false,
        ..s
    }));
    assert(opened.last() == "\tProfiles:"@);
}

proof fn lemma_active_line(lines: Seq<Seq<char>>, card: Seq<char>, active: Seq<char>)
    requires
        card_lines_read(lines, card).in_card,
        active.len() > 0,
        !white(active.last()),
    ensures
        card_lines_read(lines.push("\tActive Profile: "@ + active), card) == (ProfilesModel {
            active: Some(active),
            in_profiles: false,
            ..card_lines_read(lines, card)
        }),
{
    let all = lines.push("\tActive Profile: "@ + active);
    assert(all.drop_last() =~= lines);
    let core = "Active Profile: "@ + active;
    assert("\tActive Profile: "@ == "\t"@ + "Active Profile: "@ && "Active Profile: "@.len() > 0
        && "Active Profile: "@[0] == 'A') by {
        reveal_strlit("\tActive Profile: ");
        reveal_strlit("\t");
        reveal_strlit("Active Profile: ");
        assert("\tActive Profile: "@ =~= "\t"@ + "Active Profile: "@);
    }
    assert("\tActive Profile: "@ + active =~= "\t"@ + core);
    assert(core[0] == 'A' && core.last() == active.last());
    text::laws::characters_are_told_apart('A');
    lemma_tabbed("\t"@, core);
    prefixes_come_off("Active Profile: "@, active, core);
    assert("Name: "@.len() > 0 && "Name: "@[0] == 'N' && "Profiles:"@.len() > 0 && "Profiles:"@[0]
        == 'P') by {
        reveal_strlit("Name: ");
        reveal_strlit("Profiles:");
    }
    if has_prefix(core, "Name: "@) {
        assert(core.subrange(0, "Name: "@.len() as int)[0] == 'N');
    }
    if has_prefix(core, "Profiles:"@) {
        assert(core.subrange(0, "Profiles:"@.len() as int)[0] == 'P');
    }
}

/// The profiles of a card read back as they were listed: the active one, and the
/// names of those that are available, "off" left out, in order; whatever stands
/// before and behind, as long as it is about other cards.
pub proof fn profiles_read_back(
    before: Seq<Seq<char>>,
    card: Seq<char>,
    profiles: Seq<(Seq<char>, Seq<char>)>,
    active: Seq<char>,
    other: Seq<char>,
    behind: Seq<Seq<char>>,
)
    requires
        all_one_line(
            before + card_section(card, profiles, active) + seq!["\tName: "@ + other] + behind,
        ),
        forall|i: int| 0 <= i < before.len() ==> !names_card(#[trigger] before[i], card),
        forall|i: int| 0 <= i < behind.len() ==> !names_card(#[trigger] behind[i], card),
        forall|i: int|
            0 <= i < profiles.len() ==> listable((#[trigger] profiles[i]).0, profiles[i].1),
        card.len() > 0,
        !white(card.last()),
        other.len() > 0,
        !white(other.last()),
        other != card,
        active.len() > 0,
        !white(active.last()),
    ensures
        card_profiles(
            printed(
                before + card_section(card, profiles, active) + seq!["\tName: "@ + other] + behind,
            ),
            card,
        ) == (Some(active), usable(profiles)),
        card_profiles(printed(before + card_section(card, profiles, active)), card) == (
            Some(active),
            usable(profiles),
        ),
{
    let none = Seq::<Seq<char>>::empty();
    let section = card_section(card, profiles, active);
    let head = before.push("\tName: "@ + card).push("\tProfiles:"@);
    let listed = head + profile_lines(profiles);
    let closed = listed.push("\tActive Profile: "@ + active);
    assert(none + before =~= before);
    lemma_other_lines(none, before, card);
    lemma_card_head(before, card);
    lemma_profile_lines(head, card, profiles);
    assert(card_lines_read(head, card).available =~= Seq::<Seq<char>>::empty());
    lemma_active_line(listed, card, active);
    assert(Seq::<Seq<char>>::empty() + usable(profiles) =~= usable(profiles));
    assert(before + section =~= closed);
    let all = closed + seq!["\tName: "@ + other] + behind;
    assert(all_one_line(closed)) by {
        assert forall|i: int| 0 <= i < closed.len() implies one_line(#[trigger] closed[i]) by {
            assert(closed[i] == all[i]);
        }
    }
    lines_read_back(closed);
    lines_read_back(all);
    let next = closed.push("\tName: "@ + other);
    lemma_other_card(closed, card, other);
    assert(closed + seq!["\tName: "@ + other] =~= next);
    lemma_other_lines(next, behind, card);
    assert(all =~= next + behind);
}

proof fn lemma_other_card(lines: Seq<Seq<char>>, card: Seq<char>, other: Seq<char>)
    requires
        other.len() > 0,
        !white(other.last()),
        other != card,
    ensures
        card_lines_read(lines.push("\tName: "@ + other), card) == (ProfilesModel {
            in_card: false,
            in_profiles: false,
            ..card_lines_read(lines, card)
        }),
{
    let all = lines.push("\tName: "@ + other);
    assert(all.drop_last() =~= lines);
    let core = "Name: "@ + other;
    assert("\tName: "@ == "\t"@ + "Name: "@ && "Name: "@.len() > 0 && "Name: "@[0] == 'N') by {
        reveal_strlit("\tName: ");
        reveal_strlit("\t");
        reveal_strlit("Name: ");
        assert("\tName: "@ =~= "\t"@ + "Name: "@);
    }
    assert("\tName: "@ + other =~= "\t"@ + core);
    assert(core[0] == 'N' && core.last() == other.last());
    text::laws::characters_are_told_apart('N');
    lemma_tabbed("\t"@, core);
    prefixes_come_off("Name: "@, other, core);
}

/// The name is that of a profile with a microphone.
pub open spec fn has_microphone(profile: Seq<char>) -> bool {
    occurs(profile, "headset"@) || occurs(profile, "handsfree"@) || occurs(profile, "hfp"@)
}

/// Profile `k` is the first of the wanted kind: with a microphone where the
/// active one is A2DP, and A2DP where it is not.
pub open spec fn first_of_the_other_kind(
    active: Seq<char>,
    available: Seq<Seq<char>>,
    k: int,
) -> bool {
    &&& 0 <= k < available.len()
    &&& occurs(active, "a2dp"@) ==> has_microphone(available[k]) && forall|j: int|
        0 <= j < k ==> !has_microphone(#[trigger] available[j])
    &&& !occurs(active, "a2dp"@) ==> occurs(available[k], "a2dp"@) && forall|j: int|
        0 <= j < k ==> !occurs(#[trigger] available[j], "a2dp"@)
}

proof fn lemma_first_mic(available: Seq<Seq<char>>, k: int)
    requires
        0 <= k <= available.len(),
        forall|j: int| 0 <= j < k ==> !has_microphone(#[trigger] available[j]),
        k < available.len() ==> has_microphone(available[k]),
    ensures
        first_suiting(available, true) == (if k < available.len() {
            Some(available[k])
        } else {
            None
        }),
    decreases available.len(),
{
    if k > 0 {
        let rest = available.drop_first();
        assert(!has_microphone(available[0]));
        assert forall|j: int| 0 <= j < k - 1 implies !has_microphone(#[trigger] rest[j]) by {
            assert(rest[j] == available[j + 1]);
        }
        if k < available.len() {
            assert(rest[k - 1] == available[k]);
        }
        lemma_first_mic(rest, k - 1);
    }
}

proof fn lemma_first_a2dp(available: Seq<Seq<char>>, k: int)
    requires
        0 <= k <= available.len(),
        forall|j: int| 0 <= j < k ==> !occurs(#[trigger] available[j], "a2dp"@),
        k < available.len() ==> occurs(available[k], "a2dp"@),
    ensures
        first_suiting(available, false) == (if k < available.len() {
            Some(available[k])
        } else {
            None
        }),
    decreases available.len(),
{
    if k > 0 {
        let rest = available.drop_first();
        assert(!occurs(available[0], "a2dp"@));
        assert forall|j: int| 0 <= j < k - 1 implies !occurs(#[trigger] rest[j], "a2dp"@) by {
            assert(rest[j] == available[j + 1]);
        }
        if k < available.len() {
            assert(rest[k - 1] == available[k]);
        }
        lemma_first_a2dp(rest, k - 1);
    }
}

/// A toggle switches from A2DP to the first profile with a microphone, and from
/// anything else to the first A2DP profile. It fails only where the card offers
/// none of that kind, or tells no active profile, and then says which.
pub proof fn toggles_switch_to_the_other_kind(out: Seq<char>, card: Seq<char>, k: int)
    ensures
        card_profiles(out, card).0 is None ==> profile_target(out, card) == Err::<
            Seq<char>,
            Seq<char>,
        >("could not determine active profile"@),
        card_profiles(out, card).0 matches Some(active) ==> {
            let available = card_profiles(out, card).1;
            &&& first_of_the_other_kind(active, available, k) ==> profile_target(out, card) == Ok::<
                Seq<char>,
                Seq<char>,
            >(available[k])
            &&& occurs(active, "a2dp"@) && (forall|j: int|
                0 <= j < available.len() ==> !has_microphone(#[trigger] available[j]))
                ==> profile_target(out, card) == Err::<Seq<char>, Seq<char>>(
                "device has no headset/mic profile"@,
            )
            &&& !occurs(active, "a2dp"@) && (forall|j: int|
                0 <= j < available.len() ==> !occurs(#[trigger] available[j], "a2dp"@))
                ==> profile_target(out, card) == Err::<Seq<char>, Seq<char>>(
                "device has no A2DP profile"@,
            )
        },
{
    let (active, available) = card_profiles(out, card);
    if let Some(active) = active {
        if first_of_the_other_kind(active, available, k) {
            if occurs(active, "a2dp"@) {
                lemma_first_mic(available, k);
            } else {
                lemma_first_a2dp(available, k);
            }
        }
        if occurs(active, "a2dp"@) && (forall|j: int|
            0 <= j < available.len() ==> !has_microphone(#[trigger] available[j])) {
            lemma_first_mic(available, available.len() as int);
        }
        if !occurs(active, "a2dp"@) && (forall|j: int|
            0 <= j < available.len() ==> !occurs(#[trigger] available[j], "a2dp"@)) {
            lemma_first_a2dp(available, available.len() as int);
        }
    }
}

/// The card of the device is looked up first, then its profiles; then that very
/// card is switched to the target, and the toggle has worked exactly if the tool
/// says so. A device without a card cannot be switched.
pub proof fn toggles_switch_the_devices_card(
    mac: Seq<char>,
    cards: ReplyModel,
    profiles: ReplyModel,
    switch: ReplyModel,
    line: int,
    card: Seq<char>,
    target: Seq<char>,
)
    ensures
        toggle_steps(mac, Seq::empty()) == StepModel::<Result<Seq<char>, Seq<char>>>::Run(
            seq!["list"@, "short"@, "cards"@],
        ),
        no_line_for(cards.out, mac) ==> toggle_steps(mac, seq![cards]) == StepModel::Done(
            Err::<Seq<char>, Seq<char>>("no audio card for this device (is it connected?)"@),
        ),
        first_line_for(cards.out, mac, line) && nth_field(line_seq(cards.out)[line], 1) == Some(
            card,
        ) ==> {
            &&& toggle_steps(mac, seq![cards]) == StepModel::<Result<Seq<char>, Seq<char>>>::Run(
                seq!["list"@, "cards"@],
            )
            &&& profile_target(profiles.out, card) == Ok::<Seq<char>, Seq<char>>(target) ==> {
                &&& toggle_steps(mac, seq![cards, profiles]) == StepModel::<
                    Result<Seq<char>, Seq<char>>,
                >::Run(seq!["set-card-profile"@, card, target])
                &&& switch.ok ==> toggle_steps(mac, seq![cards, profiles, switch])
                    == StepModel::Done(Ok::<Seq<char>, Seq<char>>(target))
                &&& !switch.ok ==> toggle_steps(mac, seq![cards, profiles, switch])
                    == StepModel::Done(
                    Err::<Seq<char>, Seq<char>>("failed to switch profile to "@ + target),
                )
            }
        },
{
    entries_are_found_wherever_they_stand(cards.out, mac, line);
}

/// A profile is called by its kind.
pub proof fn labels_tell_the_kind(profile: Seq<char>)
    ensures
        occurs(profile, "a2dp"@) ==> label_of_profile(profile) == "A2DP (high quality)"@,
        !occurs(profile, "a2dp"@) && occurs(profile, "bap"@) ==> label_of_profile(profile)
            == "LE Audio (BAP)"@,
        !occurs(profile, "a2dp"@) && !occurs(profile, "bap"@) ==> label_of_profile(profile)
            == "headset (microphone enabled)"@,
{
}

/// The active profile is read off the device's own card; without a card there is
/// none, and nothing more is asked.
pub proof fn profiles_are_read_off_the_devices_card(
    mac: Seq<char>,
    cards: ReplyModel,
    profiles: ReplyModel,
    line: int,
    card: Seq<char>,
)
    ensures
        active_profile_steps(mac, Seq::empty()) == StepModel::<Option<Seq<char>>>::Run(
            seq!["list"@, "short"@, "cards"@],
        ),
        no_line_for(cards.out, mac) ==> active_profile_steps(mac, seq![cards]) == StepModel::Done(
            None::<Seq<char>>,
        ),
        first_line_for(cards.out, mac, line) && nth_field(line_seq(cards.out)[line], 1) == Some(
            card,
        ) ==> active_profile_steps(mac, seq![cards]) == StepModel::<Option<Seq<char>>>::Run(
            seq!["list"@, "cards"@],
        ) && active_profile_steps(mac, seq![cards, profiles]) == StepModel::Done(
            card_profiles(profiles.out, card).0,
        ),
{
    entries_are_found_wherever_they_stand(cards.out, mac, line);
}

} // verus!
