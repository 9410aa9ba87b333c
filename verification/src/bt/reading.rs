//! What `bluetoothctl` prints is read back as it was meant.

use vstd::prelude::*;

use crate::text;
use crate::text::laws::{
    absent_character_means_no_part, all_one_line, bytes_read_back, characters_are_told_apart,
    cuts_lose_the_separator, cuts_read_back, first_lines_are_found, last_cuts_read_back,
    leading_digits_stop_in_time, lines_add_up, lines_read_back, one_line, parts_are_found_first,
    parts_lie_on_lines, parts_occur, prefixes_come_off, printed, trimming_keeps_the_core,
};
use crate::text::{
    all_digits, ascii_digit, ascii_lower, decimal, has_prefix, line_seq, occurs, occurs_at,
    position, trimmed, white,
};

use super::{
    device_entries, device_entry, diagnostic, entry_of_line, info_of, is_discoverable, is_mac_name,
    listed_macs, mac_index, passkey_in, AddrKind, DiscoveredModel,
};

verus! {

// ---------------------------------------------------------------------------
// Listings
// ---------------------------------------------------------------------------

/// The line that lists a device.
pub open spec fn listing_line(mac: Seq<char>, name: Seq<char>) -> Seq<char> {
    "Device "@ + mac + " "@ + name
}

/// A device can be listed under that address and name.
pub open spec fn listable(mac: Seq<char>, name: Seq<char>) -> bool {
    mac.len() > 0 && !mac.contains(' ') && name.len() > 0
}

/// A listed device reads back with its address and its whole name, blanks in it
/// and all; and nothing but such a line reads as a device.
pub proof fn entries_read_back(mac: Seq<char>, name: Seq<char>, line: Seq<char>)
    ensures
        listable(mac, name) ==> device_entry(listing_line(mac, name)) == Some((mac, name)),
        device_entry(line) matches Some((m, n)) ==> listable(m, n) && line == listing_line(m, n),
{
    reveal_strlit(" ");
    let told = listing_line(mac, name);
    if listable(mac, name) {
        assert(told =~= "Device "@ + (mac.push(' ') + name));
        prefixes_come_off("Device "@, mac.push(' ') + name, line);
        cuts_read_back(mac, ' ', name);
    }
    prefixes_come_off("Device "@, Seq::empty(), line);
    if let Some(rest) = text::after_prefix(line, "Device "@) {
        cuts_lose_the_separator(rest, ' ');
        if let Some((m, n)) = device_entry(line) {
            assert(line =~= listing_line(m, n));
        }
    }
}

pub(super) proof fn lemma_filter_map_front<A, B>(a: A, s: Seq<A>, f: spec_fn(A) -> Option<B>)
    ensures
        (seq![a] + s).filter_map(f) == (match f(a) {
            Some(b) => seq![b] + s.filter_map(f),
            None => s.filter_map(f),
        }),
    decreases s.len(),
{
    let all = seq![a] + s;
    if s.len() == 0 {
        assert(all =~= seq![a]);
        Seq::<A>::lemma_filter_map_singleton(a, f);
        assert(s.filter_map(f) =~= Seq::<B>::empty());
        if let Some(b) = f(a) {
            assert(seq![b] + s.filter_map(f) =~= seq![b]);
        }
    } else {
        lemma_filter_map_front(a, s.drop_last(), f);
        assert(all.drop_last() =~= seq![a] + s.drop_last());
        assert(all.last() == s.last());
        let before = s.drop_last().filter_map(f);
        if let Some(b) = f(a) {
            if let Some(c) = f(s.last()) {
                assert((seq![b] + before) + seq![c] =~= seq![b] + (before + seq![c]));
            }
        }
    }
}

/// A listing is read line by line, in order: a device's line adds the device,
/// and any other line adds nothing.
pub proof fn listings_add_up(mac: Seq<char>, name: Seq<char>, noise: Seq<char>, rest: Seq<char>)
    requires
        listable(mac, name),
        one_line(mac),
        one_line(name),
        one_line(noise),
        !has_prefix(noise, "Device "@),
    ensures
        device_entries(listing_line(mac, name).push('\n') + rest) == seq![(mac, name)]
            + device_entries(rest),
        device_entries(noise.push('\n') + rest) == device_entries(rest),
        device_entries(Seq::empty()) == Seq::<(Seq<char>, Seq<char>)>::empty(),
{
    let line = listing_line(mac, name);
    reveal_strlit("Device ");
    reveal_strlit(" ");
    assert(one_line(line)) by {
        assert forall|i: int| 0 <= i < line.len() implies line[i] != '\n' && line[i] != '\r' by {
            if 7 <= i < 7 + mac.len() {
                assert(line[i] == mac[i - 7]);
                assert(mac.contains(mac[i - 7]));
            } else if i > 7 + mac.len() {
                assert(line[i] == name[i - 8 - mac.len()]);
                assert(name.contains(name[i - 8 - mac.len()]));
            }
        }
    }
    entries_read_back(mac, name, line);
    entries_read_back(mac, name, noise);
    assert(line.contains(line.last()));
    if noise.len() > 0 {
        assert(noise.contains(noise.last()));
    }
    lines_add_up(line, rest);
    lines_add_up(noise, rest);
    lemma_filter_map_front(line, line_seq(rest), entry_of_line());
    lemma_filter_map_front(noise, line_seq(rest), entry_of_line());
    if let Some((m, n)) = device_entry(noise) {
        assert(noise =~= "Device "@ + (m + " "@ + n));
        prefixes_come_off("Device "@, m + " "@ + n, noise);
    }
}

/// The addresses of a listing are those of its devices, in order.
pub proof fn listed_addresses_are_the_devices(listing: Seq<char>, i: int)
    requires
        0 <= i < device_entries(listing).len(),
    ensures
        listed_macs(listing).len() == device_entries(listing).len(),
        listed_macs(listing)[i] == device_entries(listing)[i].0,
{
}

// ---------------------------------------------------------------------------
// The state of a device
// ---------------------------------------------------------------------------

/// The line that tells whether something holds of a device.
pub open spec fn flag_line(label: Seq<char>, yes: bool) -> Seq<char> {
    "\t"@ + label + (if yes {
        ": yes"@
    } else {
        ": no"@
    })
}

/// The line stands among those of the text.
pub open spec fn has_line(out: Seq<char>, line: Seq<char>) -> bool {
    exists|k: int| 0 <= k < line_seq(out).len() && #[trigger] line_seq(out)[k] == line
}

/// No line of the text but this one holds the part.
pub open spec fn only_on(out: Seq<char>, part: Seq<char>, line: Seq<char>) -> bool {
    forall|k: int|
        0 <= k < line_seq(out).len() && occurs(#[trigger] line_seq(out)[k], part)
            ==> line_seq(out)[k] == line
}

pub(crate) proof fn lemma_flag(out: Seq<char>, label: Seq<char>, yes: bool, part: Seq<char>)
    requires
        part == label + ": yes"@,
        label.len() > 0,
        one_line(part),
        label[0] != '\t',
        has_line(out, flag_line(label, yes)),
        only_on(out, label + ": "@, flag_line(label, yes)),
    ensures
        occurs(out, part) == yes,
{
    reveal_strlit(": yes");
    reveal_strlit(": no");
    reveal_strlit(": ");
    reveal_strlit("\t");
    let line = flag_line(label, yes);
    parts_lie_on_lines(out, part);
    if yes {
        assert(line =~= "\t"@ + part + Seq::<char>::empty());
        parts_occur("\t"@, part, Seq::empty());
        let k = choose|k: int| 0 <= k < line_seq(out).len() && #[trigger] line_seq(out)[k] == line;
        assert(occurs(line_seq(out)[k], part));
    } else if occurs(out, part) {
        let k = choose|k: int|
            0 <= k < line_seq(out).len() && occurs(#[trigger] line_seq(out)[k], part);
        let l = line_seq(out)[k];
        let i = choose|i: int| occurs_at(l, part, i);
        assert(l.subrange(i, i + label.len() + 2) =~= part.take(label.len() + 2int));
        assert(part.take(label.len() + 2int) =~= label + ": "@);
        assert(occurs_at(l, label + ": "@, i));
        assert(l == line);
        assert(line.len() == part.len());
        assert(i == 0);
        assert(l.subrange(0, part.len() as int)[0] == part[0]);
        assert(part[0] == label[0]);
    }
}

/// A device reads as trusted where its output says "yes", and as untrusted where
/// it says "no".
pub proof fn trust_reads_back(out: Seq<char>, yes: bool)
    requires
        has_line(out, flag_line("Trusted"@, yes)),
        only_on(out, "Trusted: "@, flag_line("Trusted"@, yes)),
    ensures
        info_of(out).trusted == yes,
{
    reveal_strlit("Trusted");
    reveal_strlit("Trusted: ");
    reveal_strlit("Trusted: yes");
    reveal_strlit(": ");
    reveal_strlit(": yes");
    assert("Trusted"@ + ": yes"@ =~= "Trusted: yes"@);
    assert("Trusted"@ + ": "@ =~= "Trusted: "@);
    lemma_flag(out, "Trusted"@, yes, "Trusted: yes"@);
}

/// A device reads as connected where its output says "yes", and as disconnected
/// where it says "no".
pub proof fn connection_reads_back(out: Seq<char>, yes: bool)
    requires
        has_line(out, flag_line("Connected"@, yes)),
        only_on(out, "Connected: "@, flag_line("Connected"@, yes)),
    ensures
        info_of(out).connected == yes,
{
    reveal_strlit("Connected");
    reveal_strlit("Connected: ");
    reveal_strlit("Connected: yes");
    reveal_strlit(": ");
    reveal_strlit(": yes");
    assert("Connected"@ + ": yes"@ =~= "Connected: yes"@);
    assert("Connected"@ + ": "@ =~= "Connected: "@);
    lemma_flag(out, "Connected"@, yes, "Connected: yes"@);
}

/// Some line of the text holds the part.
pub open spec fn some_line_holds(out: Seq<char>, part: Seq<char>) -> bool {
    exists|k: int| 0 <= k < line_seq(out).len() && occurs(#[trigger] line_seq(out)[k], part)
}

/// A line that names an audio sink makes a device classic, whatever else it
/// offers; without one, it takes both services of an LE Audio sink, and one of
/// them alone makes no audio device.
pub proof fn audio_reads_back(out: Seq<char>)
    ensures
        info_of(out).audio is Classic <==> some_line_holds(out, "Audio Sink"@),
        info_of(out).audio is LeAudioOnly <==> !some_line_holds(out, "Audio Sink"@)
            && some_line_holds(out, "Audio Stream Control"@) && some_line_holds(
            out,
            "Published Audio Capabil"@,
        ),
{
    reveal_strlit("Audio Sink");
    reveal_strlit("Audio Stream Control");
    reveal_strlit("Published Audio Capabil");
    parts_lie_on_lines(out, "Audio Sink"@);
    parts_lie_on_lines(out, "Audio Stream Control"@);
    parts_lie_on_lines(out, "Published Audio Capabil"@);
}

/// `line` is the first line of the text that begins with the prefix.
pub open spec fn first_to_begin(out: Seq<char>, prefix: Seq<char>, line: Seq<char>) -> bool {
    exists|k: int|
        0 <= k < line_seq(out).len() && #[trigger] line_seq(out)[k] == line && has_prefix(
            line,
            prefix,
        ) && forall|j: int| 0 <= j < k ==> !has_prefix(#[trigger] line_seq(out)[j], prefix)
}

/// `line` is the first line of the text that holds the part.
pub open spec fn first_to_hold(out: Seq<char>, part: Seq<char>, line: Seq<char>) -> bool {
    exists|k: int|
        0 <= k < line_seq(out).len() && #[trigger] line_seq(out)[k] == line && occurs(line, part)
            && forall|j: int| 0 <= j < k ==> !occurs(#[trigger] line_seq(out)[j], part)
}

proof fn lemma_first_to_begin(out: Seq<char>, prefix: Seq<char>, line: Seq<char>)
    requires
        first_to_begin(out, prefix, line),
    ensures
        text::first_with_prefix(line_seq(out), prefix) == Some(line),
{
    let ls = line_seq(out);
    first_lines_are_found(ls, prefix);
    let k = choose|k: int|
        0 <= k < ls.len() && #[trigger] ls[k] == line && has_prefix(line, prefix) && forall|j: int|
            0 <= j < k ==> !has_prefix(#[trigger] ls[j], prefix);
    match text::first_with_prefix(ls, prefix) {
        Some(l) => {
            let m = choose|m: int|
                0 <= m < ls.len() && #[trigger] ls[m] == l && has_prefix(l, prefix) && forall|
                    j: int,
                |
                    0 <= j < m ==> !has_prefix(#[trigger] ls[j], prefix);
            if m < k {
                assert(!has_prefix(ls[m], prefix));
            } else if k < m {
                assert(!has_prefix(ls[k], prefix));
            }
        },
        None => {
            assert(!has_prefix(ls[k], prefix));
        },
    }
}

proof fn lemma_first_to_hold(out: Seq<char>, part: Seq<char>, line: Seq<char>)
    requires
        first_to_hold(out, part, line),
    ensures
        text::first_with(line_seq(out), part) == Some(line),
{
    let ls = line_seq(out);
    first_lines_are_found(ls, part);
    let k = choose|k: int|
        0 <= k < ls.len() && #[trigger] ls[k] == line && occurs(line, part) && forall|j: int|
            0 <= j < k ==> !occurs(#[trigger] ls[j], part);
    match text::first_with(ls, part) {
        Some(l) => {
            let m = choose|m: int|
                0 <= m < ls.len() && #[trigger] ls[m] == l && occurs(l, part) && forall|j: int|
                    0 <= j < m ==> !occurs(#[trigger] ls[j], part);
            if m < k {
                assert(!occurs(ls[m], part));
            } else if k < m {
                assert(!occurs(ls[k], part));
            }
        },
        None => {
            assert(!occurs(ls[k], part));
        },
    }
}

/// The kind of an address is what stands in parentheses behind it, in the line
/// that names the device; without such a line it stays unknown.
pub proof fn address_kind_reads_back(out: Seq<char>, mac: Seq<char>)
    requires
        !mac.contains('('),
    ensures
        first_to_begin(out, "Device "@, "Device "@ + mac + " (public)"@) ==> info_of(out).addr
            is Public,
        first_to_begin(out, "Device "@, "Device "@ + mac + " (random)"@) ==> info_of(out).addr
            is Random,
        first_to_begin(out, "Device "@, "Device "@ + mac) ==> info_of(out).addr is Unknown,
        (forall|k: int|
            0 <= k < line_seq(out).len() ==> !has_prefix(
                #[trigger] line_seq(out)[k],
                "Device "@,
            )) ==> info_of(out).addr is Unknown,
{
    let head = "Device "@ + mac;
    lemma_kind_lines(mac);
    if first_to_begin(out, "Device "@, head + " (public)"@) {
        lemma_first_to_begin(out, "Device "@, head + " (public)"@);
    }
    if first_to_begin(out, "Device "@, head + " (random)"@) {
        lemma_first_to_begin(out, "Device "@, head + " (random)"@);
    }
    if first_to_begin(out, "Device "@, head) {
        lemma_first_to_begin(out, "Device "@, head);
    }
    first_lines_are_found(line_seq(out), "Device "@);
}

proof fn lemma_kind_lines(mac: Seq<char>)
    requires
        !mac.contains('('),
    ensures
        occurs("Device "@ + mac + " (public)"@, "(public)"@),
        !occurs("Device "@ + mac + " (random)"@, "(public)"@),
        occurs("Device "@ + mac + " (random)"@, "(random)"@),
        !occurs("Device "@ + mac, "(public)"@),
        !occurs("Device "@ + mac, "(random)"@),
{
    let head = "Device "@ + mac;
    assert(!head.contains('(')) by {
        reveal_strlit("Device ");
        if head.contains('(') {
            let i = choose|i: int| 0 <= i < head.len() && head[i] == '(';
            if i >= 7 {
                assert(mac[i - 7] == '(');
            }
        }
    }
    let p = "(public)"@;
    let r = "(random)"@;
    assert(p.len() == 8 && p[0] == '(' && p[1] == 'p' && !p.drop_first().contains('(')
        && " (public)"@ == seq![' '] + p) by {
        reveal_strlit("(public)");
        reveal_strlit(" (public)");
        assert(" (public)"@ =~= seq![' '] + p);
    }
    assert(r.len() == 8 && r[0] == '(' && r[1] == 'r' && !r.drop_first().contains('(')
        && " (random)"@ == seq![' '] + r) by {
        reveal_strlit("(random)");
        reveal_strlit(" (random)");
        assert(" (random)"@ =~= seq![' '] + r);
    }
    lemma_marked(head, p, r);
    lemma_marked(head, r, p);
}

proof fn lemma_marked(head: Seq<char>, mark: Seq<char>, other: Seq<char>)
    requires
        mark.len() >= 2,
        other.len() >= 2,
        mark[0] == '(',
        other[0] == '(',
        mark[1] != other[1],
        !head.contains('('),
        !mark.drop_first().contains('('),
    ensures
        occurs(head + (seq![' '] + mark), mark),
        !occurs(head + (seq![' '] + mark), other),
        !occurs(head, mark),
{
    let s = head + (seq![' '] + mark);
    let front = head.push(' ');
    absent_character_means_no_part(head, mark, 0);
    assert(s =~= front + mark);
    assert(front + mark =~= front + mark + Seq::<char>::empty());
    parts_occur(front, mark, Seq::empty());
    assert(!front.contains('(')) by {
        if front.contains('(') {
            let i = choose|i: int| 0 <= i < front.len() && front[i] == '(';
            assert(head[i] == '(');
        }
    }
    assert forall|i: int| !occurs_at(front + mark, other, i) by {
        lemma_not_marked(front, mark, other, i);
    }
}

proof fn lemma_not_marked(front: Seq<char>, mark: Seq<char>, other: Seq<char>, i: int)
    requires
        mark.len() >= 2,
        other.len() >= 2,
        other[0] == '(',
        mark[1] != other[1],
        !front.contains('('),
        !mark.drop_first().contains('('),
    ensures
        !occurs_at(front + mark, other, i),
{
    let s = front + mark;
    if occurs_at(s, other, i) {
        let found = s.subrange(i, i + other.len());
        assert(found[0] == '(' && found[1] == other[1]);
        if i < front.len() {
            assert(s[i] == front[i]);
            assert(front.contains(front[i]));
        } else if i == front.len() {
            assert(s[i + 1] == mark[1]);
        } else {
            let k = i - front.len() - 1;
            assert(mark.drop_first()[k] == s[i]);
            assert(mark.drop_first().contains(mark.drop_first()[k]));
        }
    }
}

/// The line that tells the charge of a battery.
pub open spec fn battery_line(hex: Seq<char>, level: u8) -> Seq<char> {
    "\tBattery Percentage: "@ + hex + " ("@ + decimal(level as nat) + ")"@
}

/// The charge of a battery is the number in parentheses; without a line on it
/// none is told.
pub proof fn battery_reads_back(out: Seq<char>, hex: Seq<char>, level: u8)
    ensures
        first_to_hold(out, "Battery Percentage"@, battery_line(hex, level)) ==> info_of(out).battery
            == Some(level),
        !some_line_holds(out, "Battery Percentage"@) ==> info_of(out).battery is None,
{
    let ls = line_seq(out);
    first_lines_are_found(ls, "Battery Percentage"@);
    let line = battery_line(hex, level);
    if first_to_hold(out, "Battery Percentage"@, line) {
        lemma_first_to_hold(out, "Battery Percentage"@, line);
        reveal_strlit(" (");
        reveal_strlit(" ");
        reveal_strlit(")");
        let d = decimal(level as nat);
        let front = "\tBattery Percentage: "@ + hex + " "@;
        let tail = d + ")"@;
        assert(line =~= front.push('(') + tail);
        text::decimal_reads_back(level as nat);
        assert forall|i: int| 0 <= i < d.len() implies d[i] != '(' && d[i] != ')' && !white(
            d[i],
        ) by {
            assert(ascii_digit(d[i]));
            characters_are_told_apart(d[i]);
        }
        assert(!tail.contains('(')) by {
            if tail.contains('(') {
                let i = choose|i: int| 0 <= i < tail.len() && tail[i] == '(';
                if i < d.len() {
                    assert(d[i] == '(');
                }
            }
        }
        last_cuts_read_back(front, '(', tail);
        assert(!d.contains(')'));
        assert(tail =~= d.push(')') + Seq::<char>::empty());
        cuts_read_back(d, ')', Seq::empty());
        assert(d =~= Seq::<char>::empty() + d + Seq::<char>::empty());
        assert(d.len() > 0);
        trimming_keeps_the_core(Seq::empty(), d, Seq::empty());
        bytes_read_back(level as nat, seq!['x'], 0);
    }
}

/// The output of `bluetoothctl info`.
pub open spec fn info_lines(
    mac: Seq<char>,
    public: bool,
    name: Seq<char>,
    trusted: bool,
    connected: bool,
    services: Seq<Seq<char>>,
) -> Seq<Seq<char>> {
    seq![
        head_line(mac, public),
        "\tName: "@ + name,
        "\tPaired: yes"@,
        flag_line("Trusted"@, trusted),
        flag_line("Connected"@, connected),
    ] + services
}

/// Nothing of what is looked for in an output stands in the text.
pub open spec fn telling_nothing(s: Seq<char>) -> bool {
    !occurs(s, "Trusted: "@) && !occurs(s, "Connected: "@)
}

/// What `bluetoothctl` prints of a device reads back as it was printed: whether
/// it is trusted, whether it is connected, and of what kind its address is.
pub proof fn printed_state_reads_back(
    mac: Seq<char>,
    public: bool,
    name: Seq<char>,
    trusted: bool,
    connected: bool,
    services: Seq<Seq<char>>,
)
    requires
        one_line(mac),
        !mac.contains('('),
        !mac.contains('t'),
        one_line(name),
        telling_nothing("\tName: "@ + name),
        all_one_line(services),
        forall|i: int| 0 <= i < services.len() ==> telling_nothing(#[trigger] services[i]),
    ensures
        ({
            let out = printed(info_lines(mac, public, name, trusted, connected, services));
            &&& info_of(out).trusted == trusted
            &&& info_of(out).connected == connected
            &&& info_of(out).addr == (if public {
                AddrKind::Public
            } else {
                AddrKind::Random
            })
        }),
{
    let ls = info_lines(mac, public, name, trusted, connected, services);
    let out = printed(ls);
    let head = ls[0];
    let t = flag_line("Trusted"@, trusted);
    let c = flag_line("Connected"@, connected);
    assert(ls[1] == "\tName: "@ + name && ls[2] == "\tPaired: yes"@ && ls[3] == t && ls[4] == c);
    lemma_head_line(mac, public);
    lemma_name_line(name);
    lemma_flag_lines(trusted, connected);
    assert forall|i: int| 0 <= i < ls.len() implies one_line(#[trigger] ls[i]) by {
        if i >= 5 {
            assert(ls[i] == services[i - 5]);
        }
    }
    lines_read_back(ls);
    assert forall|k: int| 0 <= k < ls.len() && occurs(#[trigger] ls[k], "Trusted: "@) implies ls[k]
        == t by {
        if k >= 5 {
            assert(ls[k] == services[k - 5]);
            assert(telling_nothing(services[k - 5]));
        }
    }
    assert forall|k: int| 0 <= k < ls.len() && occurs(#[trigger] ls[k], "Connected: "@) implies ls[
        k
    ] == c by {
        if k >= 5 {
            assert(ls[k] == services[k - 5]);
            assert(telling_nothing(services[k - 5]));
        }
    }
    assert(line_seq(out)[3] == t);
    assert(line_seq(out)[4] == c);
    trust_reads_back(out, trusted);
    connection_reads_back(out, connected);
    assert(line_seq(out)[0] == head);
    assert(first_to_begin(out, "Device "@, head));
    address_kind_reads_back(out, mac);
}

/// The line that names the device of an `info` output.
pub open spec fn head_line(mac: Seq<char>, public: bool) -> Seq<char> {
    "Device "@ + mac + (if public {
        " (public)"@
    } else {
        " (random)"@
    })
}

proof fn lemma_head_line(mac: Seq<char>, public: bool)
    requires
        one_line(mac),
        !mac.contains('t'),
    ensures
        one_line(head_line(mac, public)),
        has_prefix(head_line(mac, public), "Device "@),
        telling_nothing(head_line(mac, public)),
{
    let head = head_line(mac, public);
    let kind = if public {
        " (public)"@
    } else {
        " (random)"@
    };
    assert(one_line(head) && !head.contains('t')) by {
        reveal_strlit("Device ");
        reveal_strlit(" (public)");
        reveal_strlit(" (random)");
        assert forall|i: int| 0 <= i < head.len() implies head[i] != '\n' && head[i] != '\r'
            && head[i] != 't' by {
            if 7 <= i < 7 + mac.len() {
                assert(head[i] == mac[i - 7]);
                assert(mac.contains(mac[i - 7]));
            } else if i >= 7 {
                assert(head[i] == kind[i - 7 - mac.len()]);
            }
        }
    }
    assert("Trusted: "@.len() > 4 && "Trusted: "@[4] == 't') by {
        reveal_strlit("Trusted: ");
    }
    assert("Connected: "@.len() > 6 && "Connected: "@[6] == 't') by {
        reveal_strlit("Connected: ");
    }
    absent_character_means_no_part(head, "Trusted: "@, 4);
    absent_character_means_no_part(head, "Connected: "@, 6);
    assert(head =~= "Device "@ + (mac + kind));
    prefixes_come_off("Device "@, mac + kind, head);
}

proof fn lemma_name_line(name: Seq<char>)
    requires
        one_line(name),
    ensures
        one_line("\tName: "@ + name),
{
    let line = "\tName: "@ + name;
    reveal_strlit("\tName: ");
    assert forall|i: int| 0 <= i < line.len() implies line[i] != '\n' && line[i] != '\r' by {
        if i >= 7 {
            assert(line[i] == name[i - 7]);
            assert(name.contains(name[i - 7]));
        }
    }
}

proof fn lemma_flag_lines(trusted: bool, connected: bool)
    ensures
        one_line("\tPaired: yes"@),
        telling_nothing("\tPaired: yes"@),
        one_line(flag_line("Trusted"@, trusted)),
        one_line(flag_line("Connected"@, connected)),
        !occurs(flag_line("Trusted"@, trusted), "Connected: "@),
        !occurs(flag_line("Connected"@, connected), "Trusted: "@),
{
    reveal_strlit("\tPaired: yes");
    reveal_strlit("Trusted");
    reveal_strlit("Connected");
    reveal_strlit(": yes");
    reveal_strlit(": no");
    reveal_strlit("\t");
    let t = flag_line("Trusted"@, trusted);
    let c = flag_line("Connected"@, connected);
    assert("Trusted: "@.len() > 0 && "Trusted: "@[0] == 'T') by {
        reveal_strlit("Trusted: ");
    }
    assert("Connected: "@.len() > 0 && "Connected: "@[0] == 'C') by {
        reveal_strlit("Connected: ");
    }
    absent_character_means_no_part("\tPaired: yes"@, "Trusted: "@, 0);
    absent_character_means_no_part("\tPaired: yes"@, "Connected: "@, 0);
    absent_character_means_no_part(t, "Connected: "@, 0);
    absent_character_means_no_part(c, "Trusted: "@, 0);
}

// ---------------------------------------------------------------------------
// Names and prompts
// ---------------------------------------------------------------------------

/// A name is an address where it spells it out character by character, in
/// whatever case, with dashes or colons.
pub proof fn names_that_are_addresses(name: Seq<char>, mac: Seq<char>)
    ensures
        is_mac_name(name, mac) <==> name.len() == mac.len() && forall|i: int|
            0 <= i < name.len() ==> ascii_lower(
                if #[trigger] name[i] == '-' {
                    ':'
                } else {
                    name[i]
                },
            ) == ascii_lower(mac[i]),
{
    let a = text::ascii_folded(text::char_replaced(name, '-', ':'));
    let b = text::ascii_folded(mac);
    assert forall|i: int| 0 <= i < name.len() implies a[i] == ascii_lower(
        if #[trigger] name[i] == '-' {
            ':'
        } else {
            name[i]
        },
    ) by {}
    assert forall|i: int| 0 <= i < mac.len() implies b[i] == ascii_lower(#[trigger] mac[i]) by {}
    if is_mac_name(name, mac) {
        assert(a.len() == b.len());
        assert forall|i: int| 0 <= i < name.len() implies ascii_lower(
            if #[trigger] name[i] == '-' {
                ':'
            } else {
                name[i]
            },
        ) == ascii_lower(mac[i]) by {
            assert(a[i] == b[i]);
        }
    }
    if name.len() == mac.len() && forall|i: int|
        0 <= i < name.len() ==> ascii_lower(
            if #[trigger] name[i] == '-' {
                ':'
            } else {
                name[i]
            },
        ) == ascii_lower(mac[i]) {
        assert forall|i: int| 0 <= i < a.len() implies a[i] == b[i] by {
            assert(name[i] == name[i]);
        }
        assert(a =~= b);
    }
}

/// A paired device is never offered, nor one that goes by its address; any other
/// always is.
pub proof fn offers_are_for_strangers(paired: Seq<Seq<char>>, mac: Seq<char>, name: Seq<char>)
    ensures
        paired.contains(mac) ==> !is_discoverable(paired, mac, name),
        is_mac_name(name, mac) ==> !is_discoverable(paired, mac, name),
        !paired.contains(mac) && !is_mac_name(name, mac) ==> is_discoverable(paired, mac, name),
        !mac.contains('-') ==> !is_discoverable(paired, mac, mac),
        name.len() != mac.len() && !paired.contains(mac) ==> is_discoverable(paired, mac, name),
{
    names_that_are_addresses(name, mac);
    names_that_are_addresses(mac, mac);
    if !mac.contains('-') {
        assert forall|i: int| 0 <= i < mac.len() implies ascii_lower(
            if #[trigger] mac[i] == '-' {
                ':'
            } else {
                mac[i]
            },
        ) == ascii_lower(mac[i]) by {
            assert(mac.contains(mac[i]));
        }
    }
}

/// The digits behind the first "Confirm passkey" are the passkey.
pub proof fn passkeys_read_back(before: Seq<char>, digits: Seq<char>, after: Seq<char>)
    requires
        !occurs(before + "Confirm passke"@, "Confirm passkey"@),
        digits.len() > 0,
        all_digits(digits),
        after.len() == 0 || !ascii_digit(after[0]),
    ensures
        passkey_in(before + "Confirm passkey "@ + digits + after) == Some(digits),
{
    let mark = "Confirm passkey"@;
    let t = before + "Confirm passkey "@ + digits + after;
    lemma_passkey_place(before, digits + after);
    assert(t =~= before + "Confirm passkey "@ + (digits + after));
    assert(ascii_digit(digits[0]));
    characters_are_told_apart(digits[0]);
    characters_are_told_apart(' ');
    let rest = t.skip((before.len() + mark.len()) as int);
    let core = digits + after;
    assert(rest.drop_first() =~= core);
    assert(text::start_trimmed(rest.drop_first()) == core);
    leading_digits_stop_in_time(digits, after);
}

proof fn lemma_passkey_place(before: Seq<char>, after: Seq<char>)
    requires
        !occurs(before + "Confirm passke"@, "Confirm passkey"@),
    ensures
        position(before + "Confirm passkey "@ + after, "Confirm passkey"@) == Some(
            before.len() as int,
        ),
        (before + "Confirm passkey "@ + after).skip(
            (before.len() + "Confirm passkey"@.len()) as int,
        )
            == seq![' '] + after,
{
    let mark = "Confirm passkey"@;
    assert(mark.len() == 15 && "Confirm passke"@ == mark.drop_last() && "Confirm passkey "@ == mark
        + seq![' ']) by {
        reveal_strlit("Confirm passkey");
        reveal_strlit("Confirm passke");
        reveal_strlit("Confirm passkey ");
        assert("Confirm passke"@ =~= mark.drop_last());
        assert("Confirm passkey "@ =~= mark + seq![' ']);
    }
    let t = before + "Confirm passkey "@ + after;
    assert(t =~= before + mark + (seq![' '] + after));
    lemma_first_mark(before, mark, seq![' '] + after);
    assert(t.skip((before.len() + mark.len()) as int) =~= seq![' '] + after);
}

proof fn lemma_first_mark(before: Seq<char>, mark: Seq<char>, after: Seq<char>)
    requires
        mark.len() > 0,
        !occurs(before + mark.drop_last(), mark),
    ensures
        position(before + mark + after, mark) == Some(before.len() as int),
{
    let t = before + mark + after;
    let short = before + mark.drop_last();
    parts_occur(before, mark, after);
    parts_are_found_first(t, mark);
    let i = position(t, mark)->0;
    if i < before.len() {
        assert(short.subrange(i, i + mark.len()) =~= t.subrange(i, i + mark.len()));
        assert(occurs_at(short, mark, i));
    }
}

/// Whatever is taken for a passkey is made of digits that were printed, behind
/// the words that ask for it.
pub proof fn passkeys_are_printed_digits(s: Seq<char>)
    ensures
        passkey_in(s) matches Some(d) ==> d.len() > 0 && all_digits(d) && occurs(s, d),
        !occurs(s, "Confirm passkey"@) ==> passkey_in(s) is None,
{
    let mark = "Confirm passkey"@;
    parts_are_found_first(s, mark);
    if let Some(d) = passkey_in(s) {
        let k = position(s, mark)->0;
        let behind = s.skip(k + mark.len());
        let lean = text::start_trimmed(behind);
        lemma_start_trimmed_is_end(behind);
        lemma_leading_digits_begin(lean);
        let m = behind.len() - lean.len();
        let at = k + mark.len() + m;
        assert(s.subrange(at, at + d.len()) =~= lean.take(d.len() as int));
        assert(occurs_at(s, d, at));
    }
}

proof fn lemma_start_trimmed_is_end(s: Seq<char>)
    ensures
        text::start_trimmed(s).len() <= s.len(),
        text::start_trimmed(s) == s.skip(s.len() - text::start_trimmed(s).len()),
    decreases s.len(),
{
    if s.len() > 0 && white(s[0]) {
        lemma_start_trimmed_is_end(s.drop_first());
        let t = text::start_trimmed(s);
        assert(t =~= s.skip(s.len() - t.len()));
    } else {
        assert(s =~= s.skip(0));
    }
}

proof fn lemma_leading_digits_begin(s: Seq<char>)
    ensures
        all_digits(text::leading_digits(s)),
        text::leading_digits(s).len() <= s.len(),
        text::leading_digits(s) == s.take(text::leading_digits(s).len() as int),
    decreases s.len(),
{
    if s.len() > 0 && ascii_digit(s[0]) {
        lemma_leading_digits_begin(s.drop_first());
        let d = text::leading_digits(s);
        let rest = text::leading_digits(s.drop_first());
        assert forall|i: int| 0 <= i < d.len() implies ascii_digit(#[trigger] d[i]) by {
            if i > 0 {
                assert(d[i] == rest[i - 1]);
            }
        }
        assert(d =~= s.take(d.len() as int));
    } else {
        assert(Seq::<char>::empty() =~= s.take(0));
    }
}

// ---------------------------------------------------------------------------
// Errors and addresses
// ---------------------------------------------------------------------------

/// An error is told in the words of the tool: the first part that is not blank,
/// trimmed. Only where all are blank does a hint of our own stand in.
pub proof fn errors_are_told_in_the_first_words(parts: Seq<Seq<char>>, k: int)
    requires
        forall|j: int| 0 <= j < k && j < parts.len() ==> trimmed(#[trigger] parts[j]).len() == 0,
        0 <= k <= parts.len(),
    ensures
        k < parts.len() && trimmed(parts[k]).len() > 0 ==> diagnostic(parts) == trimmed(parts[k]),
        k == parts.len() ==> diagnostic(parts)
            == "bluetoothctl failed (is bluetoothd running?)"@,
    decreases parts.len(),
{
    if k > 0 {
        assert(trimmed(parts[0]).len() == 0);
        let rest = parts.drop_first();
        assert forall|j: int| 0 <= j < k - 1 && j < rest.len() implies trimmed(
            #[trigger] rest[j],
        ).len() == 0 by {
            assert(rest[j] == parts[j + 1]);
        }
        errors_are_told_in_the_first_words(rest, k - 1);
        if k < parts.len() {
            assert(rest[k - 1] == parts[k]);
        }
    }
}

/// An address is found where it first stands.
pub proof fn addresses_are_found_first(items: Seq<DiscoveredModel>, mac: Seq<char>)
    ensures
        match mac_index(items, mac) {
            Some(i) => 0 <= i < items.len() && items[i].mac == mac && forall|j: int|
                0 <= j < i ==> (#[trigger] items[j]).mac != mac,
            None => forall|j: int| 0 <= j < items.len() ==> (#[trigger] items[j]).mac != mac,
        },
    decreases items.len(),
{
    if items.len() > 0 {
        let shorter = items.drop_last();
        addresses_are_found_first(shorter, mac);
        assert forall|j: int| 0 <= j < shorter.len() implies #[trigger] items[j] == shorter[j] by {}
    }
}

} // verus!
