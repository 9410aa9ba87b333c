//! What holds of texts and of their parts, whatever they are.

use vstd::prelude::*;

use super::{
    after_last_char, after_prefix, all_digits, ascii_alphabetic, ascii_digit, ascii_folded,
    ascii_lower, before_char, byte_value, char_position, char_replaced, control, cut_at, decimal,
    decimal_reads_back, digits_value, end_trimmed, first_at, first_char_at, first_with,
    first_with_prefix, has_prefix, leading_digits, lemma_char_position, lemma_position, line_seq,
    occurs, occurs_at, padded, position, start_trimmed, trimmed, white, without_cr,
};

verus! {

// ---------------------------------------------------------------------------
// Characters
// ---------------------------------------------------------------------------

/// Digits and letters are what ASCII says they are; blanks and control codes are
/// what Unicode says they are.
pub proof fn characters_are_told_apart(c: char)
    ensures
        ascii_digit(c) <==> '0' <= c && c <= '9',
        ascii_alphabetic(c) <==> ('a' <= c && c <= 'z') || ('A' <= c && c <= 'Z'),
        c == ' ' || c == '\t' || c == '\n' || c == '\r' ==> white(c),
        '!' <= c && c <= '~' ==> !white(c),
        c == '\x1b' || c == '\n' || c == '\r' || c == '\t' || c == '\x07' ==> control(c),
        ' ' <= c && c <= '~' ==> !control(c),
        control(c) <==> c < ' ' || ('\u{7f}' <= c && c <= '\u{9f}'),
        white(c) <==> c == ' ' || ('\t' <= c && c <= '\r') || c == '\u{85}' || c == '\u{a0}' || c
            == '\u{1680}' || ('\u{2000}' <= c && c <= '\u{200a}') || c == '\u{2028}' || c
            == '\u{2029}' || c == '\u{202f}' || c == '\u{205f}' || c == '\u{3000}',
{
}

// ---------------------------------------------------------------------------
// Parts
// ---------------------------------------------------------------------------

/// A text holds each of its parts, wherever the part stands.
pub proof fn parts_occur(a: Seq<char>, part: Seq<char>, b: Seq<char>)
    ensures
        occurs(a + part + b, part),
        occurs_at(a + part + b, part, a.len() as int),
{
    let s = a + part + b;
    assert(s.subrange(a.len() as int, (a.len() + part.len()) as int) =~= part);
    assert(occurs_at(s, part, a.len() as int));
}

/// What a text holds is a part of it.
pub proof fn what_occurs_is_a_part(s: Seq<char>, part: Seq<char>) -> (i: int)
    requires
        occurs(s, part),
    ensures
        0 <= i,
        i + part.len() <= s.len(),
        s == s.take(i) + part + s.skip(i + part.len()),
{
    let i = choose|i: int| occurs_at(s, part, i);
    assert(s =~= s.take(i) + s.subrange(i, i + part.len()) + s.skip(i + part.len()));
    i
}

/// A text without the first character of a part does not hold the part.
pub proof fn absent_character_means_no_part(s: Seq<char>, part: Seq<char>, k: int)
    requires
        0 <= k < part.len(),
        !s.contains(part[k]),
    ensures
        !occurs(s, part),
{
    assert forall|i: int| !occurs_at(s, part, i) by {
        if occurs_at(s, part, i) {
            assert(s.subrange(i, i + part.len())[k] == part[k]);
            assert(s[i + k] == part[k]);
        }
    }
}

/// A part is found where it first stands: before that place the text does not
/// hold it.
pub proof fn parts_are_found_first(s: Seq<char>, part: Seq<char>)
    ensures
        position(s, part) is Some <==> occurs(s, part),
        position(s, part) matches Some(i) ==> occurs_at(s, part, i) && forall|j: int|
            0 <= j < i ==> !occurs_at(s, part, j),
{
    if occurs(s, part) {
        let i = choose|i: int| occurs_at(s, part, i);
        lemma_some_first(s, part, i);
    }
}

proof fn lemma_some_first(s: Seq<char>, part: Seq<char>, i: int)
    requires
        occurs_at(s, part, i),
    ensures
        exists|k: int| first_at(s, part, k) && position(s, part) == Some(k),
    decreases i,
{
    if forall|j: int| 0 <= j < i ==> !occurs_at(s, part, j) {
        assert(first_at(s, part, i));
        lemma_position(s, part, i);
    } else {
        let j = choose|j: int| 0 <= j < i && occurs_at(s, part, j);
        lemma_some_first(s, part, j);
    }
}

/// What follows a prefix is what was put behind it.
pub proof fn prefixes_come_off(prefix: Seq<char>, rest: Seq<char>, s: Seq<char>)
    ensures
        after_prefix(prefix + rest, prefix) == Some(rest),
        has_prefix(prefix + rest, prefix),
        after_prefix(s, prefix) matches Some(t) ==> s == prefix + t,
        after_prefix(s, prefix) is Some <==> has_prefix(s, prefix),
{
    let t = prefix + rest;
    assert(t.subrange(0, prefix.len() as int) =~= prefix);
    assert(t.skip(prefix.len() as int) =~= rest);
    if has_prefix(s, prefix) {
        assert(s =~= s.subrange(0, prefix.len() as int) + s.skip(prefix.len() as int));
    }
}

/// A text is cut at the first separator.
pub proof fn cuts_read_back(a: Seq<char>, c: char, b: Seq<char>)
    requires
        !a.contains(c),
    ensures
        cut_at(a.push(c) + b, c) == Some((a, b)),
        before_char(a.push(c) + b, c) == a,
        cut_at(a, c) is None,
        before_char(a, c) == a,
{
    let s = a.push(c) + b;
    assert(s[a.len() as int] == c);
    assert forall|j: int| 0 <= j < a.len() implies s[j] != c by {
        assert(s[j] == a[j]);
    }
    assert(first_char_at(s, c, a.len() as int));
    lemma_char_position(s, c, a.len() as int);
    assert(s.contains(s[a.len() as int]));
    assert(s.take(a.len() as int) =~= a);
    assert(s.skip(a.len() + 1int) =~= b);
}

/// A cut loses the separator alone.
pub proof fn cuts_lose_the_separator(s: Seq<char>, c: char)
    ensures
        cut_at(s, c) is Some <==> s.contains(c),
        cut_at(s, c) matches Some((a, b)) ==> s == a.push(c) + b && !a.contains(c),
{
    if s.contains(c) {
        let i = choose|i: int| 0 <= i < s.len() && s[i] == c;
        lemma_some_first_char(s, c, i);
        let k = char_position(s, c)->0;
        assert(s =~= s.take(k).push(c) + s.skip(k + 1));
        assert forall|j: int| 0 <= j < k implies s.take(k)[j] != c by {
            assert(s[j] != c);
        }
    }
}

proof fn lemma_some_first_char(s: Seq<char>, c: char, i: int)
    requires
        0 <= i < s.len(),
        s[i] == c,
    ensures
        exists|k: int| first_char_at(s, c, k) && char_position(s, c) == Some(k),
    decreases i,
{
    assert(s.contains(s[i]));
    if forall|j: int| 0 <= j < i ==> s[j] != c {
        assert(first_char_at(s, c, i));
        lemma_char_position(s, c, i);
    } else {
        let j = choose|j: int| 0 <= j < i && s[j] == c;
        lemma_some_first_char(s, c, j);
    }
}

/// What follows the last separator.
pub proof fn last_cuts_read_back(a: Seq<char>, c: char, b: Seq<char>)
    requires
        !b.contains(c),
    ensures
        after_last_char(a.push(c) + b, c) == b,
        after_last_char(b, c) == b,
    decreases b.len(),
{
    let s = a.push(c) + b;
    if b.len() == 0 {
        assert(s =~= a.push(c));
        assert(b =~= Seq::<char>::empty());
    } else {
        let short = b.drop_last();
        assert(!short.contains(c)) by {
            if short.contains(c) {
                let i = choose|i: int| 0 <= i < short.len() && short[i] == c;
                assert(b[i] == c);
            }
        }
        last_cuts_read_back(a, c, short);
        assert(s.drop_last() =~= a.push(c) + short);
        assert(s.last() == b.last());
        assert(b.contains(b.last()));
        assert(s[a.len() as int] == c);
        assert(s.contains(c));
        assert(short.push(b.last()) =~= b);
    }
}

// ---------------------------------------------------------------------------
// Lines
// ---------------------------------------------------------------------------

/// A line is what stands before a line feed, and the rest goes on by itself. A
/// carriage return before the line feed is no part of the line.
pub proof fn lines_add_up(line: Seq<char>, rest: Seq<char>)
    requires
        !line.contains('\n'),
    ensures
        line.len() == 0 || line.last() != '\r' ==> line_seq(line.push('\n') + rest) == seq![line]
            + line_seq(rest),
        line_seq(line.push('\r').push('\n') + rest) == seq![line] + line_seq(rest),
        line_seq(Seq::<char>::empty()) == Seq::<Seq<char>>::empty(),
        line.len() > 0 ==> line_seq(line) == seq![line],
{
    lemma_line(line, rest);
    let with_cr = line.push('\r');
    assert(!with_cr.contains('\n')) by {
        if with_cr.contains('\n') {
            let i = choose|i: int| 0 <= i < with_cr.len() && with_cr[i] == '\n';
            assert(line[i] == '\n');
        }
    }
    lemma_line(with_cr, rest);
    assert(with_cr.drop_last() =~= line);
}

proof fn lemma_line(line: Seq<char>, rest: Seq<char>)
    requires
        !line.contains('\n'),
    ensures
        line_seq(line.push('\n') + rest) == seq![without_cr(line)] + line_seq(rest),
{
    let s = line.push('\n') + rest;
    assert(s[line.len() as int] == '\n');
    assert forall|j: int| 0 <= j < line.len() implies s[j] != '\n' by {
        assert(s[j] == line[j]);
    }
    assert(first_char_at(s, '\n', line.len() as int));
    lemma_char_position(s, '\n', line.len() as int);
    assert(s.contains(s[line.len() as int]));
    assert(s.take(line.len() as int) =~= line);
    assert(s.skip(line.len() + 1int) =~= rest);
}

/// Lines printed one after the other, each with its line feed.
pub open spec fn printed(lines: Seq<Seq<char>>) -> Seq<char>
    decreases lines.len(),
{
    if lines.len() == 0 {
        Seq::empty()
    } else {
        lines[0].push('\n') + printed(lines.drop_first())
    }
}

/// The text fits on a line.
pub open spec fn one_line(s: Seq<char>) -> bool {
    !s.contains('\n') && !s.contains('\r')
}

pub open spec fn all_one_line(lines: Seq<Seq<char>>) -> bool {
    forall|i: int| 0 <= i < lines.len() ==> one_line(#[trigger] lines[i])
}

/// Printed lines read back as they were printed.
pub proof fn lines_read_back(lines: Seq<Seq<char>>)
    requires
        all_one_line(lines),
    ensures
        line_seq(printed(lines)) == lines,
    decreases lines.len(),
{
    if lines.len() == 0 {
        lines_add_up(Seq::empty(), Seq::empty());
    } else {
        let rest = lines.drop_first();
        assert forall|i: int| 0 <= i < rest.len() implies one_line(#[trigger] rest[i]) by {
            assert(rest[i] == lines[i + 1]);
        }
        lines_read_back(rest);
        assert(one_line(lines[0]));
        if lines[0].len() > 0 {
            assert(lines[0].contains(lines[0].last()));
        }
        lines_add_up(lines[0], printed(rest));
        assert(seq![lines[0]] + rest =~= lines);
    }
}

/// A part that fits on a line lies on one: a text holds it exactly if one of
/// its lines does.
pub proof fn parts_lie_on_lines(s: Seq<char>, part: Seq<char>)
    requires
        part.len() > 0,
        one_line(part),
    ensures
        occurs(s, part) <==> exists|k: int|
            0 <= k < line_seq(s).len() && occurs(#[trigger] line_seq(s)[k], part),
    decreases s.len(),
{
    let ls = line_seq(s);
    if s.len() == 0 {
        assert(!occurs(s, part));
    } else if !s.contains('\n') {
        lines_add_up(s, Seq::empty());
        assert(ls[0] == s);
    } else {
        cuts_lose_the_separator(s, '\n');
        let (line, rest) = cut_at(s, '\n')->0;
        lemma_line(line, rest);
        let first = without_cr(line);
        assert(ls =~= seq![first] + line_seq(rest));
        assert(rest.len() < s.len());
        parts_lie_on_lines(rest, part);
        lemma_part_in_half(line, rest, part);
        lemma_part_without_cr(line, part);
        if occurs(first, part) {
            assert(occurs(ls[0], part));
        }
        if occurs(rest, part) {
            let k = choose|k: int|
                0 <= k < line_seq(rest).len() && occurs(#[trigger] line_seq(rest)[k], part);
            assert(ls[k + 1] == line_seq(rest)[k]);
        }
        if exists|k: int| 0 <= k < ls.len() && occurs(#[trigger] ls[k], part) {
            let k = choose|k: int| 0 <= k < ls.len() && occurs(#[trigger] ls[k], part);
            if k > 0 {
                assert(line_seq(rest)[k - 1] == ls[k]);
            }
        }
    }
}

proof fn lemma_part_in_half(line: Seq<char>, rest: Seq<char>, part: Seq<char>)
    requires
        part.len() > 0,
        !part.contains('\n'),
    ensures
        occurs(line.push('\n') + rest, part) <==> occurs(line, part) || occurs(rest, part),
{
    let s = line.push('\n') + rest;
    let n = line.len() as int;
    if occurs(s, part) {
        let i = choose|i: int| occurs_at(s, part, i);
        assert(s.subrange(i, i + part.len()) == part);
        if i <= n < i + part.len() {
            assert(part[n - i] == s[n]);
            assert(part.contains(part[n - i]));
        } else if i > n {
            assert(rest.subrange(i - n - 1, i - n - 1 + part.len()) =~= part);
            assert(occurs_at(rest, part, i - n - 1));
        } else {
            assert(line.subrange(i, i + part.len()) =~= part);
            assert(occurs_at(line, part, i));
        }
    }
    if occurs(line, part) {
        let i = choose|i: int| occurs_at(line, part, i);
        assert(s.subrange(i, i + part.len()) =~= line.subrange(i, i + part.len()));
        assert(occurs_at(s, part, i));
    }
    if occurs(rest, part) {
        let i = choose|i: int| occurs_at(rest, part, i);
        assert(s.subrange(n + 1 + i, n + 1 + i + part.len()) =~= rest.subrange(
            i,
            i + part.len(),
        ));
        assert(occurs_at(s, part, n + 1 + i));
    }
}

proof fn lemma_part_without_cr(line: Seq<char>, part: Seq<char>)
    requires
        part.len() > 0,
        !part.contains('\r'),
    ensures
        occurs(without_cr(line), part) <==> occurs(line, part),
{
    let short = without_cr(line);
    if occurs(line, part) {
        let i = choose|i: int| occurs_at(line, part, i);
        assert(line.subrange(i, i + part.len()) == part);
        if i + part.len() > short.len() {
            assert(part.last() == line.last());
            assert(part.contains(part.last()));
        }
        assert(short.subrange(i, i + part.len()) =~= part);
        assert(occurs_at(short, part, i));
    }
    if occurs(short, part) {
        let i = choose|i: int| occurs_at(short, part, i);
        assert(line.subrange(i, i + part.len()) =~= part);
        assert(occurs_at(line, part, i));
    }
}

/// The first line that holds a part, if any does.
pub proof fn first_lines_are_found(lines: Seq<Seq<char>>, part: Seq<char>)
    ensures
        match first_with(lines, part) {
            Some(line) => exists|k: int|
                0 <= k < lines.len() && #[trigger] lines[k] == line && occurs(line, part)
                    && forall|j: int| 0 <= j < k ==> !occurs(#[trigger] lines[j], part),
            None => forall|k: int| 0 <= k < lines.len() ==> !occurs(#[trigger] lines[k], part),
        },
        match first_with_prefix(lines, part) {
            Some(line) => exists|k: int|
                0 <= k < lines.len() && #[trigger] lines[k] == line && has_prefix(line, part)
                    && forall|j: int| 0 <= j < k ==> !has_prefix(#[trigger] lines[j], part),
            None => forall|k: int| 0 <= k < lines.len() ==> !has_prefix(#[trigger] lines[k], part),
        },
    decreases lines.len(),
{
    if lines.len() > 0 {
        let rest = lines.drop_first();
        first_lines_are_found(rest, part);
        assert forall|k: int| 0 < k < lines.len() implies #[trigger] lines[k] == rest[k - 1] by {}
        if !occurs(lines[0], part) {
            if let Some(line) = first_with(rest, part) {
                let k = choose|k: int|
                    0 <= k < rest.len() && #[trigger] rest[k] == line && occurs(line, part)
                        && forall|j: int| 0 <= j < k ==> !occurs(#[trigger] rest[j], part);
                assert(lines[k + 1] == line);
                assert forall|j: int| 0 <= j < k + 1 implies !occurs(
                    #[trigger] lines[j],
                    part,
                ) by {
                    if j > 0 {
                        assert(lines[j] == rest[j - 1]);
                    }
                }
            }
        } else {
            assert(lines[0] == first_with(lines, part)->0);
        }
        if !has_prefix(lines[0], part) {
            if let Some(line) = first_with_prefix(rest, part) {
                let k = choose|k: int|
                    0 <= k < rest.len() && #[trigger] rest[k] == line && has_prefix(line, part)
                        && forall|j: int| 0 <= j < k ==> !has_prefix(#[trigger] rest[j], part);
                assert(lines[k + 1] == line);
                assert forall|j: int| 0 <= j < k + 1 implies !has_prefix(
                    #[trigger] lines[j],
                    part,
                ) by {
                    if j > 0 {
                        assert(lines[j] == rest[j - 1]);
                    }
                }
            }
        } else {
            assert(lines[0] == first_with_prefix(lines, part)->0);
        }
    }
}

// ---------------------------------------------------------------------------
// White space and case
// ---------------------------------------------------------------------------

pub open spec fn all_white(s: Seq<char>) -> bool {
    forall|i: int| 0 <= i < s.len() ==> white(#[trigger] s[i])
}

/// Trimming takes off the white space at both ends, and nothing else.
pub proof fn trimming_keeps_the_core(a: Seq<char>, core: Seq<char>, b: Seq<char>)
    requires
        all_white(a),
        all_white(b),
        core.len() == 0 || (!white(core[0]) && !white(core.last())),
    ensures
        trimmed(a + core + b) == core,
    decreases a.len() + b.len(),
{
    let s = a + core + b;
    if core.len() == 0 {
        assert forall|i: int| 0 <= i < s.len() implies white(#[trigger] s[i]) by {
            if i < a.len() {
                assert(white(a[i]));
            } else {
                assert(white(b[i - a.len()]));
            }
        }
        lemma_all_white(s);
        assert(core =~= Seq::<char>::empty());
    } else {
        lemma_start(a, core + b);
        assert(a + (core + b) =~= s);
        lemma_end(core, b);
    }
}

proof fn lemma_all_white(s: Seq<char>)
    requires
        all_white(s),
    ensures
        start_trimmed(s) == Seq::<char>::empty(),
        trimmed(s) == Seq::<char>::empty(),
    decreases s.len(),
{
    if s.len() > 0 {
        assert(white(s[0]));
        assert forall|i: int| 0 <= i < s.drop_first().len() implies white(
            #[trigger] s.drop_first()[i],
        ) by {
            assert(white(s[i + 1]));
        }
        lemma_all_white(s.drop_first());
    } else {
        assert(s =~= Seq::<char>::empty());
    }
}

proof fn lemma_start(a: Seq<char>, rest: Seq<char>)
    requires
        all_white(a),
        rest.len() > 0,
        !white(rest[0]),
    ensures
        start_trimmed(a + rest) == rest,
    decreases a.len(),
{
    let s = a + rest;
    if a.len() == 0 {
        assert(s =~= rest);
    } else {
        assert(white(a[0]));
        assert forall|i: int| 0 <= i < a.drop_first().len() implies white(
            #[trigger] a.drop_first()[i],
        ) by {
            assert(white(a[i + 1]));
        }
        lemma_start(a.drop_first(), rest);
        assert(s.drop_first() =~= a.drop_first() + rest);
    }
}

proof fn lemma_end(core: Seq<char>, b: Seq<char>)
    requires
        all_white(b),
        core.len() > 0,
        !white(core.last()),
    ensures
        end_trimmed(core + b) == core,
    decreases b.len(),
{
    let s = core + b;
    if b.len() == 0 {
        assert(s =~= core);
    } else {
        assert(white(b[b.len() - 1]));
        assert forall|i: int| 0 <= i < b.drop_last().len() implies white(
            #[trigger] b.drop_last()[i],
        ) by {
            assert(white(b[i]));
        }
        lemma_end(core, b.drop_last());
        assert(s.drop_last() =~= core + b.drop_last());
    }
}

/// Folding the case turns `A` to `Z` into `a` to `z`, place by place, and changes
/// nothing else; replacing a character changes that character alone.
pub proof fn folding_goes_place_by_place(s: Seq<char>, from: char, to: char, i: int)
    requires
        0 <= i < s.len(),
    ensures
        ascii_folded(s).len() == s.len(),
        ascii_folded(s)[i] as int == (if 'A' <= s[i] && s[i] <= 'Z' {
            s[i] as int + 32
        } else {
            s[i] as int
        }),
        char_replaced(s, from, to).len() == s.len(),
        char_replaced(s, from, to)[i] == (if s[i] == from {
            to
        } else {
            s[i]
        }),
{
    lemma_lower(s[i]);
    assert(ascii_folded(s)[i] == ascii_lower(s[i]));
}

proof fn lemma_lower(c: char)
    ensures
        ascii_lower(c) as int == (if 'A' <= c && c <= 'Z' {
            c as int + 32
        } else {
            c as int
        }),
{
}

// ---------------------------------------------------------------------------
// Numbers
// ---------------------------------------------------------------------------

/// Digits at the beginning are taken up to the first other character.
pub proof fn leading_digits_stop_in_time(d: Seq<char>, rest: Seq<char>)
    requires
        all_digits(d),
        rest.len() == 0 || !ascii_digit(rest[0]),
    ensures
        leading_digits(d + rest) == d,
    decreases d.len(),
{
    let s = d + rest;
    if d.len() == 0 {
        assert(s =~= rest);
        assert(d =~= Seq::<char>::empty());
    } else {
        let short = d.drop_first();
        assert forall|i: int| 0 <= i < short.len() implies ascii_digit(#[trigger] short[i]) by {
            assert(short[i] == d[i + 1]);
        }
        leading_digits_stop_in_time(short, rest);
        assert(s.drop_first() =~= short + rest);
        assert(ascii_digit(d[0]));
        assert(seq![d[0]] + short =~= d);
    }
}

/// A byte in decimal reads back as that byte; a larger number does not read as
/// one, nor does a text with anything but digits.
pub proof fn bytes_read_back(n: nat, s: Seq<char>, i: int)
    requires
        0 <= i < s.len(),
        !ascii_digit(s[i]),
        s[i] != '+',
    ensures
        n <= 255 ==> byte_value(decimal(n)) == Some(n as u8),
        n > 255 ==> byte_value(decimal(n)) is None,
        byte_value(s) is None,
        byte_value(Seq::empty()) is None,
{
    decimal_reads_back(n);
    lemma_decimal_len(n);
    let d = decimal(n);
    assert(ascii_digit(d[0]));
    if s[0] == '+' {
        assert(s.drop_first()[i - 1] == s[i]);
        assert(!ascii_digit(s.drop_first()[i - 1]));
    }
}

proof fn lemma_decimal_len(n: nat)
    ensures
        decimal(n).len() > 0,
{
}

/// Numbers count in tens: behind a number, one more digit is worth itself, and the
/// digits before it ten times as much.
pub proof fn numbers_count_in_tens(n: nat, d: nat, s: Seq<char>, c: char)
    requires
        d < 10,
        ascii_digit(c),
    ensures
        decimal(d).len() == 1,
        decimal(d)[0] as int == '0' as int + d,
        n > 0 ==> decimal(10 * n + d) == decimal(n) + decimal(d),
        digits_value(s.push(c)) == 10 * digits_value(s) + (c as int - '0' as int),
{
    let m = 10 * n + d;
    assert(m / 10 == n && m % 10 == d);
    assert(s.push(c).drop_last() =~= s);
    if n > 0 {
        assert(decimal(m) =~= decimal(n) + decimal(d));
    }
}

/// Numbers are written without zeros in front, so no two are written alike.
pub proof fn numbers_are_written_one_way(m: nat, n: nat)
    ensures
        decimal(m) == decimal(n) ==> m == n,
        n >= 10 ==> decimal(n)[0] != '0',
        decimal(0) == seq!['0'],
    decreases n,
{
    decimal_reads_back(m);
    decimal_reads_back(n);
    if n >= 10 {
        numbers_are_written_one_way(m, n / 10);
        lemma_decimal_len(n / 10);
        if n / 10 < 10 {
            assert(decimal(n / 10)[0] as u32 == 48 + n / 10);
        }
        assert(decimal(n)[0] == decimal(n / 10)[0]);
    }
}

/// Padding puts blanks behind a text, up to the width and no further.
pub proof fn padding_only_adds_blanks(s: Seq<char>, width: nat)
    ensures
        padded(s, width).len() == (if s.len() >= width {
            s.len()
        } else {
            width
        }),
        padded(s, width).take(s.len() as int) == s,
        forall|i: int| s.len() <= i < padded(s, width).len() ==> #[trigger] padded(s, width)[i]
            == ' ',
{
    assert(padded(s, width).take(s.len() as int) =~= s);
}

} // verus!
