//! Text as sequences of characters: what the parsers need of strings, stated
//! over `Seq<char>` and proved.

use vstd::prelude::*;

pub mod laws;

verus! {

// ---------------------------------------------------------------------------
// Strings of the standard library
// ---------------------------------------------------------------------------

/// `String::push` appends one character.
pub assume_specification[ String::push ](s: &mut String, c: char)
    ensures
        final(s)@ == old(s)@.push(c),
;

/// `String::pop` takes the last character off, if there is one.
pub assume_specification[ String::pop ](s: &mut String) -> (r: Option<char>)
    ensures
        old(s)@.len() > 0 ==> r == Some(old(s)@.last()) && final(s)@ == old(s)@.drop_last(),
        old(s)@.len() == 0 ==> r == None::<char> && final(s)@ == old(s)@,
;

/// `String::clear` leaves the empty string.
pub assume_specification[ String::clear ](s: &mut String)
    ensures
        final(s)@ == Seq::<char>::empty(),
;

/// What `str::to_lowercase` makes of a text.
pub uninterp spec fn lowercase(s: Seq<char>) -> Seq<char>;

/// `str::to_lowercase` follows the Unicode lower-case mapping, which depends on
/// the text alone. On ASCII text it changes `A` to `Z` and nothing else. How it
/// maps characters beyond ASCII is left to the name.
pub assume_specification[ str::to_lowercase ](s: &str) -> (r: String)
    ensures
        r@ == lowercase(s@),
        all_ascii(s@) ==> r@ == ascii_folded(s@),
;

// ---------------------------------------------------------------------------
// Characters
// ---------------------------------------------------------------------------

pub open spec fn all_ascii(s: Seq<char>) -> bool {
    forall|i: int| 0 <= i < s.len() ==> (#[trigger] s[i] as u32) < 128
}

pub open spec fn ascii_lower(c: char) -> char {
    if 65 <= c as u32 <= 90 {
        (c as u32 + 32) as char
    } else {
        c
    }
}

pub open spec fn ascii_digit(c: char) -> bool {
    48 <= c as u32 <= 57
}

pub open spec fn ascii_alphabetic(c: char) -> bool {
    65 <= c as u32 <= 90 || 97 <= c as u32 <= 122
}

/// A control code (general category Cc).
pub open spec fn control(c: char) -> bool {
    c as u32 <= 0x1f || 0x7f <= c as u32 <= 0x9f
}

/// A character with the White_Space property.
pub open spec fn white(c: char) -> bool {
    let u = c as u32;
    ||| 0x9 <= u <= 0xd
    ||| u == 0x20
    ||| u == 0x85
    ||| u == 0xa0
    ||| u == 0x1680
    ||| 0x2000 <= u <= 0x200a
    ||| u == 0x2028
    ||| u == 0x2029
    ||| u == 0x202f
    ||| u == 0x205f
    ||| u == 0x3000
}

pub fn to_ascii_lower(c: char) -> (r: char)
    ensures
        r == ascii_lower(c),
{
    if 'A' <= c && c <= 'Z' {
        (c as u8 + 32) as char
    } else {
        c
    }
}

pub fn is_ascii_digit(c: char) -> (r: bool)
    ensures
        r == ascii_digit(c),
{
    '0' <= c && c <= '9'
}

pub fn is_ascii_alphabetic(c: char) -> (r: bool)
    ensures
        r == ascii_alphabetic(c),
{
    ('A' <= c && c <= 'Z') || ('a' <= c && c <= 'z')
}

pub fn is_control(c: char) -> (r: bool)
    ensures
        r == control(c),
{
    let u: u32 = c as u32;
    u <= 0x1f || (0x7f <= u && u <= 0x9f)
}

pub fn is_white(c: char) -> (r: bool)
    ensures
        r == white(c),
{
    let u: u32 = c as u32;
    (0x9 <= u && u <= 0xd) || u == 0x20 || u == 0x85 || u == 0xa0 || u == 0x1680 || (0x2000 <= u
        && u <= 0x200a) || u == 0x2028 || u == 0x2029 || u == 0x202f || u == 0x205f || u == 0x3000
}

// ---------------------------------------------------------------------------
// Building and taking apart
// ---------------------------------------------------------------------------

pub fn chars_of(s: &str) -> (r: Vec<char>)
    ensures
        r@ == s@,
{
    let mut v: Vec<char> = Vec::new();
    for c in it: s.chars()
        invariant
            it.seq() == s@,
            v@ == s@.take(it.index()),
    {
        v.push(c);
    }
    v
}

/// The two texts, one after the other.
pub fn join2(a: &str, b: &str) -> (r: String)
    ensures
        r@ == a@ + b@,
{
    let mut s = String::from_str(a);
    s.append(b);
    s
}

/// The three texts, one after the other.
pub fn join3(a: &str, b: &str, c: &str) -> (r: String)
    ensures
        r@ == a@ + b@ + c@,
{
    let mut s = join2(a, b);
    s.append(c);
    s
}

/// The characters from `from` up to, not including, `to`.
pub fn string_of(v: &Vec<char>, from: usize, to: usize) -> (r: String)
    requires
        from <= to <= v@.len(),
    ensures
        r@ == v@.subrange(from as int, to as int),
{
    let mut s = String::new();
    let mut i: usize = from;
    while i < to
        invariant
            from <= i <= to <= v@.len(),
            s@ == v@.subrange(from as int, i as int),
        decreases to - i,
    {
        s.push(v[i]);
        i += 1;
    }
    s
}

/// The text with `A` to `Z` in lower case.
pub open spec fn ascii_folded(s: Seq<char>) -> Seq<char> {
    s.map_values(|c: char| ascii_lower(c))
}

/// `pat` stands in `s` at position `i`.
pub open spec fn occurs_at(s: Seq<char>, pat: Seq<char>, i: int) -> bool {
    0 <= i && i + pat.len() <= s.len() && s.subrange(i, i + pat.len()) == pat
}

/// `pat` stands somewhere in `s`.
pub open spec fn occurs(s: Seq<char>, pat: Seq<char>) -> bool {
    exists|i: int| occurs_at(s, pat, i)
}

/// `i` is the first position at which `pat` stands in `s`.
pub open spec fn first_at(s: Seq<char>, pat: Seq<char>, i: int) -> bool {
    occurs_at(s, pat, i) && forall|j: int| 0 <= j < i ==> !occurs_at(s, pat, j)
}

/// Where `pat` first stands in `s`.
pub open spec fn position(s: Seq<char>, pat: Seq<char>) -> Option<int> {
    if occurs(s, pat) {
        Some(choose|i: int| first_at(s, pat, i))
    } else {
        None
    }
}

/// `i` is the first position of `c` in `s`.
pub open spec fn first_char_at(s: Seq<char>, c: char, i: int) -> bool {
    0 <= i < s.len() && s[i] == c && forall|j: int| 0 <= j < i ==> s[j] != c
}

/// Where `c` first stands in `s`.
pub open spec fn char_position(s: Seq<char>, c: char) -> Option<int> {
    if s.contains(c) {
        Some(choose|i: int| first_char_at(s, c, i))
    } else {
        None
    }
}

pub(crate) proof fn lemma_position(s: Seq<char>, pat: Seq<char>, i: int)
    requires
        first_at(s, pat, i),
    ensures
        position(s, pat) == Some(i),
{
    let k = choose|k: int| first_at(s, pat, k);
    assert(first_at(s, pat, k));
    if k < i {
        assert(!occurs_at(s, pat, k));
    }
    if i < k {
        assert(!occurs_at(s, pat, i));
    }
}

pub(crate) proof fn lemma_char_position(s: Seq<char>, c: char, i: int)
    requires
        first_char_at(s, c, i),
    ensures
        char_position(s, c) == Some(i),
{
    let k = choose|k: int| first_char_at(s, c, k);
    assert(first_char_at(s, c, k));
    assert(s.contains(s[i]));
}

pub open spec fn has_prefix(s: Seq<char>, pat: Seq<char>) -> bool {
    occurs_at(s, pat, 0)
}

/// What follows the prefix `pat`.
pub open spec fn after_prefix(s: Seq<char>, pat: Seq<char>) -> Option<Seq<char>> {
    if has_prefix(s, pat) {
        Some(s.skip(pat.len() as int))
    } else {
        None
    }
}

/// The text before the first `c`, and the text after it.
pub open spec fn cut_at(s: Seq<char>, c: char) -> Option<(Seq<char>, Seq<char>)> {
    match char_position(s, c) {
        Some(i) => Some((s.take(i), s.skip(i + 1))),
        None => None,
    }
}

/// Without one carriage return at the end.
pub open spec fn without_cr(s: Seq<char>) -> Seq<char> {
    if s.len() > 0 && s.last() == '\r' {
        s.drop_last()
    } else {
        s
    }
}

/// The lines of a text: each ends at a line feed, with one carriage return
/// before it taken off too; the line end of the last line is optional.
pub open spec fn line_seq(s: Seq<char>) -> Seq<Seq<char>>
    decreases s.len(),
{
    if s.len() == 0 {
        Seq::empty()
    } else {
        match char_position(s, '\n') {
            None => seq![s],
            Some(i) => if 0 <= i < s.len() {
                seq![without_cr(s.take(i))] + line_seq(s.skip(i + 1))
            } else {
                Seq::empty()
            },
        }
    }
}

pub open spec fn start_trimmed(s: Seq<char>) -> Seq<char>
    decreases s.len(),
{
    if s.len() > 0 && white(s[0]) {
        start_trimmed(s.drop_first())
    } else {
        s
    }
}

pub open spec fn end_trimmed(s: Seq<char>) -> Seq<char>
    decreases s.len(),
{
    if s.len() > 0 && white(s.last()) {
        end_trimmed(s.drop_last())
    } else {
        s
    }
}

/// Without white space at either end.
pub open spec fn trimmed(s: Seq<char>) -> Seq<char> {
    end_trimmed(start_trimmed(s))
}

pub open spec fn char_replaced(s: Seq<char>, from: char, to: char) -> Seq<char> {
    s.map_values(|c: char| if c == from { to } else { c })
}

/// Equal but for the case of ASCII letters.
pub open spec fn same_ignoring_ascii_case(a: Seq<char>, b: Seq<char>) -> bool {
    ascii_folded(a) == ascii_folded(b)
}

/// The texts of a list of string slices.
pub open spec fn texts(v: Seq<&str>) -> Seq<Seq<char>> {
    v.map_values(|s: &str| s@)
}

fn occurs_here(s: &Vec<char>, pat: &Vec<char>, i: usize) -> (r: bool)
    requires
        i + pat@.len() <= s@.len(),
    ensures
        r == occurs_at(s@, pat@, i as int),
{
    let n: usize = s.len();
    let mut k: usize = 0;
    while k < pat.len()
        invariant
            n == s@.len(),
            k <= pat@.len(),
            i + pat@.len() <= s@.len(),
            s@.subrange(i as int, i + k) == pat@.take(k as int),
        decreases pat@.len() - k,
    {
        if s[i + k] != pat[k] {
            assert(s@.subrange(i as int, i + pat@.len())[k as int] != pat@[k as int]);
            return false;
        }
        assert(s@.subrange(i as int, i + k + 1) =~= s@.subrange(i as int, i + k).push(
            s@[i + k],
        ));
        assert(pat@.take(k + 1) =~= pat@.take(k as int).push(pat@[k as int]));
        k += 1;
    }
    assert(pat@.take(k as int) =~= pat@);
    true
}

fn find_chars(s: &Vec<char>, pat: &Vec<char>) -> (r: Option<usize>)
    ensures
        match r {
            Some(i) => position(s@, pat@) == Some(i as int) && first_at(s@, pat@, i as int),
            None => position(s@, pat@) is None && !occurs(s@, pat@),
        },
{
    if pat.len() > s.len() {
        return None;
    }
    let last: usize = s.len() - pat.len();
    let mut i: usize = 0;
    while i <= last
        invariant
            last == s@.len() - pat@.len(),
            i <= last,
            forall|j: int| 0 <= j < i ==> !occurs_at(s@, pat@, j),
        decreases last + 1 - i,
    {
        if occurs_here(s, pat, i) {
            proof {
                lemma_position(s@, pat@, i as int);
            }
            return Some(i);
        }
        if i == last {
            assert(forall|j: int| !occurs_at(s@, pat@, j));
            return None;
        }
        i += 1;
    }
    None
}

/// `str::find`, as a position in characters.
pub fn find(s: &str, pat: &str) -> (r: Option<usize>)
    ensures
        match r {
            Some(i) => position(s@, pat@) == Some(i as int) && occurs_at(s@, pat@, i as int),
            None => position(s@, pat@) is None,
        },
{
    find_chars(&chars_of(s), &chars_of(pat))
}

/// `str::contains`.
pub fn contains(s: &str, pat: &str) -> (r: bool)
    ensures
        r == occurs(s@, pat@),
{
    find_chars(&chars_of(s), &chars_of(pat)).is_some()
}

/// `str::starts_with`.
pub fn starts_with(s: &str, pat: &str) -> (r: bool)
    ensures
        r == has_prefix(s@, pat@),
{
    let sv = chars_of(s);
    let pv = chars_of(pat);
    pv.len() <= sv.len() && occurs_here(&sv, &pv, 0)
}

/// `str::strip_prefix`.
pub fn strip_prefix(s: &str, pat: &str) -> (r: Option<String>)
    ensures
        r.deep_view() == after_prefix(s@, pat@),
{
    let sv = chars_of(s);
    let pv = chars_of(pat);
    if pv.len() <= sv.len() && occurs_here(&sv, &pv, 0) {
        Some(string_of(&sv, pv.len(), sv.len()))
    } else {
        None
    }
}

fn find_char(s: &Vec<char>, c: char, from: usize) -> (r: Option<usize>)
    requires
        from <= s@.len(),
    ensures
        match r {
            Some(i) => from <= i < s@.len() && char_position(s@.skip(from as int), c) == Some(
                i - from,
            ),
            None => char_position(s@.skip(from as int), c) is None,
        },
{
    let mut i: usize = from;
    while i < s.len()
        invariant
            from <= i <= s@.len(),
            forall|j: int| from <= j < i ==> s@[j] != c,
        decreases s@.len() - i,
    {
        if s[i] == c {
            proof {
                lemma_char_position(s@.skip(from as int), c, i - from);
            }
            return Some(i);
        }
        i += 1;
    }
    None
}

/// `str::contains` of a character.
pub fn contains_char(s: &str, c: char) -> (r: bool)
    ensures
        r == s@.contains(c),
{
    let v = chars_of(s);
    assert(v@.skip(0) =~= v@);
    find_char(&v, c, 0).is_some()
}

/// `str::split_once` at a character.
pub fn split_once(s: &str, c: char) -> (r: Option<(String, String)>)
    ensures
        r.deep_view() == cut_at(s@, c),
{
    let v = chars_of(s);
    let n: usize = v.len();
    let at = find_char(&v, c, 0);
    assert(v@.skip(0) =~= v@);
    match at {
        Some(i) => Some((string_of(&v, 0, i), string_of(&v, i + 1, n))),
        None => None,
    }
}

/// `str::lines`.
pub fn lines(s: &str) -> (r: Vec<String>)
    ensures
        r.deep_view() == line_seq(s@),
{
    let v = chars_of(s);
    let mut out: Vec<String> = Vec::new();
    let mut start: usize = 0;
    assert(v@.skip(0) =~= v@);
    assert(out.deep_view() =~= Seq::<Seq<char>>::empty());
    while start < v.len()
        invariant
            start <= v@.len(),
            v@ == s@,
            out.deep_view() + line_seq(v@.skip(start as int)) == line_seq(s@),
        decreases v@.len() - start,
    {
        let ghost rest = v@.skip(start as int);
        let ghost before = out.deep_view();
        match find_char(&v, '\n', start) {
            None => {
                let line = string_of(&v, start, v.len());
                out.push(line);
                assert(line@ =~= rest);
                assert(out.deep_view() =~= before.push(rest));
                assert(before + seq![rest] =~= before.push(rest));
                start = v.len();
                assert(v@.skip(start as int) =~= Seq::<char>::empty());
                assert(out.deep_view() + line_seq(v@.skip(start as int)) =~= before + line_seq(
                    rest,
                ));
            },
            Some(i) => {
                let end: usize = if i > start && v[i - 1] == '\r' {
                    i - 1
                } else {
                    i
                };
                let line = string_of(&v, start, end);
                out.push(line);
                assert(rest.take(i - start) =~= v@.subrange(start as int, i as int));
                assert(line@ =~= without_cr(rest.take(i - start)));
                assert(rest.skip(i - start + 1) =~= v@.skip(i + 1));
                assert(out.deep_view() =~= before.push(line@));
                assert(before + (seq![line@] + line_seq(v@.skip(i + 1))) =~= before.push(line@)
                    + line_seq(v@.skip(i + 1)));
                start = i + 1;
            },
        }
    }
    assert(v@.skip(start as int) =~= Seq::<char>::empty());
    assert(out.deep_view() + line_seq(Seq::<char>::empty()) =~= out.deep_view());
    out
}

/// `str::trim_start`.
pub fn trim_start(s: &str) -> (r: String)
    ensures
        r@ == start_trimmed(s@),
{
    let v = chars_of(s);
    let mut i: usize = 0;
    assert(v@.skip(0) =~= v@);
    while i < v.len() && is_white(v[i])
        invariant
            i <= v@.len(),
            start_trimmed(v@.skip(i as int)) == start_trimmed(v@),
        decreases v@.len() - i,
    {
        assert(v@.skip(i as int).drop_first() =~= v@.skip(i + 1));
        i += 1;
    }
    string_of(&v, i, v.len())
}

fn trim_end(s: &str) -> (r: String)
    ensures
        r@ == end_trimmed(s@),
{
    let v = chars_of(s);
    let mut n: usize = v.len();
    assert(v@.take(n as int) =~= v@);
    while n > 0 && is_white(v[n - 1])
        invariant
            n <= v@.len(),
            end_trimmed(v@.take(n as int)) == end_trimmed(v@),
        decreases n,
    {
        assert(v@.take(n as int).drop_last() =~= v@.take(n - 1));
        n -= 1;
    }
    string_of(&v, 0, n)
}

/// `str::trim`.
pub fn trim(s: &str) -> (r: String)
    ensures
        r@ == trimmed(s@),
{
    let t = trim_start(s);
    trim_end(t.as_str())
}

/// `str::replace` of one character by another.
pub fn replace_char(s: &str, from: char, to: char) -> (r: String)
    ensures
        r@ == char_replaced(s@, from, to),
{
    let v = chars_of(s);
    let mut out = String::new();
    let mut i: usize = 0;
    while i < v.len()
        invariant
            i <= v@.len(),
            out@ == char_replaced(v@.take(i as int), from, to),
        decreases v@.len() - i,
    {
        let c: char = if v[i] == from {
            to
        } else {
            v[i]
        };
        out.push(c);
        assert(v@.take(i + 1) =~= v@.take(i as int).push(v@[i as int]));
        i += 1;
    }
    assert(v@.take(i as int) =~= v@);
    out
}

/// `str::to_ascii_lowercase`.
pub fn to_ascii_lowercase(s: &str) -> (r: String)
    ensures
        r@ == ascii_folded(s@),
{
    let v = chars_of(s);
    let mut out = String::new();
    let mut i: usize = 0;
    while i < v.len()
        invariant
            i <= v@.len(),
            out@ == ascii_folded(v@.take(i as int)),
        decreases v@.len() - i,
    {
        out.push(to_ascii_lower(v[i]));
        assert(v@.take(i + 1) =~= v@.take(i as int).push(v@[i as int]));
        i += 1;
    }
    assert(v@.take(i as int) =~= v@);
    out
}

/// `==` on string slices.
pub fn same(a: &str, b: &str) -> (r: bool)
    ensures
        r == (a@ == b@),
{
    let av = chars_of(a);
    let bv = chars_of(b);
    av.len() == bv.len() && occurs_here_whole(&av, &bv)
}

fn occurs_here_whole(a: &Vec<char>, b: &Vec<char>) -> (r: bool)
    requires
        a@.len() == b@.len(),
    ensures
        r == (a@ == b@),
{
    let r = occurs_here(a, b, 0);
    assert(a@.subrange(0, a@.len() as int) =~= a@);
    r
}

/// `str::eq_ignore_ascii_case`.
pub fn eq_ignore_ascii_case(a: &str, b: &str) -> (r: bool)
    ensures
        r == same_ignoring_ascii_case(a@, b@),
{
    let x = to_ascii_lowercase(a);
    let y = to_ascii_lowercase(b);
    same(x.as_str(), y.as_str())
}

/// The first of the lines that `pat` stands in.
pub open spec fn first_with(ls: Seq<Seq<char>>, pat: Seq<char>) -> Option<Seq<char>>
    decreases ls.len(),
{
    if ls.len() == 0 {
        None
    } else if occurs(ls[0], pat) {
        Some(ls[0])
    } else {
        first_with(ls.drop_first(), pat)
    }
}

/// The first of the lines that begin with `pat`.
pub open spec fn first_with_prefix(ls: Seq<Seq<char>>, pat: Seq<char>) -> Option<Seq<char>>
    decreases ls.len(),
{
    if ls.len() == 0 {
        None
    } else if has_prefix(ls[0], pat) {
        Some(ls[0])
    } else {
        first_with_prefix(ls.drop_first(), pat)
    }
}

/// The text up to the first `c`; all of it where there is none.
pub open spec fn before_char(s: Seq<char>, c: char) -> Seq<char> {
    match char_position(s, c) {
        Some(i) => s.take(i),
        None => s,
    }
}

/// The text behind the last `c`; all of it where there is none.
pub open spec fn after_last_char(s: Seq<char>, c: char) -> Seq<char>
    decreases s.len(),
{
    if s.len() == 0 || s.last() == c {
        Seq::empty()
    } else if s.contains(c) {
        after_last_char(s.drop_last(), c).push(s.last())
    } else {
        s
    }
}

/// The digits that the text begins with.
pub open spec fn leading_digits(s: Seq<char>) -> Seq<char>
    decreases s.len(),
{
    if s.len() > 0 && ascii_digit(s[0]) {
        seq![s[0]] + leading_digits(s.drop_first())
    } else {
        Seq::empty()
    }
}

pub fn first_line_with(s: &str, pat: &str) -> (r: Option<String>)
    ensures
        r.deep_view() == first_with(line_seq(s@), pat@),
{
    let ls = lines(s);
    let ghost all = ls.deep_view();
    let mut i: usize = 0;
    assert(all.skip(0) =~= all);
    while i < ls.len()
        invariant
            i <= ls@.len(),
            all == ls.deep_view(),
            all == line_seq(s@),
            first_with(all.skip(i as int), pat@) == first_with(all, pat@),
        decreases ls@.len() - i,
    {
        assert(all.skip(i as int)[0] == ls@[i as int]@);
        if contains(ls[i].as_str(), pat) {
            return Some(ls[i].clone());
        }
        assert(all.skip(i as int).drop_first() =~= all.skip(i + 1));
        i += 1;
    }
    None
}

pub fn first_line_with_prefix(s: &str, pat: &str) -> (r: Option<String>)
    ensures
        r.deep_view() == first_with_prefix(line_seq(s@), pat@),
{
    let ls = lines(s);
    let ghost all = ls.deep_view();
    let mut i: usize = 0;
    assert(all.skip(0) =~= all);
    while i < ls.len()
        invariant
            i <= ls@.len(),
            all == ls.deep_view(),
            all == line_seq(s@),
            first_with_prefix(all.skip(i as int), pat@) == first_with_prefix(all, pat@),
        decreases ls@.len() - i,
    {
        assert(all.skip(i as int)[0] == ls@[i as int]@);
        if starts_with(ls[i].as_str(), pat) {
            return Some(ls[i].clone());
        }
        assert(all.skip(i as int).drop_first() =~= all.skip(i + 1));
        i += 1;
    }
    None
}

/// `str::split` at a character, the first piece.
pub fn up_to_char(s: &str, c: char) -> (r: String)
    ensures
        r@ == before_char(s@, c),
{
    let v = chars_of(s);
    let at = find_char(&v, c, 0);
    assert(v@.skip(0) =~= v@);
    match at {
        Some(i) => string_of(&v, 0, i),
        None => string_of(&v, 0, v.len()),
    }
}

proof fn lemma_after_last(s: Seq<char>, c: char, i: int)
    requires
        0 <= i < s.len(),
        s[i] == c,
        forall|j: int| i < j < s.len() ==> s[j] != c,
    ensures
        after_last_char(s, c) == s.skip(i + 1),
    decreases s.len(),
{
    if s.last() == c {
        assert(s.skip(i + 1) =~= Seq::<char>::empty());
    } else {
        assert(s.contains(s[i]));
        lemma_after_last(s.drop_last(), c, i);
        assert(s.drop_last().skip(i + 1).push(s.last()) =~= s.skip(i + 1));
    }
}

/// `str::rsplit` at a character, the first piece.
pub fn after_last(s: &str, c: char) -> (r: String)
    ensures
        r@ == after_last_char(s@, c),
{
    let v = chars_of(s);
    let mut n: usize = v.len();
    while n > 0
        invariant
            n <= v@.len(),
            v@ == s@,
            forall|j: int| n <= j < v@.len() ==> v@[j] != c,
        decreases n,
    {
        if v[n - 1] == c {
            proof {
                lemma_after_last(s@, c, n - 1);
            }
            return string_of(&v, n, v.len());
        }
        n -= 1;
    }
    assert(v@.subrange(0, v@.len() as int) =~= v@);
    string_of(&v, 0, v.len())
}

/// The digits that the text begins with.
pub fn take_digits(s: &str) -> (r: String)
    ensures
        r@ == leading_digits(s@),
{
    let v = chars_of(s);
    let mut out = String::new();
    let mut i: usize = 0;
    assert(v@.skip(0) =~= v@);
    assert(out@ + leading_digits(v@) =~= leading_digits(v@));
    while i < v.len() && is_ascii_digit(v[i])
        invariant
            i <= v@.len(),
            out@ + leading_digits(v@.skip(i as int)) == leading_digits(v@),
        decreases v@.len() - i,
    {
        let ghost before = out@;
        let ghost rest = v@.skip(i as int);
        out.push(v[i]);
        assert(rest.drop_first() =~= v@.skip(i + 1));
        assert(before + (seq![rest[0]] + leading_digits(v@.skip(i + 1))) =~= out@ + leading_digits(
            v@.skip(i + 1),
        ));
        i += 1;
    }
    assert(out@ + Seq::<char>::empty() =~= out@);
    out
}

// ---------------------------------------------------------------------------
// Numbers
// ---------------------------------------------------------------------------

pub open spec fn digit(d: nat) -> char {
    (48 + d) as char
}

/// A number in decimal digits.
pub open spec fn decimal(n: nat) -> Seq<char>
    decreases n,
{
    if n < 10 {
        seq![digit(n)]
    } else {
        decimal(n / 10).push(digit(n % 10))
    }
}

/// The value of a row of decimal digits.
pub open spec fn digits_value(s: Seq<char>) -> nat
    decreases s.len(),
{
    if s.len() == 0 {
        0
    } else {
        digits_value(s.drop_last()) * 10 + (s.last() as u32 - 48) as nat
    }
}

pub open spec fn all_digits(s: Seq<char>) -> bool {
    forall|i: int| 0 <= i < s.len() ==> ascii_digit(#[trigger] s[i])
}

/// The text without one plus sign in front.
pub open spec fn unsigned(s: Seq<char>) -> Seq<char> {
    if s.len() > 0 && s[0] == '+' {
        s.drop_first()
    } else {
        s
    }
}

/// What the text reads as: an optional plus sign, then decimal digits only,
/// worth at most 255.
pub open spec fn byte_value(s: Seq<char>) -> Option<u8> {
    let d = unsigned(s);
    if d.len() > 0 && all_digits(d) && digits_value(d) <= 255 {
        Some(digits_value(d) as u8)
    } else {
        None
    }
}

fn digit_char(d: u128) -> (r: char)
    requires
        d < 10,
    ensures
        r == digit(d as nat),
{
    (48u8 + d as u8) as char
}

/// A number in decimal digits.
pub fn to_decimal(n: u128) -> (r: String)
    ensures
        r@ == decimal(n as nat),
    decreases n,
{
    let mut s = if n < 10 {
        String::new()
    } else {
        to_decimal(n / 10)
    };
    s.push(digit_char(n % 10));
    s
}

/// The decimal digits of a number read back as that number.
pub proof fn decimal_reads_back(n: nat)
    ensures
        all_digits(decimal(n)),
        digits_value(decimal(n)) == n,
    decreases n,
{
    let d = decimal(n);
    if n < 10 {
        assert(d.drop_last() =~= Seq::<char>::empty());
        assert(digits_value(d.drop_last()) == 0);
    } else {
        decimal_reads_back(n / 10);
        assert(d.drop_last() =~= decimal(n / 10));
        assert forall|i: int| 0 <= i < d.len() implies ascii_digit(#[trigger] d[i]) by {
            if i < d.len() - 1 {
                assert(d[i] == decimal(n / 10)[i]);
            }
        }
    }
}

proof fn lemma_digits_value_grows(s: Seq<char>, n: int)
    requires
        0 <= n <= s.len(),
        all_digits(s),
    ensures
        digits_value(s.take(n)) <= digits_value(s),
    decreases s.len(),
{
    if n == s.len() {
        assert(s.take(n) =~= s);
    } else {
        assert(s.drop_last().take(n) =~= s.take(n));
        lemma_digits_value_grows(s.drop_last(), n);
    }
}

/// `str::parse::<u8>`, with the error dropped.
pub fn parse_byte(s: &str) -> (r: Option<u8>)
    ensures
        r == byte_value(s@),
{
    let v = chars_of(s);
    let start: usize = if v.len() > 0 && v[0] == '+' {
        1
    } else {
        0
    };
    let ghost d = unsigned(v@);
    assert(d =~= v@.skip(start as int));
    if start == v.len() {
        return None;
    }
    let mut value: u32 = 0;
    let mut i: usize = start;
    while i < v.len()
        invariant
            start <= i <= v@.len(),
            d == v@.skip(start as int),
            d == unsigned(v@),
            v@ == s@,
            all_digits(d.take(i - start)),
            value == digits_value(d.take(i - start)),
            value <= 255,
        decreases v@.len() - i,
    {
        if !is_ascii_digit(v[i]) {
            assert(!ascii_digit(d[i - start]));
            return None;
        }
        let ghost n = i - start;
        assert(d.take(n + 1).drop_last() =~= d.take(n));
        assert(d.take(n + 1).last() == v@[i as int]);
        value = value * 10 + (v[i] as u32 - 48);
        if value > 255 {
            proof {
                if all_digits(d) {
                    lemma_digits_value_grows(d, n + 1);
                }
            }
            return None;
        }
        assert forall|j: int| 0 <= j < n + 1 implies ascii_digit(#[trigger] d.take(n + 1)[j]) by {
            if j < n {
                assert(ascii_digit(d.take(n)[j]));
            }
        }
        i += 1;
    }
    assert(d.take(i - start) =~= d);
    Some(value as u8)
}

/// The text with blanks behind it, up to the width.
pub open spec fn padded(s: Seq<char>, width: nat) -> Seq<char> {
    if s.len() >= width {
        s
    } else {
        s + Seq::new((width - s.len()) as nat, |i: int| ' ')
    }
}

/// The text with blanks behind it, up to the width.
pub fn pad(s: &str, width: usize) -> (r: String)
    ensures
        r@ == padded(s@, width as nat),
{
    let mut out = String::from_str(s);
    let n: usize = s.unicode_len();
    let mut i: usize = n;
    while i < width
        invariant
            n == s@.len(),
            n <= i,
            i <= width || i == n,
            out@ == s@ + Seq::new((i - n) as nat, |j: int| ' '),
        decreases width - i,
    {
        out.push(' ');
        assert(out@ =~= s@ + Seq::new((i + 1 - n) as nat, |j: int| ' '));
        i += 1;
    }
    assert(n >= width ==> out@ =~= s@);
    out
}

} // verus!
