//! Stripping of terminal escape sequences from a stream of text.

use vstd::prelude::*;

use crate::text;
use crate::text::{ascii_alphabetic, control};

verus! {

/// `i` is the first position of an ASCII letter in `s`.
pub open spec fn first_letter_at(s: Seq<char>, i: int) -> bool {
    0 <= i < s.len() && ascii_alphabetic(s[i]) && forall|j: int|
        0 <= j < i ==> !ascii_alphabetic(s[j])
}

/// Where the first ASCII letter of `s` stands: the end of a control sequence.
pub open spec fn letter_position(s: Seq<char>) -> Option<int> {
    if exists|i: int| first_letter_at(s, i) {
        Some(choose|i: int| first_letter_at(s, i))
    } else {
        None
    }
}

/// The text without escape sequences and control characters, and what must
/// wait for the rest of the stream: an escape sequence that the text breaks
/// off in.
pub open spec fn stripped(s: Seq<char>) -> (Seq<char>, Seq<char>)
    decreases s.len(),
{
    if s.len() == 0 {
        (Seq::empty(), Seq::empty())
    } else if s[0] == '\x1b' {
        if s.len() == 1 {
            (Seq::empty(), s)
        } else if s[1] == '[' {
            match letter_position(s.skip(2)) {
                Some(k) => if 0 <= k && k + 3 <= s.len() {
                    stripped(s.skip(k + 3))
                } else {
                    (Seq::empty(), s)
                },
                None => (Seq::empty(), s),
            }
        } else {
            stripped(s.drop_first())
        }
    } else if control(s[0]) {
        stripped(s.drop_first())
    } else {
        let rest = stripped(s.drop_first());
        (seq![s[0]] + rest.0, rest.1)
    }
}

proof fn lemma_letter_position(s: Seq<char>, i: int)
    requires
        first_letter_at(s, i),
    ensures
        letter_position(s) == Some(i),
{
    let k = choose|k: int| first_letter_at(s, k);
    assert(first_letter_at(s, k));
}

/// Stripping a stream piece by piece, each piece put behind what the last one
/// left waiting, gives what stripping the whole gives: a sequence split
/// across two reads is stripped once the rest arrives.
pub proof fn stripping_splits(a: Seq<char>, b: Seq<char>)
    ensures
        stripped(a + b) == (
            stripped(a).0 + stripped(stripped(a).1 + b).0,
            stripped(stripped(a).1 + b).1,
        ),
    decreases a.len(),
{
    let whole = a + b;
    if a.len() == 0 {
        assert(whole =~= b);
        assert(stripped(a).1 + b =~= b);
        assert(Seq::<char>::empty() + stripped(b).0 =~= stripped(b).0);
    } else if a[0] == '\x1b' {
        if a.len() == 1 {
            assert(Seq::<char>::empty() + stripped(whole).0 =~= stripped(whole).0);
        } else if a[1] == '[' {
            match letter_position(a.skip(2)) {
                None => {
                    assert(Seq::<char>::empty() + stripped(whole).0 =~= stripped(whole).0);
                },
                Some(k) => {
                    assert(first_letter_at(a.skip(2), k));
                    assert forall|j: int| 0 <= j < a.skip(2).len() implies #[trigger] whole.skip(
                        2,
                    )[j] == a.skip(2)[j] by {}
                    assert(first_letter_at(whole.skip(2), k));
                    lemma_letter_position(whole.skip(2), k);
                    assert(whole.skip(k + 3) =~= a.skip(k + 3) + b);
                    stripping_splits(a.skip(k + 3), b);
                },
            }
        } else {
            assert(whole.drop_first() =~= a.drop_first() + b);
            stripping_splits(a.drop_first(), b);
        }
    } else {
        assert(whole.drop_first() =~= a.drop_first() + b);
        stripping_splits(a.drop_first(), b);
        if !control(a[0]) {
            let r = stripped(a.drop_first());
            let t = stripped(r.1 + b);
            assert(seq![a[0]] + (r.0 + t.0) =~= (seq![a[0]] + r.0) + t.0);
        }
    }
}

/// No control character stands in `s`.
pub open spec fn printable(s: Seq<char>) -> bool {
    forall|i: int| 0 <= i < s.len() ==> !control(#[trigger] s[i])
}

/// No control character survives stripping.
pub proof fn stripped_text_is_printable(s: Seq<char>)
    ensures
        printable(stripped(s).0),
    decreases s.len(),
{
    if s.len() == 0 {
    } else if s[0] == '\x1b' {
        if s.len() == 1 {
        } else if s[1] == '[' {
            match letter_position(s.skip(2)) {
                Some(k) => {
                    if 0 <= k && k + 3 <= s.len() {
                        stripped_text_is_printable(s.skip(k + 3));
                        assert(stripped(s) == stripped(s.skip(k + 3)));
                    }
                },
                None => {},
            }
        } else {
            stripped_text_is_printable(s.drop_first());
            assert(stripped(s) == stripped(s.drop_first()));
        }
    } else {
        stripped_text_is_printable(s.drop_first());
        if !control(s[0]) {
            let rest = stripped(s.drop_first()).0;
            assert forall|i: int| 0 <= i < stripped(s).0.len() implies !control(
                #[trigger] stripped(s).0[i],
            ) by {
                if i > 0 {
                    assert(stripped(s).0[i] == rest[i - 1]);
                }
            }
        } else {
            assert(stripped(s) == stripped(s.drop_first()));
        }
    }
}

/// Text without escape and control characters passes unchanged.
pub proof fn plain_text_passes(s: Seq<char>)
    requires
        printable(s),
    ensures
        stripped(s) == (s, Seq::<char>::empty()),
    decreases s.len(),
{
    if s.len() > 0 {
        assert(!control(s[0]));
        assert(control('\x1b'));
        assert forall|i: int| 0 <= i < s.drop_first().len() implies !control(
            #[trigger] s.drop_first()[i],
        ) by {
            assert(!control(s[i + 1]));
        }
        plain_text_passes(s.drop_first());
        assert(seq![s[0]] + s.drop_first() =~= s);
    }
}

/// Remove ANSI escape sequences and stray control characters.
pub fn strip_ansi(s: &str) -> (r: String)
    ensures
        r@ == stripped(s@).0,
{
    let mut carry = String::from_str(s);
    strip_ansi_stream(&mut carry)
}

/// Streaming `strip_ansi`: consumes `carry`, returns the cleaned text, and
/// leaves a trailing incomplete escape sequence back in `carry` so a code
/// split across two reads still gets stripped once the rest arrives.
pub fn strip_ansi_stream(carry: &mut String) -> (r: String)
    ensures
        r@ == stripped(old(carry)@).0,
        final(carry)@ == stripped(old(carry)@).1,
{
    let v = text::chars_of(carry.as_str());
    let n: usize = v.len();
    let ghost s = v@;
    let mut out = String::new();
    let mut i: usize = 0;
    assert(s.skip(0) =~= s);
    assert(out@ + stripped(s).0 =~= stripped(s).0);
    while i < n
        invariant
            i <= n,
            n == v@.len(),
            s == v@,
            s == old(carry)@,
            out@ + stripped(s.skip(i as int)).0 == stripped(s).0,
            stripped(s.skip(i as int)).1 == stripped(s).1,
        decreases n - i,
    {
        let ghost rest = s.skip(i as int);
        let c: char = v[i];
        assert(rest[0] == c);
        assert(rest.drop_first() =~= s.skip(i + 1));
        if c == '\x1b' {
            if i + 1 == n {
                assert(out@ + Seq::<char>::empty() =~= out@);
                *carry = text::string_of(&v, i, n);
                return out;
            }
            if v[i + 1] == '[' {
                let ghost tail = rest.skip(2);
                let mut k: usize = i + 2;
                while k < n && !text::is_ascii_alphabetic(v[k])
                    invariant
                        i + 2 <= k <= n,
                        n == v@.len(),
                        s == v@,
                        tail == s.skip(i + 2),
                        forall|j: int| 0 <= j < k - (i + 2) ==> !ascii_alphabetic(tail[j]),
                    decreases n - k,
                {
                    assert(tail[k - (i + 2)] == v@[k as int]);
                    k += 1;
                }
                assert(tail =~= s.skip(i + 2));
                if k == n {
                    assert(letter_position(tail) is None);
                    assert(out@ + Seq::<char>::empty() =~= out@);
                    *carry = text::string_of(&v, i, n);
                    return out;
                }
                proof {
                    assert(first_letter_at(tail, k - (i + 2)));
                    lemma_letter_position(tail, k - (i + 2));
                    assert(rest.skip(k - (i + 2) + 3) =~= s.skip(k + 1));
                }
                i = k + 1;
            } else {
                i += 1;
            }
        } else {
            if !text::is_control(c) {
                let ghost before = out@;
                out.push(c);
                assert(before + (seq![c] + stripped(s.skip(i + 1)).0) =~= out@ + stripped(
                    s.skip(i + 1),
                ).0);
            }
            i += 1;
        }
    }
    assert(s.skip(i as int) =~= Seq::<char>::empty());
    assert(out@ + Seq::<char>::empty() =~= out@);
    carry.clear();
    out
}

/// An escape sequence, from its `ESC [` to its first letter, leaves no trace, and
/// waits as a whole while that letter has not come. An escape character that
/// starts none is dropped alone, and so is a control character; a single one at
/// the end waits for what follows.
pub proof fn escape_sequences_leave_no_trace(params: Seq<char>, letter: char, rest: Seq<char>)
    requires
        forall|i: int| 0 <= i < params.len() ==> !ascii_alphabetic(#[trigger] params[i]),
        'a' <= letter <= 'z' || 'A' <= letter <= 'Z',
    ensures
        stripped(seq!['\x1b', '['] + params.push(letter) + rest) == stripped(rest),
        stripped(seq!['\x1b', '['] + params) == (Seq::<char>::empty(), seq!['\x1b', '['] + params),
        stripped(seq!['\x1b']) == (Seq::<char>::empty(), seq!['\x1b']),
        rest.len() > 0 && rest[0] != '[' ==> stripped(seq!['\x1b'] + rest) == stripped(rest),
        stripped(seq!['\r'] + rest) == stripped(rest),
        stripped(seq![letter] + rest).0 == seq![letter] + stripped(rest).0,
        stripped(seq![letter] + rest).1 == stripped(rest).1,
{
    let whole = seq!['\x1b', '['] + params.push(letter) + rest;
    let k = params.len() as int;
    assert(whole.skip(2) =~= params.push(letter) + rest);
    assert forall|j: int| 0 <= j < k implies !ascii_alphabetic(whole.skip(2)[j]) by {
        assert(whole.skip(2)[j] == params[j]);
    }
    assert(ascii_alphabetic(letter));
    assert(first_letter_at(whole.skip(2), k));
    lemma_letter_position(whole.skip(2), k);
    assert(whole.skip(k + 3) =~= rest);
    let begun = seq!['\x1b', '['] + params;
    assert(begun.skip(2) =~= params);
    assert forall|i: int| !first_letter_at(begun.skip(2), i) by {
        if 0 <= i < params.len() {
            assert(!ascii_alphabetic(params[i]));
        }
    }
    assert((seq!['\x1b'] + rest).drop_first() =~= rest);
    assert((seq!['\r'] + rest).drop_first() =~= rest);
    assert((seq![letter] + rest).drop_first() =~= rest);
    assert(!control(letter) && control('\r'));
}

} // verus!
