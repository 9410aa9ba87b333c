//! An interactive pairing session: what its output means, and what to answer.

use vstd::prelude::*;

use crate::ansi::{printable, strip_ansi_stream, stripped, stripped_text_is_printable};
use crate::shell::{decode_lossy, utf8_lossy};
use crate::text;
use crate::text::{after_last_char, occurs};

use super::reading::passkeys_are_printed_digits;
use super::{extract_passkey, passkey_in, PairEvent, PairEventModel};

verus! {

/// A session's unread output may grow to this many bytes ...
pub const BACKLOG_MAX: u128 = 16384;

/// ... and is then cut back to about this many; what a session is watched for
/// always sits in the recent tail.
pub const BACKLOG_KEEP: u128 = 4096;

/// The state of a session: what it printed since the last answered prompt,
/// cleaned of escape sequences; an escape sequence still incomplete; and whether
/// a PIN prompt was left unanswered.
pub struct PairSession {
    pub clean: String,
    pub carry: String,
    pub cancelled: bool,
}

pub ghost struct PairSessionModel {
    pub clean: Seq<char>,
    pub carry: Seq<char>,
    pub cancelled: bool,
}

impl View for PairSession {
    type V = PairSessionModel;

    open spec fn view(&self) -> PairSessionModel {
        PairSessionModel { clean: self.clean@, carry: self.carry@, cancelled: self.cancelled }
    }
}

/// What a session needs next.
pub enum PairStep {
    /// More of its output.
    Read,
    /// An answer to a prompt.
    Ask(PairEvent),
    /// Nothing: it has succeeded (true) or failed.
    End(bool),
}

pub ghost enum PairStepModel {
    Read,
    Ask(PairEventModel),
    End(bool),
}

impl View for PairStep {
    type V = PairStepModel;

    open spec fn view(&self) -> PairStepModel {
        match self {
            PairStep::Read => PairStepModel::Read,
            PairStep::Ask(ev) => PairStepModel::Ask(ev@),
            PairStep::End(ok) => PairStepModel::End(*ok),
        }
    }
}

/// What the output since the last answered prompt calls for.
pub open spec fn verdict(clean: Seq<char>) -> PairStepModel {
    if occurs(clean, "Pairing successful"@) || occurs(clean, "AlreadyExists"@) {
        PairStepModel::End(true)
    } else if occurs(clean, "Failed to pair"@) || occurs(clean, "Authentication"@) || occurs(
        clean,
        "not available"@,
    ) {
        PairStepModel::End(false)
    } else if occurs(clean, "Confirm passkey"@) && occurs(clean, "(yes/no)"@) {
        PairStepModel::Ask(
            PairEventModel::ConfirmPasskey(
                match passkey_in(clean) {
                    Some(passkey) => passkey,
                    None => Seq::empty(),
                },
            ),
        )
    } else if occurs(clean, "(yes/no)"@) {
        PairStepModel::Ask(PairEventModel::ConfirmPasskey(Seq::empty()))
    } else if occurs(clean, "Enter PIN code"@) || occurs(clean, "Enter passkey"@) {
        PairStepModel::Ask(PairEventModel::RequestPin)
    } else {
        PairStepModel::Read
    }
}

/// The bytes that a character takes in UTF-8.
pub open spec fn utf8_width(c: char) -> nat {
    if (c as u32) < 0x80 {
        1
    } else if (c as u32) < 0x800 {
        2
    } else if (c as u32) < 0x10000 {
        3
    } else {
        4
    }
}

/// The bytes that a text takes in UTF-8.
pub open spec fn byte_len(s: Seq<char>) -> nat
    decreases s.len(),
{
    if s.len() == 0 {
        0
    } else {
        byte_len(s.drop_last()) + utf8_width(s.last())
    }
}

/// How many characters at the beginning of a text fit into `budget` bytes.
pub open spec fn chars_within(s: Seq<char>, budget: int) -> int
    decreases s.len(),
{
    if s.len() == 0 || utf8_width(s[0]) > budget {
        0
    } else {
        1 + chars_within(s.drop_first(), budget - utf8_width(s[0]))
    }
}

/// What is kept of a backlog: all of it while it is short; else about the last
/// `BACKLOG_KEEP` bytes, from the last line break before them where there is
/// one.
pub open spec fn backlog_kept(s: Seq<char>) -> Seq<char> {
    if byte_len(s) <= BACKLOG_MAX {
        s
    } else {
        let k = chars_within(s, byte_len(s) - BACKLOG_KEEP);
        if s.take(k).contains('\n') {
            after_last_char(s.take(k), '\n') + s.skip(k)
        } else {
            s.skip(k)
        }
    }
}

/// The session once it has printed `chunk`, and what it then needs.
pub open spec fn fed(s: PairSessionModel, chunk: Seq<char>) -> (PairSessionModel, PairStepModel) {
    let (out, carry) = stripped(s.carry + chunk);
    let clean = s.clean + out;
    let step = verdict(clean);
    let kept = if step is Read {
        backlog_kept(clean)
    } else {
        clean
    };
    (PairSessionModel { clean: kept, carry, ..s }, step)
}

/// The line to write for an answer: none means to end the session by force.
/// "no" declines a confirmation, but a PIN prompt would take it, or any word,
/// for the PIN.
pub open spec fn reply_line(ev: PairEventModel, answer: Option<Seq<char>>) -> Option<Seq<char>> {
    match ev {
        PairEventModel::ConfirmPasskey(_) => match answer {
            Some(a) => Some(a),
            None => Some("no"@),
        },
        PairEventModel::RequestPin => match answer {
            Some(a) => if a.len() > 0 {
                Some(a)
            } else {
                None
            },
            None => None,
        },
    }
}

/// The session once a prompt is answered, and the line to write. An answered
/// prompt is forgotten; one left unanswered cancels the session.
pub open spec fn answered(
    s: PairSessionModel,
    ev: PairEventModel,
    answer: Option<Seq<char>>,
) -> (PairSessionModel, Option<Seq<char>>) {
    let line = reply_line(ev, answer);
    if line is Some {
        (PairSessionModel { clean: Seq::empty(), ..s }, line)
    } else {
        (PairSessionModel { cancelled: true, ..s }, line)
    }
}

/// The line that closes a session. None closes a cancelled one, which must be
/// ended by force: it sits at a prompt that would swallow the line as the PIN.
pub open spec fn last_line(s: PairSessionModel) -> Option<Seq<char>> {
    if s.cancelled {
        None
    } else {
        Some("quit"@)
    }
}

fn width_of(c: char) -> (r: u128)
    ensures
        r == utf8_width(c),
{
    let u: u32 = c as u32;
    if u < 0x80 {
        1
    } else if u < 0x800 {
        2
    } else if u < 0x10000 {
        3
    } else {
        4
    }
}

proof fn lemma_byte_len_bound(s: Seq<char>)
    ensures
        byte_len(s) <= 4 * s.len(),
    decreases s.len(),
{
    if s.len() > 0 {
        lemma_byte_len_bound(s.drop_last());
    }
}

proof fn lemma_byte_len_add(a: Seq<char>, b: Seq<char>)
    ensures
        byte_len(a + b) == byte_len(a) + byte_len(b),
    decreases b.len(),
{
    if b.len() == 0 {
        assert(a + b =~= a);
    } else {
        assert((a + b).drop_last() =~= a + b.drop_last());
        lemma_byte_len_add(a, b.drop_last());
    }
}

proof fn lemma_chars_within(s: Seq<char>, budget: int)
    requires
        budget >= 0,
    ensures
        0 <= chars_within(s, budget) <= s.len(),
        byte_len(s.take(chars_within(s, budget))) <= budget,
        chars_within(s, budget) < s.len() ==> byte_len(s.take(chars_within(s, budget)))
            + utf8_width(s[chars_within(s, budget)]) > budget,
    decreases s.len(),
{
    let k = chars_within(s, budget);
    if s.len() == 0 || utf8_width(s[0]) > budget {
        assert(s.take(0) =~= Seq::<char>::empty());
    } else {
        let rest = s.drop_first();
        lemma_chars_within(rest, budget - utf8_width(s[0]));
        assert(s.take(k) =~= seq![s[0]] + rest.take(k - 1));
        assert(seq![s[0]].drop_last() =~= Seq::<char>::empty());
        assert(byte_len(seq![s[0]]) == utf8_width(s[0])) by {
            reveal_with_fuel(byte_len, 2);
        }
        lemma_byte_len_add(seq![s[0]], rest.take(k - 1));
    }
}

/// Cut a backlog back to its recent tail.
pub fn trim_backlog(clean: &str) -> (r: String)
    ensures
        r@ == backlog_kept(clean@),
{
    let v = text::chars_of(clean);
    let n: usize = v.len();
    let mut total: u128 = 0;
    let mut i: usize = 0;
    while i < n
        invariant
            i <= n,
            n == v@.len(),
            total == byte_len(v@.take(i as int)),
            total <= 4 * i,
        decreases n - i,
    {
        assert(v@.take(i + 1).drop_last() =~= v@.take(i as int));
        total = total + width_of(v[i]);
        i += 1;
    }
    assert(v@.take(i as int) =~= v@);
    if total <= BACKLOG_MAX {
        return String::from_str(clean);
    }
    let mut left: u128 = total - BACKLOG_KEEP;
    let ghost budget = total - BACKLOG_KEEP;
    let mut k: usize = 0;
    assert(v@.skip(0) =~= v@);
    while k < n && width_of(v[k]) <= left
        invariant
            k <= n,
            n == v@.len(),
            k + chars_within(v@.skip(k as int), left as int) == chars_within(v@, budget),
        decreases n - k,
    {
        assert(v@.skip(k as int).drop_first() =~= v@.skip(k + 1));
        left = left - width_of(v[k]);
        k += 1;
    }
    let head = text::string_of(&v, 0, k);
    let tail = text::string_of(&v, k, n);
    assert(head@ =~= v@.take(k as int));
    assert(tail@ =~= v@.skip(k as int));
    if text::contains_char(head.as_str(), '\n') {
        let mut kept = text::after_last(head.as_str(), '\n');
        kept.append(tail.as_str());
        return kept;
    }
    tail
}

impl PairSession {
    pub fn new() -> (r: Self)
        ensures
            r@ == (PairSessionModel {
                clean: Seq::empty(),
                carry: Seq::empty(),
                cancelled: false,
            }),
    {
        PairSession { clean: String::new(), carry: String::new(), cancelled: false }
    }

    /// Take in what the session printed.
    pub fn feed(&mut self, chunk: &[u8]) -> (r: PairStep)
        ensures
            (final(self)@, r@) == fed(old(self)@, utf8_lossy(chunk@)),
    {
        let printed = decode_lossy(chunk);
        self.feed_text(printed.as_str())
    }

    /// Take in what the session printed, as text.
    pub fn feed_text(&mut self, chunk: &str) -> (r: PairStep)
        ensures
            (final(self)@, r@) == fed(old(self)@, chunk@),
    {
        self.carry.append(chunk);
        let out = strip_ansi_stream(&mut self.carry);
        self.clean.append(out.as_str());
        let clean = self.clean.as_str();
        if text::contains(clean, "Pairing successful") || text::contains(clean, "AlreadyExists") {
            return PairStep::End(true);
        }
        if text::contains(clean, "Failed to pair") || text::contains(clean, "Authentication")
            || text::contains(clean, "not available") {
            return PairStep::End(false);
        }
        if text::contains(clean, "Confirm passkey") && text::contains(clean, "(yes/no)") {
            let passkey = match extract_passkey(clean) {
                Some(passkey) => passkey,
                None => String::new(),
            };
            return PairStep::Ask(PairEvent::ConfirmPasskey(passkey));
        }
        if text::contains(clean, "(yes/no)") {
            return PairStep::Ask(PairEvent::ConfirmPasskey(String::new()));
        }
        if text::contains(clean, "Enter PIN code") || text::contains(clean, "Enter passkey") {
            return PairStep::Ask(PairEvent::RequestPin);
        }
        let kept = trim_backlog(clean);
        self.clean = kept;
        PairStep::Read
    }

    /// Answer a prompt. Returns the line to write; `None` is a cancelled PIN
    /// entry: the session sits at a prompt that would swallow any word as the
    /// PIN, so it must be ended by force. An answered prompt is forgotten, so
    /// that it cannot match twice.
    pub fn answer(&mut self, ev: &PairEvent, answer: Option<String>) -> (r: Option<String>)
        ensures
            (final(self)@, r.deep_view()) == answered(old(self)@, ev@, answer.deep_view()),
    {
        let line = match ev {
            PairEvent::ConfirmPasskey(_) => match answer {
                Some(a) => a,
                None => String::from_str("no"),
            },
            PairEvent::RequestPin => match answer {
                Some(a) => {
                    if a.as_str().is_empty() {
                        self.cancelled = true;
                        return None;
                    }
                    a
                },
                None => {
                    self.cancelled = true;
                    return None;
                },
            },
        };
        self.clean.clear();
        Some(line)
    }

    /// Close the session. Returns the last line to write; `None` where a PIN
    /// prompt was left unanswered, and the session must be ended by force.
    pub fn closing_line(&self) -> (r: Option<String>)
        ensures
            r.deep_view() == last_line(self@),
    {
        if self.cancelled {
            None
        } else {
            Some(String::from_str("quit"))
        }
    }
}

/// Open a session on an address: its empty state, and the first line to write.
pub fn pair_interactive(mac: &str) -> (r: (PairSession, String))
    ensures
        r.0@ == (PairSessionModel {
            clean: Seq::empty(),
            carry: Seq::empty(),
            cancelled: false,
        }),
        r.1@ == "pair "@ + mac@,
{
    let mut line = String::from_str("pair ");
    line.append(mac);
    (PairSession::new(), line)
}

// ---------------------------------------------------------------------------
// Laws
// ---------------------------------------------------------------------------

/// A pathological session cannot grow its backlog forever: what is kept of
/// printable text is at most `BACKLOG_MAX` bytes, the end of that text, and,
/// where anything was cut off, at least the last `BACKLOG_KEEP` bytes of it.
pub proof fn backlog_is_bounded(s: Seq<char>)
    requires
        printable(s),
    ensures
        byte_len(backlog_kept(s)) <= BACKLOG_MAX,
        exists|k: int| 0 <= k <= s.len() && backlog_kept(s) == #[trigger] s.skip(k),
        backlog_kept(s) != s ==> byte_len(backlog_kept(s)) >= BACKLOG_KEEP,
        printable(backlog_kept(s)),
{
    assert(s.skip(0) =~= s);
    if byte_len(s) > BACKLOG_MAX {
        let budget = byte_len(s) - BACKLOG_KEEP;
        let k = chars_within(s, budget);
        lemma_chars_within(s, budget);
        assert(s =~= s.take(k) + s.skip(k));
        lemma_byte_len_add(s.take(k), s.skip(k));
        if s.take(k).contains('\n') {
            let j = choose|j: int| 0 <= j < s.take(k).len() && s.take(k)[j] == '\n';
            assert(s[j] == '\n');
            assert(text::control('\n'));
        }
        assert(backlog_kept(s) == s.skip(k));
        assert forall|i: int| 0 <= i < s.skip(k).len() implies !text::control(
            #[trigger] s.skip(k)[i],
        ) by {
            assert(!text::control(s[i + k]));
        }
    }
}

/// A session that starts with printable output keeps it printable, and while
/// it is only read from, within bounds.
pub proof fn session_stays_bounded(s: PairSessionModel, chunk: Seq<char>)
    requires
        printable(s.clean),
    ensures
        printable(fed(s, chunk).0.clean),
        fed(s, chunk).1 is Read ==> byte_len(fed(s, chunk).0.clean) <= BACKLOG_MAX,
{
    let out = stripped(s.carry + chunk).0;
    stripped_text_is_printable(s.carry + chunk);
    let clean = s.clean + out;
    assert forall|i: int| 0 <= i < clean.len() implies !text::control(#[trigger] clean[i]) by {
        if i < s.clean.len() {
            assert(!text::control(s.clean[i]));
        } else {
            assert(!text::control(out[i - s.clean.len()]));
        }
    }
    backlog_is_bounded(clean);
}

/// An answered prompt does not match again: with nothing further printed, the
/// session only waits for more output.
pub proof fn answered_prompt_is_forgotten(
    s: PairSessionModel,
    ev: PairEventModel,
    answer: Option<Seq<char>>,
)
    requires
        stripped(s.carry).0.len() == 0,
        reply_line(ev, answer) is Some,
    ensures
        fed(answered(s, ev, answer).0, Seq::empty()).1 is Read,
{
    let carry = s.carry;
    let clean = Seq::<char>::empty() + stripped(carry + Seq::<char>::empty()).0;
    assert(carry + Seq::<char>::empty() =~= carry);
    assert(clean =~= Seq::<char>::empty());
    reveal_strlit("Pairing successful");
    reveal_strlit("AlreadyExists");
    reveal_strlit("Failed to pair");
    reveal_strlit("Authentication");
    reveal_strlit("not available");
    reveal_strlit("Confirm passkey");
    reveal_strlit("(yes/no)");
    reveal_strlit("Enter PIN code");
    reveal_strlit("Enter passkey");
}

/// Cancelling a PIN prompt writes nothing: no word of ours can be taken for
/// the PIN. Declining a confirmation always writes something.
pub proof fn cancelling_never_sends_a_pin(answer: Option<Seq<char>>, passkey: Seq<char>)
    requires
        answer == Some(Seq::<char>::empty()) || answer is None,
    ensures
        reply_line(PairEventModel::RequestPin, answer) is None,
        reply_line(PairEventModel::ConfirmPasskey(passkey), answer) is Some,
{
}

/// A session that ran its course is told to quit, whatever it printed and
/// whatever it was answered; one whose PIN prompt was left unanswered is told
/// nothing more.
pub proof fn sessions_are_told_to_quit(
    s: PairSessionModel,
    chunk: Seq<char>,
    ev: PairEventModel,
    answer: Option<Seq<char>>,
)
    requires
        last_line(s) == Some("quit"@),
    ensures
        last_line(fed(s, chunk).0) == Some("quit"@),
        reply_line(ev, answer) is Some ==> last_line(answered(s, ev, answer).0) == Some("quit"@),
        reply_line(ev, answer) is None ==> last_line(answered(s, ev, answer).0) is None,
{
}

/// The user's answer reaches the session as it is: whatever was answered to a
/// confirmation is the line written, and so is a PIN. Where no answer comes, a
/// confirmation is declined. So a session is told "yes" only by a user who said
/// so.
pub proof fn answers_are_written_as_given(
    s: PairSessionModel,
    passkey: Seq<char>,
    answer: Seq<char>,
)
    ensures
        answered(s, PairEventModel::ConfirmPasskey(passkey), Some(answer)).1 == Some(answer),
        answered(s, PairEventModel::ConfirmPasskey(passkey), None).1 == Some("no"@),
        answer.len() > 0 ==> answered(s, PairEventModel::RequestPin, Some(answer)).1 == Some(
            answer,
        ),
        answered(s, PairEventModel::ConfirmPasskey(passkey), Some(answer)).1 == Some("yes"@)
            ==> answer == "yes"@,
        answered(s, PairEventModel::ConfirmPasskey(passkey), None).1 != Some("yes"@),
{
    reveal_strlit("yes");
    reveal_strlit("no");
    assert("yes"@.len() == 3);
    assert("no"@.len() == 2);
}

/// The text holds a word of success.
pub open spec fn tells_success(clean: Seq<char>) -> bool {
    occurs(clean, "Pairing successful"@) || occurs(clean, "AlreadyExists"@)
}

/// The text holds a word of failure.
pub open spec fn tells_failure(clean: Seq<char>) -> bool {
    occurs(clean, "Failed to pair"@) || occurs(clean, "Authentication"@) || occurs(
        clean,
        "not available"@,
    )
}

/// A session succeeds exactly where it says so, or that the device was paired
/// already; it fails exactly where it says so and has not succeeded. Until then
/// it asks to confirm where it prints "(yes/no)", and for a PIN where it prints
/// words that ask for one; else it is only listened to.
pub proof fn sessions_end_by_their_own_words(s: PairSessionModel, chunk: Seq<char>)
    ensures
        ({
            let clean = s.clean + stripped(s.carry + chunk).0;
            let step = fed(s, chunk).1;
            let over = tells_success(clean) || tells_failure(clean);
            &&& step == PairStepModel::End(true) <==> tells_success(clean)
            &&& step == PairStepModel::End(false) <==> tells_failure(clean) && !tells_success(clean)
            &&& (step matches PairStepModel::Ask(PairEventModel::ConfirmPasskey(_))) <==> !over
                && occurs(clean, "(yes/no)"@)
            &&& step == PairStepModel::Ask(PairEventModel::RequestPin) <==> !over && !occurs(
                clean,
                "(yes/no)"@,
            ) && (occurs(clean, "Enter PIN code"@) || occurs(clean, "Enter passkey"@))
        }),
{
}

/// A passkey is shown to the user as it was printed; a request without one shows
/// none.
pub proof fn passkeys_are_shown_as_printed(s: PairSessionModel, chunk: Seq<char>, shown: Seq<char>)
    requires
        fed(s, chunk).1 == PairStepModel::Ask(PairEventModel::ConfirmPasskey(shown)),
    ensures
        ({
            let clean = s.clean + stripped(s.carry + chunk).0;
            &&& passkey_in(clean) matches Some(digits) ==> shown == digits
            &&& passkey_in(clean) is None ==> shown.len() == 0
        }),
{
    let clean = s.clean + stripped(s.carry + chunk).0;
    passkeys_are_printed_digits(clean);
}

/// What a session printed since the last answer adds up, however it was cut into
/// reads: nothing is lost while it stays within bounds.
pub proof fn output_adds_up(s: PairSessionModel, chunk: Seq<char>)
    ensures
        fed(s, chunk).0.carry == stripped(s.carry + chunk).1,
        !(fed(s, chunk).1 is Read) ==> fed(s, chunk).0.clean == s.clean + stripped(
            s.carry + chunk,
        ).0,
        byte_len(s.clean + stripped(s.carry + chunk).0) <= 16384 ==> fed(s, chunk).0.clean
            == s.clean + stripped(s.carry + chunk).0,
        fed(s, chunk).0.cancelled == s.cancelled,
{
}

/// An answer that was written makes the session forget what was printed before
/// it; one that was not calls the session off. What is left of an unfinished
/// sequence stays either way. A session that was not called off is told to quit
/// in the end, and one that was is told nothing more.
pub proof fn answers_settle_the_prompt(
    s: PairSessionModel,
    ev: PairEventModel,
    answer: Option<Seq<char>>,
)
    ensures
        ({
            let (after, line) = answered(s, ev, answer);
            &&& after.carry == s.carry
            &&& line is Some ==> after.clean.len() == 0 && after.cancelled == s.cancelled
            &&& line is None ==> after.clean == s.clean && after.cancelled
            &&& line is None <==> ev is RequestPin && (answer is None || answer->0.len() == 0)
            &&& last_line(after) == (if line is Some && !s.cancelled {
                Some("quit"@)
            } else {
                None
            })
        }),
{
}

/// Of printable output beyond 16384 bytes the last 4096 are kept, up to a
/// character that begins before them; text counts by the bytes of its characters.
pub proof fn backlogs_keep_the_last_bytes(s: Seq<char>, c: char)
    requires
        printable(s),
    ensures
        byte_len(s) <= 16384 ==> backlog_kept(s) == s,
        byte_len(s) > 16384 ==> 4096 <= byte_len(backlog_kept(s)) < 4100,
        byte_len(s.push(c)) == byte_len(s) + (if c as int <= 0x7f {
            1int
        } else if c as int <= 0x7ff {
            2
        } else if c as int <= 0xffff {
            3
        } else {
            4
        }),
{
    assert(s.push(c).drop_last() =~= s);
    if byte_len(s) > BACKLOG_MAX {
        let budget = byte_len(s) - BACKLOG_KEEP;
        let k = chars_within(s, budget);
        lemma_chars_within(s, budget);
        lemma_chars_fill(s, budget);
        assert(s =~= s.take(k) + s.skip(k));
        lemma_byte_len_add(s.take(k), s.skip(k));
        if s.take(k).contains('\n') {
            let j = choose|j: int| 0 <= j < s.take(k).len() && s.take(k)[j] == '\n';
            assert(s[j] == '\n');
            assert(text::control('\n'));
        }
    }
}

proof fn lemma_chars_fill(s: Seq<char>, budget: int)
    requires
        0 <= budget < byte_len(s),
    ensures
        ({
            let k = chars_within(s, budget);
            0 <= k <= s.len() && byte_len(s.take(k)) > budget - 4
        }),
    decreases s.len(),
{
    let k = chars_within(s, budget);
    if s.len() == 0 || utf8_width(s[0]) > budget {
        assert(s.take(0) =~= Seq::<char>::empty());
    } else {
        let rest = s.drop_first();
        let head = s.take(1);
        assert(head.drop_last() =~= Seq::<char>::empty());
        assert(byte_len(head) == utf8_width(s[0])) by {
            assert(byte_len(head.drop_last()) == 0);
        }
        assert(s =~= head + rest);
        lemma_byte_len_add(head, rest);
        lemma_chars_fill(rest, budget - utf8_width(s[0]));
        let j = chars_within(rest, budget - utf8_width(s[0]));
        assert(s.take(k) =~= head + rest.take(j));
        lemma_byte_len_add(head, rest.take(j));
    }
}

} // verus!
