//! Calls of command-line tools, as plain values.
//!
//! An operation that needs several tool calls is a function of the replies it
//! has had so far: it either names the next call, or is done.

use vstd::prelude::*;
use vstd::utf8::{decode_utf8, valid_utf8};

verus! {

/// What one tool call came back with.
pub struct Reply {
    pub ok: bool,
    pub out: String,
    pub err: String,
}

pub ghost struct ReplyModel {
    pub ok: bool,
    pub out: Seq<char>,
    pub err: Seq<char>,
}

impl View for Reply {
    type V = ReplyModel;

    open spec fn view(&self) -> ReplyModel {
        ReplyModel { ok: self.ok, out: self.out@, err: self.err@ }
    }
}

impl DeepView for Reply {
    type V = ReplyModel;

    open spec fn deep_view(&self) -> ReplyModel {
        self@
    }
}

/// The next move of an operation.
pub enum Step<T> {
    /// Call the tool with these arguments, and come back with its reply added.
    Run(Vec<String>),
    Done(T),
}

pub ghost enum StepModel<T> {
    Run(Seq<Seq<char>>),
    Done(T),
}

impl<T: DeepView> View for Step<T> {
    type V = StepModel<T::V>;

    open spec fn view(&self) -> StepModel<T::V> {
        match self {
            Step::Run(args) => StepModel::Run(args.deep_view()),
            Step::Done(t) => StepModel::Done(t.deep_view()),
        }
    }
}

pub open spec fn result_model<T: DeepView, E: DeepView>(r: Result<T, E>) -> Result<T::V, E::V> {
    match r {
        Ok(t) => Ok(t.deep_view()),
        Err(e) => Err(e.deep_view()),
    }
}

pub open spec fn step_model<T: DeepView, E: DeepView>(s: Step<Result<T, E>>) -> StepModel<
    Result<T::V, E::V>,
> {
    match s {
        Step::Run(args) => StepModel::Run(args.deep_view()),
        Step::Done(r) => StepModel::Done(result_model(r)),
    }
}

/// What `String::from_utf8_lossy` reads out of bytes.
pub uninterp spec fn utf8_lossy(bytes: Seq<u8>) -> Seq<char>;

/// `String::from_utf8_lossy` decodes UTF-8 as it stands; where the bytes are
/// not UTF-8 it puts replacement characters, and the name stands for the text
/// that comes of it.
#[verifier::external_body]
pub(crate) fn decode_lossy(bytes: &[u8]) -> (r: String)
    ensures
        r@ == utf8_lossy(bytes@),
        valid_utf8(bytes@) ==> r@ == decode_utf8(bytes@),
{
    String::from_utf8_lossy(bytes).into_owned()
}

impl Reply {
    /// A reply from a tool's exit status and the bytes that it printed.
    pub fn of_output(ok: bool, stdout: &[u8], stderr: &[u8]) -> (r: Reply)
        ensures
            r.ok == ok,
            r.out@ == utf8_lossy(stdout@),
            r.err@ == utf8_lossy(stderr@),
    {
        Reply { ok, out: decode_lossy(stdout), err: decode_lossy(stderr) }
    }

    /// The reply of a tool that could not be run at all.
    pub fn of_failure(reason: String) -> (r: Reply)
        ensures
            !r.ok,
            r.out@ == Seq::<char>::empty(),
            r.err@ == reason@,
    {
        Reply { ok: false, out: String::new(), err: reason }
    }
}

/// Add a copy of a text to a list.
pub fn push_text(v: &mut Vec<String>, s: &str)
    ensures
        final(v).deep_view() == old(v).deep_view().push(s@),
{
    let ghost before = v.deep_view();
    v.push(String::from_str(s));
    assert(v.deep_view() =~= before.push(s@));
}

pub fn args1(a: &str) -> (r: Vec<String>)
    ensures
        r.deep_view() == seq![a@],
{
    let mut v: Vec<String> = Vec::new();
    push_text(&mut v, a);
    assert(v.deep_view() =~= seq![a@]);
    v
}

pub fn args2(a: &str, b: &str) -> (r: Vec<String>)
    ensures
        r.deep_view() == seq![a@, b@],
{
    let mut v = args1(a);
    push_text(&mut v, b);
    assert(v.deep_view() =~= seq![a@, b@]);
    v
}

pub fn args3(a: &str, b: &str, c: &str) -> (r: Vec<String>)
    ensures
        r.deep_view() == seq![a@, b@, c@],
{
    let mut v = args2(a, b);
    push_text(&mut v, c);
    assert(v.deep_view() =~= seq![a@, b@, c@]);
    v
}

} // verus!
