//! Failures, as they are reported to people.

use vstd::prelude::*;
use vstd::string::*;
use crate::text;

verus! {

/// A failure: what went wrong, and what lies behind it, nearest cause first.
#[derive(Debug)]
pub struct Failure {
    pub message: String,
    pub causes: Vec<String>,
}

/// What a failure says.
pub struct FailureView {
    pub message: Seq<char>,
    pub causes: Seq<Seq<char>>,
}

impl View for Failure {
    type V = FailureView;

    open spec fn view(&self) -> FailureView {
        FailureView { message: self.message@, causes: text::texts(self.causes@) }
    }
}

/// A failure without further cause.
pub open spec fn plain_failure(message: Seq<char>) -> FailureView {
    FailureView { message, causes: Seq::empty() }
}

/// A failure with one cause.
pub open spec fn caused_failure(message: Seq<char>, cause: Seq<char>) -> FailureView {
    FailureView { message, causes: seq![cause] }
}

/// The failure `f` seen from a wider task that it brought down.
pub open spec fn failure_under(f: FailureView, task: Seq<char>) -> FailureView {
    FailureView { message: task, causes: seq![f.message] + f.causes }
}

/// The texts, each after a colon.
pub open spec fn after_colons(causes: Seq<Seq<char>>) -> Seq<char>
    decreases causes.len(),
{
    if causes.len() == 0 {
        Seq::empty()
    } else {
        after_colons(causes.drop_last()) + ": "@ + causes.last()
    }
}

impl Failure {
    /// A failure without further cause.
    pub fn new(message: String) -> (r: Failure)
        ensures
            r@ == plain_failure(message@),
    {
        let r = Failure { message, causes: Vec::new() };
        assert(r@.causes =~= Seq::<Seq<char>>::empty());
        r
    }

    /// A failure with one cause.
    pub fn caused(message: &str, cause: String) -> (r: Failure)
        ensures
            r@ == caused_failure(message@, cause@),
    {
        let mut causes: Vec<String> = Vec::new();
        causes.push(cause);
        let r = Failure { message: message.to_owned(), causes };
        assert(r@.causes =~= seq![cause@]);
        r
    }

    /// The failure seen from a wider task that it brought down.
    pub fn under(self, task: String) -> (r: Failure)
        ensures
            r@ == failure_under(self@, task@),
    {
        let ghost was = self@;
        let Failure { message, causes } = self;
        let mut all = causes;
        all.insert(0, message);
        let r = Failure { message: task, causes: all };
        assert(r@.causes =~= seq![was.message] + was.causes);
        r
    }

    /// The failure and its causes in one line.
    pub fn detail(&self) -> (r: String)
        ensures
            r@ == self@.message + after_colons(self@.causes),
    {
        let mut out = self.message.clone();
        let mut i: usize = 0;
        assert(text::texts(self.causes@).take(0) =~= Seq::<Seq<char>>::empty());
        while i < self.causes.len()
            invariant
                i <= self.causes.len(),
                out@ == self@.message + after_colons(self@.causes.take(i as int)),
            decreases self.causes.len() - i,
        {
            assert(self@.causes.take(i + 1).drop_last() =~= self@.causes.take(i as int));
            let ghost was = out@;
            out.append(": ");
            out.append(self.causes[i].as_str());
            assert(out@ =~= self@.message + after_colons(self@.causes.take(i + 1)));
            i = i + 1;
        }
        assert(self@.causes.take(self@.causes.len() as int) =~= self@.causes);
        out
    }
}

// ---- what holds of failures -------------------------------------------

/// A failure seen from a wider task tells the task first, then what the failure
/// itself told, word for word.
pub proof fn law_wider_task_is_told_first(
    f: Failure,
    task: String,
    under: Failure,
    before: String,
    after: String,
)
    requires
        call_ensures(Failure::under, (f, task), under),
        call_ensures(Failure::detail, (&f,), before),
        call_ensures(Failure::detail, (&under,), after),
    ensures
        after@ == task@ + ": "@ + before@,
        under@.message == task@,
        under@.causes.len() == f@.causes.len() + 1,
{
    lemma_first_cause(f@.message, f@.causes);
    assert(after@ =~= task@ + ": "@ + before@);
}

proof fn lemma_first_cause(first: Seq<char>, rest: Seq<Seq<char>>)
    ensures
        after_colons(seq![first] + rest) == ": "@ + first + after_colons(rest),
    decreases rest.len(),
{
    let all = seq![first] + rest;
    if rest.len() == 0 {
        assert(all.drop_last() =~= Seq::<Seq<char>>::empty());
        reveal_with_fuel(after_colons, 2);
        assert(after_colons(all) =~= ": "@ + first + after_colons(rest));
    } else {
        lemma_first_cause(first, rest.drop_last());
        assert(all.drop_last() =~= seq![first] + rest.drop_last());
        assert(all.last() == rest.last());
        assert(after_colons(all) =~= ": "@ + first + after_colons(rest));
    }
}

/// A plain failure tells its message and nothing else; a caused one tells the cause
/// after a colon.
pub proof fn law_failure_tells_its_cause(
    message: String,
    task: &str,
    cause: String,
    plain: Failure,
    caused: Failure,
    told: String,
    both: String,
)
    requires
        call_ensures(Failure::new, (message,), plain),
        call_ensures(Failure::caused, (task, cause), caused),
        call_ensures(Failure::detail, (&plain,), told),
        call_ensures(Failure::detail, (&caused,), both),
    ensures
        told@ == message@,
        both@ == task@ + ": "@ + cause@,
        plain@.message == message@ && plain@.causes.len() == 0,
        caused@.message == task@ && caused@.causes == seq![cause@],
{
    assert(told@ =~= message@);
    lemma_first_cause(cause@, Seq::empty());
    assert(seq![cause@] + Seq::<Seq<char>>::empty() =~= seq![cause@]);
    assert(both@ =~= task@ + ": "@ + cause@);
}

/// What is said of a failure is its message and its causes, in order.
pub proof fn law_failure_view_shows_the_fields(f: Failure, i: int)
    ensures
        f@.message == f.message@,
        f@.causes.len() == f.causes@.len(),
        0 <= i < f.causes@.len() ==> f@.causes[i] == f.causes@[i]@,
{
}

} // verus!
