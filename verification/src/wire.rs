//! Requests to the services around the fleet, and what comes back.

use vstd::prelude::*;
use vstd::string::*;
use crate::failure::Failure;
use crate::keymap::KeyMap;
use crate::{failure, text};

verus! {

/// A request method.
#[derive(Clone, Copy, PartialEq, Eq, Structural)]
pub enum Method {
    Get,
    Post,
    Delete,
}

/// A field of a JSON object.
pub enum Field {
    Null,
    Text(String),
    Texts(Vec<String>),
    Integer(i64),
    /// A number in JSON notation.
    Number(String),
    /// An object of texts.
    Fields(KeyMap<String>),
}

/// What a field holds.
pub enum FieldView {
    Null,
    Text(Seq<char>),
    Texts(Seq<Seq<char>>),
    Integer(int),
    Number(Seq<char>),
    Fields(Map<Seq<char>, Seq<char>>),
}

impl View for Field {
    type V = FieldView;

    open spec fn view(&self) -> FieldView {
        match *self {
            Field::Null => FieldView::Null,
            Field::Text(s) => FieldView::Text(s@),
            Field::Texts(v) => FieldView::Texts(text::texts(v@)),
            Field::Integer(i) => FieldView::Integer(i as int),
            Field::Number(s) => FieldView::Number(s@),
            Field::Fields(m) => FieldView::Fields(text_map(m@)),
        }
    }
}

/// The texts that a map of strings holds.
pub open spec fn text_map(m: Map<Seq<char>, String>) -> Map<Seq<char>, Seq<char>> {
    m.map_values(|s: String| s@)
}

/// The map of texts with one item.
pub fn single(key: &str, value: String) -> (r: KeyMap<String>)
    ensures
        text_map(r@) == map![key@ => value@],
        r@ == map![key@ => value],
{
    let mut r: KeyMap<String> = KeyMap::new();
    r.insert(key.to_owned(), value);
    assert(r@ =~= map![key@ => value]);
    assert(text_map(r@) =~= map![key@ => value@]);
    r
}

/// What a JSON object holds.
pub open spec fn object(m: Map<Seq<char>, Field>) -> Map<Seq<char>, FieldView> {
    m.map_values(|f: Field| f@)
}

/// Putting a field into an object puts its content there.
pub broadcast proof fn lemma_object_insert(m: Map<Seq<char>, Field>, k: Seq<char>, f: Field)
    ensures
        #[trigger] object(m.insert(k, f)) == object(m).insert(k, f@),
{
    assert(object(m.insert(k, f)) =~= object(m).insert(k, f@));
}

/// An empty object holds nothing.
pub broadcast proof fn lemma_object_empty()
    ensures
        #[trigger] object(Map::<Seq<char>, Field>::empty()) == Map::<
            Seq<char>,
            FieldView,
        >::empty(),
{
    assert(object(Map::<Seq<char>, Field>::empty()) =~= Map::<Seq<char>, FieldView>::empty());
}

/// What a request carries.
pub enum Body {
    Empty,
    Json(KeyMap<Field>),
    Form(Vec<(String, String)>),
}

/// What a request's body holds.
pub enum BodyView {
    Empty,
    Json(Map<Seq<char>, FieldView>),
    Form(Seq<(Seq<char>, Seq<char>)>),
}

impl View for Body {
    type V = BodyView;

    open spec fn view(&self) -> BodyView {
        match *self {
            Body::Empty => BodyView::Empty,
            Body::Json(m) => BodyView::Json(object(m@)),
            Body::Form(v) => BodyView::Form(v@.map_values(|p: (String, String)| (p.0@, p.1@))),
        }
    }
}

/// A request to a service.
pub struct Request {
    pub method: Method,
    pub url: String,
    /// The header that authenticates the orchestrator.
    pub header: Option<(String, String)>,
    pub body: Body,
}

/// What a request says.
pub struct RequestView {
    pub method: Method,
    pub url: Seq<char>,
    pub header: Option<(Seq<char>, Seq<char>)>,
    pub body: BodyView,
}

impl View for Request {
    type V = RequestView;

    open spec fn view(&self) -> RequestView {
        RequestView {
            method: self.method,
            url: self.url@,
            header: match self.header {
                Some(h) => Some((h.0@, h.1@)),
                None => None,
            },
            body: self.body@,
        }
    }
}

/// What came of a request.
pub enum Exchange<T> {
    /// No answer came; with the message of the transport.
    Unsent(String),
    Answered {
        status: u16,
        /// The status as it is shown to people, such as `404 Not Found`.
        status_line: String,
        /// The body as text.
        text: String,
        /// What the body says, or why it cannot be read.
        value: Result<T, String>,
    },
}

/// Whether a status reports success.
pub open spec fn success(status: u16) -> bool {
    200 <= status < 300
}

/// How a refusal of what `label` describes is reported.
pub open spec fn refusal(label: Seq<char>, status_line: Seq<char>, text: Seq<char>) -> Seq<char> {
    label + " -> "@ + status_line + ": "@ + text
}

/// A result with what its failure says.
pub open spec fn outcome<T>(r: Result<T, Failure>) -> Result<T, failure::FailureView> {
    match r {
        Ok(v) => Ok(v),
        Err(f) => Err(f@),
    }
}

/// What a request that must be answered with a value yields.
pub open spec fn answer<T>(
    ex: Exchange<T>,
    sending: Seq<char>,
    label: Seq<char>,
    reading: Seq<char>,
) -> Result<T, failure::FailureView> {
    match ex {
        Exchange::Unsent(cause) => Err(failure::caused_failure(sending, cause@)),
        Exchange::Answered { status, status_line, text, value } => if success(status) {
            match value {
                Ok(v) => Ok(v),
                Err(cause) => Err(failure::caused_failure(reading, cause@)),
            }
        } else {
            Err(failure::plain_failure(refusal(label, status_line@, text@)))
        },
    }
}

/// What a request that is only carried out yields. Where `absent_is_fine`, the
/// answer that there is no such thing counts as success.
pub open spec fn completion<T>(
    ex: Exchange<T>,
    sending: Seq<char>,
    label: Seq<char>,
    absent_is_fine: bool,
) -> Result<(), failure::FailureView> {
    match ex {
        Exchange::Unsent(cause) => Err(failure::caused_failure(sending, cause@)),
        Exchange::Answered { status, status_line, text, value } => if success(status) || (
        absent_is_fine && status == 404) {
            Ok(())
        } else {
            Err(failure::plain_failure(refusal(label, status_line@, text@)))
        },
    }
}

/// What a request to delete something yields: whether there was anything to
/// delete.
pub open spec fn deletion<T>(ex: Exchange<T>, sending: Seq<char>, label: Seq<char>) -> Result<
    bool,
    failure::FailureView,
> {
    match ex {
        Exchange::Unsent(cause) => Err(failure::caused_failure(sending, cause@)),
        Exchange::Answered { status, status_line, text, value } => if success(status) {
            Ok(true)
        } else if status == 404 {
            Ok(false)
        } else {
            Err(failure::plain_failure(refusal(label, status_line@, text@)))
        },
    }
}

fn refused(label: &str, status_line: &str, text: &str) -> (r: Failure)
    ensures
        r@ == failure::plain_failure(refusal(label@, status_line@, text@)),
{
    let mut out = label.to_owned();
    out.append(" -> ");
    out.append(status_line);
    out.append(": ");
    out.append(text);
    Failure::new(out)
}

/// Reads the answer to a request that must be answered with a value. `sending`,
/// `label` and `reading` name the request where no answer comes, where it is
/// refused and where the answer cannot be read.
pub fn read_value<T>(ex: Exchange<T>, sending: &str, label: &str, reading: &str) -> (r: Result<
    T,
    Failure,
>)
    ensures
        outcome(r) == answer(ex, sending@, label@, reading@),
{
    match ex {
        Exchange::Unsent(cause) => Err(Failure::caused(sending, cause)),
        Exchange::Answered { status, status_line, text, value } => {
            if 200 <= status && status < 300 {
                match value {
                    Ok(v) => Ok(v),
                    Err(cause) => Err(Failure::caused(reading, cause)),
                }
            } else {
                Err(refused(label, status_line.as_str(), text.as_str()))
            }
        },
    }
}

/// Reads the answer to a request to delete something: whether there was anything
/// to delete.
pub fn read_deletion<T>(ex: Exchange<T>, sending: &str, label: &str) -> (r: Result<bool, Failure>)
    ensures
        outcome(r) == deletion(ex, sending@, label@),
{
    match ex {
        Exchange::Unsent(cause) => Err(Failure::caused(sending, cause)),
        Exchange::Answered { status, status_line, text, value } => {
            if 200 <= status && status < 300 {
                Ok(true)
            } else if status == 404 {
                Ok(false)
            } else {
                Err(refused(label, status_line.as_str(), text.as_str()))
            }
        },
    }
}

/// Reads the answer to a request that is only carried out.
pub fn read_outcome<T>(ex: Exchange<T>, sending: &str, label: &str, absent_is_fine: bool) -> (r:
    Result<(), Failure>)
    ensures
        outcome(r) == completion(ex, sending@, label@, absent_is_fine),
{
    match ex {
        Exchange::Unsent(cause) => Err(Failure::caused(sending, cause)),
        Exchange::Answered { status, status_line, text, value } => {
            if (200 <= status && status < 300) || (absent_is_fine && status == 404) {
                Ok(())
            } else {
                Err(refused(label, status_line.as_str(), text.as_str()))
            }
        },
    }
}

// ---- what holds of answers --------------------------------------------

/// A request that must be answered with a value yields the value of an answer whose
/// status is between 200 and 299. No answer, an answer that cannot be read and a
/// refusal are failures, each told by what was being done.
pub proof fn law_value_needs_a_successful_answer<T>(
    status: u16,
    status_line: String,
    text: String,
    value: Result<T, String>,
    cause: String,
    sending: &str,
    label: &str,
    reading: &str,
    r: Result<T, Failure>,
    unsent: Result<T, Failure>,
)
    requires
        call_ensures(
            read_value::<T>,
            (Exchange::Answered { status, status_line, text, value }, sending, label, reading),
            r,
        ),
        call_ensures(
            read_value::<T>,
            (Exchange::<T>::Unsent(cause), sending, label, reading),
            unsent,
        ),
    ensures
        r is Ok <==> 200 <= status <= 299 && value is Ok,
        r is Ok ==> r->Ok_0 == value->Ok_0,
        200 <= status <= 299 && value is Err ==> r->Err_0@.message == reading@ && r->Err_0@.causes
            == seq![value->Err_0@],
        !(200 <= status <= 299) ==> r->Err_0@.message == label@ + " -> "@ + status_line@ + ": "@
            + text@ && r->Err_0@.causes.len() == 0,
        unsent matches Err(f) && f@.message == sending@ && f@.causes == seq![cause@],
{
    let answered = Exchange::Answered { status, status_line, text, value };
    assert(outcome(r) == answer(answered, sending@, label@, reading@));
    let silent = Exchange::<T>::Unsent(cause);
    assert(outcome(unsent) == answer(silent, sending@, label@, reading@));
}

/// A request that is only carried out succeeds with an answer whose status is between
/// 200 and 299, and with 404 where nothing needs to be there; whatever else comes is
/// a failure.
pub proof fn law_completion_needs_success_or_absence<T>(
    status: u16,
    status_line: String,
    text: String,
    value: Result<T, String>,
    cause: String,
    sending: &str,
    label: &str,
    absent_is_fine: bool,
    r: Result<(), Failure>,
    unsent: Result<(), Failure>,
)
    requires
        call_ensures(
            read_outcome::<T>,
            (
                Exchange::Answered { status, status_line, text, value },
                sending,
                label,
                absent_is_fine,
            ),
            r,
        ),
        call_ensures(
            read_outcome::<T>,
            (Exchange::<T>::Unsent(cause), sending, label, absent_is_fine),
            unsent,
        ),
    ensures
        r is Ok <==> 200 <= status <= 299 || (status == 404 && absent_is_fine),
        r matches Err(f) ==> f@.message == label@ + " -> "@ + status_line@ + ": "@ + text@
            && f@.causes.len() == 0,
        unsent matches Err(f) && f@.message == sending@ && f@.causes == seq![cause@],
{
    let answered = Exchange::Answered { status, status_line, text, value };
    assert(outcome(r) == completion(answered, sending@, label@, absent_is_fine));
    let silent = Exchange::<T>::Unsent(cause);
    assert(outcome(unsent) == completion(silent, sending@, label@, absent_is_fine));
}

/// A deletion says that there was something to delete where the answer's status is
/// between 200 and 299, that there was nothing where it is 404, and fails otherwise.
pub proof fn law_deletion_tells_whether_there_was_anything<T>(
    status: u16,
    status_line: String,
    text: String,
    value: Result<T, String>,
    cause: String,
    sending: &str,
    label: &str,
    r: Result<bool, Failure>,
    unsent: Result<bool, Failure>,
)
    requires
        call_ensures(
            read_deletion::<T>,
            (Exchange::Answered { status, status_line, text, value }, sending, label),
            r,
        ),
        call_ensures(
            read_deletion::<T>,
            (Exchange::<T>::Unsent(cause), sending, label),
            unsent,
        ),
    ensures
        r == Ok::<bool, Failure>(true) <==> 200 <= status <= 299,
        r == Ok::<bool, Failure>(false) <==> status == 404,
        r matches Err(f) ==> f@.message == label@ + " -> "@ + status_line@ + ": "@ + text@
            && f@.causes.len() == 0,
        unsent matches Err(f) && f@.message == sending@ && f@.causes == seq![cause@],
{
    let answered = Exchange::Answered { status, status_line, text, value };
    assert(outcome(r) == deletion(answered, sending@, label@));
    let silent = Exchange::<T>::Unsent(cause);
    assert(outcome(unsent) == deletion(silent, sending@, label@));
}

/// What is said of a request is what it carries: its method, its address, its header and
/// its body, field by field.
pub proof fn law_request_says_what_it_carries(q: Request, m: Map<Seq<char>, Field>, k: Seq<char>)
    requires
        m.dom().contains(k),
    ensures
        q@.method == q.method && q@.url == q.url@ && q@.body == q.body@,
        q.header matches Some(h) ==> q@.header == Some((h.0@, h.1@)),
        q.header is None ==> q@.header is None,
        object(m).dom().contains(k) && object(m)[k] == m[k]@,
        m[k] matches Field::Text(s) ==> object(m)[k] == FieldView::Text(s@),
        m[k] matches Field::Number(s) ==> object(m)[k] == FieldView::Number(s@),
        m[k] matches Field::Integer(i) ==> object(m)[k] == FieldView::Integer(i as int),
        m[k] matches Field::Texts(v) ==> object(m)[k] == FieldView::Texts(text::texts(v@)),
        m[k] is Null ==> object(m)[k] is Null,
{
}

} // verus!
