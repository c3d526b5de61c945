//! Claws: listing, detail and lifecycle.

use vstd::prelude::*;
use vstd::string::*;
use crate::api;
use crate::api::{Answer, AnswerBody};
use crate::driver::ClawStatus;
use crate::failure::Failure;
use crate::keymap::KeyMap;
use crate::manifest::ClawOverlay;
use crate::{document, render, text};

verus! {

/// A claw in the listing.
#[derive(Debug)]
pub struct ClawListEntry {
    /// Stable kebab-case identifier.
    pub name: String,
    /// Friendly name; the identifier where there is none.
    pub display_name: String,
    pub status: Option<ClawStatus>,
    pub error: Option<String>,
}

/// The friendly name of a claw: that of its overlay, where it has one.
pub open spec fn friendly_name(
    name: Seq<char>,
    overlays: Map<Seq<char>, ClawOverlay>,
) -> Seq<char> {
    if overlays.dom().contains(name) {
        overlays[name].shown_name()
    } else {
        name
    }
}

/// `e` lists a claw of which the status, or why it cannot be told, is known.
pub open spec fn lists(
    e: ClawListEntry,
    name: Seq<char>,
    found: Result<ClawStatus, Failure>,
    overlays: Map<Seq<char>, ClawOverlay>,
) -> bool {
    &&& e.name@ == name
    &&& e.display_name@ == friendly_name(name, overlays)
    &&& match found {
        Ok(s) => e.status == Some(s) && e.error is None,
        Err(f) => e.status is None && text::opt_text(e.error) == Some(f@.message),
    }
}

/// Lists the claws in their order, each with its status or the error that
/// hides it.
pub fn list(
    found: Vec<(String, Result<ClawStatus, Failure>)>,
    overlays: &KeyMap<ClawOverlay>,
) -> (r: Vec<ClawListEntry>)
    ensures
        r@.len() == found@.len(),
        forall|i: int|
            #![trigger r@[i]]
            0 <= i < r@.len() ==> lists(r@[i], found@[i].0@, found@[i].1, overlays@),
{
    let ghost all = found@;
    let mut rest = found;
    let mut backwards: Vec<ClawListEntry> = Vec::new();
    while rest.len() > 0
        invariant
            rest@.len() + backwards@.len() == all.len(),
            rest@ == all.take(rest@.len() as int),
            forall|i: int|
                #![trigger backwards@[i]]
                0 <= i < backwards@.len() ==> lists(
                    backwards@[i],
                    all[all.len() - 1 - i].0@,
                    all[all.len() - 1 - i].1,
                    overlays@,
                ),
        decreases rest@.len(),
    {
        let ghost n = rest@.len() as int;
        let ghost last = rest@[n - 1];
        assert(last == all[n - 1]);
        if let Some((name, status)) = rest.pop() {
            let entry = list_entry(name, status, overlays);
            backwards.push(entry);
        }
        assert(rest@ =~= all.take(n - 1));
    }
    let ghost made = backwards@;
    let mut out: Vec<ClawListEntry> = Vec::new();
    while backwards.len() > 0
        invariant
            made.len() == all.len(),
            backwards@.len() + out@.len() == made.len(),
            backwards@ == made.take(backwards@.len() as int),
            forall|i: int|
                #![trigger made[i]]
                0 <= i < made.len() ==> lists(
                    made[i],
                    all[all.len() - 1 - i].0@,
                    all[all.len() - 1 - i].1,
                    overlays@,
                ),
            forall|i: int|
                #![trigger out@[i]]
                0 <= i < out@.len() ==> lists(out@[i], all[i].0@, all[i].1, overlays@),
        decreases backwards@.len(),
    {
        let ghost n = backwards@.len() as int;
        assert(backwards@[n - 1] == made[n - 1]);
        if let Some(entry) = backwards.pop() {
            out.push(entry);
        }
        assert(backwards@ =~= made.take(n - 1));
    }
    out
}

/// The entry of one claw.
pub fn list_entry(
    name: String,
    found: Result<ClawStatus, Failure>,
    overlays: &KeyMap<ClawOverlay>,
) -> (r: ClawListEntry)
    ensures
        lists(r, name@, found, overlays@),
{
    let display_name = match overlays.get(name.as_str()) {
        Some(o) => o.display_name(),
        None => name.clone(),
    };
    match found {
        Ok(s) => ClawListEntry { name, display_name, status: Some(s), error: None },
        Err(f) => ClawListEntry { name, display_name, status: None, error: Some(f.message) },
    }
}

/// The answer to the question for one claw's status.
pub fn detail(found: Result<ClawStatus, Failure>) -> (r: Answer<ClawStatus>)
    ensures
        api::reports(found, r),
{
    api::report(found)
}

/// The answer to an order to start, stop or restart a claw.
pub open spec fn acknowledges(done: Result<(), Failure>, a: Answer<()>) -> bool {
    match done {
        Ok(_) => a.status == 204 && a.body is Empty,
        Err(f) => api::says(a, 500, f@.message),
    }
}

/// The answer to an order to start, stop or restart a claw.
pub fn acknowledge(done: Result<(), Failure>) -> (r: Answer<()>)
    ensures
        acknowledges(done, r),
{
    match done {
        Ok(_) => Answer { status: 204, body: AnswerBody::Empty },
        Err(f) => api::say(500, f.message),
    }
}

/// An entry of the listing is about its claw: it has its name, the status that was
/// found or the message of what hid it, never both, and the friendly name of the
/// overlay, or the identifier where no overlay gives one.
pub proof fn law_entry_is_about_its_claw(
    name: String,
    found: Result<ClawStatus, Failure>,
    overlays: KeyMap<ClawOverlay>,
    e: ClawListEntry,
)
    requires
        call_ensures(list_entry, (name, found, &overlays), e),
    ensures
        e.name@ == name@,
        found matches Ok(s) ==> e.status == Some(s) && e.error is None,
        found matches Err(f) ==> e.status is None && (e.error matches Some(m) && m@ == f@.message),
        !overlays@.dom().contains(name@) ==> e.display_name@ == name@,
        overlays@.dom().contains(name@) ==> e.display_name@ == (match render::at_path(
            document::contents(overlays@[name@].body),
            seq!["branding"@, "display_name"@],
        ) {
            Some(document::ItemView::Text(shown)) => shown,
            _ => overlays@[name@].fleet.name@,
        }),
{
    assert(seq!["branding"@, "display_name"@].skip(1) =~= seq!["display_name"@]);
    reveal_with_fuel(render::at_path, 2);
}

/// The listing has every claw once, in the order in which the claws were given.
pub proof fn law_listing_keeps_the_order(
    found: Vec<(String, Result<ClawStatus, Failure>)>,
    overlays: KeyMap<ClawOverlay>,
    r: Vec<ClawListEntry>,
    i: int,
)
    requires
        call_ensures(list, (found, &overlays), r),
        0 <= i < found@.len(),
    ensures
        r@.len() == found@.len(),
        r@[i].name@ == found@[i].0@,
        found@[i].1 matches Ok(s) ==> r@[i].status == Some(s) && r@[i].error is None,
        found@[i].1 matches Err(f) ==> r@[i].status is None && (r@[i].error matches Some(m) && m@
            == f@.message),
{
    assert(lists(r@[i], found@[i].0@, found@[i].1, overlays@));
}

/// An order that was carried out is acknowledged with 204 and no body; one that failed
/// is answered with 500 and the failure's message.
pub proof fn law_order_is_acknowledged(done: Result<(), Failure>, r: Answer<()>)
    requires
        call_ensures(acknowledge, (done,), r),
    ensures
        done is Ok ==> r.status == 204 && r.body is Empty,
        done matches Err(f) ==> r.status == 500 && (r.body matches AnswerBody::Text(s) && s@
            == f@.message),
{
}

/// A status that is known is sent with 200, a failure to learn it with 500 and the
/// failure's message.
pub proof fn law_detail_is_the_status_found(
    found: Result<ClawStatus, Failure>,
    r: Answer<ClawStatus>,
)
    requires
        call_ensures(detail, (found,), r),
    ensures
        found matches Ok(s) ==> r.status == 200 && r.body == AnswerBody::Value(s),
        found matches Err(f) ==> r.status == 500 && (r.body matches AnswerBody::Text(s) && s@
            == f@.message),
{
}

} // verus!
