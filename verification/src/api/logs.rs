//! The last lines of a claw's log.

use vstd::prelude::*;
use vstd::string::*;
use crate::api;
use crate::api::Answer;
use crate::failure::Failure;
use crate::text;

verus! {

/// What is asked of a log.
#[derive(Debug)]
pub struct LogsQuery {
    pub lines: usize,
}

/// How many lines are shown where none is asked for.
pub fn default_lines() -> (r: usize)
    ensures
        r == 200,
{
    200
}

/// How many lines are shown: as many as asked for, but at most five thousand.
pub open spec fn shown_lines(asked: usize) -> usize {
    if asked < 5000 {
        asked
    } else {
        5000
    }
}

/// The number of lines to ask the daemon for, in its notation.
pub fn tail(query: &LogsQuery) -> (r: String)
    ensures
        r@ == text::decimal_text(shown_lines(query.lines) as nat),
{
    let lines: usize = if query.lines < 5000 {
        query.lines
    } else {
        5000
    };
    text::decimal(lines as u64)
}

/// The chunks of a log, one behind the other.
pub open spec fn concatenated(chunks: Seq<Seq<char>>) -> Seq<char>
    decreases chunks.len(),
{
    if chunks.len() == 0 {
        Seq::empty()
    } else {
        concatenated(chunks.drop_last()) + chunks.last()
    }
}

/// Puts the chunks of a log together.
pub fn concatenate(chunks: &Vec<String>) -> (r: String)
    ensures
        r@ == concatenated(text::texts(chunks@)),
{
    let ghost all = text::texts(chunks@);
    let mut out = String::new();
    let mut i: usize = 0;
    while i < chunks.len()
        invariant
            i <= chunks.len(),
            all == text::texts(chunks@),
            out@ == concatenated(all.take(i as int)),
        decreases chunks.len() - i,
    {
        assert(all.take(i + 1).drop_last() =~= all.take(i as int));
        out.append(chunks[i].as_str());
        i = i + 1;
    }
    assert(all.take(all.len() as int) =~= all);
    out
}

/// The answer to the question for a log.
pub fn answer(read: Result<String, Failure>) -> (r: Answer<()>)
    ensures
        match read {
            Ok(log) => api::says(r, 200, log@),
            Err(f) => api::says(r, 500, f@.message),
        },
{
    match read {
        Ok(log) => api::say(200, log),
        Err(f) => api::say(500, f.message),
    }
}

/// As many lines are asked for as are wanted, but never more than five thousand; the
/// number is in decimal notation.
pub proof fn law_tail_is_what_is_asked_for(query: LogsQuery, r: String)
    requires
        call_ensures(tail, (&query,), r),
    ensures
        query.lines <= 5000 ==> text::number_spelled(r@) == query.lines,
        query.lines > 5000 ==> text::number_spelled(r@) == 5000,
{
    text::law_decimal_notation_spells_the_number(shown_lines(query.lines) as nat);
}

/// The chunks of a log follow each other without gap or repetition: one more chunk is
/// put behind what is there.
pub proof fn law_chunks_follow_each_other(chunks: Seq<Seq<char>>, more: Seq<char>)
    ensures
        concatenated(chunks.push(more)) == concatenated(chunks) + more,
        concatenated(Seq::empty()) == Seq::<char>::empty(),
        concatenated(seq![more]) == more,
{
    assert(chunks.push(more).drop_last() =~= chunks);
    assert(seq![more].drop_last() =~= Seq::<Seq<char>>::empty());
    reveal_with_fuel(concatenated, 2);
    assert(concatenated(seq![more]) =~= more);
}

} // verus!
