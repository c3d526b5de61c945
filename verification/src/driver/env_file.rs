//! Files that set environment variables: one `NAME=value` per line.

use vstd::prelude::*;
use crate::keymap::KeyMap;
use crate::{text, wire};

verus! {

/// A file that was read.
pub struct EnvFile {
    pub path: String,
    pub content: String,
}

/// Path and content of a file, if there is one.
pub open spec fn file_view(f: Option<EnvFile>) -> Option<(Seq<char>, Seq<char>)> {
    match f {
        Some(f) => Some((f.path@, f.content@)),
        None => None,
    }
}

/// The place of the first `=`, or the length where there is none.
pub open spec fn equals_sign(s: Seq<char>) -> int
    decreases s.len(),
{
    if s.len() == 0 || s[0] == '=' {
        0
    } else {
        1 + equals_sign(s.skip(1))
    }
}

/// A line without the carriage return that may end it.
pub open spec fn bare(line: Seq<char>) -> Seq<char> {
    if line.len() > 0 && line.last() == '\r' {
        line.drop_last()
    } else {
        line
    }
}

/// The variable that a line sets: its name stands before the first `=`, its value
/// is everything behind. Comments, and lines without a name or without `=`, set
/// none.
pub open spec fn variable(line: Seq<char>) -> Option<(Seq<char>, Seq<char>)> {
    let l = bare(line);
    let at = equals_sign(l);
    let name = text::trimmed(l.take(at));
    if at == l.len() || name.len() == 0 || name[0] == '#' {
        None
    } else {
        Some((name, l.skip(at + 1)))
    }
}

/// The variables that some lines set, where a later line replaces an earlier one
/// that sets the same variable.
pub open spec fn variables(lines: Seq<Seq<char>>) -> Map<Seq<char>, Seq<char>>
    decreases lines.len(),
{
    if lines.len() == 0 {
        Map::empty()
    } else {
        match variable(lines.last()) {
            Some((name, value)) => variables(lines.drop_last()).insert(name, value),
            None => variables(lines.drop_last()),
        }
    }
}

/// The variables that a file sets.
pub open spec fn file_variables(content: Seq<char>) -> Map<Seq<char>, Seq<char>> {
    variables(text::split_on(content, '\n'))
}

proof fn lemma_equals_sign_bounds(s: Seq<char>)
    ensures
        0 <= equals_sign(s) <= s.len(),
    decreases s.len(),
{
    if s.len() > 0 && s[0] != '=' {
        lemma_equals_sign_bounds(s.skip(1));
    }
}

fn find_equals_sign(v: &Vec<char>, end: usize) -> (r: usize)
    requires
        end <= v@.len(),
    ensures
        r == equals_sign(v@.take(end as int)),
        r <= end,
{
    let ghost s = v@.take(end as int);
    let mut i: usize = 0;
    assert(s.skip(0) =~= s);
    while i < end && v[i] != '='
        invariant
            i <= end,
            end <= v@.len(),
            s == v@.take(end as int),
            equals_sign(s) == i + equals_sign(s.skip(i as int)),
        decreases end - i,
    {
        assert(s.skip(i as int)[0] == v@[i as int]);
        assert(s.skip(i as int).skip(1) =~= s.skip(i + 1));
        i = i + 1;
    }
    if i < end {
        assert(s.skip(i as int)[0] == v@[i as int]);
    }
    i
}

fn read_line(line: &str) -> (r: Option<(String, String)>)
    ensures
        match r {
            Some(p) => variable(line@) == Some((p.0@, p.1@)),
            None => variable(line@) is None,
        },
{
    let v = text::chars_of(line);
    let end: usize = if v.len() > 0 && v[v.len() - 1] == '\r' {
        v.len() - 1
    } else {
        v.len()
    };
    let ghost l = bare(line@);
    assert(v@.take(end as int) =~= l);
    let at = find_equals_sign(&v, end);
    if at == end {
        return None;
    }
    let head = text::slice_text(&v, 0, at);
    assert(head@ =~= l.take(at as int));
    let name = text::trim(head.as_str());
    let letters = text::chars_of(name.as_str());
    if letters.len() == 0 || letters[0] == '#' {
        return None;
    }
    let value = text::slice_text(&v, at + 1, end);
    assert(value@ =~= l.skip(at + 1));
    Some((name, value))
}

/// The variables that a file with this content sets.
pub fn read_variables(content: &str) -> (r: KeyMap<String>)
    ensures
        wire::text_map(r@) == file_variables(content@),
{
    let lines = text::split(content, '\n');
    let ghost all = text::texts(lines@);
    let mut out: KeyMap<String> = KeyMap::new();
    assert(wire::text_map(out@) =~= Map::<Seq<char>, Seq<char>>::empty());
    let mut i: usize = 0;
    while i < lines.len()
        invariant
            i <= lines@.len(),
            all == text::texts(lines@),
            wire::text_map(out@) == variables(all.take(i as int)),
        decreases lines@.len() - i,
    {
        let ghost before = out@;
        assert(all.take(i + 1).drop_last() =~= all.take(i as int));
        assert(all.take(i + 1).last() == lines@[i as int]@);
        match read_line(lines[i].as_str()) {
            Some((name, value)) => {
                out.insert(name, value);
                assert(wire::text_map(out@) =~= wire::text_map(before).insert(name@, value@));
            },
            None => {},
        }
        i = i + 1;
    }
    assert(all.take(all.len() as int) =~= all);
    out
}

// ---- what holds of files ----------------------------------------------

/// A line that gives a name, an equals sign and a value sets that variable to that
/// value, whatever white space surrounds the name and whether or not a carriage
/// return ends the line. The value may hold further equals signs and is not trimmed.
pub proof fn law_line_sets_its_variable(
    before: Seq<char>,
    name: Seq<char>,
    after: Seq<char>,
    value: Seq<char>,
)
    requires
        forall|i: int| 0 <= i < before.len() ==> text::is_white_space(#[trigger] before[i]),
        forall|i: int| 0 <= i < after.len() ==> text::is_white_space(#[trigger] after[i]),
        name.len() > 0,
        !name.contains('='),
        name[0] != '#',
        !text::is_white_space(name[0]),
        !text::is_white_space(name.last()),
        value.len() > 0 ==> value.last() != '\r',
    ensures
        variable(before + name + after + seq!['='] + value) == Some((name, value)),
        variable(before + name + after + seq!['='] + value + seq!['\r']) == Some((name, value)),
{
    let head = before + name + after;
    let line = head + seq!['='] + value;
    text::law_trimming_frees_what_stands_in_white_space(before, name, after);
    assert forall|i: int| 0 <= i < head.len() implies #[trigger] head[i] != '=' by {
        if i < before.len() {
            assert(head[i] == before[i]);
        } else if i < before.len() + name.len() {
            assert(head[i] == name[i - before.len()]);
            assert(name.contains(name[i - before.len()]));
        } else {
            assert(head[i] == after[i - before.len() - name.len()]);
        }
    }
    lemma_equals_sign_is(line, head.len() as int);
    assert(line.last() != '\r');
    assert(line.take(head.len() as int) =~= head);
    assert(line.skip(head.len() as int + 1) =~= value);
    assert((line + seq!['\r']).drop_last() =~= line);
}

proof fn lemma_equals_sign_is(s: Seq<char>, at: int)
    requires
        0 <= at < s.len(),
        s[at] == '=',
        forall|i: int| 0 <= i < at ==> #[trigger] s[i] != '=',
    ensures
        equals_sign(s) == at,
    decreases s.len(),
{
    if at > 0 {
        assert(s[0] != '=');
        assert forall|i: int| 0 <= i < at - 1 implies #[trigger] s.skip(1)[i] != '=' by {
            assert(s.skip(1)[i] == s[i + 1]);
        }
        lemma_equals_sign_is(s.skip(1), at - 1);
    }
}

/// A line without an equals sign sets nothing, nor does one that begins with a
/// number sign, after white space or not.
pub proof fn law_line_sets_nothing(before: Seq<char>, rest: Seq<char>)
    requires
        forall|i: int| 0 <= i < before.len() ==> text::is_white_space(#[trigger] before[i]),
    ensures
        !rest.contains('=') ==> variable(before + rest) is None,
        variable(before + seq!['#'] + rest) is None,
        variable(before + seq!['='] + rest) is None,
{
    let line = before + rest;
    lemma_equals_sign_bounds(bare(line));
    if !rest.contains('=') {
        assert forall|i: int| 0 <= i < line.len() implies #[trigger] line[i] != '=' by {
            if i >= before.len() {
                assert(rest.contains(rest[i - before.len()]));
            } else {
                assert(line[i] == before[i]);
            }
        }
        lemma_no_equals_sign(bare(line));
    }
    lemma_comment(before, rest);
    let unnamed = before + seq!['='] + rest;
    let l = bare(unnamed);
    assert(unnamed[before.len() as int] == '=');
    assert(l.len() > before.len());
    assert(l[before.len() as int] == '=');
    assert forall|i: int| 0 <= i < before.len() implies #[trigger] l[i] != '=' by {
        assert(l[i] == before[i]);
    }
    lemma_equals_sign_is(l, before.len() as int);
    let name = l.take(before.len() as int);
    assert(name =~= before);
    text::law_trimming_takes_white_space_away(before);
    if text::trimmed(before).len() > 0 {
        let (i, j) = choose|i: int, j: int|
            0 <= i <= j <= before.len() && text::trimmed(before) == #[trigger] before.subrange(
                i,
                j,
            ) && (forall|k: int|
                0 <= k < before.len() && !(i <= k < j) ==> text::is_white_space(
                    #[trigger] before[k],
                ));
        assert(text::trimmed(before)[0] == before[i]);
    }
}

proof fn lemma_no_equals_sign(s: Seq<char>)
    requires
        forall|i: int| 0 <= i < s.len() ==> #[trigger] s[i] != '=',
    ensures
        equals_sign(s) == s.len(),
    decreases s.len(),
{
    if s.len() > 0 {
        assert(s[0] != '=');
        assert forall|i: int| 0 <= i < s.skip(1).len() implies #[trigger] s.skip(1)[i] != '=' by {
            assert(s.skip(1)[i] == s[i + 1]);
        }
        lemma_no_equals_sign(s.skip(1));
    }
}

proof fn lemma_comment(before: Seq<char>, rest: Seq<char>)
    requires
        forall|i: int| 0 <= i < before.len() ==> text::is_white_space(#[trigger] before[i]),
    ensures
        variable(before + seq!['#'] + rest) is None,
{
    let line = before + seq!['#'] + rest;
    let l = bare(line);
    let at = equals_sign(l);
    lemma_equals_sign_bounds(l);
    let n = before.len() as int;
    assert(line[n] == '#');
    assert(l.len() > n);
    assert(l[n] == '#');
    if at < l.len() {
        lemma_at_equals_sign(l);
        if at <= n {
            assert(at < n);
            assert(l[at] == before[at]);
        }
        let head = l.take(at);
        text::law_trimming_takes_white_space_away(head);
        let (i, j) = choose|i: int, j: int|
            0 <= i <= j <= head.len() && text::trimmed(head) == #[trigger] head.subrange(i, j) && (
            forall|k: int|
                0 <= k < head.len() && !(i <= k < j) ==> text::is_white_space(#[trigger] head[k]));
        assert(head[n] == '#');
        assert(i <= n < j);
        if i < n {
            assert(head.subrange(i, j)[0] == before[i]);
        }
        assert(text::trimmed(head)[0] == '#');
    }
}

proof fn lemma_at_equals_sign(s: Seq<char>)
    ensures
        equals_sign(s) < s.len() ==> s[equals_sign(s)] == '=',
    decreases s.len(),
{
    if s.len() > 0 && s[0] != '=' {
        lemma_at_equals_sign(s.skip(1));
        lemma_equals_sign_bounds(s.skip(1));
    }
}

/// One more line at the end of a file adds the variable that it sets, over any
/// earlier value, and leaves the others as they were.
pub proof fn law_last_line_counts(front: Seq<char>, line: Seq<char>)
    requires
        !line.contains('\n'),
    ensures
        variable(line) matches Some((name, value)) ==> file_variables(front + seq!['\n'] + line)
            == file_variables(front).insert(name, value),
        variable(line) is None ==> file_variables(front + seq!['\n'] + line) == file_variables(
            front,
        ),
        file_variables(line) == match variable(line) {
            Some((name, value)) => map![name => value],
            None => Map::empty(),
        },
{
    text::lemma_split_last(front, line, '\n');
    let lines = text::split_on(front, '\n');
    assert(lines.push(line).drop_last() =~= lines);
    text::lemma_split_whole(line, '\n');
    assert(seq![line].drop_last() =~= Seq::<Seq<char>>::empty());
    reveal_with_fuel(variables, 2);
    assert(file_variables(line) =~= match variable(line) {
        Some((name, value)) => map![name => value],
        None => Map::empty(),
    });
}

} // verus!
