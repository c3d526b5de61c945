//! Text primitives: comparing, searching, trimming, splitting and formatting.
//!
//! A string is modelled as the sequence of its characters.

use vstd::prelude::*;
use vstd::string::*;

verus! {

/// `String::push` appends one character and changes nothing else.
pub assume_specification[ std::string::String::push ](s: &mut std::string::String, c: char)
    ensures
        final(s)@ == old(s)@.push(c),
;

/// The characters of `s`, in order.
pub fn chars_of(s: &str) -> (r: Vec<char>)
    ensures
        r@ == s@,
{
    let mut out: Vec<char> = Vec::new();
    for c in it: s.chars()
        invariant
            it.seq() == s@,
            out@ == s@.take(it.index()),
    {
        proof {
            assert(s@.take(it.index() + 1) =~= s@.take(it.index()).push(s@[it.index()]));
        }
        out.push(c);
    }
    assert(s@.take(s@.len() as int) =~= s@);
    out
}

/// The texts that a sequence of strings holds.
pub open spec fn texts(v: Seq<String>) -> Seq<Seq<char>> {
    v.map_values(|s: String| s@)
}

/// A string put at the end adds its text at the end.
pub broadcast proof fn lemma_texts_push(v: Seq<String>, s: String)
    ensures
        #[trigger] texts(v.push(s)) == texts(v).push(s@),
{
    assert(texts(v.push(s)) =~= texts(v).push(s@));
}

/// The text that an optional string holds.
pub open spec fn opt_text(o: Option<String>) -> Option<Seq<char>> {
    match o {
        Some(s) => Some(s@),
        None => None,
    }
}

/// Whether the two texts are the same.
pub fn same_text(a: &str, b: &str) -> (r: bool)
    ensures
        r == (a@ == b@),
{
    let x = chars_of(a);
    let y = chars_of(b);
    if x.len() != y.len() {
        return false;
    }
    let mut i: usize = 0;
    while i < x.len()
        invariant
            i <= x.len(),
            x.len() == y.len(),
            x@ == a@,
            y@ == b@,
            forall|j: int| 0 <= j < i ==> x@[j] == y@[j],
        decreases x.len() - i,
    {
        if x[i] != y[i] {
            return false;
        }
        i = i + 1;
    }
    assert(a@ =~= b@);
    true
}

/// `name` behind a label.
pub fn labelled(label: &str, name: &str) -> (r: String)
    ensures
        r@ == label@ + name@,
{
    let mut out = label.to_owned();
    out.append(name);
    out
}

/// Whether a list of strings holds the text.
pub fn contains_text(v: &Vec<String>, s: &str) -> (r: bool)
    ensures
        r == texts(v@).contains(s@),
{
    let mut i: usize = 0;
    while i < v.len()
        invariant
            i <= v.len(),
            forall|j: int| 0 <= j < i ==> (#[trigger] texts(v@)[j]) != s@,
        decreases v.len() - i,
    {
        if same_text(v[i].as_str(), s) {
            assert(texts(v@)[i as int] == s@);
            return true;
        }
        i = i + 1;
    }
    false
}

/// A copy of an optional string.
pub fn copy_opt(o: &Option<String>) -> (r: Option<String>)
    ensures
        r == *o,
{
    match o {
        Some(s) => Some(s.clone()),
        None => None,
    }
}

/// A copy of a list of strings.
pub fn copy_texts(v: &Vec<String>) -> (r: Vec<String>)
    ensures
        r@ == v@,
{
    let mut out: Vec<String> = Vec::new();
    let mut i: usize = 0;
    while i < v.len()
        invariant
            i <= v.len(),
            out@ == v@.take(i as int),
        decreases v.len() - i,
    {
        assert(v@.take(i + 1) =~= v@.take(i as int).push(v@[i as int]));
        out.push(v[i].clone());
        i = i + 1;
    }
    assert(v@.take(v@.len() as int) =~= v@);
    out
}

// ---- order ------------------------------------------------------------

/// `a` and `b` agree before `i`, and at `i` either `a` has ended or it has the
/// smaller character.
pub open spec fn precedes_at(a: Seq<char>, b: Seq<char>, i: int) -> bool {
    &&& 0 <= i <= a.len()
    &&& i < b.len()
    &&& forall|j: int| 0 <= j < i ==> a[j] == b[j]
    &&& i == a.len() || (a[i] as u32) < (b[i] as u32)
}

/// Lexicographic order by character, which is also the order of the UTF-8
/// bytes.
pub open spec fn text_lt(a: Seq<char>, b: Seq<char>) -> bool {
    exists|i: int| precedes_at(a, b, i)
}

/// No text precedes itself.
pub proof fn lemma_text_lt_irreflexive(a: Seq<char>)
    ensures
        !text_lt(a, a),
{
}

/// The order is transitive.
pub proof fn lemma_text_lt_transitive(a: Seq<char>, b: Seq<char>, c: Seq<char>)
    requires
        text_lt(a, b),
        text_lt(b, c),
    ensures
        text_lt(a, c),
{
    let i = choose|i: int| precedes_at(a, b, i);
    let j = choose|j: int| precedes_at(b, c, j);
    if i <= j {
        assert(precedes_at(a, c, i));
    } else {
        assert(precedes_at(a, c, j));
    }
}

/// How two texts compare.
pub enum TextOrder {
    Before,
    Same,
    After,
}

/// Compares two texts lexicographically.
pub fn order_texts(a: &str, b: &str) -> (r: TextOrder)
    ensures
        r is Before <==> text_lt(a@, b@),
        r is After <==> text_lt(b@, a@),
        r is Same <==> a@ == b@,
{
    let x = chars_of(a);
    let y = chars_of(b);
    proof {
        lemma_text_lt_irreflexive(a@);
        if text_lt(a@, b@) && text_lt(b@, a@) {
            lemma_text_lt_transitive(a@, b@, a@);
        }
    }
    let mut i: usize = 0;
    while i < x.len() && i < y.len()
        invariant
            i <= x.len(),
            i <= y.len(),
            x@ == a@,
            y@ == b@,
            !text_lt(a@, a@),
            !(text_lt(a@, b@) && text_lt(b@, a@)),
            forall|j: int| 0 <= j < i ==> a@[j] == b@[j],
        decreases x.len() - i,
    {
        let c: char = x[i];
        let d: char = y[i];
        let p: u32 = c as u32;
        let q: u32 = d as u32;
        proof {
            vstd::utf8::char_u32_cast(c, p);
            vstd::utf8::char_u32_cast(d, q);
        }
        if p < q {
            assert(precedes_at(a@, b@, i as int));
            return TextOrder::Before;
        }
        if q < p {
            assert(precedes_at(b@, a@, i as int));
            return TextOrder::After;
        }
        i = i + 1;
    }
    if i < y.len() {
        assert(precedes_at(a@, b@, i as int));
        TextOrder::Before
    } else if i < x.len() {
        assert(precedes_at(b@, a@, i as int));
        TextOrder::After
    } else {
        assert(a@ =~= b@);
        TextOrder::Same
    }
}

// ---- numbers ----------------------------------------------------------

/// The decimal digit of value `d`.
pub open spec fn digit_char(d: nat) -> char {
    (48 + d) as char
}

/// The decimal notation of `n`, without leading zeros.
pub open spec fn decimal_text(n: nat) -> Seq<char>
    decreases n,
{
    if n < 10 {
        seq![digit_char(n)]
    } else {
        decimal_text(n / 10).push(digit_char(n % 10))
    }
}

/// The decimal notation of an integer, with `-` before a negative one.
pub open spec fn integer_text(n: int) -> Seq<char> {
    if n < 0 {
        seq!['-'] + decimal_text((-n) as nat)
    } else {
        decimal_text(n as nat)
    }
}

/// The decimal notation of `n`, padded with zeros on the left to at least
/// `width` digits.
pub open spec fn padded_text(n: nat, width: nat) -> Seq<char> {
    let d = decimal_text(n);
    if d.len() >= width {
        d
    } else {
        Seq::new((width - d.len()) as nat, |i: int| '0') + d
    }
}

/// Formats an unsigned number.
pub fn decimal(n: u64) -> (r: String)
    ensures
        r@ == decimal_text(n as nat),
    decreases n,
{
    if n < 10 {
        let mut s = String::new();
        s.push((48u8 + n as u8) as char);
        assert(s@ =~= seq![digit_char(n as nat)]);
        s
    } else {
        let mut s = decimal(n / 10);
        s.push((48u8 + (n % 10) as u8) as char);
        s
    }
}

/// Formats a signed number.
pub fn integer(n: i64) -> (r: String)
    ensures
        r@ == integer_text(n as int),
{
    if n < 0 {
        let magnitude: i128 = -(n as i128);
        let mut s = String::new();
        s.push('-');
        s.append(decimal(magnitude as u64).as_str());
        assert(s@ =~= seq!['-'] + decimal_text(magnitude as nat));
        s
    } else {
        decimal(n as u64)
    }
}

/// Formats a number with at least `width` digits.
pub fn padded(n: u64, width: usize) -> (r: String)
    ensures
        r@ == padded_text(n as nat, width as nat),
{
    let digits = decimal(n);
    let len = chars_of(digits.as_str()).len();
    let mut s = String::new();
    let mut i: usize = len;
    while i < width
        invariant
            len == digits@.len(),
            len <= i,
            i <= width || i == len,
            s@ == Seq::new((i - len) as nat, |k: int| '0'),
        decreases width - i,
    {
        s.push('0');
        i = i + 1;
        assert(s@ =~= Seq::new((i - len) as nat, |k: int| '0'));
    }
    s.append(digits.as_str());
    assert(len >= width ==> s@ =~= digits@);
    s
}

// ---- trimming ---------------------------------------------------------

/// Whether `c` has the Unicode property `White_Space`.
pub open spec fn is_white_space(c: char) -> bool {
    let u = c as u32;
    ||| 0x09 <= u <= 0x0d
    ||| u == 0x20
    ||| u == 0x85
    ||| u == 0xa0
    ||| u == 0x1680
    ||| 0x2000 <= u <= 0x200a
    ||| u == 0x2028
    ||| u == 0x2029
    ||| u == 0x202f
    ||| u == 0x205f
    ||| u == 0x3000
}

/// A set of characters to strip.
pub enum CharClass {
    WhiteSpace,
    Exactly(char),
}

impl CharClass {
    pub open spec fn contains(self, c: char) -> bool {
        match self {
            CharClass::WhiteSpace => is_white_space(c),
            CharClass::Exactly(d) => c == d,
        }
    }

    fn has(&self, c: char) -> (r: bool)
        ensures
            r == self.contains(c),
    {
        match self {
            CharClass::WhiteSpace => {
                let u = c as u32;
                (0x09 <= u && u <= 0x0d) || u == 0x20 || u == 0x85 || u == 0xa0 || u == 0x1680 || (
                0x2000 <= u && u <= 0x200a) || u == 0x2028 || u == 0x2029 || u == 0x202f || u
                    == 0x205f || u == 0x3000
            },
            CharClass::Exactly(d) => c == *d,
        }
    }
}

/// `s` without the characters of `class` at its start.
pub open spec fn strip_front(s: Seq<char>, class: CharClass) -> Seq<char>
    decreases s.len(),
{
    if s.len() > 0 && class.contains(s[0]) {
        strip_front(s.skip(1), class)
    } else {
        s
    }
}

/// `s` without the characters of `class` at its end.
pub open spec fn strip_back(s: Seq<char>, class: CharClass) -> Seq<char>
    decreases s.len(),
{
    if s.len() > 0 && class.contains(s.last()) {
        strip_back(s.drop_last(), class)
    } else {
        s
    }
}

/// `s` without white space at either end.
pub open spec fn trimmed(s: Seq<char>) -> Seq<char> {
    strip_back(strip_front(s, CharClass::WhiteSpace), CharClass::WhiteSpace)
}

fn skip_class(v: &Vec<char>, class: &CharClass) -> (r: usize)
    ensures
        r <= v.len(),
        v@.skip(r as int) == strip_front(v@, *class),
{
    let mut i: usize = 0;
    assert(v@.skip(0) =~= v@);
    while i < v.len() && class.has(v[i])
        invariant
            i <= v.len(),
            strip_front(v@.skip(i as int), *class) == strip_front(v@, *class),
        decreases v.len() - i,
    {
        assert(v@.skip(i as int).skip(1) =~= v@.skip(i + 1));
        i = i + 1;
    }
    i
}

fn drop_class(v: &Vec<char>, from: usize, class: &CharClass) -> (r: usize)
    requires
        from <= v.len(),
    ensures
        from <= r <= v.len(),
        v@.subrange(from as int, r as int) == strip_back(v@.skip(from as int), *class),
{
    let mut i: usize = v.len();
    assert(v@.subrange(from as int, v.len() as int) =~= v@.skip(from as int));
    while from < i && class.has(v[i - 1])
        invariant
            from <= i <= v.len(),
            strip_back(v@.subrange(from as int, i as int), *class) == strip_back(
                v@.skip(from as int),
                *class,
            ),
        decreases i,
    {
        assert(v@.subrange(from as int, i as int).drop_last() =~= v@.subrange(
            from as int,
            i - 1,
        ));
        i = i - 1;
    }
    i
}

/// The characters of `v` from `from` up to `to`.
pub fn slice_text(v: &Vec<char>, from: usize, to: usize) -> (r: String)
    requires
        from <= to <= v.len(),
    ensures
        r@ == v@.subrange(from as int, to as int),
{
    let mut out = String::new();
    let mut i: usize = from;
    while i < to
        invariant
            from <= i <= to <= v.len(),
            out@ == v@.subrange(from as int, i as int),
        decreases to - i,
    {
        assert(v@.subrange(from as int, i + 1) =~= v@.subrange(from as int, i as int).push(
            v@[i as int],
        ));
        out.push(v[i]);
        i = i + 1;
    }
    out
}

/// `s` without white space at either end.
pub fn trim(s: &str) -> (r: String)
    ensures
        r@ == trimmed(s@),
{
    let v = chars_of(s);
    let class = CharClass::WhiteSpace;
    let from = skip_class(&v, &class);
    let to = drop_class(&v, from, &class);
    slice_text(&v, from, to)
}

/// `s` without the leading characters that equal `c`.
pub fn trim_start_matches(s: &str, c: char) -> (r: String)
    ensures
        r@ == strip_front(s@, CharClass::Exactly(c)),
{
    let v = chars_of(s);
    let from = skip_class(&v, &CharClass::Exactly(c));
    assert(v@.subrange(from as int, v.len() as int) =~= v@.skip(from as int));
    slice_text(&v, from, v.len())
}

/// `s` without the trailing characters that equal `c`.
pub fn trim_end_matches(s: &str, c: char) -> (r: String)
    ensures
        r@ == strip_back(s@, CharClass::Exactly(c)),
{
    let v = chars_of(s);
    assert(v@.skip(0) =~= v@);
    let to = drop_class(&v, 0, &CharClass::Exactly(c));
    slice_text(&v, 0, to)
}

// ---- searching --------------------------------------------------------

/// `needle` stands in `hay` at `i`.
pub open spec fn occurs_at(hay: Seq<char>, needle: Seq<char>, i: int) -> bool {
    0 <= i && i + needle.len() <= hay.len() && hay.subrange(i, i + needle.len()) == needle
}

/// `needle` stands somewhere in `hay`.
pub open spec fn occurs(hay: Seq<char>, needle: Seq<char>) -> bool {
    exists|i: int| occurs_at(hay, needle, i)
}

/// `i` is the first place where `needle` stands in `hay`.
pub open spec fn first_occurrence(hay: Seq<char>, needle: Seq<char>, i: int) -> bool {
    occurs_at(hay, needle, i) && forall|j: int| 0 <= j < i ==> !occurs_at(hay, needle, j)
}

fn stands_at(hay: &Vec<char>, needle: &Vec<char>, i: usize) -> (r: bool)
    requires
        i <= hay.len(),
    ensures
        r == occurs_at(hay@, needle@, i as int),
{
    if needle.len() > hay.len() - i {
        return false;
    }
    let mut k: usize = 0;
    while k < needle.len()
        invariant
            k <= needle.len(),
            i + needle.len() <= hay.len(),
            forall|j: int| 0 <= j < k ==> hay@[i + j] == needle@[j],
        decreases needle.len() - k,
    {
        if hay[i + k] != needle[k] {
            assert(hay@.subrange(i as int, i + needle.len())[k as int] != needle@[k as int]);
            return false;
        }
        k = k + 1;
    }
    assert(hay@.subrange(i as int, i + needle.len()) =~= needle@);
    true
}

/// The first place where `needle` stands in `hay`, if there is one.
pub fn find(hay: &Vec<char>, needle: &Vec<char>) -> (r: Option<usize>)
    ensures
        match r {
            Some(i) => first_occurrence(hay@, needle@, i as int),
            None => !occurs(hay@, needle@),
        },
{
    let mut i: usize = 0;
    while i <= hay.len()
        invariant
            i <= hay.len() + 1,
            forall|j: int| 0 <= j < i ==> !occurs_at(hay@, needle@, j),
        decreases hay.len() + 1 - i,
    {
        if stands_at(hay, needle, i) {
            return Some(i);
        }
        if i == hay.len() {
            return None;
        }
        i = i + 1;
    }
    None
}

/// `s` with `new` put in place of what stands from `at` on for `len`
/// characters.
pub open spec fn spliced(s: Seq<char>, at: int, len: int, new: Seq<char>) -> Seq<char> {
    s.take(at) + new + s.skip(at + len)
}

/// `r` is `s` with the first occurrence of `old_part` replaced by `new`, or `s`
/// itself where there is none.
pub open spec fn replaced_first(
    s: Seq<char>,
    old_part: Seq<char>,
    new: Seq<char>,
    r: Seq<char>,
) -> bool {
    if occurs(s, old_part) {
        exists|i: int|
            #[trigger] first_occurrence(s, old_part, i) && r == spliced(
                s,
                i,
                old_part.len() as int,
                new,
            )
    } else {
        r == s
    }
}

/// Replaces the first occurrence of `old_part` in `s` by `new`.
pub fn replace_first(s: &str, old_part: &str, new: &str) -> (r: String)
    ensures
        replaced_first(s@, old_part@, new@, r@),
{
    let v = chars_of(s);
    let n = chars_of(old_part);
    match find(&v, &n) {
        Some(i) => {
            let mut out = slice_text(&v, 0, i);
            out.append(new);
            let tail = slice_text(&v, i + n.len(), v.len());
            out.append(tail.as_str());
            assert(v@.subrange(0, i as int) =~= v@.take(i as int));
            assert(v@.subrange(i + n.len(), v.len() as int) =~= v@.skip(i + n.len()));
            assert(out@ =~= spliced(s@, i as int, n.len() as int, new@));
            assert(occurs(s@, old_part@));
            out
        },
        None => s.to_owned(),
    }
}

// ---- splitting --------------------------------------------------------

/// The pieces of `s` between the occurrences of `c`.
pub open spec fn split_on(s: Seq<char>, c: char) -> Seq<Seq<char>>
    decreases s.len(),
{
    if s.len() == 0 {
        seq![Seq::<char>::empty()]
    } else {
        let r = split_on(s.drop_last(), c);
        if s.last() == c {
            r.push(Seq::<char>::empty())
        } else {
            r.drop_last().push(r.last().push(s.last()))
        }
    }
}

/// There is always at least one piece.
pub proof fn lemma_split_on_nonempty(s: Seq<char>, c: char)
    ensures
        split_on(s, c).len() >= 1,
    decreases s.len(),
{
    if s.len() > 0 {
        lemma_split_on_nonempty(s.drop_last(), c);
    }
}

/// Splits `s` at every `c`.
pub fn split(s: &str, c: char) -> (r: Vec<String>)
    ensures
        texts(r@) == split_on(s@, c),
        r@.len() >= 1,
{
    let v = chars_of(s);
    let mut done: Vec<String> = Vec::new();
    let mut cur = String::new();
    let mut i: usize = 0;
    assert(v@.take(0) =~= Seq::<char>::empty());
    assert(texts(done@).push(cur@) =~= split_on(v@.take(0), c));
    while i < v.len()
        invariant
            i <= v.len(),
            texts(done@).push(cur@) == split_on(v@.take(i as int), c),
        decreases v.len() - i,
    {
        assert(v@.take(i + 1).drop_last() =~= v@.take(i as int));
        let ghost before = texts(done@).push(cur@);
        let ghost done0 = done@;
        if v[i] == c {
            let piece = cur;
            cur = String::new();
            done.push(piece);
            assert(texts(done@) =~= before);
        } else {
            cur.push(v[i]);
            assert(before.drop_last() =~= texts(done@));
        }
        i = i + 1;
    }
    assert(v@.take(v@.len() as int) =~= v@);
    let ghost prior = done@;
    done.push(cur);
    assert(texts(done@) =~= texts(prior).push(cur@));
    done
}

// ---- what holds of texts ----------------------------------------------

/// The pieces with `c` between them.
pub open spec fn joined_by(pieces: Seq<Seq<char>>, c: char) -> Seq<char>
    decreases pieces.len(),
{
    if pieces.len() == 0 {
        Seq::empty()
    } else if pieces.len() == 1 {
        pieces[0]
    } else {
        joined_by(pieces.drop_last(), c) + seq![c] + pieces.last()
    }
}

/// The pieces of a text, put together again, are the text, and none of them holds
/// the character at which the text was split.
pub proof fn law_pieces_make_up_the_text(s: Seq<char>, c: char)
    ensures
        joined_by(split_on(s, c), c) == s,
        forall|i: int| 0 <= i < split_on(s, c).len() ==> !(#[trigger] split_on(s, c)[i]).contains(c),
    decreases s.len(),
{
    if s.len() > 0 {
        let head = s.drop_last();
        let r = split_on(head, c);
        let all = split_on(s, c);
        lemma_split_on_nonempty(head, c);
        law_pieces_make_up_the_text(head, c);
        assert(s =~= head + seq![s.last()]);
        if s.last() == c {
            assert(all.drop_last() =~= r);
            assert(joined_by(all, c) =~= s);
        } else {
            let longer = r.last().push(s.last());
            assert(all.drop_last() =~= r.drop_last());
            assert(all.last() == longer);
            assert forall|i: int| 0 <= i < all.len() implies !(#[trigger] all[i]).contains(c) by {
                if i < r.len() - 1 {
                    assert(all[i] == r[i]);
                } else {
                    assert(!r[r.len() - 1].contains(c));
                    assert forall|k: int| 0 <= k < longer.len() implies longer[k] != c by {
                        if k < r.last().len() {
                            assert(r.last()[k] == longer[k]);
                            assert(r.last().contains(r.last()[k]));
                        }
                    }
                }
            }
            if r.len() == 1 {
                assert(r.last() == r[0]);
                assert(joined_by(all, c) =~= s);
            } else {
                assert(joined_by(all, c) =~= joined_by(r, c).push(s.last()));
                assert(joined_by(all, c) =~= s);
            }
        }
    }
}

/// A text without the character is one piece.
pub proof fn lemma_split_whole(s: Seq<char>, c: char)
    requires
        !s.contains(c),
    ensures
        split_on(s, c) == seq![s],
    decreases s.len(),
{
    if s.len() > 0 {
        let head = s.drop_last();
        assert forall|k: int| 0 <= k < head.len() implies head[k] != c by {
            assert(s.contains(s[k]));
        }
        lemma_split_whole(head, c);
        assert(s.contains(s[s.len() - 1]));
        assert(head.push(s.last()) =~= s);
        assert(split_on(s, c) =~= seq![s]);
    } else {
        assert(s =~= Seq::<char>::empty());
    }
}

/// What stands behind the last of the characters is the last piece.
pub proof fn lemma_split_last(a: Seq<char>, b: Seq<char>, c: char)
    requires
        !b.contains(c),
    ensures
        split_on(a + seq![c] + b, c) == split_on(a, c).push(b),
    decreases b.len(),
{
    let s = a + seq![c] + b;
    if b.len() == 0 {
        assert(s.drop_last() =~= a);
        assert(b =~= Seq::<char>::empty());
    } else {
        let head = b.drop_last();
        assert forall|k: int| 0 <= k < head.len() implies head[k] != c by {
            assert(b.contains(b[k]));
        }
        lemma_split_last(a, head, c);
        assert(s.drop_last() =~= a + seq![c] + head);
        assert(b.contains(b[b.len() - 1]));
        assert(head.push(b.last()) =~= b);
        assert(split_on(s, c) =~= split_on(a, c).push(b));
    }
}

proof fn lemma_front(s: Seq<char>, class: CharClass) -> (i: int)
    ensures
        0 <= i <= s.len(),
        strip_front(s, class) == s.skip(i),
        forall|k: int| 0 <= k < i ==> class.contains(#[trigger] s[k]),
        i < s.len() ==> !class.contains(s[i]),
    decreases s.len(),
{
    if s.len() > 0 && class.contains(s[0]) {
        let i = lemma_front(s.skip(1), class);
        assert(s.skip(1).skip(i) =~= s.skip(i + 1));
        assert forall|k: int| 0 <= k < i + 1 implies class.contains(#[trigger] s[k]) by {
            if k > 0 {
                assert(s[k] == s.skip(1)[k - 1]);
            }
        }
        i + 1
    } else {
        assert(s.skip(0) =~= s);
        0
    }
}

proof fn lemma_back(s: Seq<char>, class: CharClass) -> (j: int)
    ensures
        0 <= j <= s.len(),
        strip_back(s, class) == s.take(j),
        forall|k: int| j <= k < s.len() ==> class.contains(#[trigger] s[k]),
        j > 0 ==> !class.contains(s[j - 1]),
    decreases s.len(),
{
    if s.len() > 0 && class.contains(s.last()) {
        let j = lemma_back(s.drop_last(), class);
        assert(s.drop_last().take(j) =~= s.take(j));
        assert forall|k: int| j <= k < s.len() implies class.contains(#[trigger] s[k]) by {
            if k < s.len() - 1 {
                assert(s[k] == s.drop_last()[k]);
            }
        }
        j
    } else {
        assert(s.take(s.len() as int) =~= s);
        s.len() as int
    }
}

/// Stripping the front takes away characters of the class, and leaves nothing of
/// it at the front; stripping the back does the same there.
pub proof fn law_stripping(s: Seq<char>, class: CharClass)
    ensures
        exists|i: int|
            0 <= i <= s.len() && strip_front(s, class) == #[trigger] s.skip(i) && (forall|k: int|
                0 <= k < i ==> class.contains(#[trigger] s[k])) && (i < s.len() ==> !class.contains(
                s[i],
            )),
        exists|j: int|
            0 <= j <= s.len() && strip_back(s, class) == #[trigger] s.take(j) && (forall|k: int|
                j <= k < s.len() ==> class.contains(#[trigger] s[k])) && (j > 0 ==> !class.contains(
                s[j - 1],
            )),
{
    let i = lemma_front(s, class);
    let j = lemma_back(s, class);
    assert(strip_front(s, class) == s.skip(i));
    assert(strip_back(s, class) == s.take(j));
}

/// A trimmed text stands in the text, with nothing but white space around it, and
/// neither begins nor ends with white space.
pub proof fn law_trimming_takes_white_space_away(s: Seq<char>)
    ensures
        exists|i: int, j: int|
            0 <= i <= j <= s.len() && trimmed(s) == #[trigger] s.subrange(i, j) && (forall|k: int|
                0 <= k < s.len() && !(i <= k < j) ==> is_white_space(#[trigger] s[k])),
        trimmed(s).len() > 0 ==> !is_white_space(trimmed(s)[0]) && !is_white_space(
            trimmed(s).last(),
        ),
        is_white_space(' ') && is_white_space('\n') && is_white_space('\t') && is_white_space('\r'),
        forall|c: char| '!' <= c <= '~' ==> !#[trigger] is_white_space(c),
{
    let i = lemma_front(s, CharClass::WhiteSpace);
    let rest = s.skip(i);
    let n = lemma_back(rest, CharClass::WhiteSpace);
    let j = i + n;
    assert(trimmed(s) =~= s.subrange(i, j));
    assert forall|k: int| 0 <= k < s.len() && !(i <= k < j) implies is_white_space(
        #[trigger] s[k],
    ) by {
        if k >= j {
            assert(rest[k - i] == s[k]);
            assert(CharClass::WhiteSpace.contains(rest[k - i]));
        } else {
            assert(CharClass::WhiteSpace.contains(s[k]));
        }
    }
    if trimmed(s).len() > 0 {
        assert(trimmed(s)[0] == s[i]);
        assert(trimmed(s).last() == rest[n - 1]);
    }
}

/// The characters that count as white space are these and no others.
pub proof fn law_white_space_is_these_characters(c: char)
    ensures
        is_white_space(c) <==> {
            ||| c == '\t' || c == '\n' || c == '\u{b}' || c == '\u{c}' || c == '\r' || c == ' '
            ||| c == '\u{85}' || c == '\u{a0}' || c == '\u{1680}' || '\u{2000}' <= c <= '\u{200a}'
            ||| c == '\u{2028}' || c == '\u{2029}' || c == '\u{202f}' || c == '\u{205f}' || c
                == '\u{3000}'
        },
{
}

/// What stands between white space, and neither begins nor ends with it, is what
/// trimming gives back.
pub proof fn law_trimming_frees_what_stands_in_white_space(
    before: Seq<char>,
    middle: Seq<char>,
    after: Seq<char>,
)
    requires
        forall|i: int| 0 <= i < before.len() ==> is_white_space(#[trigger] before[i]),
        forall|i: int| 0 <= i < after.len() ==> is_white_space(#[trigger] after[i]),
        middle.len() > 0,
        !is_white_space(middle[0]),
        !is_white_space(middle.last()),
    ensures
        trimmed(before + middle + after) == middle,
{
    let s = before + middle + after;
    law_trimming_takes_white_space_away(s);
    let (i, j) = choose|i: int, j: int|
        0 <= i <= j <= s.len() && trimmed(s) == #[trigger] s.subrange(i, j) && (forall|k: int|
            0 <= k < s.len() && !(i <= k < j) ==> is_white_space(#[trigger] s[k]));
    let a = before.len() as int;
    let b = a + middle.len();
    assert(s[a] == middle[0]);
    assert(s[b - 1] == middle.last());
    assert(i <= a && b <= j);
    if i < a {
        assert(trimmed(s)[0] == s[i] == before[i]);
    }
    if b < j {
        assert(trimmed(s).last() == s[j - 1] == after[j - 1 - b]);
    }
    assert(s.subrange(a, b) =~= middle);
}

/// The number that decimal digits spell.
pub open spec fn number_spelled(s: Seq<char>) -> int
    decreases s.len(),
{
    if s.len() == 0 {
        0
    } else {
        number_spelled(s.drop_last()) * 10 + (s.last() as int - '0' as int)
    }
}

/// The decimal notation of a number is made of digits, does not begin with a zero
/// unless it is one, and spells the number.
pub proof fn law_decimal_notation_spells_the_number(n: nat)
    ensures
        number_spelled(decimal_text(n)) == n,
        decimal_text(n).len() > 0,
        forall|i: int|
            0 <= i < decimal_text(n).len() ==> '0' <= #[trigger] decimal_text(n)[i] <= '9',
        n > 0 ==> decimal_text(n)[0] != '0',
    decreases n,
{
    if n >= 10 {
        law_decimal_notation_spells_the_number(n / 10);
        assert(decimal_text(n).drop_last() =~= decimal_text(n / 10));
        assert(decimal_text(n)[0] == decimal_text(n / 10)[0]);
    } else {
        reveal_with_fuel(number_spelled, 2);
        assert(decimal_text(n).drop_last() =~= Seq::<char>::empty());
    }
}

/// Padding only puts zeros in front, as many as the width asks for.
pub proof fn law_padding_puts_zeros_in_front(n: nat, width: nat)
    ensures
        padded_text(n, width).len() == if decimal_text(n).len() > width {
            decimal_text(n).len()
        } else {
            width
        },
        padded_text(n, width).skip(padded_text(n, width).len() - decimal_text(n).len())
            == decimal_text(n),
        forall|i: int|
            0 <= i < padded_text(n, width).len() - decimal_text(n).len() ==> #[trigger] padded_text(
                n,
                width,
            )[i] == '0',
{
    let d = decimal_text(n);
    let p = padded_text(n, width);
    assert(p.skip(p.len() - d.len()) =~= d);
}

/// Replacing what stands first somewhere leaves everything before and behind it
/// as it was.
pub proof fn law_replacement_leaves_the_rest(
    before: Seq<char>,
    old_part: Seq<char>,
    after: Seq<char>,
    new: Seq<char>,
    r: Seq<char>,
)
    requires
        replaced_first(before + old_part + after, old_part, new, r),
        forall|j: int|
            0 <= j < before.len() ==> !#[trigger] occurs_at(before + old_part + after, old_part, j),
    ensures
        r == before + new + after,
{
    let s = before + old_part + after;
    assert(s.subrange(before.len() as int, before.len() + old_part.len() as int) =~= old_part);
    assert(occurs_at(s, old_part, before.len() as int));
    let i = choose|i: int|
        #[trigger] first_occurrence(s, old_part, i) && r == spliced(
            s,
            i,
            old_part.len() as int,
            new,
        );
    if i < before.len() {
        assert(!occurs_at(s, old_part, i));
    } else if i > before.len() {
        assert(!occurs_at(s, old_part, before.len() as int));
    }
    assert(s.take(i) =~= before);
    assert(s.skip(i + old_part.len()) =~= after);
}

/// The characters of a class that stand behind a text, or before it, are stripped,
/// and the text itself is left, where it does not end, or begin, with one.
pub proof fn law_stripping_leaves_the_text(core: Seq<char>, around: Seq<char>, class: CharClass)
    requires
        forall|i: int| 0 <= i < around.len() ==> class.contains(#[trigger] around[i]),
    ensures
        core.len() == 0 || !class.contains(core.last()) ==> strip_back(core + around, class)
            == core,
        core.len() == 0 || !class.contains(core[0]) ==> strip_front(around + core, class) == core,
{
    law_stripping(core + around, class);
    law_stripping(around + core, class);
    let n = core.len() as int;
    let m = around.len() as int;
    let s = core + around;
    let t = around + core;
    let j = choose|j: int|
        0 <= j <= s.len() && strip_back(s, class) == #[trigger] s.take(j) && (forall|k: int|
            j <= k < s.len() ==> class.contains(#[trigger] s[k])) && (j > 0 ==> !class.contains(
            s[j - 1],
        ));
    let i = choose|i: int|
        0 <= i <= t.len() && strip_front(t, class) == #[trigger] t.skip(i) && (forall|k: int|
            0 <= k < i ==> class.contains(#[trigger] t[k])) && (i < t.len() ==> !class.contains(
            t[i],
        ));
    if core.len() == 0 || !class.contains(core.last()) {
        if j > n {
            assert(s[j - 1] == around[j - 1 - n]);
        } else if j < n {
            assert(s[n - 1] == core.last());
        }
        assert(s.take(n) =~= core);
    }
    if core.len() == 0 || !class.contains(core[0]) {
        if i < m {
            assert(t[i] == around[i]);
        } else if i > m {
            assert(t[m] == core[0]);
        }
        assert(t.skip(m) =~= core);
    }
}

/// Of two texts that agree up to some place, the one with the smaller character there,
/// or that ends there, comes first; any two different texts are ordered one way.
pub proof fn law_first_difference_orders_texts(
    common: Seq<char>,
    a: char,
    b: char,
    x: Seq<char>,
    y: Seq<char>,
)
    requires
        (a as u32) < (b as u32),
    ensures
        text_lt(common.push(a) + x, common.push(b) + y),
        !text_lt(common.push(b) + y, common.push(a) + x),
        text_lt(common, common.push(a) + x),
        !text_lt(common.push(a) + x, common),
{
    let p = common.push(a) + x;
    let q = common.push(b) + y;
    let n = common.len() as int;
    assert(p[n] == a && q[n] == b);
    assert(precedes_at(p, q, n));
    assert(precedes_at(common, p, n));
    lemma_text_lt_irreflexive(p);
    lemma_text_lt_irreflexive(common);
    if text_lt(q, p) {
        lemma_text_lt_transitive(p, q, p);
    }
    if text_lt(p, common) {
        lemma_text_lt_transitive(common, p, common);
    }
}

/// Zeros in front of digits do not change the number that they spell.
pub proof fn law_padded_number_spells_the_number(n: nat, width: nat)
    ensures
        number_spelled(padded_text(n, width)) == n,
{
    law_decimal_notation_spells_the_number(n);
    let d = decimal_text(n);
    if d.len() < width {
        lemma_zeros_in_front(Seq::new((width - d.len()) as nat, |i: int| '0'), d);
    }
}

proof fn lemma_zeros_in_front(zeros: Seq<char>, d: Seq<char>)
    requires
        forall|i: int| 0 <= i < zeros.len() ==> #[trigger] zeros[i] == '0',
    ensures
        number_spelled(zeros + d) == number_spelled(d),
    decreases zeros.len() + d.len(),
{
    if d.len() > 0 {
        lemma_zeros_in_front(zeros, d.drop_last());
        assert((zeros + d).drop_last() =~= zeros + d.drop_last());
    } else if zeros.len() > 0 {
        lemma_zeros_in_front(zeros.drop_last(), d);
        assert((zeros + d).drop_last() =~= zeros.drop_last() + d);
        assert((zeros + d).last() == zeros[zeros.len() - 1]);
    } else {
        assert(zeros + d =~= d);
    }
}

/// How many digits a small number has.
pub proof fn law_small_numbers_have_few_digits(n: nat)
    ensures
        n < 10 ==> decimal_text(n).len() == 1,
        n < 100 ==> decimal_text(n).len() <= 2,
        n < 1_000 ==> decimal_text(n).len() <= 3,
        n < 10_000 ==> decimal_text(n).len() <= 4,
{
    reveal_with_fuel(decimal_text, 5);
}

/// A list of strings says the text of each, in order, and an optional string the text that
/// it holds.
pub proof fn law_lists_say_each_text(v: Seq<String>, i: int, o: Option<String>)
    ensures
        texts(v).len() == v.len(),
        0 <= i < v.len() ==> texts(v)[i] == v[i]@,
        o matches Some(s) ==> opt_text(o) == Some(s@),
        o is None ==> opt_text(o) is None,
{
}

} // verus!
