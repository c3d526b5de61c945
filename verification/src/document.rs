//! Configuration documents: nested tables of values, as TOML has them.

use vstd::prelude::*;
use toml::Value;
use crate::keymap::KeyMap;
use crate::{keymap, text};

verus! {

/// A table: values under text keys.
pub type Table = KeyMap<Item>;

/// A floating-point number, held in the notation in which the TOML writer gave it.
/// Only parsing a document makes one.
#[derive(Debug)]
pub struct FloatText {
    notation: String,
}

/// A date, a time or both, held in the notation in which the TOML writer gave it.
/// Only parsing a document makes one.
#[derive(Debug)]
pub struct DatetimeText {
    notation: String,
}

/// A value of a document.
#[derive(Debug)]
pub enum Item {
    Text(String),
    Integer(i64),
    Float(FloatText),
    Boolean(bool),
    Datetime(DatetimeText),
    Array(Vec<Item>),
    Table(Table),
}

/// What a value means.
pub enum ItemView {
    Text(Seq<char>),
    Integer(int),
    Float(Seq<char>),
    Boolean(bool),
    Datetime(Seq<char>),
    Array(Seq<ItemView>),
    Table(Map<Seq<char>, ItemView>),
}

impl View for FloatText {
    type V = Seq<char>;

    closed spec fn view(&self) -> Seq<char> {
        self.notation@
    }
}

impl View for DatetimeText {
    type V = Seq<char>;

    closed spec fn view(&self) -> Seq<char> {
        self.notation@
    }
}

impl View for Item {
    type V = ItemView;

    open spec fn view(&self) -> ItemView {
        item_view(*self)
    }
}

/// What a value means.
pub closed spec fn item_view(v: Item) -> ItemView
    decreases v,
{
    match v {
        Item::Text(s) => ItemView::Text(s@),
        Item::Integer(i) => ItemView::Integer(i as int),
        Item::Float(f) => ItemView::Float(f@),
        Item::Boolean(b) => ItemView::Boolean(b),
        Item::Datetime(d) => ItemView::Datetime(d@),
        Item::Array(a) => ItemView::Array(
            Seq::new(
                a@.len(),
                |i: int|
                    if 0 <= i < a@.len() {
                        item_view(a@[i])
                    } else {
                        arbitrary()
                    },
            ),
        ),
        Item::Table(t) => ItemView::Table(
            Map::new(
                |k: Seq<char>| t@.dom().contains(k),
                |k: Seq<char>|
                    if 0 <= t.place(k) < t.entries@.len() {
                        item_view(t.entries@[t.place(k)].1)
                    } else {
                        arbitrary()
                    },
            ),
        ),
    }
}

impl DatetimeText {
    /// The date or time in the notation in which TOML writes it.
    pub fn notation(&self) -> (r: String)
        ensures
            r@ == self@,
    {
        self.notation.clone()
    }
}

/// What a table holds.
pub open spec fn contents(t: Table) -> Map<Seq<char>, ItemView> {
    Map::new(|k: Seq<char>| t@.dom().contains(k), |k: Seq<char>| t@[k]@)
}

/// What a list of values holds.
pub open spec fn elements(a: Seq<Item>) -> Seq<ItemView> {
    Seq::new(a.len(), |i: int| a[i]@)
}

/// How each kind of value is read.
pub broadcast proof fn lemma_item_view(v: Item)
    ensures
        #[trigger] item_view(v) == match v {
            Item::Text(s) => ItemView::Text(s@),
            Item::Integer(i) => ItemView::Integer(i as int),
            Item::Float(f) => ItemView::Float(f@),
            Item::Boolean(b) => ItemView::Boolean(b),
            Item::Datetime(d) => ItemView::Datetime(d@),
            Item::Array(a) => ItemView::Array(elements(a@)),
            Item::Table(t) => ItemView::Table(contents(t)),
        },
{
    match v {
        Item::Array(a) => {
            assert(v@->Array_0 =~= elements(a@));
        },
        Item::Table(t) => {
            assert forall|k: Seq<char>| t@.dom().contains(k) implies v@->Table_0[k] == t@[k]@ by {
                t.lemma_place(k);
            }
            assert(v@->Table_0 =~= contents(t));
        },
        _ => {},
    }
}

impl Item {
    /// A copy of the value.
    pub fn duplicate(&self) -> (r: Item)
        ensures
            r@ == self@,
        decreases self,
    {
        broadcast use lemma_item_view;

        match self {
            Item::Text(s) => Item::Text(s.clone()),
            Item::Integer(i) => Item::Integer(*i),
            Item::Float(f) => Item::Float(FloatText { notation: f.notation.clone() }),
            Item::Boolean(b) => Item::Boolean(*b),
            Item::Datetime(d) => Item::Datetime(DatetimeText { notation: d.notation.clone() }),
            Item::Array(a) => {
                let mut out: Vec<Item> = Vec::new();
                let mut i: usize = 0;
                while i < a.len()
                    invariant
                        i <= a.len(),
                        *self == Item::Array(*a),
                        out@.len() == i,
                        forall|j: int| 0 <= j < i ==> (#[trigger] out@[j])@ == a@[j]@,
                    decreases a.len() - i,
                {
                    assert(decreases_to!(*self => self->Array_0));
                    assert(decreases_to!(*a => a@[i as int]));
                    out.push(a[i].duplicate());
                    i = i + 1;
                }
                assert(elements(out@) =~= elements(a@));
                Item::Array(out)
            },
            Item::Table(t) => Item::Table(duplicate_table(t)),
        }
    }
}

/// A copy of the table.
pub fn duplicate_table(t: &Table) -> (r: Table)
    ensures
        contents(r) == contents(*t),
    decreases t,
{
    let n = t.len();
    let mut out: Table = KeyMap::new();
    let mut i: usize = 0;
    while i < n
        invariant
            i <= n,
            n == t.keys().len(),
            n == t.values().len(),
            keymap::ascending(t.keys()),
            forall|k: Seq<char>|
                out@.dom().contains(k) <==> exists|j: int|
                    0 <= j < i && #[trigger] t.keys()[j] == k,
            forall|j: int|
                0 <= j < i ==> out@[#[trigger] t.keys()[j]]@ == t.values()[j]@,
        decreases n - i,
    {
        proof {
            keymap::lemma_value_smaller(*t, i as int);
        }
        let ghost before = out@;
        let v = t.value_at(i).duplicate();
        out.insert(t.key_at(i).to_owned(), v);
        proof {
            assert forall|k: Seq<char>| out@.dom().contains(k) implies exists|j: int|
                0 <= j < i + 1 && #[trigger] t.keys()[j] == k by {
                if k == t.keys()[i as int] {
                    assert(t.keys()[i as int] == k);
                } else {
                    assert(before.dom().contains(k));
                }
            }
            assert forall|j: int| 0 <= j < i + 1 implies out@[#[trigger] t.keys()[j]]@
                == t.values()[j]@ by {
                if t.keys()[j] == t.keys()[i as int] {
                    keymap::lemma_ascending_distinct(t.keys(), j, i as int);
                }
            }
        }
        i = i + 1;
    }
    proof {
        assert forall|k: Seq<char>| contents(*t).dom().contains(k) implies contents(
            out,
        ).dom().contains(k) && contents(out)[k] == contents(*t)[k] by {
            let j = t.keys().index_of(k);
            assert(t.keys()[j] == k);
            keymap::lemma_item(*t, j);
        }
        assert forall|k: Seq<char>| contents(out).dom().contains(k) implies contents(
            *t,
        ).dom().contains(k) by {}
        assert(contents(out) =~= contents(*t));
    }
    out
}

// ---- TOML text --------------------------------------------------------

/// `toml::Value`, which the conversions below take apart and put together.
#[verifier::external_type_specification]
#[verifier::external_body]
pub struct ExTomlValue(toml::Value);

/// The document that `toml::from_str` reads from a text, or its complaint.
pub uninterp spec fn toml_document(src: Seq<char>) -> Result<
    Map<Seq<char>, ItemView>,
    Seq<char>,
>;

/// The text that `toml::to_string_pretty` writes for a document, or its
/// complaint.
pub uninterp spec fn toml_pretty(t: Map<Seq<char>, ItemView>) -> Result<Seq<char>, Seq<char>>;

/// Arrays and tables are nested at most `depth` deep, and no key is the one under
/// which the parser expects a date.
pub open spec fn plain(v: ItemView, depth: nat) -> bool
    decreases depth,
{
    match v {
        ItemView::Array(a) => depth > 0 && forall|i: int|
            0 <= i < a.len() ==> plain(#[trigger] a[i], (depth - 1) as nat),
        ItemView::Table(m) => depth > 0 && forall|k: Seq<char>|
            #[trigger]
            m.dom().contains(k) ==> k != "$__toml_private_datetime"@ && plain(
                m[k],
                (depth - 1) as nat,
            ),
        _ => true,
    }
}

/// From `i` on, `q` stands 256 times in a row.
pub open spec fn long_run(s: Seq<char>, q: char, i: int) -> bool {
    forall|j: int| i <= j < i + 256 ==> s[j] == q
}

/// Nowhere do 256 equal quotation marks stand in a row, single or double ones.
pub open spec fn tame_text(s: Seq<char>) -> bool {
    forall|i: int, q: char|
        0 <= i <= s.len() - 256 && (q == '\'' || q == '"') ==> !#[trigger] long_run(s, q, i)
}

/// Every text in the value is tame.
pub open spec fn tame(v: ItemView) -> bool
    decreases v,
{
    match v {
        ItemView::Text(s) => tame_text(s),
        ItemView::Datetime(s) => tame_text(s),
        ItemView::Array(a) => forall|i: int| 0 <= i < a.len() ==> tame(#[trigger] a[i]),
        ItemView::Table(m) => forall|k: Seq<char>| #[trigger] m.dom().contains(k) ==> tame(m[k]),
        _ => true,
    }
}

/// Every text in the document is tame: the writer can count its quotation marks.
pub open spec fn tame_document(t: Map<Seq<char>, ItemView>) -> bool {
    tame(ItemView::Table(t))
}

/// A document whose text, once written, is certain to be read back as it was. The
/// parser takes at most 79 keys in one header and 79 arrays and inline tables within
/// each other, so that 80 levels, that of the document among them, are safe.
pub open spec fn plain_document(t: Map<Seq<char>, ItemView>) -> bool {
    plain(ItemView::Table(t), 80)
}

/// A value as the parser gives it, in which a table is the list of its items.
enum RawItem {
    Text(String),
    Integer(i64),
    Float(String),
    Boolean(bool),
    Datetime(String),
    Array(Vec<RawItem>),
    Table(Vec<(String, RawItem)>),
}

/// What a parsed value means.
spec fn raw_view(v: RawItem) -> ItemView
    decreases v,
{
    match v {
        RawItem::Text(s) => ItemView::Text(s@),
        RawItem::Integer(i) => ItemView::Integer(i as int),
        RawItem::Float(s) => ItemView::Float(s@),
        RawItem::Boolean(b) => ItemView::Boolean(b),
        RawItem::Datetime(s) => ItemView::Datetime(s@),
        RawItem::Array(a) => ItemView::Array(
            Seq::new(
                a@.len(),
                |i: int|
                    if 0 <= i < a@.len() {
                        raw_view(a@[i])
                    } else {
                        arbitrary()
                    },
            ),
        ),
        RawItem::Table(t) => ItemView::Table(raw_contents(t@)),
    }
}

/// What a list of parsed items means: a later item replaces an earlier one that
/// has the same key.
spec fn raw_contents(items: Seq<(String, RawItem)>) -> Map<Seq<char>, ItemView>
    decreases items,
{
    if items.len() == 0 {
        Map::empty()
    } else {
        let n = items.len() - 1;
        raw_contents(items.subrange(0, n)).insert(items[n].0@, raw_view(items[n].1))
    }
}

/// Takes a `toml::Value` apart, one variant for one.
#[verifier::external_body]
fn raw_from(v: Value) -> RawItem {
    match v {
        Value::String(s) => RawItem::Text(s),
        Value::Integer(i) => RawItem::Integer(i),
        Value::Boolean(b) => RawItem::Boolean(b),
        Value::Datetime(d) => RawItem::Datetime(d.to_string()),
        Value::Array(a) => RawItem::Array(a.into_iter().map(raw_from).collect()),
        Value::Table(t) => RawItem::Table(t.into_iter().map(|(k, v)| (k, raw_from(v))).collect()),
        Value::Float(_) => RawItem::Float(v.to_string()),
    }
}

/// Puts a `Value` together, one variant for one.
#[verifier::external_body]
fn item_into(v: &Item) -> Value {
    match v {
        Item::Text(s) => Value::String(s.clone()),
        Item::Integer(i) => Value::Integer(*i),
        Item::Float(f) => Value::Float(f.notation.parse().unwrap_or_default()),
        Item::Boolean(b) => Value::Boolean(*b),
        Item::Datetime(d) => d.notation.parse().map(Value::Datetime).unwrap_or(
            Value::String(d.notation.clone())),
        Item::Array(a) => Value::Array(a.iter().map(item_into).collect()),
        Item::Table(t) => Value::Table(
            t.entries.iter().map(|(k, v)| (k.clone(), item_into(v))).collect()),
    }
}

/// Reads a document with `toml::from_str`. The result is the document that the
/// text spells, as the list of its items, or the message of the error; either is
/// named [`toml_document`] of the text.
#[verifier::external_body]
fn read_toml(src: &str) -> (r: Result<Vec<(String, RawItem)>, String>)
    ensures
        match r {
            Ok(items) => toml_document(src@) == Ok::<Map<Seq<char>, ItemView>, Seq<char>>(
                raw_contents(items@),
            ),
            Err(e) => toml_document(src@) == Err::<Map<Seq<char>, ItemView>, Seq<char>>(e@),
        },
{
    match toml::from_str::<toml::Table>(src) {
        Ok(t) => Ok(t.into_iter().map(|(k, v)| (k, raw_from(v))).collect()),
        Err(e) => Err(e.to_string()),
    }
}

/// Writes a document with `toml::to_string_pretty`. The result is named
/// [`toml_pretty`] of the document. Reading a text so written gives the
/// document back, which is claimed of plain documents only. For numbers and dates
/// it rests on their notations, which are texts that this same writer gave. The
/// writer counts equal quotation marks in a row, and can count no more than 255.
#[verifier::external_body]
fn write_toml(t: &Table) -> (r: Result<String, String>)
    requires
        tame_document(contents(*t)),
    ensures
        match r {
            Ok(s) => {
                &&& toml_pretty(contents(*t)) == Ok::<Seq<char>, Seq<char>>(s@)
                &&& plain_document(contents(*t)) ==> toml_document(s@) == Ok::<
                    Map<Seq<char>, ItemView>,
                    Seq<char>,
                >(contents(*t))
            },
            Err(e) => toml_pretty(contents(*t)) == Err::<Seq<char>, Seq<char>>(e@),
        },
{
    let table: toml::Table =
        t.entries.iter().map(|(k, v)| (k.clone(), item_into(v))).collect();
    toml::to_string_pretty(&table).map_err(|e| e.to_string())
}

proof fn lemma_settled(items: Seq<(String, Item)>, raw: Seq<(String, RawItem)>)
    requires
        items.len() == raw.len(),
        forall|j: int|
            #![trigger items[j]]
            0 <= j < items.len() ==> items[j].0@ == raw[j].0@ && items[j].1@ == raw_view(raw[j].1),
    ensures
        keymap::items_map(items).map_values(|v: Item| v@) == raw_contents(raw),
    decreases items.len(),
{
    if items.len() > 0 {
        let n = items.len() - 1;
        assert(items.drop_last() =~= items.subrange(0, n));
        lemma_settled(items.subrange(0, n), raw.subrange(0, n));
        assert(items[n].0@ == raw[n].0@);
    }
    assert(keymap::items_map(items).map_values(|v: Item| v@) =~= raw_contents(raw));
}

/// The value that a parsed value stands for.
fn settle(v: &RawItem) -> (r: Item)
    ensures
        r@ == raw_view(*v),
    decreases v,
{
    broadcast use lemma_item_view;

    match v {
        RawItem::Text(s) => Item::Text(s.clone()),
        RawItem::Integer(i) => Item::Integer(*i),
        RawItem::Float(s) => Item::Float(FloatText { notation: s.clone() }),
        RawItem::Boolean(b) => Item::Boolean(*b),
        RawItem::Datetime(s) => Item::Datetime(DatetimeText { notation: s.clone() }),
        RawItem::Array(a) => {
            let mut out: Vec<Item> = Vec::new();
            let mut i: usize = 0;
            while i < a.len()
                invariant
                    i <= a.len(),
                    *v == RawItem::Array(*a),
                    out@.len() == i,
                    forall|j: int| 0 <= j < i ==> (#[trigger] out@[j])@ == raw_view(a@[j]),
                decreases a.len() - i,
            {
                assert(decreases_to!(*v => v->Array_0));
                assert(decreases_to!(*a => a@[i as int]));
                out.push(settle(&a[i]));
                i = i + 1;
            }
            assert(elements(out@) =~= raw_view(*v)->Array_0);
            Item::Array(out)
        },
        RawItem::Table(t) => Item::Table(settle_table(t)),
    }
}

/// The table that a list of parsed items stands for.
fn settle_table(items: &Vec<(String, RawItem)>) -> (r: Table)
    ensures
        contents(r) == raw_contents(items@),
    decreases items,
{
    let mut out: Vec<(String, Item)> = Vec::new();
    let mut i: usize = 0;
    while i < items.len()
        invariant
            i <= items.len(),
            out@.len() == i,
            forall|j: int|
                #![trigger out@[j]]
                0 <= j < i ==> out@[j].0@ == items@[j].0@ && out@[j].1@ == raw_view(items@[j].1),
        decreases items.len() - i,
    {
        assert(decreases_to!(*items => items@[i as int]));
        assert(decreases_to!(items@[i as int] => items@[i as int].1));
        let v = settle(&items[i].1);
        out.push((items[i].0.clone(), v));
        i = i + 1;
    }
    proof {
        lemma_settled(out@, items@);
    }
    let ghost all = out@;
    let r = KeyMap::from_items(out);
    assert(contents(r) =~= keymap::items_map(all).map_values(|v: Item| v@));
    r
}

fn has_long_run(v: &Vec<char>, q: char) -> (r: bool)
    ensures
        r == exists|i: int| 0 <= i <= v@.len() - 256 && #[trigger] long_run(v@, q, i),
{
    let mut count: usize = 0;
    let mut i: usize = 0;
    while i < v.len()
        invariant
            i <= v@.len(),
            count <= i,
            count < 256,
            forall|j: int| i - count <= j < i ==> v@[j] == q,
            count == i || v@[i - count - 1] != q,
            forall|k: int| 0 <= k <= i - 256 ==> !#[trigger] long_run(v@, q, k),
        decreases v@.len() - i,
    {
        if v[i] == q {
            count = count + 1;
            if count == 256 {
                assert(long_run(v@, q, i - 255));
                return true;
            }
        } else {
            count = 0;
        }
        i = i + 1;
        assert forall|k: int| 0 <= k <= i - 256 implies !#[trigger] long_run(v@, q, k) by {
            if k == i - 256 {
                assert(v@[i - count - 1] != q);
            }
        }
    }
    false
}

fn is_tame_text(s: &str) -> (r: bool)
    ensures
        r == tame_text(s@),
{
    let v = text::chars_of(s);
    let single = has_long_run(&v, '\'');
    let double = has_long_run(&v, '"');
    !single && !double
}

fn is_tame_item(v: &Item) -> (r: bool)
    ensures
        r == tame(v@),
    decreases v,
{
    broadcast use lemma_item_view;

    match v {
        Item::Text(s) => is_tame_text(s.as_str()),
        Item::Datetime(d) => is_tame_text(d.notation.as_str()),
        Item::Array(a) => {
            let mut i: usize = 0;
            while i < a.len()
                invariant
                    i <= a.len(),
                    *v == Item::Array(*a),
                    v@ == ItemView::Array(elements(a@)),
                    forall|j: int| 0 <= j < i ==> tame(#[trigger] elements(a@)[j]),
                decreases a.len() - i,
            {
                assert(decreases_to!(*v => v->Array_0));
                assert(decreases_to!(*a => a@[i as int]));
                assert(elements(a@)[i as int] == a@[i as int]@);
                if !is_tame_item(&a[i]) {
                    assert(!tame(v@->Array_0[i as int]));
                    return false;
                }
                i = i + 1;
            }
            true
        },
        Item::Table(t) => is_tame(t),
        _ => true,
    }
}

/// Whether every text in the document is tame.
pub fn is_tame(t: &Table) -> (r: bool)
    ensures
        r == tame_document(contents(*t)),
    decreases t,
{
    let n = t.len();
    let mut i: usize = 0;
    while i < n
        invariant
            i <= n,
            n == t.keys().len(),
            n == t.values().len(),
            keymap::ascending(t.keys()),
            forall|j: int| 0 <= j < i ==> tame((#[trigger] t.values()[j])@),
        decreases n - i,
    {
        proof {
            keymap::lemma_value_smaller(*t, i as int);
            keymap::lemma_item(*t, i as int);
        }
        if !is_tame_item(t.value_at(i)) {
            let ghost k = t.keys()[i as int];
            assert(contents(*t).dom().contains(k) && !tame(contents(*t)[k]));
            let ghost whole = ItemView::Table(contents(*t));
            assert(whole->Table_0.dom().contains(k));
            assert(!tame(whole));
            return false;
        }
        i = i + 1;
    }
    proof {
        assert forall|k: Seq<char>| #[trigger] contents(*t).dom().contains(k) implies tame(
            contents(*t)[k],
        ) by {
            let j = t.keys().index_of(k);
            assert(t.keys()[j] == k);
            keymap::lemma_item(*t, j);
            assert(tame(t.values()[j]@));
        }
    }
    true
}

/// Reads a document from its TOML text, or tells what the parser complains of.
pub fn parse_document(src: &str) -> (r: Result<Table, String>)
    ensures
        match r {
            Ok(t) => toml_document(src@) == Ok::<Map<Seq<char>, ItemView>, Seq<char>>(contents(t)),
            Err(e) => toml_document(src@) == Err::<Map<Seq<char>, ItemView>, Seq<char>>(e@),
        },
{
    match read_toml(src) {
        Ok(items) => Ok(settle_table(&items)),
        Err(e) => Err(e),
    }
}

/// Writes a tame document as TOML text, or tells what the writer complains of. The
/// text of a plain document is read back as that document.
pub fn write_document(t: &Table) -> (r: Result<String, String>)
    requires
        tame_document(contents(*t)),
    ensures
        match r {
            Ok(s) => {
                &&& toml_pretty(contents(*t)) == Ok::<Seq<char>, Seq<char>>(s@)
                &&& plain_document(contents(*t)) ==> toml_document(s@) == Ok::<
                    Map<Seq<char>, ItemView>,
                    Seq<char>,
                >(contents(*t))
            },
            Err(e) => toml_pretty(contents(*t)) == Err::<Seq<char>, Seq<char>>(e@),
        },
{
    write_toml(t)
}

/// A text is tame unless it holds 256 equal quotation marks in a row: a shorter one always
/// is, and one that has such a run is not.
pub proof fn law_only_long_runs_of_quotes_are_not_tame(
    before: Seq<char>,
    run: Seq<char>,
    after: Seq<char>,
    q: char,
)
    requires
        run.len() == 256,
        q == '"' || q == '\'',
        forall|i: int| 0 <= i < run.len() ==> #[trigger] run[i] == q,
    ensures
        !tame_text(before + run + after),
        before.len() < 256 ==> tame_text(before),
        !before.contains('"') && !before.contains('\'') ==> tame_text(before),
{
    let s = before + run + after;
    let n = before.len() as int;
    assert forall|j: int| n <= j < n + 256 implies s[j] == q by {
        assert(s[j] == run[j - n]);
    }
    assert(long_run(s, q, n));
    if !before.contains('"') && !before.contains('\'') {
        assert forall|i: int, p: char|
            0 <= i <= before.len() - 256 && (p == '\'' || p == '"') implies !#[trigger] long_run(
            before,
            p,
            i,
        ) by {
            assert(before.contains(before[i]));
        }
    }
}

/// A document is tame where every text in it is, however deep it stands.
pub proof fn law_document_is_tame_through_and_through(
    t: Map<Seq<char>, ItemView>,
    k: Seq<char>,
    a: Seq<ItemView>,
    i: int,
)
    requires
        tame_document(t),
        t.dom().contains(k),
    ensures
        t[k] matches ItemView::Text(s) ==> tame_text(s),
        t[k] matches ItemView::Table(m) ==> tame_document(m),
        t[k] == ItemView::Array(a) && 0 <= i < a.len() ==> tame(a[i]),
{
    let whole = ItemView::Table(t);
    assert(whole->Table_0.dom().contains(k));
    assert(tame(whole->Table_0[k]));
    if t[k] == ItemView::Array(a) && 0 <= i < a.len() {
        assert(tame(t[k]->Array_0[i]));
    }
}

} // verus!
