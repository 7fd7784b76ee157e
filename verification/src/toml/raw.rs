use vstd::prelude::*;
use crate::toml::value::{items_data, lemma_items_data, TomlData, TomlTable, TomlValue};

verus! {

/// A TOML value as the reader hands it over, variant for variant: a float
/// and a date are held by their text, a table by its entries in the order
/// in which the reader lists them.
pub enum RawToml {
    String(String),
    Integer(i64),
    Float(String),
    Boolean(bool),
    Datetime(String),
    Array(Vec<RawToml>),
    Table(Vec<(String, RawToml)>),
}

/// A `RawToml` by its plain values.
pub enum RawData {
    Str(Seq<char>),
    Int(int),
    Float(Seq<char>),
    Bool(bool),
    Datetime(Seq<char>),
    Array(Seq<RawData>),
    Table(Seq<(Seq<char>, RawData)>),
}

impl RawToml {
    pub open spec fn raw_data(self) -> RawData
        decreases self,
    {
        match self {
            RawToml::String(s) => RawData::Str(s@),
            RawToml::Integer(i) => RawData::Int(i as int),
            RawToml::Float(t) => RawData::Float(t@),
            RawToml::Boolean(b) => RawData::Bool(b),
            RawToml::Datetime(t) => RawData::Datetime(t@),
            RawToml::Array(items) => RawData::Array(raw_items(items@)),
            RawToml::Table(entries) => RawData::Table(raw_entries(entries@)),
        }
    }
}

impl View for RawToml {
    type V = RawData;

    open spec fn view(&self) -> RawData {
        self.raw_data()
    }
}

pub open spec fn raw_items(items: Seq<RawToml>) -> Seq<RawData>
    decreases items,
{
    if items.len() == 0 {
        Seq::empty()
    } else {
        raw_items(items.subrange(0, items.len() - 1)).push(items[items.len() - 1].raw_data())
    }
}

pub open spec fn raw_entries(entries: Seq<(String, RawToml)>) -> Seq<(Seq<char>, RawData)>
    decreases entries,
{
    if entries.len() == 0 {
        Seq::empty()
    } else {
        raw_entries(entries.subrange(0, entries.len() - 1)).push(
            (entries[entries.len() - 1].0@, entries[entries.len() - 1].1.raw_data()),
        )
    }
}

/// What a value as read means: a table is the map of its entries, where a
/// key listed twice keeps the value listed last.
pub open spec fn meaning(r: RawData) -> TomlData
    decreases r,
{
    match r {
        RawData::Str(s) => TomlData::Str(s),
        RawData::Int(i) => TomlData::Int(i),
        RawData::Float(t) => TomlData::Float(t),
        RawData::Bool(b) => TomlData::Bool(b),
        RawData::Datetime(t) => TomlData::Datetime(t),
        RawData::Array(items) => TomlData::Array(meaning_items(items)),
        RawData::Table(entries) => TomlData::Table(meaning_entries(entries)),
    }
}

pub open spec fn meaning_items(items: Seq<RawData>) -> Seq<TomlData>
    decreases items,
{
    if items.len() == 0 {
        Seq::empty()
    } else {
        meaning_items(items.subrange(0, items.len() - 1)).push(meaning(items[items.len() - 1]))
    }
}

pub open spec fn meaning_entries(entries: Seq<(Seq<char>, RawData)>) -> Map<Seq<char>, TomlData>
    decreases entries,
{
    if entries.len() == 0 {
        Map::empty()
    } else {
        meaning_entries(entries.subrange(0, entries.len() - 1)).insert(
            entries[entries.len() - 1].0,
            meaning(entries[entries.len() - 1].1),
        )
    }
}

proof fn lemma_raw_items(items: Seq<RawToml>)
    ensures
        raw_items(items).len() == items.len(),
        forall|i: int| 0 <= i < items.len() ==> #[trigger] raw_items(items)[i] == items[i].raw_data(),
    decreases items.len(),
{
    if items.len() > 0 {
        let front = items.subrange(0, items.len() - 1);
        lemma_raw_items(front);
        assert forall|i: int| 0 <= i < items.len() implies #[trigger] raw_items(items)[i]
            == items[i].raw_data() by {
            if i < items.len() - 1 {
                assert(front[i] == items[i]);
            }
        }
    }
}

proof fn lemma_meaning_items(items: Seq<RawData>)
    ensures
        meaning_items(items).len() == items.len(),
        forall|i: int| 0 <= i < items.len() ==> #[trigger] meaning_items(items)[i] == meaning(items[i]),
    decreases items.len(),
{
    if items.len() > 0 {
        let front = items.subrange(0, items.len() - 1);
        lemma_meaning_items(front);
        assert forall|i: int| 0 <= i < items.len() implies #[trigger] meaning_items(items)[i]
            == meaning(items[i]) by {
            if i < items.len() - 1 {
                assert(front[i] == items[i]);
            }
        }
    }
}

/// Reading keeps a value as the reader gives it: a string, an integer, a
/// float, a boolean and a date are the one read; an array has the items
/// read, each as it is read, in their order; a table has exactly the keys
/// listed, each with the value listed last for it.
pub proof fn law_reading_keeps_values(r: RawData)
    ensures
        r matches RawData::Str(s) ==> meaning(r) == TomlData::Str(s),
        r matches RawData::Int(i) ==> meaning(r) == TomlData::Int(i),
        r matches RawData::Float(t) ==> meaning(r) == TomlData::Float(t),
        r matches RawData::Bool(b) ==> meaning(r) == TomlData::Bool(b),
        r matches RawData::Datetime(t) ==> meaning(r) == TomlData::Datetime(t),
        r matches RawData::Array(items) ==> (meaning(r) matches TomlData::Array(v) && v.len()
            == items.len() && forall|i: int| 0 <= i < items.len() ==> v[i] == meaning(
            #[trigger] items[i],
        )),
        r matches RawData::Table(es) ==> (meaning(r) matches TomlData::Table(m) && (forall|
            k: Seq<char>,
        | #[trigger] m.contains_key(k) <==> exists|i: int| 0 <= i < es.len() && es[i].0 == k)
            && forall|j: int|
            0 <= j < es.len() && (forall|i: int| j < i < es.len() ==> es[i].0 != es[j].0)
                ==> #[trigger] m[es[j].0] == meaning(es[j].1)),
{
    match r {
        RawData::Array(items) => {
            lemma_meaning_items(items);
        },
        RawData::Table(es) => {
            lemma_meaning_entries(es);
        },
        _ => {},
    }
}

proof fn lemma_meaning_entries(es: Seq<(Seq<char>, RawData)>)
    ensures
        forall|k: Seq<char>|
            #[trigger] meaning_entries(es).contains_key(k) <==> exists|i: int|
                0 <= i < es.len() && es[i].0 == k,
        forall|j: int|
            0 <= j < es.len() && (forall|i: int| j < i < es.len() ==> es[i].0 != es[j].0)
                ==> #[trigger] meaning_entries(es)[es[j].0] == meaning(es[j].1),
    decreases es.len(),
{
    if es.len() > 0 {
        let front = es.subrange(0, es.len() - 1);
        let n = es.len() - 1;
        lemma_meaning_entries(front);
        assert forall|k: Seq<char>| #[trigger] meaning_entries(es).contains_key(k) <==> exists|
            i: int,
        | 0 <= i < es.len() && es[i].0 == k by {
            if exists|i: int| 0 <= i < es.len() && es[i].0 == k {
                let i = choose|i: int| 0 <= i < es.len() && es[i].0 == k;
                if i < n {
                    assert(front[i] == es[i]);
                }
            }
            if k != es[n].0 && meaning_entries(front).contains_key(k) {
                let i = choose|i: int| 0 <= i < front.len() && front[i].0 == k;
                assert(es[i] == front[i]);
            }
        }
        assert forall|j: int|
            0 <= j < es.len() && (forall|i: int| j < i < es.len() ==> es[i].0 != es[j].0)
                implies #[trigger] meaning_entries(es)[es[j].0] == meaning(es[j].1) by {
            if j < n {
                assert(front[j] == es[j]);
                assert forall|i: int| j < i < front.len() implies front[i].0 != front[j].0 by {
                    assert(front[i] == es[i]);
                }
                assert(es[n].0 != es[j].0);
            }
        }
    }
}

impl TomlValue {
    /// The value that `raw` stands for: a table holds, for a key listed
    /// twice, the value listed last.
    pub fn from_raw(raw: &RawToml) -> (v: TomlValue)
        ensures
            v.data() == meaning(raw@),
        decreases raw,
    {
        match raw {
            RawToml::String(s) => TomlValue::String(s.clone()),
            RawToml::Integer(i) => TomlValue::Integer(*i),
            RawToml::Float(t) => TomlValue::Float(t.clone()),
            RawToml::Boolean(b) => TomlValue::Boolean(*b),
            RawToml::Datetime(t) => TomlValue::Datetime(t.clone()),
            RawToml::Array(items) => {
                let mut out: Vec<TomlValue> = Vec::new();
                let mut i: usize = 0;
                while i < items.len()
                    invariant
                        *raw == RawToml::Array(*items),
                        i <= items@.len(),
                        out@.len() == i,
                        forall|j: int|
                            0 <= j < i ==> #[trigger] out@[j].data() == meaning(items@[j].raw_data()),
                    decreases items@.len() - i,
                {
                    proof {
                        assert(decreases_to!(raw => raw->Array_0));
                        assert(decreases_to!(items => items@));
                        assert(decreases_to!(items@ => items@[i as int]));
                    }
                    out.push(TomlValue::from_raw(&items[i]));
                    i = i + 1;
                }
                proof {
                    lemma_items_data(out@);
                    lemma_raw_items(items@);
                    lemma_meaning_items(raw_items(items@));
                    assert(items_data(out@) =~= meaning_items(raw_items(items@)));
                }
                TomlValue::Array(out)
            },
            RawToml::Table(entries) => {
                let mut table = TomlTable::new();
                let mut i: usize = 0;
                while i < entries.len()
                    invariant
                        *raw == RawToml::Table(*entries),
                        i <= entries@.len(),
                        table.contents() == meaning_entries(
                            raw_entries(entries@.subrange(0, i as int)),
                        ),
                    decreases entries@.len() - i,
                {
                    proof {
                        assert(decreases_to!(raw => raw->Table_0));
                        assert(decreases_to!(entries => entries@));
                        assert(decreases_to!(entries@ => entries@[i as int]));
                        assert(decreases_to!(entries@[i as int] => entries@[i as int].1));
                    }
                    let value = TomlValue::from_raw(&entries[i].1);
                    table.insert(entries[i].0.clone(), value);
                    proof {
                        let front = entries@.subrange(0, i as int);
                        let next = entries@.subrange(0, i + 1);
                        assert(next.subrange(0, next.len() - 1) =~= front);
                        assert(next[next.len() - 1] == entries@[i as int]);
                        let before = raw_entries(front);
                        let after = raw_entries(next);
                        assert(after == before.push(
                            (entries@[i as int].0@, entries@[i as int].1.raw_data()),
                        ));
                        assert(after.subrange(0, after.len() - 1) =~= before);
                    }
                    i = i + 1;
                }
                proof {
                    assert(entries@.subrange(0, entries@.len() as int) =~= entries@);
                }
                TomlValue::Table(table)
            },
        }
    }
}

} // verus!
