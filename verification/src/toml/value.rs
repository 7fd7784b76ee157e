use vstd::prelude::*;
use crate::text::chars_of;

verus! {

/// The mathematical content of a TOML value: what a document means,
/// independent of how its tables are laid out in memory.
pub enum TomlData {
    Str(Seq<char>),
    Int(int),
    Float(Seq<char>),
    Bool(bool),
    Datetime(Seq<char>),
    Array(Seq<TomlData>),
    Table(Map<Seq<char>, TomlData>),
}

/// A TOML value as the library holds it.
pub enum TomlValue {
    String(String),
    Integer(i64),
    /// A float, held by its decimal text; the library never reads it.
    Float(String),
    Boolean(bool),
    /// A date or time, held by its TOML text; the library never reads it.
    Datetime(String),
    Array(Vec<TomlValue>),
    Table(TomlTable),
}

/// A TOML table: its entries in ascending order of their keys, as a sorted map
/// keeps them.
pub struct TomlTable {
    entries: Vec<(String, TomlValue)>,
}

impl TomlValue {
    pub open spec fn data(self) -> TomlData
        decreases self,
    {
        match self {
            TomlValue::String(s) => TomlData::Str(s@),
            TomlValue::Integer(i) => TomlData::Int(i as int),
            TomlValue::Float(t) => TomlData::Float(t@),
            TomlValue::Boolean(b) => TomlData::Bool(b),
            TomlValue::Datetime(s) => TomlData::Datetime(s@),
            TomlValue::Array(items) => TomlData::Array(items_data(items@)),
            TomlValue::Table(t) => TomlData::Table(entries_map(t.entry_seq())),
        }
    }
}

pub open spec fn items_data(items: Seq<TomlValue>) -> Seq<TomlData>
    decreases items,
{
    if items.len() == 0 {
        Seq::empty()
    } else {
        items_data(items.subrange(0, items.len() - 1)).push(items[items.len() - 1].data())
    }
}

pub open spec fn entries_data(entries: Seq<(String, TomlValue)>) -> Seq<(Seq<char>, TomlData)>
    decreases entries,
{
    if entries.len() == 0 {
        Seq::empty()
    } else {
        entries_data(entries.subrange(0, entries.len() - 1)).push(
            (entries[entries.len() - 1].0@, entries[entries.len() - 1].1.data()),
        )
    }
}

/// The map that a sequence of entries with distinct keys stands for.
pub open spec fn entries_map(s: Seq<(Seq<char>, TomlData)>) -> Map<Seq<char>, TomlData> {
    Map::new(
        |k: Seq<char>| exists|i: int| 0 <= i < s.len() && s[i].0 == k,
        |k: Seq<char>| s[choose|i: int| 0 <= i < s.len() && s[i].0 == k].1,
    )
}

/// No key occurs twice among the entries.
pub open spec fn keys_unique(s: Seq<(Seq<char>, TomlData)>) -> bool {
    forall|i: int, j: int| 0 <= i < s.len() && 0 <= j < s.len() && i != j ==> s[i].0 != s[j].0
}

/// Key `a` comes before key `b`: the order of `String`, character by character.
pub open spec fn key_less(a: Seq<char>, b: Seq<char>) -> bool
    decreases a.len(),
{
    if b.len() == 0 {
        false
    } else if a.len() == 0 {
        true
    } else if a[0] < b[0] {
        true
    } else if a[0] == b[0] {
        key_less(a.drop_first(), b.drop_first())
    } else {
        false
    }
}

/// The keys of the entries come in strictly ascending order.
pub open spec fn keys_sorted(s: Seq<(Seq<char>, TomlData)>) -> bool {
    forall|i: int, j: int| 0 <= i < j < s.len() ==> key_less(#[trigger] s[i].0, #[trigger] s[j].0)
}

/// Where a new key `k` goes among sorted entries: after the smaller keys,
/// before the larger ones.
pub open spec fn is_insert_position(s: Seq<(Seq<char>, TomlData)>, k: Seq<char>, p: int) -> bool {
    &&& 0 <= p <= s.len()
    &&& forall|i: int| 0 <= i < p ==> key_less(#[trigger] s[i].0, k)
    &&& forall|i: int| p <= i < s.len() ==> key_less(k, #[trigger] s[i].0)
}

/// The entries after `insert`: the value of an existing key is replaced in
/// place, a new key goes where its order puts it.
pub open spec fn entries_insert(
    s: Seq<(Seq<char>, TomlData)>,
    k: Seq<char>,
    v: TomlData,
) -> Seq<(Seq<char>, TomlData)> {
    if exists|i: int| 0 <= i < s.len() && s[i].0 == k {
        s.update(choose|i: int| 0 <= i < s.len() && s[i].0 == k, (k, v))
    } else {
        s.insert(choose|p: int| is_insert_position(s, k, p), (k, v))
    }
}

pub proof fn lemma_key_less_irreflexive(a: Seq<char>)
    ensures
        !key_less(a, a),
    decreases a.len(),
{
    if a.len() > 0 {
        lemma_key_less_irreflexive(a.drop_first());
    }
}

pub proof fn lemma_key_less_transitive(a: Seq<char>, b: Seq<char>, c: Seq<char>)
    requires
        key_less(a, b),
        key_less(b, c),
    ensures
        key_less(a, c),
    decreases a.len(),
{
    if a.len() > 0 && b.len() > 0 && c.len() > 0 && a[0] == b[0] && b[0] == c[0] {
        lemma_key_less_transitive(a.drop_first(), b.drop_first(), c.drop_first());
    }
}

pub proof fn lemma_key_less_total(a: Seq<char>, b: Seq<char>)
    ensures
        a == b || key_less(a, b) || key_less(b, a),
    decreases a.len(),
{
    if a.len() > 0 && b.len() > 0 && a[0] == b[0] {
        lemma_key_less_total(a.drop_first(), b.drop_first());
        if a.drop_first() == b.drop_first() {
            assert(a =~= seq![a[0]] + a.drop_first());
            assert(b =~= seq![b[0]] + b.drop_first());
        }
    } else if a.len() == 0 && b.len() == 0 {
        assert(a =~= b);
    }
}

/// Keys with a common beginning compare as what follows it.
pub proof fn lemma_key_less_skip(a: Seq<char>, b: Seq<char>, i: int)
    requires
        0 <= i <= a.len(),
        i <= b.len(),
        a.take(i) == b.take(i),
    ensures
        key_less(a, b) == key_less(a.skip(i), b.skip(i)),
    decreases i,
{
    if i == 0 {
        assert(a.skip(0) =~= a);
        assert(b.skip(0) =~= b);
    } else {
        assert(a.take(i - 1) =~= a.take(i).take(i - 1));
        assert(b.take(i - 1) =~= b.take(i).take(i - 1));
        lemma_key_less_skip(a, b, i - 1);
        assert(a[i - 1] == a.take(i)[i - 1]);
        assert(b[i - 1] == b.take(i)[i - 1]);
        assert(a.skip(i - 1).drop_first() =~= a.skip(i));
        assert(b.skip(i - 1).drop_first() =~= b.skip(i));
    }
}

/// Sorted entries have distinct keys.
pub proof fn lemma_sorted_unique(s: Seq<(Seq<char>, TomlData)>)
    requires
        keys_sorted(s),
    ensures
        keys_unique(s),
{
    assert forall|i: int, j: int| 0 <= i < s.len() && 0 <= j < s.len() && i != j implies s[i].0
        != s[j].0 by {
        lemma_key_less_irreflexive(s[i].0);
        if i < j {
            assert(key_less(s[i].0, s[j].0));
        } else {
            assert(key_less(s[j].0, s[i].0));
        }
    }
}

pub proof fn lemma_items_data(items: Seq<TomlValue>)
    ensures
        items_data(items).len() == items.len(),
        forall|i: int| 0 <= i < items.len() ==> #[trigger] items_data(items)[i] == items[i].data(),
    decreases items.len(),
{
    if items.len() > 0 {
        let front = items.subrange(0, items.len() - 1);
        lemma_items_data(front);
        assert forall|i: int| 0 <= i < items.len() implies #[trigger] items_data(items)[i]
            == items[i].data() by {
            if i < items.len() - 1 {
                assert(front[i] == items[i]);
            }
        }
    }
}

pub proof fn lemma_entries_data(entries: Seq<(String, TomlValue)>)
    ensures
        entries_data(entries).len() == entries.len(),
        forall|i: int|
            0 <= i < entries.len() ==> #[trigger] entries_data(entries)[i] == (
            entries[i].0@,
            entries[i].1.data(),
        ),
    decreases entries.len(),
{
    if entries.len() > 0 {
        let front = entries.subrange(0, entries.len() - 1);
        lemma_entries_data(front);
        assert forall|i: int| 0 <= i < entries.len() implies #[trigger] entries_data(entries)[i]
            == (entries[i].0@, entries[i].1.data()) by {
            if i < entries.len() - 1 {
                assert(front[i] == entries[i]);
            }
        }
    }
}

/// Inserting into sorted entries keeps them sorted, and the map they stand
/// for gains exactly the inserted binding.
pub proof fn lemma_entries_insert(s: Seq<(Seq<char>, TomlData)>, k: Seq<char>, v: TomlData)
    requires
        keys_sorted(s),
        (exists|i: int| 0 <= i < s.len() && s[i].0 == k) || (exists|p: int|
            is_insert_position(s, k, p)),
    ensures
        keys_sorted(entries_insert(s, k, v)),
        entries_map(entries_insert(s, k, v)) =~= entries_map(s).insert(k, v),
{
    lemma_sorted_unique(s);
    let t = entries_insert(s, k, v);
    if exists|i: int| 0 <= i < s.len() && s[i].0 == k {
        let idx = choose|i: int| 0 <= i < s.len() && s[i].0 == k;
        assert forall|i: int, j: int| 0 <= i < j < t.len() implies key_less(
            #[trigger] t[i].0,
            #[trigger] t[j].0,
        ) by {
            assert(key_less(s[i].0, s[j].0));
        }
        assert forall|kk: Seq<char>| #[trigger] entries_map(t).contains_key(kk)
            == entries_map(s).insert(k, v).contains_key(kk) by {
            if kk != k && entries_map(s).contains_key(kk) {
                let j = choose|j: int| 0 <= j < s.len() && s[j].0 == kk;
                assert(t[j].0 == kk);
            }
            if kk == k {
                assert(t[idx].0 == kk);
            }
        }
        assert forall|kk: Seq<char>| #[trigger] entries_map(t).contains_key(kk) implies entries_map(
            t,
        )[kk] == entries_map(s).insert(k, v)[kk] by {
            let j = choose|j: int| 0 <= j < t.len() && t[j].0 == kk;
            if kk == k {
                assert(j == idx);
            } else {
                let j2 = choose|j2: int| 0 <= j2 < s.len() && s[j2].0 == kk;
                assert(s[j].0 == kk);
                assert(j == j2);
            }
        }
    } else {
        let p = choose|p: int| is_insert_position(s, k, p);
        assert(t == s.insert(p, (k, v)));
        assert forall|i: int, j: int| 0 <= i < j < t.len() implies key_less(
            #[trigger] t[i].0,
            #[trigger] t[j].0,
        ) by {
            if j < p {
                assert(key_less(s[i].0, s[j].0));
            } else if j == p {
                assert(key_less(s[i].0, k));
            } else if i < p {
                assert(key_less(s[i].0, s[j - 1].0));
            } else if i == p {
                assert(key_less(k, s[j - 1].0));
            } else {
                assert(key_less(s[i - 1].0, s[j - 1].0));
            }
        }
        lemma_sorted_unique(t);
        assert forall|kk: Seq<char>| #[trigger] entries_map(t).contains_key(kk)
            == entries_map(s).insert(k, v).contains_key(kk) by {
            if kk != k && entries_map(s).contains_key(kk) {
                let j = choose|j: int| 0 <= j < s.len() && s[j].0 == kk;
                if j < p {
                    assert(t[j].0 == kk);
                } else {
                    assert(t[j + 1].0 == kk);
                }
            }
            if kk == k {
                assert(t[p].0 == kk);
            }
            if entries_map(t).contains_key(kk) && kk != k {
                let j = choose|j: int| 0 <= j < t.len() && t[j].0 == kk;
                if j < p {
                    assert(s[j].0 == kk);
                } else {
                    assert(j != p);
                    assert(s[j - 1].0 == kk);
                }
            }
        }
        assert forall|kk: Seq<char>| #[trigger] entries_map(t).contains_key(kk) implies entries_map(
            t,
        )[kk] == entries_map(s).insert(k, v)[kk] by {
            let j = choose|j: int| 0 <= j < t.len() && t[j].0 == kk;
            if kk == k {
                assert(t[p].0 == kk);
                assert(j == p);
            } else {
                let j2 = choose|j2: int| 0 <= j2 < s.len() && s[j2].0 == kk;
                if j < p {
                    assert(s[j].0 == kk);
                    assert(j == j2);
                } else {
                    assert(j != p);
                    assert(s[j - 1].0 == kk);
                    assert(j - 1 == j2);
                }
            }
        }
    }
}

/// In entries with distinct keys, the map holds each entry's value under its key.
pub proof fn lemma_entries_map_lookup(s: Seq<(Seq<char>, TomlData)>, i: int)
    requires
        keys_unique(s),
        0 <= i < s.len(),
    ensures
        entries_map(s).contains_key(s[i].0),
        entries_map(s)[s[i].0] == s[i].1,
{
    let j = choose|j: int| 0 <= j < s.len() && s[j].0 == s[i].0;
    assert(j == i);
}

impl TomlTable {
    #[verifier::type_invariant]
    closed spec fn keys_in_order(self) -> bool {
        forall|i: int, j: int|
            0 <= i < j < self.entries@.len() ==> key_less(
                #[trigger] self.entries@[i].0@,
                #[trigger] self.entries@[j].0@,
            )
    }

    /// The entries of the table, in order, by their meaning.
    pub closed spec fn entry_seq(self) -> Seq<(Seq<char>, TomlData)>
        decreases self,
    {
        entries_data(self.entries@)
    }

    /// The table as a map from keys to values.
    pub open spec fn contents(self) -> Map<Seq<char>, TomlData> {
        entries_map(self.entry_seq())
    }

    proof fn lemma_unique(&self)
        requires
            self.keys_in_order(),
        ensures
            keys_sorted(self.entry_seq()),
            keys_unique(self.entry_seq()),
            self.entry_seq().len() == self.entries@.len(),
            forall|i: int|
                0 <= i < self.entries@.len() ==> #[trigger] self.entry_seq()[i] == (
                self.entries@[i].0@,
                self.entries@[i].1.data(),
            ),
    {
        lemma_entries_data(self.entries@);
        assert forall|a: int, b: int| 0 <= a < b < self.entry_seq().len() implies key_less(
            #[trigger] self.entry_seq()[a].0,
            #[trigger] self.entry_seq()[b].0,
        ) by {
            assert(key_less(self.entries@[a].0@, self.entries@[b].0@));
        }
        lemma_sorted_unique(self.entry_seq());
    }

    /// An empty table.
    pub fn new() -> (t: TomlTable)
        ensures
            t.entry_seq() == Seq::<(Seq<char>, TomlData)>::empty(),
            t.contents() == Map::<Seq<char>, TomlData>::empty(),
    {
        let t = TomlTable { entries: Vec::new() };
        proof {
            lemma_entries_data(t.entries@);
            assert(t.entry_seq() =~= Seq::<(Seq<char>, TomlData)>::empty());
            assert(t.contents() =~= Map::<Seq<char>, TomlData>::empty());
        }
        t
    }

    /// The number of entries.
    pub fn len(&self) -> (n: usize)
        ensures
            n == self.entry_seq().len(),
    {
        proof {
            use_type_invariant(self);
            self.lemma_unique();
        }
        self.entries.len()
    }

    /// The entries in ascending order of their keys.
    pub fn entries(&self) -> (r: &Vec<(String, TomlValue)>)
        ensures
            entries_data(r@) == self.entry_seq(),
            keys_sorted(self.entry_seq()),
            keys_unique(self.entry_seq()),
    {
        proof {
            use_type_invariant(self);
            self.lemma_unique();
        }
        &self.entries
    }

    /// Where `key` stands among the entries, if it does.
    fn position(&self, key: &String) -> (r: Option<usize>)
        ensures
            match r {
                Some(i) => i < self.entries@.len() && self.entries@[i as int].0@ == key@,
                None => forall|i: int|
                    0 <= i < self.entries@.len() ==> self.entries@[i].0@ != key@,
            },
    {
        let mut i: usize = 0;
        while i < self.entries.len()
            invariant
                i <= self.entries@.len(),
                forall|j: int| 0 <= j < i ==> self.entries@[j].0@ != key@,
            decreases self.entries@.len() - i,
        {
            if self.entries[i].0 == *key {
                return Some(i);
            }
            i = i + 1;
        }
        None
    }

    /// Whether the table has an entry for `key`.
    pub fn contains_key(&self, key: &str) -> (r: bool)
        ensures
            r == self.contents().contains_key(key@),
    {
        proof {
            use_type_invariant(self);
            self.lemma_unique();
        }
        let k = String::from_str(key);
        match self.position(&k) {
            Some(i) => {
                proof {
                    lemma_entries_map_lookup(self.entry_seq(), i as int);
                }
                true
            },
            None => false,
        }
    }

    /// The value that the table holds for `key`.
    pub fn get(&self, key: &str) -> (r: Option<&TomlValue>)
        ensures
            match r {
                Some(v) => self.contents().contains_key(key@) && self.contents()[key@] == v.data(),
                None => !self.contents().contains_key(key@),
            },
    {
        proof {
            use_type_invariant(self);
            self.lemma_unique();
        }
        let k = String::from_str(key);
        match self.position(&k) {
            Some(i) => {
                proof {
                    lemma_entries_map_lookup(self.entry_seq(), i as int);
                }
                Some(&self.entries[i].1)
            },
            None => None,
        }
    }

    /// Where `key` goes among the entries: the first entry whose key is not
    /// smaller.
    fn insert_position(&self, key: &String) -> (r: usize)
        requires
            self.keys_in_order(),
        ensures
            r <= self.entries@.len(),
            forall|j: int| 0 <= j < r ==> key_less(#[trigger] self.entries@[j].0@, key@),
            r < self.entries@.len() ==> !key_less(self.entries@[r as int].0@, key@),
    {
        let mut i: usize = 0;
        while i < self.entries.len()
            invariant
                i <= self.entries@.len(),
                forall|j: int| 0 <= j < i ==> key_less(#[trigger] self.entries@[j].0@, key@),
            decreases self.entries@.len() - i,
        {
            if !key_before(&self.entries[i].0, key) {
                return i;
            }
            i = i + 1;
        }
        i
    }

    /// Binds `key` to `value`: the value of an existing key is replaced where
    /// it stands, a new key goes where the order of the keys puts it.
    pub fn insert(&mut self, key: String, value: TomlValue)
        ensures
            final(self).entry_seq() == entries_insert(old(self).entry_seq(), key@, value.data()),
            keys_sorted(final(self).entry_seq()),
            final(self).contents() == old(self).contents().insert(key@, value.data()),
    {
        proof {
            use_type_invariant(&*self);
            self.lemma_unique();
        }
        let ghost old_seq = self.entry_seq();
        let ghost kv = key@;
        let ghost vd = value.data();
        let pos = self.insert_position(&key);
        let found = pos < self.entries.len() && self.entries[pos].0 == key;
        proof {
            if !found {
                if pos < old_seq.len() {
                    lemma_key_less_total(old_seq[pos as int].0, kv);
                }
                assert forall|i: int| pos <= i < old_seq.len() implies key_less(
                    kv,
                    #[trigger] old_seq[i].0,
                ) by {
                    if i > pos {
                        assert(key_less(old_seq[pos as int].0, old_seq[i].0));
                        lemma_key_less_transitive(kv, old_seq[pos as int].0, old_seq[i].0);
                    }
                }
                assert(is_insert_position(old_seq, kv, pos as int));
                assert forall|i: int| 0 <= i < old_seq.len() implies old_seq[i].0 != kv by {
                    lemma_key_less_irreflexive(kv);
                }
                assert forall|p: int| is_insert_position(old_seq, kv, p) implies p == pos by {
                    lemma_key_less_irreflexive(kv);
                    if p < pos {
                        assert(key_less(kv, old_seq[p].0));
                        assert(key_less(old_seq[p].0, kv));
                        lemma_key_less_transitive(kv, old_seq[p].0, kv);
                    } else if p > pos {
                        assert(key_less(old_seq[pos as int].0, kv));
                        assert(key_less(kv, old_seq[pos as int].0));
                        lemma_key_less_transitive(kv, old_seq[pos as int].0, kv);
                    }
                }
            }
            if found {
                assert(old_seq[pos as int].0 == kv);
            }
            lemma_entries_insert(old_seq, kv, vd);
        }
        let mut entries: Vec<(String, TomlValue)> = Vec::new();
        std::mem::swap(&mut entries, &mut self.entries);
        if found {
            proof {
                assert(old_seq[pos as int].0 == kv);
                let c = choose|j: int| 0 <= j < old_seq.len() && old_seq[j].0 == kv;
                assert(c == pos);
            }
            entries.set(pos, (key, value));
        } else {
            entries.insert(pos, (key, value));
        }
        proof {
            lemma_entries_data(entries@);
            assert(entries_data(entries@) =~= entries_insert(old_seq, kv, vd));
            assert forall|a: int, b: int| 0 <= a < b < entries@.len() implies key_less(
                #[trigger] entries@[a].0@,
                #[trigger] entries@[b].0@,
            ) by {
                assert(entries_data(entries@)[a].0 == entries@[a].0@);
                assert(entries_data(entries@)[b].0 == entries@[b].0@);
            }
        }
        self.entries = entries;
    }
}

/// Whether key `a` comes before key `b`.
pub fn key_before(a: &String, b: &String) -> (r: bool)
    ensures
        r == key_less(a@, b@),
{
    let ca = chars_of(a.as_str());
    let cb = chars_of(b.as_str());
    let mut i: usize = 0;
    while i < ca.len() && i < cb.len()
        invariant
            ca@ == a@,
            cb@ == b@,
            i <= ca@.len(),
            i <= cb@.len(),
            a@.take(i as int) == b@.take(i as int),
        decreases ca@.len() - i,
    {
        if ca[i] != cb[i] {
            proof {
                lemma_key_less_skip(a@, b@, i as int);
                assert(a@.skip(i as int)[0] == ca@[i as int]);
                assert(b@.skip(i as int)[0] == cb@[i as int]);
            }
            return ca[i] < cb[i];
        }
        proof {
            assert(a@.take(i + 1) =~= a@.take(i as int).push(ca@[i as int]));
            assert(b@.take(i + 1) =~= b@.take(i as int).push(cb@[i as int]));
        }
        i = i + 1;
    }
    proof {
        lemma_key_less_skip(a@, b@, i as int);
    }
    i < cb.len()
}

impl TomlTable {
    /// A copy of the table, entry for entry.
    pub fn deep_clone(&self) -> (r: TomlTable)
        ensures
            r.entry_seq() == self.entry_seq(),
        decreases self,
    {
        proof {
            use_type_invariant(self);
            lemma_entries_data(self.entries@);
        }
        let mut out: Vec<(String, TomlValue)> = Vec::new();
        let mut i: usize = 0;
        while i < self.entries.len()
            invariant
                i <= self.entries@.len(),
                out@.len() == i,
                forall|j: int|
                    0 <= j < i ==> #[trigger] out@[j].0@ == self.entries@[j].0@ && out@[j].1.data()
                        == self.entries@[j].1.data(),
            decreases self.entries@.len() - i,
        {
            proof {
                assert(decreases_to!(self => self.entries));
                assert(decreases_to!(self.entries => self.entries@));
                assert(decreases_to!(self.entries@ => self.entries@[i as int]));
                assert(decreases_to!(self.entries@[i as int] => self.entries@[i as int].1));
            }
            let key = self.entries[i].0.clone();
            let value = self.entries[i].1.deep_clone();
            out.push((key, value));
            i = i + 1;
        }
        proof {
            lemma_entries_data(out@);
            assert(entries_data(out@) =~= entries_data(self.entries@));
        }
        TomlTable { entries: out }
    }
}

impl TomlValue {
    /// A copy of the value, all the way down.
    pub fn deep_clone(&self) -> (r: TomlValue)
        ensures
            r.data() == self.data(),
        decreases self,
    {
        match self {
            TomlValue::String(s) => TomlValue::String(s.clone()),
            TomlValue::Integer(n) => TomlValue::Integer(*n),
            TomlValue::Float(t) => TomlValue::Float(t.clone()),
            TomlValue::Boolean(b) => TomlValue::Boolean(*b),
            TomlValue::Datetime(s) => TomlValue::Datetime(s.clone()),
            TomlValue::Array(items) => {
                let mut out: Vec<TomlValue> = Vec::new();
                let mut i: usize = 0;
                while i < items.len()
                    invariant
                        *self == TomlValue::Array(*items),
                        i <= items@.len(),
                        out@.len() == i,
                        forall|j: int| 0 <= j < i ==> #[trigger] out@[j].data() == items@[j].data(),
                    decreases items@.len() - i,
                {
                    proof {
                        assert(decreases_to!(self => self->Array_0));
                        assert(decreases_to!(items => items@));
                        assert(decreases_to!(items@ => items@[i as int]));
                    }
                    out.push(items[i].deep_clone());
                    i = i + 1;
                }
                proof {
                    lemma_items_data(out@);
                    lemma_items_data(items@);
                    assert(items_data(out@) =~= items_data(items@));
                }
                TomlValue::Array(out)
            },
            TomlValue::Table(t) => TomlValue::Table(t.deep_clone()),
        }
    }

    /// The table, if the value is one.
    pub fn as_table(&self) -> (r: Option<&TomlTable>)
        ensures
            match self {
                TomlValue::Table(t) => r == Some(t),
                _ => r is None,
            },
    {
        match self {
            TomlValue::Table(t) => Some(t),
            _ => None,
        }
    }

    /// The string, if the value is one.
    pub fn as_str(&self) -> (r: Option<&String>)
        ensures
            match self {
                TomlValue::String(s) => r == Some(s),
                _ => r is None,
            },
    {
        match self {
            TomlValue::String(s) => Some(s),
            _ => None,
        }
    }

    /// Whether the value is a string.
    pub fn is_str(&self) -> (r: bool)
        ensures
            r == self.data() is Str,
    {
        match self {
            TomlValue::String(_) => true,
            _ => false,
        }
    }

    /// Whether the value is an array.
    pub fn is_array(&self) -> (r: bool)
        ensures
            r == self.data() is Array,
    {
        match self {
            TomlValue::Array(_) => true,
            _ => false,
        }
    }
}

/// Keys are ordered character by character: the empty key comes before any
/// other; where two keys first differ, the smaller character decides; a key
/// comes before every longer key that it begins.
pub proof fn law_key_order(a: Seq<char>, b: Seq<char>, i: int)
    ensures
        key_less(Seq::<char>::empty(), b) <==> b.len() > 0,
        (0 <= i < a.len() && i < b.len() && a.take(i) == b.take(i) && a[i] != b[i]) ==> (
        key_less(a, b) <==> a[i] < b[i]),
        (a.len() < b.len() && b.take(a.len() as int) == a) ==> key_less(a, b),
{
    if 0 <= i < a.len() && i < b.len() && a.take(i) == b.take(i) && a[i] != b[i] {
        lemma_key_less_skip(a, b, i);
        assert(a.skip(i)[0] == a[i]);
        assert(b.skip(i)[0] == b[i]);
    }
    if a.len() < b.len() && b.take(a.len() as int) == a {
        assert(a.take(a.len() as int) =~= a);
        lemma_key_less_skip(a, b, a.len() as int);
        assert(a.skip(a.len() as int).len() == 0);
    }
}

/// A value means what it holds: a string, an integer, a float, a boolean
/// and a date are themselves; an array the meanings of its items, in their
/// order; a table the map of its entries.
pub proof fn law_value_data(v: TomlValue)
    ensures
        v matches TomlValue::String(s) ==> v.data() == TomlData::Str(s@),
        v matches TomlValue::Integer(i) ==> v.data() == TomlData::Int(i as int),
        v matches TomlValue::Float(t) ==> v.data() == TomlData::Float(t@),
        v matches TomlValue::Boolean(b) ==> v.data() == TomlData::Bool(b),
        v matches TomlValue::Datetime(t) ==> v.data() == TomlData::Datetime(t@),
        v matches TomlValue::Array(items) ==> (v.data() matches TomlData::Array(d) && d.len()
            == items@.len() && forall|j: int| 0 <= j < items@.len() ==> d[j] == (
        #[trigger] items@[j]).data()),
        v matches TomlValue::Table(t) ==> v.data() == TomlData::Table(t.contents()),
{
    if let TomlValue::Array(items) = v {
        lemma_items_data(items@);
    }
}

/// A read of a table after a write: the key written gives back the value
/// written, every other key what it gave before.
pub proof fn law_table_read_after_write(
    before: TomlTable,
    after: TomlTable,
    k: Seq<char>,
    v: TomlData,
    other: Seq<char>,
)
    requires
        after.contents() == before.contents().insert(k, v),
    ensures
        after.contents().contains_key(k),
        after.contents()[k] == v,
        other != k ==> (after.contents().contains_key(other) == before.contents().contains_key(
            other,
        ) && (before.contents().contains_key(other) ==> after.contents()[other]
            == before.contents()[other])),
{
}

} // verus!
