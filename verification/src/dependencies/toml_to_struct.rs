use vstd::prelude::*;
use vstd::string::*;
use crate::text::{chars_of, decimal_text};
use crate::toml::value::{entries_data, lemma_entries_data, TomlData, TomlTable, TomlValue};

verus! {

/// Where a dependency is fetched from: a directory on this machine, or a
/// path inside a repository.
#[derive(Debug)]
pub enum DependencyLocation {
    LocalFS(String),
    Repository((String, String)),
}

/// One entry of the `dependencies` section.
#[derive(Debug)]
pub struct Dependency {
    pub name: String,
    pub version: (usize, usize, usize),
    pub location: DependencyLocation,
}

/// A `DependencyLocation` by its text.
pub enum LocationView {
    LocalFS(Seq<char>),
    Repository(Seq<char>, Seq<char>),
}

/// A `Dependency` by its text and numbers.
pub struct DependencyView {
    pub name: Seq<char>,
    pub version: (usize, usize, usize),
    pub location: LocationView,
}

impl View for DependencyLocation {
    type V = LocationView;

    open spec fn view(&self) -> LocationView {
        match self {
            DependencyLocation::LocalFS(p) => LocationView::LocalFS(p@),
            DependencyLocation::Repository((repo, path)) => LocationView::Repository(repo@, path@),
        }
    }
}

impl View for Dependency {
    type V = DependencyView;

    open spec fn view(&self) -> DependencyView {
        DependencyView { name: self.name@, version: self.version, location: self.location@ }
    }
}

/// The fields of `s` between the dots, as `split(".")` yields them: always
/// at least one, possibly empty.
pub open spec fn dot_fields(s: Seq<char>) -> Seq<Seq<char>>
    decreases s.len(),
{
    if s.len() == 0 {
        seq![Seq::<char>::empty()]
    } else {
        let f = dot_fields(s.drop_last());
        if s.last() == '.' {
            f.push(Seq::<char>::empty())
        } else {
            f.update(f.len() - 1, f.last().push(s.last()))
        }
    }
}

pub open spec fn is_digit(c: char) -> bool {
    '0' <= c && c <= '9'
}

pub open spec fn digit_value(c: char) -> int {
    c as int - '0' as int
}

/// The number that a string of decimal digits stands for.
pub open spec fn decimal_value(d: Seq<char>) -> int
    decreases d.len(),
{
    if d.len() == 0 {
        0
    } else {
        decimal_value(d.drop_last()) * 10 + digit_value(d.last())
    }
}

/// The digits of a field: what follows a leading `+`, or the field itself.
pub open spec fn unsigned_digits(f: Seq<char>) -> Seq<char> {
    if f.len() > 0 && f[0] == '+' {
        f.drop_first()
    } else {
        f
    }
}

/// The `usize` that `f` stands for, as `str::parse::<usize>` reads it: an
/// optional `+`, then at least one decimal digit, the value fitting a `usize`.
pub open spec fn parse_unsigned(f: Seq<char>) -> Option<usize> {
    let d = unsigned_digits(f);
    if d.len() > 0 && (forall|i: int| 0 <= i < d.len() ==> is_digit(#[trigger] d[i]))
        && decimal_value(d) <= usize::MAX {
        Some(decimal_value(d) as usize)
    } else {
        None
    }
}

/// The version that `s` names: its first three dot fields, each a `usize`.
pub open spec fn parse_version(s: Seq<char>) -> Option<(usize, usize, usize)> {
    let f = dot_fields(s);
    if f.len() >= 3 && parse_unsigned(f[0]) is Some && parse_unsigned(f[1]) is Some
        && parse_unsigned(f[2]) is Some {
        Some((parse_unsigned(f[0])->0, parse_unsigned(f[1])->0, parse_unsigned(f[2])->0))
    } else {
        None
    }
}

/// A dependency entry that can be read: a table
/// whose `version`, if given, names a version, whose `source`, if given, is
/// a string, and which otherwise has `repo` and `repo_path` strings.
pub open spec fn dependency_entry_valid(info: TomlData) -> bool {
    match info {
        TomlData::Table(t) => {
            &&& t.contains_key("version"@) ==> (t["version"@] matches TomlData::Str(v)
                && parse_version(v) is Some)
            &&& t.contains_key("source"@) ==> t["source"@] is Str
            &&& !t.contains_key("source"@) ==> {
                &&& t.contains_key("repo"@) && t["repo"@] is Str
                &&& t.contains_key("repo_path"@) && t["repo_path"@] is Str
            }
        },
        _ => false,
    }
}

/// The dependency that entry `name = info` describes.
pub open spec fn dependency_of(name: Seq<char>, info: TomlData) -> DependencyView {
    let t = info->Table_0;
    DependencyView {
        name,
        version: if t.contains_key("version"@) {
            parse_version(t["version"@]->Str_0)->0
        } else {
            (0, 0, 0)
        },
        location: if t.contains_key("source"@) {
            LocationView::LocalFS(t["source"@]->Str_0)
        } else {
            LocationView::Repository(t["repo"@]->Str_0, t["repo_path"@]->Str_0)
        },
    }
}

proof fn lemma_decimal_monotone(d: Seq<char>, i: int)
    requires
        0 <= i <= d.len(),
        forall|j: int| 0 <= j < d.len() ==> is_digit(#[trigger] d[j]),
    ensures
        decimal_value(d.take(i)) <= decimal_value(d),
        0 <= decimal_value(d.take(i)),
    decreases d.len() - i,
{
    if i < d.len() {
        lemma_decimal_monotone(d, i + 1);
        assert(d.take(i + 1).drop_last() =~= d.take(i));
        assert(is_digit(d[i]));
    } else {
        assert(d.take(i) =~= d);
        lemma_decimal_nonnegative(d);
    }
}

proof fn lemma_decimal_nonnegative(d: Seq<char>)
    requires
        forall|j: int| 0 <= j < d.len() ==> is_digit(#[trigger] d[j]),
    ensures
        0 <= decimal_value(d),
    decreases d.len(),
{
    if d.len() > 0 {
        let front = d.drop_last();
        assert forall|j: int| 0 <= j < front.len() implies is_digit(#[trigger] front[j]) by {
            assert(front[j] == d[j]);
        }
        lemma_decimal_nonnegative(front);
        assert(is_digit(d[d.len() - 1]));
    }
}


/// An entry of the `dependencies` section can be read exactly when it is a
/// table whose `version`, where given, is a string that names a version,
/// and which gives a `source` string, or else both a `repo` and a
/// `repo_path` string.
pub proof fn law_dependency_entry_valid_when(info: TomlData)
    ensures
        dependency_entry_valid(info) <==> ({
            let t = info->Table_0;
            &&& info is Table
            &&& t.contains_key("version"@) ==> (t["version"@] is Str && parse_version(
                t["version"@]->Str_0,
            ) is Some)
            &&& t.contains_key("source"@) ==> t["source"@] is Str
            &&& !t.contains_key("source"@) ==> (t.contains_key("repo"@) && t["repo"@] is Str
                && t.contains_key("repo_path"@) && t["repo_path"@] is Str)
        }),
{
}

/// The dependency that a readable entry `name = { .. }` describes: it has
/// that name; its version is the one its `version` text names, whether it
/// is fetched from a directory or from a repository, and `0.0.0` where none
/// is given; it is fetched from the `source` directory where one is given,
/// else from `repo_path` in the repository `repo`.
pub proof fn law_dependency_entry(name: Seq<char>, t: Map<Seq<char>, TomlData>)
    requires
        dependency_entry_valid(TomlData::Table(t)),
    ensures
        dependency_of(name, TomlData::Table(t)).name == name,
        t.contains_key("version"@) ==> parse_version(t["version"@]->Str_0) == Some(
            dependency_of(name, TomlData::Table(t)).version,
        ),
        !t.contains_key("version"@) ==> dependency_of(name, TomlData::Table(t)).version == (
            0usize,
            0usize,
            0usize,
        ),
        t.contains_key("source"@) ==> dependency_of(name, TomlData::Table(t)).location
            == LocationView::LocalFS(t["source"@]->Str_0),
        !t.contains_key("source"@) ==> dependency_of(name, TomlData::Table(t)).location
            == LocationView::Repository(t["repo"@]->Str_0, t["repo_path"@]->Str_0),
{
}

/// Where a dependency is fetched from does not change its version: two
/// readable entries with the same `version` entry (or both without one)
/// describe dependencies of the same version.
pub proof fn law_version_independent_of_location(
    name1: Seq<char>,
    t1: Map<Seq<char>, TomlData>,
    name2: Seq<char>,
    t2: Map<Seq<char>, TomlData>,
)
    requires
        dependency_entry_valid(TomlData::Table(t1)),
        dependency_entry_valid(TomlData::Table(t2)),
        t1.contains_key("version"@) == t2.contains_key("version"@),
        t1.contains_key("version"@) ==> t1["version"@] == t2["version"@],
    ensures
        dependency_of(name1, TomlData::Table(t1)).version == dependency_of(
            name2,
            TomlData::Table(t2),
        ).version,
{
}

/// A version text `major.minor.patch` of three fields of decimal digits
/// names the version of those three numbers, whatever follows a third dot;
/// a text with fewer than three fields names none.
pub proof fn law_version_fields(a: Seq<char>, b: Seq<char>, c: Seq<char>)
    requires
        forall|i: int| 0 <= i < a.len() ==> a[i] != '.',
        forall|i: int| 0 <= i < b.len() ==> b[i] != '.',
    ensures
        dot_fields(a) == seq![a],
        dot_fields(a + "."@ + b) == seq![a, b],
        parse_version(a + "."@ + b) is None,
        parse_version(a) is None,
        dot_fields(a + "."@ + b + "."@ + c).len() >= 3,
        dot_fields(a + "."@ + b + "."@ + c)[0] == a,
        dot_fields(a + "."@ + b + "."@ + c)[1] == b,
        parse_version(a + "."@ + b + "."@ + c) == (if parse_unsigned(a) is Some && parse_unsigned(
            b,
        ) is Some && parse_unsigned(dot_fields(a + "."@ + b + "."@ + c)[2]) is Some {
            Some(
                (
                    parse_unsigned(a)->0,
                    parse_unsigned(b)->0,
                    parse_unsigned(dot_fields(a + "."@ + b + "."@ + c)[2])->0,
                ),
            )
        } else {
            None
        }),
{
    reveal_strlit(".");
    let e = Seq::<char>::empty();
    lemma_dot_fields_plain(a);
    let a1 = a + "."@;
    assert(a1.drop_last() =~= a);
    assert(a1.last() == '.');
    assert(dot_fields(a1) == seq![a].push(e));
    assert(seq![a].push(e) =~= seq![a, e]);
    lemma_dot_fields_append(a1, b, seq![a, e]);
    assert(e + b =~= b);
    assert(seq![a, e].update(1, e + b) =~= seq![a, b]);
    let ab = a1 + b;
    let ab1 = ab + "."@;
    assert(ab1.drop_last() =~= ab);
    assert(ab1.last() == '.');
    assert(dot_fields(ab1) == seq![a, b].push(e));
    lemma_dot_fields_prefix(ab1, c);
    assert(dot_fields(ab1)[0] == a);
    assert(dot_fields(ab1)[1] == b);
}

/// Reading an unsigned number digit by digit: a single digit is its value;
/// a digit appended multiplies the value by ten and adds the digit's, as
/// long as the result fits; a leading `+` is skipped; any other character
/// than a digit makes the text no number.
pub proof fn law_unsigned_digits(d: Seq<char>, c: char, x: usize)
    ensures
        '0' <= c <= '9' ==> parse_unsigned(seq![c]) == Some((c as int - '0' as int) as usize),
        (parse_unsigned(d) == Some(x) && d[0] != '+' && '0' <= c <= '9' && 10 * x + (c as int
            - '0' as int) <= usize::MAX) ==> parse_unsigned(d.push(c)) == Some(
            (10 * x + (c as int - '0' as int)) as usize,
        ),
        (parse_unsigned(d) == Some(x) && d[0] != '+' && '0' <= c <= '9' && 10 * x + (c as int
            - '0' as int) > usize::MAX) ==> parse_unsigned(d.push(c)) is None,
        d.len() > 0 && d[0] != '+' ==> parse_unsigned(seq!['+'] + d) == parse_unsigned(d),
        (d.len() > 0 && d[0] != '+' && exists|i: int| 0 <= i < d.len() && !('0' <= #[trigger] d[i] <= '9'))
            ==> parse_unsigned(d) is None,
        parse_unsigned(Seq::<char>::empty()) is None,
{
    let one = seq![c];
    if '0' <= c <= '9' {
        assert(one.drop_last() =~= Seq::<char>::empty());
        assert(one[0] == c);
        assert(unsigned_digits(one) == one);
        assert(decimal_value(one) == digit_value(c));
    }
    if parse_unsigned(d) == Some(x) && d[0] != '+' && '0' <= c <= '9' {
        let u = d.push(c);
        assert(unsigned_digits(d) == d);
        assert(d.len() > 0);
        assert(u[0] == d[0]);
        assert(unsigned_digits(u) == u);
        assert(u.drop_last() =~= d);
        assert(u.last() == c);
        lemma_decimal_nonnegative(d);
        assert(decimal_value(d) == x);
        assert(decimal_value(u) == decimal_value(d) * 10 + digit_value(c));
        assert forall|i: int| 0 <= i < u.len() implies is_digit(#[trigger] u[i]) by {
            if i < d.len() {
                assert(u[i] == d[i]);
                assert(is_digit(d[i]));
            }
        }
    }
    if d.len() > 0 && d[0] != '+' {
        assert((seq!['+'] + d).drop_first() =~= d);
    }
}

/// The fields of a text without dots: the text itself.
proof fn lemma_dot_fields_plain(a: Seq<char>)
    requires
        forall|i: int| 0 <= i < a.len() ==> a[i] != '.',
    ensures
        dot_fields(a) == seq![a],
    decreases a.len(),
{
    if a.len() > 0 {
        let front = a.drop_last();
        assert(forall|i: int| 0 <= i < front.len() ==> front[i] == a[i]);
        lemma_dot_fields_plain(front);
        assert(front.push(a.last()) =~= a);
        assert(a.last() != '.');
        assert(seq![front].update(0, a) =~= seq![a]);
    } else {
        assert(a =~= Seq::<char>::empty());
    }
}

/// Appending a text without dots to `s` extends the last field of `s`.
proof fn lemma_dot_fields_append(s: Seq<char>, b: Seq<char>, f: Seq<Seq<char>>)
    requires
        dot_fields(s) == f,
        forall|i: int| 0 <= i < b.len() ==> b[i] != '.',
    ensures
        dot_fields(s + b) == f.update(f.len() - 1, f.last() + b),
        dot_fields(s + b).len() == f.len(),
    decreases b.len(),
{
    lemma_dot_fields_nonempty(s);
    if b.len() == 0 {
        assert(s + b =~= s);
        assert(f.last() + b =~= f.last());
        assert(f.update(f.len() - 1, f.last()) =~= f);
    } else {
        let front = b.drop_last();
        lemma_dot_fields_append(s, front, f);
        assert((s + b).drop_last() =~= s + front);
        assert((s + b).last() == b.last());
        let g = f.update(f.len() - 1, f.last() + front);
        assert(g.last() == f.last() + front);
        assert(g.update(g.len() - 1, g.last().push(b.last())) =~= f.update(
            f.len() - 1,
            f.last() + b,
        )) by {
            assert((f.last() + front).push(b.last()) =~= f.last() + b);
        }
    }
}

proof fn lemma_dot_fields_nonempty(s: Seq<char>)
    ensures
        dot_fields(s).len() >= 1,
    decreases s.len(),
{
    if s.len() > 0 {
        lemma_dot_fields_nonempty(s.drop_last());
    }
}

/// The fields of `s + t` begin with those of `s` but its last.
proof fn lemma_dot_fields_prefix(s: Seq<char>, t: Seq<char>)
    ensures
        dot_fields(s + t).len() >= dot_fields(s).len(),
        forall|i: int|
            0 <= i < dot_fields(s).len() - 1 ==> #[trigger] dot_fields(s + t)[i] == dot_fields(s)[i],
    decreases t.len(),
{
    lemma_dot_fields_nonempty(s);
    if t.len() == 0 {
        assert(s + t =~= s);
    } else {
        let front = t.drop_last();
        lemma_dot_fields_prefix(s, front);
        assert((s + t).drop_last() =~= s + front);
        lemma_dot_fields_nonempty(s + front);
    }
}

/// The decimal text of a number reads back as that number: its characters
/// are digits, it has no leading zero, and their decimal value is the number.
pub proof fn law_decimal_text_reads_back(n: nat)
    ensures
        decimal_text(n).len() > 0,
        forall|i: int| 0 <= i < decimal_text(n).len() ==> is_digit(#[trigger] decimal_text(n)[i]),
        decimal_text(n).len() > 1 ==> decimal_text(n)[0] != '0',
        decimal_value(decimal_text(n)) == n,
    decreases n,
{
    if n < 10 {
        lemma_digit_char(n as int);
        let u = decimal_text(n);
        assert(u == seq![crate::text::digit_char(n as int)]);
        assert(u.len() == 1);
        assert(u.drop_last() =~= Seq::<char>::empty());
        assert(u.last() == crate::text::digit_char(n as int));
        assert(decimal_value(u) == decimal_value(Seq::<char>::empty()) * 10 + n);
    } else {
        let q = n / 10;
        let r = n % 10;
        let t = decimal_text(q);
        law_decimal_text_reads_back(q);
        lemma_digit_char(r as int);
        let u = decimal_text(n);
        assert(u == t.push(crate::text::digit_char(r as int)));
        assert(u.drop_last() =~= t);
        assert(forall|i: int| 0 <= i < t.len() ==> u[i] == t[i]);
        assert(decimal_value(u) == q * 10 + r);
        assert(q * 10 + r == n);
        if q < 10 {
            lemma_digit_char(q as int);
            assert(t == seq![crate::text::digit_char(q as int)]);
            assert(u[0] == t[0]);
        } else {
            law_decimal_text_reads_back(q / 10);
            assert(t.len() > 1);
            assert(u[0] == t[0]);
        }
    }
}

proof fn lemma_digit_char(d: int)
    requires
        0 <= d < 10,
    ensures
        is_digit(crate::text::digit_char(d)),
        digit_value(crate::text::digit_char(d)) == d,
        d != 0 ==> crate::text::digit_char(d) != '0',
{
    let c = crate::text::digit_char(d);
    assert(c as int == d + '0' as int);
}

/// Reads `f` as `str::parse::<usize>` reads a string.
fn parse_unsigned_field(f: &Vec<char>) -> (r: Option<usize>)
    ensures
        r == parse_unsigned(f@),
{
    let n = f.len();
    let mut start: usize = 0;
    if n > 0 && f[0] == '+' {
        start = 1;
    }
    let ghost d = unsigned_digits(f@);
    proof {
        assert(d =~= f@.skip(start as int));
    }
    if start == n {
        return None;
    }
    let mut acc: usize = 0;
    let mut i: usize = start;
    while i < n
        invariant
            start <= i <= n,
            n == f@.len(),
            d == f@.skip(start as int),
            d == unsigned_digits(f@),
            forall|j: int| 0 <= j < i - start ==> is_digit(#[trigger] d[j]),
            acc == decimal_value(d.take(i - start)),
        decreases n - i,
    {
        let c = f[i];
        proof {
            assert(d[i - start] == c);
        }
        if !('0' <= c && c <= '9') {
            return None;
        }
        let digit: usize = (c as u32 - '0' as u32) as usize;
        proof {
            assert(d.take(i - start + 1).drop_last() =~= d.take(i - start));
            assert(decimal_value(d.take(i - start + 1)) == acc * 10 + digit);
        }
        let next = match acc.checked_mul(10) {
            Some(t) => t.checked_add(digit),
            None => None,
        };
        match next {
            Some(v) => {
                acc = v;
            },
            None => {
                proof {
                    assert(decimal_value(d.take(i - start + 1)) > usize::MAX);
                    if forall|j: int| 0 <= j < d.len() ==> is_digit(#[trigger] d[j]) {
                        lemma_decimal_monotone(d, i - start + 1);
                    }
                }
                return None;
            },
        }
        i = i + 1;
    }
    proof {
        assert(d.take(n - start) =~= d);
    }
    Some(acc)
}

/// The fields of `s` between the dots.
fn dot_fields_of(s: &Vec<char>) -> (r: Vec<Vec<char>>)
    ensures
        r@.len() == dot_fields(s@).len(),
        forall|i: int| 0 <= i < r@.len() ==> #[trigger] r@[i]@ == dot_fields(s@)[i],
{
    let mut r: Vec<Vec<char>> = Vec::new();
    r.push(Vec::new());
    let mut i: usize = 0;
    proof {
        assert(s@.take(0) =~= Seq::<char>::empty());
    }
    while i < s.len()
        invariant
            i <= s@.len(),
            r@.len() == dot_fields(s@.take(i as int)).len(),
            r@.len() > 0,
            forall|j: int| 0 <= j < r@.len() ==> #[trigger] r@[j]@ == dot_fields(s@.take(i as int))[j],
        decreases s@.len() - i,
    {
        let c = s[i];
        let ghost before = r@;
        proof {
            assert(s@.take(i + 1).drop_last() =~= s@.take(i as int));
            assert(s@.take(i + 1).last() == c);
        }
        if c == '.' {
            r.push(Vec::new());
            proof {
                assert forall|j: int| 0 <= j < r@.len() implies #[trigger] r@[j]@ == dot_fields(
                    s@.take(i + 1),
                )[j] by {
                    if j < before.len() {
                        assert(r@[j] == before[j]);
                    }
                }
            }
        } else {
            let last = r.len() - 1;
            let mut field = r.pop().unwrap();
            field.push(c);
            r.push(field);
            proof {
                assert forall|j: int| 0 <= j < r@.len() implies #[trigger] r@[j]@ == dot_fields(
                    s@.take(i + 1),
                )[j] by {
                    if j < last {
                        assert(r@[j] == before[j]);
                    }
                }
            }
        }
        i = i + 1;
    }
    proof {
        assert(s@.take(s@.len() as int) =~= s@);
    }
    r
}

/// Reads a version `major.minor.patch`: the first three
/// dot fields, each a `usize`; what follows a third dot is not read.
pub fn version_from_text(text: &str) -> (r: Option<(usize, usize, usize)>)
    ensures
        r == parse_version(text@),
{
    let cs = chars_of(text);
    let fields = dot_fields_of(&cs);
    if fields.len() < 3 {
        return None;
    }
    let major = parse_unsigned_field(&fields[0]);
    let minor = parse_unsigned_field(&fields[1]);
    let patch = parse_unsigned_field(&fields[2]);
    match (major, minor, patch) {
        (Some(a), Some(b), Some(c)) => Some((a, b, c)),
        _ => None,
    }
}

/// The string under `key` in `t`, where the contents say there is one.
fn string_entry(t: &TomlTable, key: &str) -> (r: String)
    requires
        t.contents().contains_key(key@),
        t.contents()[key@] is Str,
    ensures
        r@ == t.contents()[key@]->Str_0,
{
    match t.get(key) {
        Some(TomlValue::String(s)) => s.clone(),
        _ => {
            proof {
                assert(false);
            }
            String::new()
        },
    }
}

/// Whether the entry `info` of the `dependencies` section can be read.
pub fn dependency_entry_is_valid(info: &TomlValue) -> (r: bool)
    ensures
        r == dependency_entry_valid(info.data()),
{
    let t = match info.as_table() {
        Some(t) => t,
        None => {
            return false;
        },
    };
    let version_ok = match t.get("version") {
        None => true,
        Some(TomlValue::String(v)) => version_from_text(v.as_str()).is_some(),
        Some(_) => false,
    };
    let source_ok = match t.get("source") {
        None => {
            let repo_ok = match t.get("repo") {
                Some(v) => v.is_str(),
                None => false,
            };
            let path_ok = match t.get("repo_path") {
                Some(v) => v.is_str(),
                None => false,
            };
            repo_ok && path_ok
        },
        Some(v) => v.is_str(),
    };
    version_ok && source_ok
}

/// The dependency that the entry `dependency_name = dependency_info` describes:
/// its version, `0.0.0` where none is given, and its source directory, or
/// else its repository and the path inside it.
pub fn toml_to_struct(dependency_name: &String, dependency_info: &TomlValue) -> (d: Dependency)
    requires
        dependency_entry_valid(dependency_info.data()),
    ensures
        d@ == dependency_of(dependency_name@, dependency_info.data()),
{
    let t = match dependency_info.as_table() {
        Some(t) => t,
        None => {
            proof {
                assert(false);
            }
            return Dependency {
                name: dependency_name.clone(),
                version: (0, 0, 0),
                location: DependencyLocation::LocalFS(String::new()),
            };
        },
    };
    let version = if t.contains_key("version") {
        let text = string_entry(t, "version");
        match version_from_text(text.as_str()) {
            Some(v) => v,
            None => {
                proof {
                    assert(false);
                }
                (0, 0, 0)
            },
        }
    } else {
        (0, 0, 0)
    };
    let location = if t.contains_key("source") {
        DependencyLocation::LocalFS(string_entry(t, "source"))
    } else {
        DependencyLocation::Repository((string_entry(t, "repo"), string_entry(t, "repo_path")))
    };
    Dependency { name: dependency_name.clone(), version, location }
}

/// Whether every entry of the `dependencies` section can be read.
pub fn dependency_table_is_valid(dependency_table: &TomlTable) -> (r: bool)
    ensures
        r == forall|i: int|
            0 <= i < dependency_table.entry_seq().len() ==> dependency_entry_valid(
                #[trigger] dependency_table.entry_seq()[i].1,
            ),
{
    let entries = dependency_table.entries();
    proof {
        lemma_entries_data(entries@);
    }
    let mut i: usize = 0;
    while i < entries.len()
        invariant
            i <= entries@.len(),
            entries_data(entries@) == dependency_table.entry_seq(),
            entries_data(entries@).len() == entries@.len(),
            forall|j: int|
                0 <= j < entries@.len() ==> #[trigger] entries_data(entries@)[j] == (
                entries@[j].0@,
                entries@[j].1.data(),
            ),
            forall|j: int|
                0 <= j < i ==> dependency_entry_valid(#[trigger] dependency_table.entry_seq()[j].1),
        decreases entries@.len() - i,
    {
        if !dependency_entry_is_valid(&entries[i].1) {
            proof {
                assert(dependency_table.entry_seq()[i as int].1 == entries@[i as int].1.data());
            }
            return false;
        }
        i = i + 1;
    }
    true
}

/// The dependencies that the entries of the `dependencies` section describe,
/// in the order of the entries.
pub fn toml_table_to_structs(dependency_table: &TomlTable) -> (r: Vec<Dependency>)
    requires
        forall|i: int|
            0 <= i < dependency_table.entry_seq().len() ==> dependency_entry_valid(
                #[trigger] dependency_table.entry_seq()[i].1,
            ),
    ensures
        r@.len() == dependency_table.entry_seq().len(),
        forall|i: int|
            0 <= i < r@.len() ==> #[trigger] r@[i]@ == dependency_of(
                dependency_table.entry_seq()[i].0,
                dependency_table.entry_seq()[i].1,
            ),
{
    let entries = dependency_table.entries();
    proof {
        lemma_entries_data(entries@);
    }
    let mut dependency_list: Vec<Dependency> = Vec::new();
    let mut i: usize = 0;
    while i < entries.len()
        invariant
            i <= entries@.len(),
            dependency_list@.len() == i,
            entries_data(entries@) == dependency_table.entry_seq(),
            entries_data(entries@).len() == entries@.len(),
            forall|j: int|
                0 <= j < entries@.len() ==> #[trigger] entries_data(entries@)[j] == (
                entries@[j].0@,
                entries@[j].1.data(),
            ),
            forall|j: int|
                0 <= j < entries@.len() ==> dependency_entry_valid(
                    #[trigger] dependency_table.entry_seq()[j].1,
                ),
            forall|j: int|
                0 <= j < i ==> #[trigger] dependency_list@[j]@ == dependency_of(
                    dependency_table.entry_seq()[j].0,
                    dependency_table.entry_seq()[j].1,
                ),
        decreases entries@.len() - i,
    {
        proof {
            assert(dependency_table.entry_seq()[i as int] == (
                entries@[i as int].0@,
                entries@[i as int].1.data(),
            ));
            assert(dependency_entry_valid(dependency_table.entry_seq()[i as int].1));
        }
        let dependency_struct = toml_to_struct(&entries[i].0, &entries[i].1);
        dependency_list.push(dependency_struct);
        i = i + 1;
    }
    dependency_list
}

/// The `dependencies` section of a build document, where it has one that
/// is a table.
pub fn dependency_table(build_toml: &TomlValue) -> (r: Option<&TomlTable>)
    ensures
        match r {
            Some(t) => build_toml.data() matches TomlData::Table(top) && top.contains_key(
                "dependencies"@,
            ) && top["dependencies"@] == TomlData::Table(t.contents()),
            None => !(build_toml.data() matches TomlData::Table(top) && top.contains_key(
                "dependencies"@,
            ) && top["dependencies"@] is Table),
        },
{
    match build_toml.as_table() {
        Some(top) => match top.get("dependencies") {
            Some(section) => section.as_table(),
            None => None,
        },
        None => None,
    }
}

} // verus!
