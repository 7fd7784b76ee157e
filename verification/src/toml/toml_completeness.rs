use vstd::prelude::*;
use vstd::string::*;
use std::collections::HashMap;
use vstd::std_specs::iter::IteratorSpec;
use crate::toml::value::{items_data, lemma_items_data, TomlData, TomlTable, TomlValue};

verus! {

broadcast use vstd::std_specs::hash::group_hash_axioms;

/// The attributes of the `module` section that completion fills in when
/// they are missing, and that must be strings when present.
#[derive(Clone, Copy)]
pub enum ModuleAttribute {
    Name,
    Version,
    CurlyVersion,
    Links,
    BinaryName,
    CFfiFiles,
}

/// Why a `module` section could not be completed.
pub enum CompleteError {
    NotEnoughInfo(String),
    BadTomlType(String),
    DependencyFail(String),
}

/// A `CompleteError` by its message.
pub enum CompleteErrorView {
    NotEnoughInfo(Seq<char>),
    BadTomlType(Seq<char>),
    DependencyFail(Seq<char>),
}

impl View for CompleteError {
    type V = CompleteErrorView;

    open spec fn view(&self) -> CompleteErrorView {
        match self {
            CompleteError::NotEnoughInfo(m) => CompleteErrorView::NotEnoughInfo(m@),
            CompleteError::BadTomlType(m) => CompleteErrorView::BadTomlType(m@),
            CompleteError::DependencyFail(m) => CompleteErrorView::DependencyFail(m@),
        }
    }
}

/// How completion ends: done, refused with an error, or stopped where the
/// binary name is to be copied from a name that is not there.
pub enum Completion {
    Done,
    Failed(CompleteErrorView),
    Aborted,
}

/// One attribute's turn: the section goes on (perhaps with the attribute
/// added), or completion fails or stops.
pub enum AttributeStep {
    Continue(Map<Seq<char>, TomlData>),
    Fail(Seq<char>),
    Abort,
}

impl ModuleAttribute {
    pub open spec fn key(self) -> Seq<char> {
        match self {
            ModuleAttribute::Name => "name"@,
            ModuleAttribute::Version => "version"@,
            ModuleAttribute::CurlyVersion => "curly_version"@,
            ModuleAttribute::Links => "links"@,
            ModuleAttribute::BinaryName => "binary_name"@,
            ModuleAttribute::CFfiFiles => "C_FFI_files"@,
        }
    }

    /// The key under which the attribute stands in the `module` section.
    pub fn key_text(&self) -> (r: &'static str)
        ensures
            r@ == self.key(),
    {
        match self {
            ModuleAttribute::Name => "name",
            ModuleAttribute::Version => "version",
            ModuleAttribute::CurlyVersion => "curly_version",
            ModuleAttribute::Links => "links",
            ModuleAttribute::BinaryName => "binary_name",
            ModuleAttribute::CFfiFiles => "C_FFI_files",
        }
    }
}

pub open spec fn not_string_message(key: Seq<char>) -> Seq<char> {
    "section 'module', variable '"@ + key + "' is not of type String"@
}

pub open spec fn authors_message() -> Seq<char> {
    "section 'module', variable 'authors' is not of type Array"@
}

pub open spec fn location_message() -> Seq<char> {
    "section 'module', variable 'location' is not of type Table or String"@
}

pub open spec fn no_module_message() -> Seq<char> {
    "no 'module' section exists"@
}

pub open spec fn module_not_table_message() -> Seq<char> {
    "'module' is not a section or a table"@
}

/// The value that completion gives a missing attribute, from the section as it
/// stands at that moment.
pub open spec fn generated_value(m: Map<Seq<char>, TomlData>, a: ModuleAttribute) -> TomlData {
    match a {
        ModuleAttribute::Name => if m.contains_key("name"@) {
            m["name"@]
        } else {
            TomlData::Str("Main"@)
        },
        ModuleAttribute::Version => TomlData::Str("0.0.1"@),
        ModuleAttribute::CurlyVersion => TomlData::Str("newest"@),
        ModuleAttribute::Links => TomlData::Str(""@),
        ModuleAttribute::BinaryName => m["name"@],
        ModuleAttribute::CFfiFiles => TomlData::Str(""@),
    }
}

pub open spec fn attribute_step(m: Map<Seq<char>, TomlData>, a: ModuleAttribute) -> AttributeStep {
    if !m.contains_key(a.key()) {
        if a is BinaryName && !m.contains_key("name"@) {
            AttributeStep::Abort
        } else {
            AttributeStep::Continue(m.insert(a.key(), generated_value(m, a)))
        }
    } else if m[a.key()] is Str {
        AttributeStep::Continue(m)
    } else {
        AttributeStep::Fail(not_string_message(a.key()))
    }
}

/// The attributes taken in `order`, each in its turn.
pub open spec fn walk_attributes(m: Map<Seq<char>, TomlData>, order: Seq<ModuleAttribute>) -> (
    Map<Seq<char>, TomlData>,
    Completion,
)
    decreases order.len(),
{
    if order.len() == 0 {
        (m, Completion::Done)
    } else {
        match attribute_step(m, order[0]) {
            AttributeStep::Continue(m2) => walk_attributes(m2, order.drop_first()),
            AttributeStep::Fail(msg) => (m, Completion::Failed(CompleteErrorView::BadTomlType(msg))),
            AttributeStep::Abort => (m, Completion::Aborted),
        }
    }
}

/// The `location` entry as completion leaves it.
pub open spec fn completed_location(loc: TomlData) -> TomlData {
    match loc {
        TomlData::Str(p) => TomlData::Table(Map::empty().insert("path"@, TomlData::Str(p))),
        TomlData::Table(lt) => TomlData::Table(
            if lt.contains_key("path"@) {
                lt
            } else {
                lt.insert("path"@, TomlData::Str("."@))
            },
        ),
        _ => loc,
    }
}

/// The checks on `authors` and `location` that follow the attributes.
pub open spec fn finish_module(m: Map<Seq<char>, TomlData>) -> (Map<Seq<char>, TomlData>, Completion) {
    if m.contains_key("authors"@) && !(m["authors"@] is Array) {
        (m, Completion::Failed(CompleteErrorView::BadTomlType(authors_message())))
    } else {
        let m1 = if m.contains_key("authors"@) {
            m
        } else {
            m.insert("authors"@, TomlData::Array(Seq::empty()))
        };
        if !m1.contains_key("location"@) {
            (m1.insert("location"@, TomlData::Str("."@)), Completion::Done)
        } else if m1["location"@] is Str || m1["location"@] is Table {
            (m1.insert("location"@, completed_location(m1["location"@])), Completion::Done)
        } else {
            (m1, Completion::Failed(CompleteErrorView::BadTomlType(location_message())))
        }
    }
}

/// The whole completion of a `module` section, attributes taken in `order`.
pub open spec fn complete_section(m: Map<Seq<char>, TomlData>, order: Seq<ModuleAttribute>) -> (
    Map<Seq<char>, TomlData>,
    Completion,
) {
    let (m1, c) = walk_attributes(m, order);
    if c is Done {
        finish_module(m1)
    } else {
        (m1, c)
    }
}

/// The completion of a whole document, attributes taken in `order`: the
/// document afterwards and how completion ended.
pub open spec fn completion(doc: TomlData, order: Seq<ModuleAttribute>) -> (TomlData, Completion) {
    match doc {
        TomlData::Table(top) => if !top.contains_key("module"@) {
            (doc, Completion::Failed(CompleteErrorView::NotEnoughInfo(no_module_message())))
        } else {
            match top["module"@] {
                TomlData::Table(m) => {
                    let (m2, c) = complete_section(m, order);
                    (TomlData::Table(top.insert("module"@, TomlData::Table(m2))), c)
                },
                _ => (
                    doc,
                    Completion::Failed(CompleteErrorView::NotEnoughInfo(module_not_table_message())),
                ),
            }
        },
        _ => (doc, Completion::Failed(CompleteErrorView::NotEnoughInfo(no_module_message()))),
    }
}

/// How an exec outcome reads as a `Completion`.
pub open spec fn completion_of(r: Option<Result<(), CompleteError>>) -> Completion {
    match r {
        None => Completion::Aborted,
        Some(Ok(())) => Completion::Done,
        Some(Err(e)) => Completion::Failed(e@),
    }
}

fn not_string_error(key: &str) -> (r: String)
    ensures
        r@ == not_string_message(key@),
{
    let mut s = String::from_str("section 'module', variable '");
    s.append(key);
    s.append("' is not of type String");
    s
}

/// The value completion gives attribute `a`, missing from `module`.
fn generate_attribute(module: &TomlTable, a: ModuleAttribute) -> (v: TomlValue)
    requires
        a is BinaryName ==> module.contents().contains_key("name"@),
    ensures
        v.data() == generated_value(module.contents(), a),
{
    match a {
        ModuleAttribute::Name => match module.get("name") {
            Some(n) => n.deep_clone(),
            None => TomlValue::String(String::from_str("Main")),
        },
        ModuleAttribute::Version => TomlValue::String(String::from_str("0.0.1")),
        ModuleAttribute::CurlyVersion => TomlValue::String(String::from_str("newest")),
        ModuleAttribute::Links => TomlValue::String(String::from_str("")),
        ModuleAttribute::BinaryName => match module.get("name") {
            Some(n) => n.deep_clone(),
            None => {
                proof {
                    assert(false);
                }
                TomlValue::String(String::new())
            },
        },
        ModuleAttribute::CFfiFiles => TomlValue::String(String::from_str("")),
    }
}

/// Takes the attributes in `order`: adds each missing one, refuses one that
/// is present and not a string.
fn complete_attributes(module: &mut TomlTable, order: &Vec<ModuleAttribute>) -> (r: Option<
    Result<(), CompleteError>,
>)
    ensures
        (final(module).contents(), completion_of(r)) == walk_attributes(
            old(module).contents(),
            order@,
        ),
        r matches Some(Err(e)) ==> e is BadTomlType,
{
    let mut i: usize = 0;
    proof {
        assert(order@.skip(0) =~= order@);
    }
    while i < order.len()
        invariant
            i <= order@.len(),
            walk_attributes(old(module).contents(), order@) == walk_attributes(
                module.contents(),
                order@.skip(i as int),
            ),
        decreases order@.len() - i,
    {
        let a = order[i];
        proof {
            assert(order@.skip(i as int)[0] == a);
            assert(order@.skip(i as int).drop_first() =~= order@.skip(i + 1));
        }
        let key = a.key_text();
        if !module.contains_key(key) {
            let aborts = match a {
                ModuleAttribute::BinaryName => !module.contains_key("name"),
                _ => false,
            };
            if aborts {
                return None;
            }
            let v = generate_attribute(module, a);
            module.insert(String::from_str(key), v);
        } else {
            let is_string = match module.get(key) {
                Some(v) => v.is_str(),
                None => false,
            };
            if !is_string {
                return Some(Err(CompleteError::BadTomlType(not_string_error(key))));
            }
        }
        i = i + 1;
    }
    proof {
        assert(order@.skip(i as int).len() == 0);
    }
    Some(Ok(()))
}

/// The checks on `authors` and `location` that follow the attributes.
fn finish_section(module: &mut TomlTable) -> (r: Result<(), CompleteError>)
    ensures
        (final(module).contents(), completion_of(Some(r))) == finish_module(old(module).contents()),
        r matches Err(e) ==> e is BadTomlType,
{
    if module.contains_key("authors") {
        let is_array = match module.get("authors") {
            Some(v) => v.is_array(),
            None => false,
        };
        if !is_array {
            return Err(
                CompleteError::BadTomlType(
                    String::from_str("section 'module', variable 'authors' is not of type Array"),
                ),
            );
        }
    } else {
        let empty = TomlValue::Array(Vec::new());
        proof {
            lemma_items_data(Seq::<TomlValue>::empty());
            assert(items_data(Seq::<TomlValue>::empty()) =~= Seq::<TomlData>::empty());
        }
        module.insert(String::from_str("authors"), empty);
    }
    if !module.contains_key("location") {
        module.insert(String::from_str("location"), TomlValue::String(String::from_str(".")));
    } else {
        let location = match module.get("location") {
            Some(TomlValue::String(path)) => {
                let mut t = TomlTable::new();
                t.insert(String::from_str("path"), TomlValue::String(path.clone()));
                TomlValue::Table(t)
            },
            Some(TomlValue::Table(lt)) => {
                let mut t = lt.deep_clone();
                if !lt.contains_key("path") {
                    t.insert(String::from_str("path"), TomlValue::String(String::from_str(".")));
                }
                TomlValue::Table(t)
            },
            _ => {
                return Err(
                    CompleteError::BadTomlType(
                        String::from_str(
                            "section 'module', variable 'location' is not of type Table or String",
                        ),
                    ),
                );
            },
        };
        module.insert(String::from_str("location"), location);
    }
    Ok(())
}

/// Completes the `module` section of `doc`, taking the attributes in `order`;
/// `None` where the binary name would be copied from a name that is missing.
pub fn complete_module_in_order(doc: &mut TomlValue, order: &Vec<ModuleAttribute>) -> (r: Option<
    Result<(), CompleteError>,
>)
    ensures
        (final(doc).data(), completion_of(r)) == completion(old(doc).data(), order@),
{
    let mut module = match doc.as_table() {
        None => {
            return Some(
                Err(CompleteError::NotEnoughInfo(String::from_str("no 'module' section exists"))),
            );
        },
        Some(top) => match top.get("module") {
            None => {
                return Some(
                    Err(
                        CompleteError::NotEnoughInfo(String::from_str("no 'module' section exists")),
                    ),
                );
            },
            Some(m) => match m.as_table() {
                None => {
                    return Some(
                        Err(
                            CompleteError::NotEnoughInfo(
                                String::from_str("'module' is not a section or a table"),
                            ),
                        ),
                    );
                },
                Some(mt) => mt.deep_clone(),
            },
        },
    };
    let walked = complete_attributes(&mut module, order);
    let r = match walked {
        Some(Ok(())) => Some(finish_section(&mut module)),
        other => other,
    };
    let mut taken = TomlValue::Boolean(false);
    std::mem::swap(&mut taken, doc);
    match taken {
        TomlValue::Table(mut top) => {
            top.insert(String::from_str("module"), TomlValue::Table(module));
            *doc = TomlValue::Table(top);
        },
        other => {
            *doc = other;
        },
    }
    r
}

/// The attribute that the table of attributes lists under `code`.
pub open spec fn attribute_of_code(code: u64) -> ModuleAttribute {
    if code == 0 {
        ModuleAttribute::Name
    } else if code == 1 {
        ModuleAttribute::Version
    } else if code == 2 {
        ModuleAttribute::CurlyVersion
    } else if code == 3 {
        ModuleAttribute::Links
    } else if code == 4 {
        ModuleAttribute::BinaryName
    } else {
        ModuleAttribute::CFfiFiles
    }
}

/// An order in which completion may take the attributes: each exactly once.
pub open spec fn is_walk_order(order: Seq<ModuleAttribute>) -> bool {
    &&& order.no_duplicates()
    &&& forall|a: ModuleAttribute| #[trigger] order.contains(a)
}

/// The table of the attributes that completion fills in, keyed by a number.
fn module_attributes() -> (m: HashMap<u64, ModuleAttribute>)
    ensures
        forall|c: u64| #[trigger] m@.contains_key(c) <==> c < 6,
        forall|c: u64| c < 6 ==> #[trigger] m@[c] == attribute_of_code(c),
{
    let mut m: HashMap<u64, ModuleAttribute> = HashMap::new();
    m.insert(0, ModuleAttribute::Name);
    m.insert(1, ModuleAttribute::Version);
    m.insert(2, ModuleAttribute::CurlyVersion);
    m.insert(3, ModuleAttribute::Links);
    m.insert(4, ModuleAttribute::BinaryName);
    m.insert(5, ModuleAttribute::CFfiFiles);
    m
}

/// The order in which a walk of the table of attributes meets them: each
/// attribute exactly once, in an order that the map's hashing decides.
pub fn attribute_walk_order() -> (order: Vec<ModuleAttribute>)
    ensures
        is_walk_order(order@),
{
    let attributes = module_attributes();
    let mut order: Vec<ModuleAttribute> = Vec::new();
    let ghost keys = vstd::std_specs::hash::spec_keys_iter(&attributes).remaining();
    proof {
        assert(keys.unref().to_set() == attributes@.dom());
    }
    for code in it: attributes.keys()
        invariant
            it.seq() == keys,
            forall|c: u64| #[trigger] attributes@.contains_key(c) <==> c < 6,
            forall|c: u64| c < 6 ==> #[trigger] attributes@[c] == attribute_of_code(c),
            order@.len() == it.index(),
            forall|j: int| 0 <= j < it.index() ==> #[trigger] order@[j] == attribute_of_code(*it.seq()[j]),
    {
        let a = match attributes.get(code) {
            Some(a) => *a,
            None => ModuleAttribute::Name,
        };
        order.push(a);
    }
    proof {
        assert(order@.len() == keys.len());
        assert(keys.no_duplicates());
        assert forall|a: ModuleAttribute| #[trigger] order@.contains(a) by {
            let c: u64 = match a {
                ModuleAttribute::Name => 0,
                ModuleAttribute::Version => 1,
                ModuleAttribute::CurlyVersion => 2,
                ModuleAttribute::Links => 3,
                ModuleAttribute::BinaryName => 4,
                ModuleAttribute::CFfiFiles => 5,
            };
            assert(attributes@.dom().contains(c));
            assert(keys.unref().to_set().contains(c));
            let j = choose|j: int| 0 <= j < keys.len() && *keys[j] == c;
            assert(order@[j] == a);
        }
        assert forall|i: int, j: int|
            0 <= i < order@.len() && 0 <= j < order@.len() && i != j implies order@[i]
            != order@[j] by {
            assert(keys.unref()[i] == *keys[i]);
            assert(keys.unref()[j] == *keys[j]);
            assert(keys.unref().contains(*keys[i]));
            assert(keys.unref().contains(*keys[j]));
            assert(keys.unref().to_set().contains(*keys[i]));
            assert(keys.unref().to_set().contains(*keys[j]));
            assert(*keys[i] < 6 && *keys[j] < 6);
            assert(keys[i] != keys[j]);
        }
    }
    order
}

/// The attribute whose key `k` is, if any.
pub open spec fn attribute_for_key(k: Seq<char>) -> Option<ModuleAttribute> {
    if k == "name"@ {
        Some(ModuleAttribute::Name)
    } else if k == "version"@ {
        Some(ModuleAttribute::Version)
    } else if k == "curly_version"@ {
        Some(ModuleAttribute::CurlyVersion)
    } else if k == "links"@ {
        Some(ModuleAttribute::Links)
    } else if k == "binary_name"@ {
        Some(ModuleAttribute::BinaryName)
    } else if k == "C_FFI_files"@ {
        Some(ModuleAttribute::CFfiFiles)
    } else {
        None
    }
}

/// The value a missing attribute ends up with in a section `m` that completes.
pub open spec fn attribute_default(m: Map<Seq<char>, TomlData>, a: ModuleAttribute) -> TomlData {
    match a {
        ModuleAttribute::Name => TomlData::Str("Main"@),
        ModuleAttribute::BinaryName => if m.contains_key("name"@) {
            m["name"@]
        } else {
            TomlData::Str("Main"@)
        },
        _ => generated_value(m, a),
    }
}

/// Section `m` with the attributes in `done` filled in where missing.
pub open spec fn partially_filled(m: Map<Seq<char>, TomlData>, done: Set<ModuleAttribute>) -> Map<
    Seq<char>,
    TomlData,
> {
    Map::new(
        |k: Seq<char>|
            m.contains_key(k) || (attribute_for_key(k) is Some && done.contains(
                attribute_for_key(k)->0,
            )),
        |k: Seq<char>|
            if m.contains_key(k) {
                m[k]
            } else {
                attribute_default(m, attribute_for_key(k)->0)
            },
    )
}

/// Section `m` with every missing attribute filled in.
pub open spec fn filled_section(m: Map<Seq<char>, TomlData>) -> Map<Seq<char>, TomlData> {
    partially_filled(m, Set::new(|a: ModuleAttribute| true))
}

/// Attribute `a` stands in `m` and is not a string.
pub open spec fn attribute_invalid(m: Map<Seq<char>, TomlData>, a: ModuleAttribute) -> bool {
    m.contains_key(a.key()) && !(m[a.key()] is Str)
}

/// Completion would have to copy the binary name from a name that is missing,
/// if it took the binary name first.
pub open spec fn section_may_abort(m: Map<Seq<char>, TomlData>) -> bool {
    !m.contains_key("name"@) && !m.contains_key("binary_name"@)
}

/// Every check of completion passes on section `m`.
pub open spec fn section_completes(m: Map<Seq<char>, TomlData>) -> bool {
    &&& forall|a: ModuleAttribute| !attribute_invalid(m, a)
    &&& m.contains_key("authors"@) ==> m["authors"@] is Array
    &&& m.contains_key("location"@) ==> (m["location"@] is Str || m["location"@] is Table)
}

/// Section `m` after a completion that succeeds.
pub open spec fn completed_section(m: Map<Seq<char>, TomlData>) -> Map<Seq<char>, TomlData> {
    finish_module(filled_section(m)).0
}

/// The `module` section of a document, if it has one that is a table.
pub open spec fn module_section(doc: TomlData) -> Option<Map<Seq<char>, TomlData>> {
    match doc {
        TomlData::Table(top) => if top.contains_key("module"@) {
            match top["module"@] {
                TomlData::Table(m) => Some(m),
                _ => None,
            }
        } else {
            None
        },
        _ => None,
    }
}

/// Whether completing `doc` may stop short: for some walk order it would
/// copy the binary name from a missing name.
pub open spec fn completion_may_abort(doc: TomlData) -> bool {
    module_section(doc) matches Some(m) && section_may_abort(m)
}

/// Whether completing `doc` succeeds.
pub open spec fn completion_succeeds(doc: TomlData) -> bool {
    module_section(doc) matches Some(m) && section_completes(m)
}

/// The document after a completion that succeeds.
pub open spec fn completed_document(doc: TomlData) -> TomlData {
    match doc {
        TomlData::Table(top) => TomlData::Table(
            top.insert("module"@, TomlData::Table(completed_section(module_section(doc)->0))),
        ),
        _ => doc,
    }
}

/// The errors with which completing `doc` may fail, whatever the walk order.
pub open spec fn completion_error(doc: TomlData, e: CompleteErrorView) -> bool {
    match module_section(doc) {
        None => e == (match doc {
            TomlData::Table(top) => if top.contains_key("module"@) {
                CompleteErrorView::NotEnoughInfo(module_not_table_message())
            } else {
                CompleteErrorView::NotEnoughInfo(no_module_message())
            },
            _ => CompleteErrorView::NotEnoughInfo(no_module_message()),
        }),
        Some(m) => if exists|a: ModuleAttribute| attribute_invalid(m, a) {
            exists|a: ModuleAttribute|
                attribute_invalid(m, a) && e == CompleteErrorView::BadTomlType(
                    not_string_message(#[trigger] a.key()),
                )
        } else if m.contains_key("authors"@) && !(m["authors"@] is Array) {
            e == CompleteErrorView::BadTomlType(authors_message())
        } else {
            e == CompleteErrorView::BadTomlType(location_message())
        },
    }
}

proof fn lemma_attribute_keys()
    ensures
        forall|a: ModuleAttribute| #[trigger] attribute_for_key(a.key()) == Some(a),
        attribute_for_key("authors"@) is None,
        attribute_for_key("location"@) is None,
        attribute_for_key("path"@) is None,
        "authors"@ != "location"@,
{
    reveal_strlit("name");
    reveal_strlit("version");
    reveal_strlit("curly_version");
    reveal_strlit("links");
    reveal_strlit("binary_name");
    reveal_strlit("C_FFI_files");
    reveal_strlit("authors");
    reveal_strlit("location");
    reveal_strlit("path");
    assert("binary_name"@[0] != "C_FFI_files"@[0]);
    assert("authors"@[0] != "version"@[0]);
    assert("name"@[0] != "path"@[0]);
    assert("location"@.len() == 8);
    assert("name"@.len() == 4);
    assert("version"@.len() == 7);
    assert("curly_version"@.len() == 13);
    assert("links"@.len() == 5);
    assert("binary_name"@.len() == 11);
    assert("C_FFI_files"@.len() == 11);
    assert("authors"@.len() == 7);
    assert("path"@.len() == 4);
    assert forall|a: ModuleAttribute| #[trigger] attribute_for_key(a.key()) == Some(a) by {
        match a {
            ModuleAttribute::Name => {},
            ModuleAttribute::Version => {},
            ModuleAttribute::CurlyVersion => {},
            ModuleAttribute::Links => {},
            ModuleAttribute::BinaryName => {},
            ModuleAttribute::CFfiFiles => {},
        }
    }
}

/// The walk of `rest`, from the section filled for `done`: it never stops,
/// it fills in the attributes of `rest` when they are all fine, and fails on
/// an attribute that is not a string otherwise.
proof fn lemma_walk(m: Map<Seq<char>, TomlData>, done: Set<ModuleAttribute>, rest: Seq<ModuleAttribute>)
    requires
        rest.no_duplicates(),
        forall|i: int| 0 <= i < rest.len() ==> !done.contains(#[trigger] rest[i]),
    ensures
        walk_attributes(partially_filled(m, done), rest).1 is Aborted ==> section_may_abort(m)
            && !done.contains(ModuleAttribute::Name) && !(rest[0] is Name),
        (forall|i: int| 0 <= i < rest.len() ==> !attribute_invalid(m, #[trigger] rest[i]))
            ==> (walk_attributes(partially_filled(m, done), rest).1 is Aborted || walk_attributes(
            partially_filled(m, done),
            rest,
        ) == (partially_filled(m, done + rest.to_set()), Completion::Done)),
        !(forall|i: int| 0 <= i < rest.len() ==> !attribute_invalid(m, #[trigger] rest[i]))
            ==> (walk_attributes(partially_filled(m, done), rest).1 is Aborted || (walk_attributes(
            partially_filled(m, done),
            rest,
        ).1 matches Completion::Failed(CompleteErrorView::BadTomlType(msg)) && exists|
            b: ModuleAttribute,
        | attribute_invalid(m, b) && msg == not_string_message(#[trigger] b.key()))),
    decreases rest.len(),
{
    lemma_attribute_keys();
    let cur = partially_filled(m, done);
    if rest.len() == 0 {
        assert(done + rest.to_set() =~= done);
    } else {
        let a = rest[0];
        let tail = rest.drop_first();
        let done2 = done.insert(a);
        assert(forall|i: int| 0 <= i < tail.len() ==> tail[i] == rest[i + 1]);
        assert forall|i: int| 0 <= i < tail.len() implies !done2.contains(#[trigger] tail[i]) by {
            assert(tail[i] == rest[i + 1]);
            assert(rest[i + 1] != rest[0]);
        }
        assert(tail.no_duplicates()) by {
            assert forall|i: int, j: int| 0 <= i < tail.len() && 0 <= j < tail.len() && i != j
                implies tail[i] != tail[j] by {
                assert(tail[i] == rest[i + 1]);
                assert(tail[j] == rest[j + 1]);
            }
        }
        assert(done2 + tail.to_set() =~= done + rest.to_set()) by {
            assert forall|x: ModuleAttribute| (done2 + tail.to_set()).contains(x) <==> (done
                + rest.to_set()).contains(x) by {
                if rest.contains(x) && x != a {
                    let i = choose|i: int| 0 <= i < rest.len() && rest[i] == x;
                    assert(i != 0);
                    assert(tail[i - 1] == x);
                }
                if tail.contains(x) {
                    let i = choose|i: int| 0 <= i < tail.len() && tail[i] == x;
                    assert(rest[i + 1] == x);
                }
            }
        }
        assert(!done.contains(a));
        assert(attribute_for_key(a.key()) == Some(a));
        assert(cur.contains_key(a.key()) == m.contains_key(a.key()));
        if m.contains_key(a.key()) {
            assert(cur[a.key()] == m[a.key()]);
            if m[a.key()] is Str {
                assert(partially_filled(m, done2) =~= cur);
                lemma_walk(m, done2, tail);
                if !(forall|i: int| 0 <= i < rest.len() ==> !attribute_invalid(m, #[trigger] rest[i])) {
                    let i = choose|i: int| 0 <= i < rest.len() && attribute_invalid(m, #[trigger] rest[i]);
                    assert(i != 0);
                    assert(tail[i - 1] == rest[i]);
                }
            } else {
                assert(attribute_invalid(m, a));
                assert(attribute_invalid(m, rest[0]));
            }
        } else if a is BinaryName && !cur.contains_key("name"@) {
            assert(!m.contains_key("name"@));
            assert(!done.contains(ModuleAttribute::Name)) by {
                assert(attribute_for_key("name"@) == Some(ModuleAttribute::Name));
            }
        } else {
            assert(generated_value(cur, a) == attribute_default(m, a)) by {
                if a is Name {
                    assert(!cur.contains_key("name"@));
                }
                if a is BinaryName {
                    if m.contains_key("name"@) {
                        assert(cur["name"@] == m["name"@]);
                    } else {
                        assert(attribute_for_key("name"@) == Some(ModuleAttribute::Name));
                        assert(cur["name"@] == attribute_default(m, ModuleAttribute::Name));
                    }
                }
            }
            assert(cur.insert(a.key(), generated_value(cur, a)) =~= partially_filled(m, done2));
            lemma_walk(m, done2, tail);
            if !(forall|i: int| 0 <= i < rest.len() ==> !attribute_invalid(m, #[trigger] rest[i])) {
                let i = choose|i: int| 0 <= i < rest.len() && attribute_invalid(m, #[trigger] rest[i]);
                assert(i != 0);
                assert(tail[i - 1] == rest[i]);
            }
        }
    }
}

/// Completion by any walk order: it stops short only on a document that lacks
/// both the name and the binary name, and never where the name comes first;
/// where it does not stop short it succeeds exactly on the documents that
/// complete, and then leaves the completed document; where it fails, it fails
/// with one of the errors that the document may give.
pub proof fn lemma_completion(doc: TomlData, order: Seq<ModuleAttribute>)
    requires
        is_walk_order(order),
    ensures
        completion(doc, order).1 is Aborted ==> completion_may_abort(doc) && !(order[0] is Name),
        !(completion(doc, order).1 is Aborted) ==> (completion(doc, order).1 is Done
            <==> completion_succeeds(doc)),
        completion(doc, order).1 is Done ==> completion_succeeds(doc) && completion(doc, order).0
            == completed_document(doc),
        completion(doc, order).1 matches Completion::Failed(e) ==> completion_error(doc, e),
{
    lemma_attribute_keys();
    if let Some(m) = module_section(doc) {
        let empty = Set::<ModuleAttribute>::empty();
        assert(partially_filled(m, empty) =~= m);
        assert(empty + order.to_set() =~= Set::new(|a: ModuleAttribute| true)) by {
            assert forall|a: ModuleAttribute| (empty + order.to_set()).contains(a) by {
                assert(order.contains(a));
            }
        }
        lemma_walk(m, empty, order);
        let all_valid = forall|i: int| 0 <= i < order.len() ==> !attribute_invalid(m, #[trigger] order[i]);
        assert(all_valid <==> forall|a: ModuleAttribute| !attribute_invalid(m, a)) by {
            if !all_valid {
                let i = choose|i: int| 0 <= i < order.len() && attribute_invalid(m, #[trigger] order[i]);
                assert(attribute_invalid(m, order[i]));
            }
            if exists|a: ModuleAttribute| attribute_invalid(m, a) {
                let a = choose|a: ModuleAttribute| attribute_invalid(m, a);
                assert(order.contains(a));
                let i = choose|i: int| 0 <= i < order.len() && order[i] == a;
                assert(attribute_invalid(m, order[i]));
            }
        }
        let f = filled_section(m);
        assert(f.contains_key("authors"@) == m.contains_key("authors"@));
        assert(f.contains_key("location"@) == m.contains_key("location"@));
        if m.contains_key("authors"@) {
            assert(f["authors"@] == m["authors"@]);
        }
        if m.contains_key("location"@) {
            assert(f["location"@] == m["location"@]);
        }
        if !f.contains_key("authors"@) {
            let f1 = f.insert("authors"@, TomlData::Array(Seq::empty()));
            assert(f1.contains_key("location"@) == m.contains_key("location"@));
            if m.contains_key("location"@) {
                assert(f1["location"@] == m["location"@]);
            }
        }
    }
}

/// Completes the `module` section of `doc` as the program does: the
/// attributes are taken in the order in which a walk of its table of
/// attributes meets them. `None` where that order copies the binary name
/// from a name that is missing, where the program stops.
pub fn try_complete_module(doc: &mut TomlValue) -> (r: Option<Result<(), CompleteError>>)
    ensures
        exists|order: Seq<ModuleAttribute>|
            is_walk_order(order) && (final(doc).data(), completion_of(r)) == #[trigger] completion(
                old(doc).data(),
                order,
            ),
        r is None ==> completion_may_abort(old(doc).data()),
        r matches Some(Ok(())) ==> completion_succeeds(old(doc).data()) && final(doc).data()
            == completed_document(old(doc).data()),
        r matches Some(Err(e)) ==> completion_error(old(doc).data(), e@),
{
    let order = attribute_walk_order();
    let r = complete_module_in_order(doc, &order);
    proof {
        lemma_completion(old(doc).data(), order@);
    }
    r
}

/// The order in which `complete_module` takes the attributes: the name
/// first, so that a binary name to copy always finds one.
pub open spec fn name_first_order() -> Seq<ModuleAttribute> {
    seq![
        ModuleAttribute::Name,
        ModuleAttribute::Version,
        ModuleAttribute::CurlyVersion,
        ModuleAttribute::Links,
        ModuleAttribute::BinaryName,
        ModuleAttribute::CFfiFiles,
    ]
}

/// Fills in the missing attributes of the `module` section of `doc`, checks
/// the types of those present, and settles `authors` and `location`. The
/// name is taken first, so completion never stops short: a section without
/// a name and a binary name gets `Main` for both.
pub fn complete_module(doc: &mut TomlValue) -> (r: Result<(), CompleteError>)
    ensures
        r is Ok <==> completion_succeeds(old(doc).data()),
        r is Ok ==> final(doc).data() == completed_document(old(doc).data()),
        r matches Err(e) ==> completion_error(old(doc).data(), e@),
        (final(doc).data(), completion_of(Some(r))) == completion(
            old(doc).data(),
            name_first_order(),
        ),
{
    let order = vec![
        ModuleAttribute::Name,
        ModuleAttribute::Version,
        ModuleAttribute::CurlyVersion,
        ModuleAttribute::Links,
        ModuleAttribute::BinaryName,
        ModuleAttribute::CFfiFiles,
    ];
    proof {
        assert(order@ =~= name_first_order());
        assert(is_walk_order(order@)) by {
            assert forall|a: ModuleAttribute| #[trigger] order@.contains(a) by {
                match a {
                    ModuleAttribute::Name => assert(order@[0] == a),
                    ModuleAttribute::Version => assert(order@[1] == a),
                    ModuleAttribute::CurlyVersion => assert(order@[2] == a),
                    ModuleAttribute::Links => assert(order@[3] == a),
                    ModuleAttribute::BinaryName => assert(order@[4] == a),
                    ModuleAttribute::CFfiFiles => assert(order@[5] == a),
                }
            }
        }
    }
    let r = complete_module_in_order(doc, &order);
    proof {
        lemma_completion(old(doc).data(), order@);
    }
    match r {
        Some(result) => result,
        None => {
            proof {
                assert(false);
            }
            Ok(())
        },
    }
}

/// Completion does not depend on the order in which the attributes are
/// taken: where neither of two walk orders stops it short, it succeeds for
/// one exactly when it succeeds for the other, and then leaves the same
/// document.
pub proof fn law_completion_independent_of_walk_order(
    doc: TomlData,
    o1: Seq<ModuleAttribute>,
    o2: Seq<ModuleAttribute>,
)
    requires
        is_walk_order(o1),
        is_walk_order(o2),
        !(completion(doc, o1).1 is Aborted),
        !(completion(doc, o2).1 is Aborted),
    ensures
        completion(doc, o1).1 is Done <==> completion(doc, o2).1 is Done,
        completion(doc, o1).1 is Done ==> completion(doc, o1).0 == completion(doc, o2).0,
{
    lemma_completion(doc, o1);
    lemma_completion(doc, o2);
}

/// What completion makes of a section that completes: every attribute is a
/// string, the given ones unchanged and the missing ones at their defaults;
/// `authors` is an array, the given one or an empty one; `location` is
/// settled; every other entry stays as it was.
pub proof fn law_completed_section(doc: TomlData)
    requires
        completion_succeeds(doc),
    ensures
        ({
            let m = module_section(doc)->0;
            let c = completed_section(m);
            &&& module_section(completed_document(doc)) == Some(c)
            &&& forall|a: ModuleAttribute|
                #![trigger c[a.key()]]
                c.contains_key(a.key()) && c[a.key()] is Str && c[a.key()] == (if m.contains_key(
                    a.key(),
                ) {
                    m[a.key()]
                } else {
                    attribute_default(m, a)
                })
            &&& c.contains_key("authors"@) && c["authors"@] == (if m.contains_key("authors"@) {
                m["authors"@]
            } else {
                TomlData::Array(Seq::empty())
            })
            &&& c.contains_key("location"@) && c["location"@] == (if m.contains_key(
                "location"@,
            ) {
                completed_location(m["location"@])
            } else {
                TomlData::Str("."@)
            })
            &&& forall|k: Seq<char>|
                #![trigger c.contains_key(k)]
                attribute_for_key(k) is None && k != "authors"@ && k != "location"@ ==> (
                c.contains_key(k) == m.contains_key(k) && (m.contains_key(k) ==> c[k] == m[k]))
        }),
{
    lemma_attribute_keys();
    let m = module_section(doc)->0;
    let top = doc->Table_0;
    let c = completed_section(m);
    assert(top.insert("module"@, TomlData::Table(c))["module"@] == TomlData::Table(c));
    let f = filled_section(m);
    assert forall|a: ModuleAttribute| #![trigger c[a.key()]] c.contains_key(a.key()) && c[a.key()]
        is Str && c[a.key()] == (if m.contains_key(a.key()) {
        m[a.key()]
    } else {
        attribute_default(m, a)
    }) by {
        assert(attribute_for_key(a.key()) == Some(a));
        assert(f.contains_key(a.key()));
        assert(a.key() != "authors"@);
        assert(a.key() != "location"@);
        let m1 = if f.contains_key("authors"@) {
            f
        } else {
            f.insert("authors"@, TomlData::Array(Seq::empty()))
        };
        assert(m1[a.key()] == f[a.key()]);
        assert(c[a.key()] == m1[a.key()]);
        if m.contains_key(a.key()) {
            assert(!attribute_invalid(m, a));
            assert(f[a.key()] == m[a.key()]);
        } else {
            assert(f[a.key()] == attribute_default(m, a));
            if a is BinaryName && m.contains_key("name"@) {
                assert(!attribute_invalid(m, ModuleAttribute::Name));
            }
        }
    }
}

proof fn lemma_location_settles(loc: TomlData)
    requires
        loc is Str || loc is Table,
    ensures
        completed_location(completed_location(loc)) == completed_location(loc),
        completed_location(loc) is Table,
{
    lemma_attribute_keys();
    match loc {
        TomlData::Str(p) => {
            let t = Map::<Seq<char>, TomlData>::empty().insert("path"@, TomlData::Str(p));
            assert(t.contains_key("path"@));
        },
        TomlData::Table(lt) => {
            let t = if lt.contains_key("path"@) {
                lt
            } else {
                lt.insert("path"@, TomlData::Str("."@))
            };
            assert(t.contains_key("path"@));
        },
        _ => {},
    }
}

/// A section that has every attribute is its own filling.
proof fn lemma_filled_when_complete(c: Map<Seq<char>, TomlData>)
    requires
        forall|a: ModuleAttribute| #[trigger] c.contains_key(a.key()),
    ensures
        filled_section(c) =~= c,
{
    assert forall|k: Seq<char>| #[trigger] filled_section(c).contains_key(k) implies c.contains_key(
        k,
    ) by {
        if !c.contains_key(k) {
            let a = attribute_for_key(k)->0;
            assert(a.key() == k) by {
                reveal_strlit("name");
                reveal_strlit("version");
                reveal_strlit("curly_version");
                reveal_strlit("links");
                reveal_strlit("binary_name");
                reveal_strlit("C_FFI_files");
            }
        }
    }
}

/// Completion settles: the document that a successful completion leaves
/// completes again, and from the second completion on nothing changes; where
/// the section gave a `location`, nothing changes from the first on.
pub proof fn law_completion_settles(doc: TomlData)
    requires
        completion_succeeds(doc),
    ensures
        !completion_may_abort(completed_document(doc)),
        completion_succeeds(completed_document(doc)),
        completion_succeeds(completed_document(completed_document(doc))),
        completed_document(completed_document(completed_document(doc))) == completed_document(
            completed_document(doc),
        ),
        module_section(doc)->0.contains_key("location"@) ==> completed_document(
            completed_document(doc),
        ) == completed_document(doc),
{
    lemma_attribute_keys();
    law_completed_section(doc);
    let m = module_section(doc)->0;
    let top = doc->Table_0;
    let c1 = completed_section(m);
    let d1 = completed_document(doc);
    assert(module_section(d1) == Some(c1));
    assert(c1.contains_key("name"@)) by {
        assert(c1.contains_key(ModuleAttribute::Name.key()));
    }
    assert forall|a: ModuleAttribute| !attribute_invalid(c1, a) by {
        assert(c1.contains_key(a.key()) && c1[a.key()] is Str);
    }
    if m.contains_key("location"@) {
        assert(m["location"@] is Str || m["location"@] is Table);
        lemma_location_settles(m["location"@]);
    }
    assert(section_completes(c1));
    law_completed_section(d1);
    let c2 = completed_section(c1);
    let d2 = completed_document(d1);
    lemma_filled_when_complete(c1);
    assert(c1["location"@] is Str || c1["location"@] is Table);
    lemma_location_settles(c1["location"@]);
    assert(c2 =~= c1.insert("location"@, completed_location(c1["location"@])));
    assert(d1->Table_0 == top.insert("module"@, TomlData::Table(c1)));
    assert(d2->Table_0 =~= top.insert("module"@, TomlData::Table(c2)));
    assert(module_section(d2) == Some(c2));
    assert(c2["location"@] is Table);
    assert forall|a: ModuleAttribute| !attribute_invalid(c2, a) by {
        assert(c2.contains_key(a.key()) && c2[a.key()] is Str);
    }
    assert(c2.contains_key("name"@)) by {
        assert(c2.contains_key(ModuleAttribute::Name.key()));
    }
    assert(section_completes(c2));
    law_completed_section(d2);
    let c3 = completed_section(c2);
    lemma_filled_when_complete(c2);
    assert(c3 =~= c2);
    assert(completed_document(d2)->Table_0 =~= d2->Table_0);
    if m.contains_key("location"@) {
        assert(c1["location"@] == completed_location(m["location"@]));
        assert(c2 =~= c1);
        assert(d2->Table_0 =~= d1->Table_0);
    }
}

/// Completion repeated: a document that completion left, by any walk
/// order, completes again by any walk order; where its section gave a
/// `location`, that second completion changes nothing, and a third one
/// changes nothing in any case.
pub proof fn law_completion_repeated(
    doc: TomlData,
    o1: Seq<ModuleAttribute>,
    o2: Seq<ModuleAttribute>,
    o3: Seq<ModuleAttribute>,
)
    requires
        is_walk_order(o1),
        is_walk_order(o2),
        is_walk_order(o3),
        completion(doc, o1).1 is Done,
    ensures
        completion(completion(doc, o1).0, o2).1 is Done,
        module_section(doc)->0.contains_key("location"@) ==> completion(completion(doc, o1).0, o2).0
            == completion(doc, o1).0,
        completion(completion(completion(doc, o1).0, o2).0, o3) == (
            completion(completion(doc, o1).0, o2).0,
            Completion::Done,
        ),
{
    lemma_completion(doc, o1);
    let d1 = completion(doc, o1).0;
    law_completion_settles(doc);
    lemma_completion(d1, o2);
    let d2 = completion(d1, o2).0;
    assert(d2 == completed_document(d1));
    law_completion_settles(d1);
    lemma_completion(d2, o3);
}

/// The order in which `complete_module` takes the attributes is a walk
/// order: each attribute exactly once.
pub proof fn law_name_first_is_walk_order()
    ensures
        is_walk_order(name_first_order()),
        name_first_order()[0] is Name,
{
    let order = name_first_order();
    assert forall|a: ModuleAttribute| #[trigger] order.contains(a) by {
        match a {
            ModuleAttribute::Name => assert(order[0] == a),
            ModuleAttribute::Version => assert(order[1] == a),
            ModuleAttribute::CurlyVersion => assert(order[2] == a),
            ModuleAttribute::Links => assert(order[3] == a),
            ModuleAttribute::BinaryName => assert(order[4] == a),
            ModuleAttribute::CFfiFiles => assert(order[5] == a),
        }
    }
}

/// What a successful completion, by any walk order, makes of the `module`
/// section `m` of a document: each attribute is the given one, or else its
/// default: `name` is `Main`, `version` is `0.0.1`, `curly_version` is
/// `newest`, `links` and `C_FFI_files` are empty, `binary_name` is the given
/// name or else `Main`; `authors` is the given one or an empty array;
/// `location` is `.` where none is given, `{ path = p }` for a given string
/// `p`, and a given table with `path` set to `.` where it has none. Every
/// other entry of the section, and every other section, stays as it was.
pub proof fn law_completion_result(
    top: Map<Seq<char>, TomlData>,
    m: Map<Seq<char>, TomlData>,
    order: Seq<ModuleAttribute>,
)
    requires
        is_walk_order(order),
        top.contains_key("module"@),
        top["module"@] == TomlData::Table(m),
        completion(TomlData::Table(top), order).1 is Done,
    ensures
        completion(TomlData::Table(top), order).0 is Table,
        ({
            let top2 = completion(TomlData::Table(top), order).0->Table_0;
            &&& top2.dom() == top.dom()
            &&& forall|k: Seq<char>| #[trigger] top2.contains_key(k) && k != "module"@ ==> top2[k] == top[k]
            &&& top2["module"@] is Table
        }),
        ({
            let c = completion(TomlData::Table(top), order).0->Table_0["module"@]->Table_0;
            &&& c.contains_key("name"@) && c["name"@] == (if m.contains_key("name"@) {
                m["name"@]
            } else {
                TomlData::Str("Main"@)
            })
            &&& c.contains_key("version"@) && c["version"@] == (if m.contains_key("version"@) {
                m["version"@]
            } else {
                TomlData::Str("0.0.1"@)
            })
            &&& c.contains_key("curly_version"@) && c["curly_version"@] == (if m.contains_key(
                "curly_version"@,
            ) {
                m["curly_version"@]
            } else {
                TomlData::Str("newest"@)
            })
            &&& c.contains_key("links"@) && c["links"@] == (if m.contains_key("links"@) {
                m["links"@]
            } else {
                TomlData::Str(""@)
            })
            &&& c.contains_key("binary_name"@) && c["binary_name"@] == (if m.contains_key(
                "binary_name"@,
            ) {
                m["binary_name"@]
            } else if m.contains_key("name"@) {
                m["name"@]
            } else {
                TomlData::Str("Main"@)
            })
            &&& c.contains_key("C_FFI_files"@) && c["C_FFI_files"@] == (if m.contains_key(
                "C_FFI_files"@,
            ) {
                m["C_FFI_files"@]
            } else {
                TomlData::Str(""@)
            })
            &&& c.contains_key("authors"@) && c["authors"@] == (if m.contains_key("authors"@) {
                m["authors"@]
            } else {
                TomlData::Array(Seq::empty())
            })
            &&& c.contains_key("location"@) && c["location"@] == (if !m.contains_key(
                "location"@,
            ) {
                TomlData::Str("."@)
            } else {
                match m["location"@] {
                    TomlData::Str(p) => TomlData::Table(
                        Map::empty().insert("path"@, TomlData::Str(p)),
                    ),
                    TomlData::Table(lt) => TomlData::Table(
                        if lt.contains_key("path"@) {
                            lt
                        } else {
                            lt.insert("path"@, TomlData::Str("."@))
                        },
                    ),
                    other => other,
                }
            })
            &&& forall|k: Seq<char>|
                #![trigger c.contains_key(k)]
                k != "name"@ && k != "version"@ && k != "curly_version"@ && k != "links"@ && k
                    != "binary_name"@ && k != "C_FFI_files"@ && k != "authors"@ && k
                    != "location"@ ==> (c.contains_key(k) == m.contains_key(k) && (m.contains_key(
                    k,
                ) ==> c[k] == m[k]))
        }),
{
    let doc = TomlData::Table(top);
    lemma_completion(doc, order);
    law_completed_section(doc);
    lemma_attribute_keys();
    assert(module_section(doc) == Some(m));
    let c = completed_section(m);
    assert(completion(doc, order).0 == completed_document(doc));
    assert(completed_document(doc)->Table_0 == top.insert("module"@, TomlData::Table(c)));
    assert(top.insert("module"@, TomlData::Table(c)).dom() =~= top.dom());
    assert(c[ModuleAttribute::Name.key()] == c["name"@]);
    assert(c[ModuleAttribute::Version.key()] == c["version"@]);
    assert(c[ModuleAttribute::CurlyVersion.key()] == c["curly_version"@]);
    assert(c[ModuleAttribute::Links.key()] == c["links"@]);
    assert(c[ModuleAttribute::BinaryName.key()] == c["binary_name"@]);
    assert(c[ModuleAttribute::CFfiFiles.key()] == c["C_FFI_files"@]);
    if m.contains_key("binary_name"@) {
    } else if m.contains_key("name"@) {
        assert(!attribute_invalid(m, ModuleAttribute::Name));
    }
}

/// When completion succeeds, by a walk order that does not stop it short:
/// exactly when the document has a `module` table whose attributes, where
/// given, are strings, whose `authors`, where given, is an array, and whose
/// `location`, where given, is a string or a table. It stops short only where
/// the section has neither a name nor a binary name, and never where the
/// name is taken first.
pub proof fn law_completion_succeeds_when(doc: TomlData, order: Seq<ModuleAttribute>)
    requires
        is_walk_order(order),
    ensures
        ({
            let top = doc->Table_0;
            let m = top["module"@]->Table_0;
            let has_module_table = doc is Table && top.contains_key("module"@)
                && top["module"@] is Table;
            &&& completion(doc, order).1 is Aborted ==> has_module_table && !m.contains_key(
                "name"@,
            ) && !m.contains_key("binary_name"@)
            &&& order[0] is Name ==> !(completion(doc, order).1 is Aborted)
            &&& !(completion(doc, order).1 is Aborted) ==> (completion(doc, order).1 is Done <==> (
            has_module_table && (m.contains_key("name"@) ==> m["name"@] is Str) && (
            m.contains_key("version"@) ==> m["version"@] is Str) && (m.contains_key(
                "curly_version"@,
            ) ==> m["curly_version"@] is Str) && (m.contains_key("links"@) ==> m["links"@] is Str)
                && (m.contains_key("binary_name"@) ==> m["binary_name"@] is Str) && (
            m.contains_key("C_FFI_files"@) ==> m["C_FFI_files"@] is Str) && (m.contains_key(
                "authors"@,
            ) ==> m["authors"@] is Array) && (m.contains_key("location"@) ==> (m["location"@]
                is Str || m["location"@] is Table))))
        }),
{
    lemma_completion(doc, order);
    if let Some(m) = module_section(doc) {
        if forall|a: ModuleAttribute| !attribute_invalid(m, a) {
            assert(!attribute_invalid(m, ModuleAttribute::Name));
            assert(!attribute_invalid(m, ModuleAttribute::Version));
            assert(!attribute_invalid(m, ModuleAttribute::CurlyVersion));
            assert(!attribute_invalid(m, ModuleAttribute::Links));
            assert(!attribute_invalid(m, ModuleAttribute::BinaryName));
            assert(!attribute_invalid(m, ModuleAttribute::CFfiFiles));
        } else {
            let a = choose|a: ModuleAttribute| attribute_invalid(m, a);
            match a {
                ModuleAttribute::Name => {},
                ModuleAttribute::Version => {},
                ModuleAttribute::CurlyVersion => {},
                ModuleAttribute::Links => {},
                ModuleAttribute::BinaryName => {},
                ModuleAttribute::CFfiFiles => {},
            }
        }
    }
}

/// The errors of a failed completion, by any walk order: a document without
/// a `module` section, or not a table, lacks information; a `module` that is
/// not a table is refused as such; otherwise the section has an attribute
/// that is not a string (named in the error), an `authors` that is not an
/// array, or a `location` that is neither a string nor a table.
pub proof fn law_completion_errors(doc: TomlData, order: Seq<ModuleAttribute>, e: CompleteErrorView)
    requires
        is_walk_order(order),
        completion(doc, order).1 == Completion::Failed(e),
    ensures
        ({
            let top = doc->Table_0;
            let m = top["module"@]->Table_0;
            &&& !(doc is Table && top.contains_key("module"@)) ==> e
                == CompleteErrorView::NotEnoughInfo("no 'module' section exists"@)
            &&& (doc is Table && top.contains_key("module"@) && !(top["module"@] is Table)) ==> e
                == CompleteErrorView::NotEnoughInfo("'module' is not a section or a table"@)
            &&& (doc is Table && top.contains_key("module"@) && top["module"@] is Table) ==> ((
            exists|k: Seq<char>|
                (k == "name"@ || k == "version"@ || k == "curly_version"@ || k == "links"@ || k
                    == "binary_name"@ || k == "C_FFI_files"@) && #[trigger] m.contains_key(k)
                    && !(m[k] is Str) && e == CompleteErrorView::BadTomlType(
                    "section 'module', variable '"@ + k + "' is not of type String"@,
                )) || (m.contains_key("authors"@) && !(m["authors"@] is Array) && e
                == CompleteErrorView::BadTomlType(
                "section 'module', variable 'authors' is not of type Array"@,
            )) || (m.contains_key("location"@) && !(m["location"@] is Str || m["location"@]
                is Table) && e == CompleteErrorView::BadTomlType(
                "section 'module', variable 'location' is not of type Table or String"@,
            )))
        }),
{
    lemma_completion(doc, order);
    if let Some(m) = module_section(doc) {
        if exists|a: ModuleAttribute| attribute_invalid(m, a) {
            let a = choose|a: ModuleAttribute|
                attribute_invalid(m, a) && e == CompleteErrorView::BadTomlType(
                    not_string_message(#[trigger] a.key()),
                );
            assert(m.contains_key(a.key()));
        }
    }
}

/// A walk order takes each of the six attributes exactly once: it has six
/// entries, and any two are different attributes.
pub proof fn law_walk_order_takes_each_once(order: Seq<ModuleAttribute>)
    requires
        is_walk_order(order),
    ensures
        order.len() == 6,
        forall|i: int, j: int| 0 <= i < j < order.len() ==> order[i] != order[j],
{
    let all = seq![
        ModuleAttribute::Name,
        ModuleAttribute::Version,
        ModuleAttribute::CurlyVersion,
        ModuleAttribute::Links,
        ModuleAttribute::BinaryName,
        ModuleAttribute::CFfiFiles,
    ];
    assert(all.no_duplicates());
    assert forall|a: ModuleAttribute| #[trigger] all.contains(a) by {
        match a {
            ModuleAttribute::Name => assert(all[0] == a),
            ModuleAttribute::Version => assert(all[1] == a),
            ModuleAttribute::CurlyVersion => assert(all[2] == a),
            ModuleAttribute::Links => assert(all[3] == a),
            ModuleAttribute::BinaryName => assert(all[4] == a),
            ModuleAttribute::CFfiFiles => assert(all[5] == a),
        }
    }
    order.unique_seq_to_set();
    all.unique_seq_to_set();
    assert(order.to_set() =~= all.to_set()) by {
        assert forall|a: ModuleAttribute| order.to_set().contains(a) <==> all.to_set().contains(a) by {
            assert(order.contains(a));
            assert(all.contains(a));
        }
    }
    assert(all.len() == 6);
}

} // verus!
