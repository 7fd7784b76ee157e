use vstd::prelude::*;
use vstd::string::*;
use crate::toml::value::{TomlData, TomlTable, TomlValue};

verus! {

/// Why the build file could not be generated.
pub enum GenerateFailed {
    /// A section could not be written as TOML text: the writer's error.
    ConvertFailed(String),
    /// The build file could not be created, or written.
    FileError(String),
}

pub enum GenerateFailedView {
    ConvertFailed(Seq<char>),
    FileError(Seq<char>),
}

impl View for GenerateFailed {
    type V = GenerateFailedView;

    open spec fn view(&self) -> GenerateFailedView {
        match self {
            GenerateFailed::ConvertFailed(m) => GenerateFailedView::ConvertFailed(m@),
            GenerateFailed::FileError(m) => GenerateFailedView::FileError(m@),
        }
    }
}

pub open spec fn create_failed_message() -> Seq<char> {
    "couldn't create file comb.build"@
}

pub open spec fn write_failed_message() -> Seq<char> {
    "failed to write to comb.build"@
}

/// The document has the two sections that the build file carries.
pub open spec fn has_build_sections(doc: TomlData) -> bool {
    doc matches TomlData::Table(top) && top.contains_key("module"@) && top.contains_key(
        "dependencies"@,
    )
}

/// A document of the one section `key = v`.
pub open spec fn section_document(key: Seq<char>, v: TomlData) -> TomlData {
    TomlData::Table(Map::empty().insert(key, v))
}

/// What the `toml` crate writes for a document (`toml::to_string`): its
/// text, or the writer's error.
pub uninterp spec fn toml_text(doc: TomlData) -> Result<Seq<char>, Seq<char>>;

/// The `toml` crate's value for a value of the library, variant for variant:
/// a float and a date are read back from their text (`None` where the text
/// is not one), a table's entries go into the crate's map.
#[verifier::external_body]
fn toml_of(value: &TomlValue) -> Option<::toml::Value> {
    Some(match value {
        TomlValue::String(s) => ::toml::Value::String(s.clone()),
        TomlValue::Integer(i) => ::toml::Value::Integer(*i),
        TomlValue::Float(t) => ::toml::Value::Float(t.parse().ok()?),
        TomlValue::Boolean(b) => ::toml::Value::Boolean(*b),
        TomlValue::Datetime(t) => ::toml::Value::Datetime(t.parse().ok()?),
        TomlValue::Array(items) => ::toml::Value::Array(items.iter().map(toml_of).collect::<Option<_>>()?),
        TomlValue::Table(t) => toml_table_of(t)?,
    })
}

/// The `toml` crate's table for a table of the library: each entry goes
/// into the crate's map, its value by `toml_of`.
#[verifier::external_body]
fn toml_table_of(table: &TomlTable) -> Option<::toml::Value> {
    Some(::toml::Value::Table(
        table.entries().iter().map(|(k, v)| Some((k.clone(), toml_of(v)?))).collect::<Option<_>>()?,
    ))
}

/// `toml::to_string` on the `toml` crate's value for `doc` (see `toml_of`):
/// the text, or the error, that `toml_text` names, a function of what the
/// document means alone. The error is the writer's, by its `Debug` form, or
/// empty where a float or a date of `doc` does not read back from its text.
#[verifier::external_body]
fn write_toml_text(doc: &TomlValue) -> (r: Result<String, String>)
    ensures
        toml_text(doc.data()) == match r {
            Ok(s) => Ok::<Seq<char>, Seq<char>>(s@),
            Err(e) => Err::<Seq<char>, Seq<char>>(e@),
        },
{
    match toml_of(doc) {
        Some(v) => ::toml::to_string(&v).map_err(|e| format!("{:?}", e)),
        None => Err(String::new()),
    }
}

/// A copy of the value under `key` in `doc`'s table, made a document of its own.
fn section_of(top: &TomlTable, key: &str) -> (r: TomlValue)
    requires
        top.contents().contains_key(key@),
    ensures
        r.data() == section_document(key@, top.contents()[key@]),
{
    let v = match top.get(key) {
        Some(v) => v.deep_clone(),
        None => {
            proof {
                assert(false);
            }
            TomlValue::Boolean(false)
        },
    };
    let mut t = TomlTable::new();
    t.insert(String::from_str(key), v);
    proof {
        assert(t.contents() =~= Map::<Seq<char>, TomlData>::empty().insert(key@, v.data()));
    }
    TomlValue::Table(t)
}

pub open spec fn framed_build_file(module_text: Seq<char>, dependencies_text: Seq<char>) -> Seq<
    char,
> {
    module_text + "\n"@ + dependencies_text + "\n"@
}

/// The text of the build file: each section's text, each followed by a newline.
pub fn frame_build_file(module_text: &str, dependencies_text: &str) -> (r: String)
    ensures
        r@ == framed_build_file(module_text@, dependencies_text@),
{
    let mut contents = String::from_str(module_text);
    contents.append("\n");
    contents.append(dependencies_text);
    contents.append("\n");
    contents
}

/// The text of the build file for `doc`: the TOML text of its `module`
/// section alone, then that of its `dependencies` section alone, each
/// followed by a newline; or the error of the first that cannot be written.
pub open spec fn build_file_text(doc: TomlData) -> Result<Seq<char>, Seq<char>> {
    let top = doc->Table_0;
    match toml_text(section_document("module"@, top["module"@])) {
        Err(e) => Err(e),
        Ok(m) => match toml_text(section_document("dependencies"@, top["dependencies"@])) {
            Err(e) => Err(e),
            Ok(d) => Ok(framed_build_file(m, d)),
        },
    }
}

/// Generates the build file of `toml_contents`; `created` tells whether the
/// file could be created. Then the result is the text to write into it: the
/// `module` section alone and the `dependencies` section alone, each as TOML
/// text followed by a newline. Else it is the error of a file that could not
/// be created. A section that the TOML writer cannot write gives
/// `ConvertFailed` with the writer's error.
pub fn generate_toml(toml_contents: &TomlValue, created: bool) -> (r: Result<
    String,
    GenerateFailed,
>)
    requires
        created ==> has_build_sections(toml_contents.data()),
    ensures
        !created ==> (r matches Err(e) && e@ == GenerateFailedView::FileError(
            "couldn't create file comb.build"@,
        )),
        created ==> match build_file_text(toml_contents.data()) {
            Ok(text) => (r matches Ok(s) && s@ == text),
            Err(m) => (r matches Err(e) && e@ == GenerateFailedView::ConvertFailed(m)),
        },
{
    if !created {
        return Err(GenerateFailed::FileError(String::from_str("couldn't create file comb.build")));
    }
    let top = match toml_contents.as_table() {
        Some(top) => top,
        None => {
            proof {
                assert(false);
            }
            return Err(GenerateFailed::ConvertFailed(String::from_str("")));
        },
    };
    let module = section_of(top, "module");
    let module_text = match write_toml_text(&module) {
        Ok(text) => text,
        Err(e) => return Err(GenerateFailed::ConvertFailed(e)),
    };
    let dependencies = section_of(top, "dependencies");
    let dependencies_text = match write_toml_text(&dependencies) {
        Ok(text) => text,
        Err(e) => return Err(GenerateFailed::ConvertFailed(e)),
    };
    Ok(frame_build_file(module_text.as_str(), dependencies_text.as_str()))
}

/// The end of generating the build file: `written` tells whether its text
/// could be written into it.
pub fn write_result(written: bool) -> (r: Result<(), GenerateFailed>)
    ensures
        written ==> r is Ok,
        !written ==> (r matches Err(e) && e@ == GenerateFailedView::FileError(
            "failed to write to comb.build"@,
        )),
{
    if written {
        Ok(())
    } else {
        Err(GenerateFailed::FileError(String::from_str("failed to write to comb.build")))
    }
}

/// The build file holds the document's `module` value and its
/// `dependencies` value, each unchanged, each written by the TOML writer as a
/// table of that one entry, each text followed by a newline; where the writer
/// refuses the first of them, its error, and else where it refuses the second,
/// that one's.
pub proof fn law_build_file_sections(top: Map<Seq<char>, TomlData>)
    requires
        top.contains_key("module"@),
        top.contains_key("dependencies"@),
    ensures
        build_file_text(TomlData::Table(top)) == match (
            toml_text(TomlData::Table(Map::empty().insert("module"@, top["module"@]))),
            toml_text(TomlData::Table(Map::empty().insert("dependencies"@, top["dependencies"@]))),
        ) {
            (Ok(m), Ok(d)) => Ok::<Seq<char>, Seq<char>>(m + "\n"@ + d + "\n"@),
            (Err(e), _) => Err::<Seq<char>, Seq<char>>(e),
            (Ok(_), Err(e)) => Err::<Seq<char>, Seq<char>>(e),
        },
{
}

/// The build file's text is the two sections' texts, each followed by a
/// newline.
pub proof fn law_framed_build_file(module_text: Seq<char>, dependencies_text: Seq<char>)
    ensures
        framed_build_file(module_text, dependencies_text) == module_text + "\n"@
            + dependencies_text + "\n"@,
        framed_build_file(module_text, dependencies_text).len() == module_text.len()
            + dependencies_text.len() + 2,
{
    reveal_strlit("\n");
}

} // verus!
