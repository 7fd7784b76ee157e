use comb::toml::build_toml_generation::{generate_build_toml, BuildAction, BuildEvent};
use comb::toml::toml_completeness::{
    attribute_walk_order, complete_module, complete_module_in_order, try_complete_module,
    CompleteError, ModuleAttribute,
};
use comb::toml::raw::RawToml;
use comb::toml::toml_generator::{frame_build_file, generate_toml, write_result, GenerateFailed};
use comb::toml::toml_parser::{parse_toml, ParseFailed};
use comb::toml::value::{TomlTable, TomlValue};

fn text(s: &str) -> TomlValue {
    TomlValue::String(s.to_string())
}

fn table(entries: Vec<(&str, TomlValue)>) -> TomlValue {
    let mut t = TomlTable::new();
    for (k, v) in entries {
        t.insert(k.to_string(), v);
    }
    TomlValue::Table(t)
}

fn same(a: &TomlValue, b: &TomlValue) -> bool {
    match (a, b) {
        (TomlValue::String(x), TomlValue::String(y)) => x == y,
        (TomlValue::Integer(x), TomlValue::Integer(y)) => x == y,
        (TomlValue::Float(x), TomlValue::Float(y)) => x == y,
        (TomlValue::Boolean(x), TomlValue::Boolean(y)) => x == y,
        (TomlValue::Datetime(x), TomlValue::Datetime(y)) => x == y,
        (TomlValue::Array(x), TomlValue::Array(y)) => {
            x.len() == y.len() && x.iter().zip(y.iter()).all(|(p, q)| same(p, q))
        }
        (TomlValue::Table(x), TomlValue::Table(y)) => {
            x.len() == y.len()
                && x.entries().iter().all(|(k, v)| match y.get(k) {
                    Some(w) => same(v, w),
                    None => false,
                })
        }
        _ => false,
    }
}

fn module_of(doc: &TomlValue) -> &TomlTable {
    doc.as_table().unwrap().get("module").unwrap().as_table().unwrap()
}

fn module_string(doc: &TomlValue, key: &str) -> String {
    module_of(doc).get(key).unwrap().as_str().unwrap().clone()
}

fn bad_type(r: Result<(), CompleteError>) -> String {
    match r {
        Err(CompleteError::BadTomlType(m)) => m,
        _ => panic!("expected a type error"),
    }
}

fn not_enough(r: Result<(), CompleteError>) -> String {
    match r {
        Err(CompleteError::NotEnoughInfo(m)) => m,
        _ => panic!("expected missing information"),
    }
}

#[test]
fn table_insert_replaces_in_place() {
    let mut t = TomlTable::new();
    t.insert("a".to_string(), text("1"));
    t.insert("b".to_string(), text("2"));
    t.insert("a".to_string(), text("3"));
    assert_eq!(t.len(), 2);
    assert_eq!(t.entries()[0].0, "a");
    assert_eq!(t.get("a").unwrap().as_str().unwrap(), "3");
    assert!(t.contains_key("b"));
    assert!(!t.contains_key("c"));
    assert!(t.get("c").is_none());
}

#[test]
fn deep_clone_copies_everything() {
    let v = table(vec![
        ("x", TomlValue::Array(vec![TomlValue::Integer(1), TomlValue::Float("7.5".to_string())])),
        ("y", table(vec![("z", TomlValue::Boolean(true))])),
    ]);
    assert!(same(&v, &v.deep_clone()));
}

#[test]
fn complete_fills_missing_attributes() {
    let mut doc = table(vec![("module", table(vec![("name", text("app"))]))]);
    assert!(complete_module(&mut doc).is_ok());
    assert_eq!(module_string(&doc, "name"), "app");
    assert_eq!(module_string(&doc, "binary_name"), "app");
    assert_eq!(module_string(&doc, "version"), "0.0.1");
    assert_eq!(module_string(&doc, "curly_version"), "newest");
    assert_eq!(module_string(&doc, "links"), "");
    assert_eq!(module_string(&doc, "C_FFI_files"), "");
    assert_eq!(module_string(&doc, "location"), ".");
    match module_of(&doc).get("authors").unwrap() {
        TomlValue::Array(a) => assert!(a.is_empty()),
        _ => panic!("authors is not an array"),
    }
}

#[test]
fn complete_keeps_given_attributes() {
    let mut doc = table(vec![(
        "module",
        table(vec![
            ("name", text("app")),
            ("binary_name", text("bin")),
            ("version", text("1.2.3")),
            ("authors", TomlValue::Array(vec![text("me")])),
            ("extra", TomlValue::Integer(9)),
        ]),
    )]);
    assert!(complete_module(&mut doc).is_ok());
    assert_eq!(module_string(&doc, "binary_name"), "bin");
    assert_eq!(module_string(&doc, "version"), "1.2.3");
    match module_of(&doc).get("authors").unwrap() {
        TomlValue::Array(a) => assert_eq!(a.len(), 1),
        _ => panic!("authors is not an array"),
    }
    assert!(same(module_of(&doc).get("extra").unwrap(), &TomlValue::Integer(9)));
}

#[test]
fn complete_without_name_takes_main() {
    let mut doc = table(vec![("module", table(vec![("binary_name", text("bin"))]))]);
    assert!(complete_module(&mut doc).is_ok());
    assert_eq!(module_string(&doc, "name"), "Main");
    assert_eq!(module_string(&doc, "binary_name"), "bin");
}

#[test]
fn complete_location_string_becomes_table() {
    let mut doc = table(vec![(
        "module",
        table(vec![("name", text("app")), ("location", text("src"))]),
    )]);
    assert!(complete_module(&mut doc).is_ok());
    let loc = module_of(&doc).get("location").unwrap().as_table().unwrap();
    assert_eq!(loc.len(), 1);
    assert_eq!(loc.get("path").unwrap().as_str().unwrap(), "src");
}

#[test]
fn complete_location_table_gets_path() {
    let mut doc = table(vec![(
        "module",
        table(vec![
            ("name", text("app")),
            ("location", table(vec![("repo", text("r"))])),
        ]),
    )]);
    assert!(complete_module(&mut doc).is_ok());
    let loc = module_of(&doc).get("location").unwrap().as_table().unwrap();
    assert_eq!(loc.get("path").unwrap().as_str().unwrap(), ".");
    assert_eq!(loc.get("repo").unwrap().as_str().unwrap(), "r");

    let mut doc = table(vec![(
        "module",
        table(vec![
            ("name", text("app")),
            ("location", table(vec![("path", text("lib"))])),
        ]),
    )]);
    assert!(complete_module(&mut doc).is_ok());
    let loc = module_of(&doc).get("location").unwrap().as_table().unwrap();
    assert_eq!(loc.get("path").unwrap().as_str().unwrap(), "lib");
}

#[test]
fn complete_refuses_missing_module() {
    let mut doc = table(vec![("other", text("x"))]);
    assert_eq!(not_enough(complete_module(&mut doc)), "no 'module' section exists");
    let mut doc = text("x");
    assert_eq!(not_enough(complete_module(&mut doc)), "no 'module' section exists");
    let mut doc = table(vec![("module", text("x"))]);
    assert_eq!(not_enough(complete_module(&mut doc)), "'module' is not a section or a table");
}

#[test]
fn complete_refuses_attribute_of_wrong_type() {
    let mut doc = table(vec![(
        "module",
        table(vec![("name", text("app")), ("version", TomlValue::Integer(3))]),
    )]);
    assert_eq!(
        bad_type(complete_module(&mut doc)),
        "section 'module', variable 'version' is not of type String"
    );
}

#[test]
fn complete_refuses_authors_of_wrong_type() {
    let mut doc = table(vec![(
        "module",
        table(vec![("name", text("app")), ("authors", text("me"))]),
    )]);
    assert_eq!(
        bad_type(complete_module(&mut doc)),
        "section 'module', variable 'authors' is not of type Array"
    );
}

#[test]
fn complete_refuses_location_of_wrong_type() {
    let mut doc = table(vec![(
        "module",
        table(vec![("name", text("app")), ("location", TomlValue::Boolean(true))]),
    )]);
    assert_eq!(
        bad_type(complete_module(&mut doc)),
        "section 'module', variable 'location' is not of type Table or String"
    );
}

#[test]
fn complete_error_is_some_bad_attribute() {
    let mut doc = table(vec![(
        "module",
        table(vec![
            ("name", TomlValue::Integer(1)),
            ("links", TomlValue::Integer(2)),
        ]),
    )]);
    let m = bad_type(complete_module(&mut doc));
    assert!(
        m == "section 'module', variable 'name' is not of type String"
            || m == "section 'module', variable 'links' is not of type String"
    );
}

#[test]
fn completion_does_not_depend_on_walk_order() {
    let base = table(vec![(
        "module",
        table(vec![("name", text("app")), ("location", text("src"))]),
    )]);
    let forward = vec![
        ModuleAttribute::Name,
        ModuleAttribute::Version,
        ModuleAttribute::CurlyVersion,
        ModuleAttribute::Links,
        ModuleAttribute::BinaryName,
        ModuleAttribute::CFfiFiles,
    ];
    let backward: Vec<ModuleAttribute> = forward.iter().rev().copied().collect();
    let mut a = base.deep_clone();
    let mut b = base.deep_clone();
    assert!(matches!(complete_module_in_order(&mut a, &forward), Some(Ok(()))));
    assert!(matches!(complete_module_in_order(&mut b, &backward), Some(Ok(()))));
    assert!(same(&a, &b));
}

#[test]
fn completion_aborts_where_binary_name_comes_first() {
    let base = table(vec![("module", table(vec![]))]);
    let binary_first = vec![
        ModuleAttribute::BinaryName,
        ModuleAttribute::Name,
        ModuleAttribute::Version,
        ModuleAttribute::CurlyVersion,
        ModuleAttribute::Links,
        ModuleAttribute::CFfiFiles,
    ];
    let name_first = vec![
        ModuleAttribute::Name,
        ModuleAttribute::BinaryName,
        ModuleAttribute::Version,
        ModuleAttribute::CurlyVersion,
        ModuleAttribute::Links,
        ModuleAttribute::CFfiFiles,
    ];
    let mut a = base.deep_clone();
    assert!(complete_module_in_order(&mut a, &binary_first).is_none());
    let mut b = base.deep_clone();
    assert!(matches!(complete_module_in_order(&mut b, &name_first), Some(Ok(()))));
    assert_eq!(module_string(&b, "binary_name"), "Main");
    let mut c = base.deep_clone();
    match try_complete_module(&mut c) {
        None => {}
        Some(r) => {
            assert!(r.is_ok());
            assert_eq!(module_string(&c, "binary_name"), "Main");
        }
    }
}

#[test]
fn walk_order_meets_each_attribute_once() {
    let order = attribute_walk_order();
    assert_eq!(order.len(), 6);
    let mut seen: Vec<String> = order.iter().map(|a| a.key_text().to_string()).collect();
    seen.sort();
    seen.dedup();
    assert_eq!(seen.len(), 6);
}

#[test]
fn completion_settles() {
    let mut once = table(vec![("module", table(vec![("name", text("app"))]))]);
    assert!(complete_module(&mut once).is_ok());
    let mut twice = once.deep_clone();
    assert!(complete_module(&mut twice).is_ok());
    let loc = module_of(&twice).get("location").unwrap().as_table().unwrap();
    assert_eq!(loc.get("path").unwrap().as_str().unwrap(), ".");
    let mut thrice = twice.deep_clone();
    assert!(complete_module(&mut thrice).is_ok());
    assert!(same(&twice, &thrice));

    let mut given = table(vec![(
        "module",
        table(vec![("name", text("app")), ("location", text("src"))]),
    )]);
    assert!(complete_module(&mut given).is_ok());
    let mut again = given.deep_clone();
    assert!(complete_module(&mut again).is_ok());
    assert!(same(&given, &again));
}

fn one_section(key: &str, value: toml::Value) -> String {
    let mut map = toml::value::Map::new();
    map.insert(key.to_string(), value);
    toml::Value::Table(map).to_string()
}

fn toml_table(entries: Vec<(&str, toml::Value)>) -> toml::Value {
    let mut map = toml::value::Map::new();
    for (k, v) in entries {
        map.insert(k.to_string(), v);
    }
    toml::Value::Table(map)
}

#[test]
fn generate_toml_writes_each_section_alone() {
    let doc = table(vec![
        ("module", table(vec![("name", text("app")), ("pi", TomlValue::Float("1.5".to_string()))])),
        ("dependencies", table(vec![("dep", table(vec![("source", text("/d"))]))])),
        ("other", text("dropped")),
    ]);
    let contents = match generate_toml(&doc, true) {
        Ok(c) => c,
        Err(_) => panic!("expected the text of the build file"),
    };
    let module = one_section(
        "module",
        toml_table(vec![("name", toml::Value::String("app".to_string())), ("pi", toml::Value::Float(1.5))]),
    );
    let dependencies = one_section(
        "dependencies",
        toml_table(vec![("dep", toml_table(vec![("source", toml::Value::String("/d".to_string()))]))]),
    );
    assert_eq!(contents, format!("{}\n{}\n", module, dependencies));
    assert!(contents.starts_with("[module]\nname = \"app\"\npi = 1.5\n\n"));
    assert!(!contents.contains("other"));
}

#[test]
fn generate_toml_reports_a_file_not_created() {
    let doc = table(vec![("module", table(vec![])), ("dependencies", table(vec![]))]);
    match generate_toml(&doc, false) {
        Err(GenerateFailed::FileError(m)) => assert_eq!(m, "couldn't create file comb.build"),
        _ => panic!("expected a file error"),
    }
    let empty = table(vec![]);
    assert!(matches!(generate_toml(&empty, false), Err(GenerateFailed::FileError(_))));
}

#[test]
fn generate_toml_reports_an_unwritable_section() {
    let doc = table(vec![
        ("module", table(vec![("pi", TomlValue::Float("not a float".to_string()))])),
        ("dependencies", table(vec![])),
    ]);
    match generate_toml(&doc, true) {
        Err(GenerateFailed::ConvertFailed(m)) => assert_eq!(m, ""),
        _ => panic!("expected a conversion failure"),
    }
}

#[test]
fn write_result_reports_a_failed_write() {
    assert!(write_result(true).is_ok());
    match write_result(false) {
        Err(GenerateFailed::FileError(m)) => assert_eq!(m, "failed to write to comb.build"),
        _ => panic!("expected a file error"),
    }
}

#[test]
fn from_raw_keeps_the_last_value_of_a_key() {
    let raw = RawToml::Table(vec![
        ("b".to_string(), RawToml::Integer(1)),
        ("a".to_string(), RawToml::Array(vec![RawToml::Boolean(true), RawToml::Float("2.5".to_string())])),
        ("b".to_string(), RawToml::String("last".to_string())),
        ("d".to_string(), RawToml::Datetime("1979-05-27".to_string())),
    ]);
    let v = TomlValue::from_raw(&raw);
    let t = v.as_table().unwrap();
    assert_eq!(t.len(), 3);
    assert_eq!(t.get("b").unwrap().as_str().unwrap(), "last");
    assert!(same(
        t.get("a").unwrap(),
        &TomlValue::Array(vec![TomlValue::Boolean(true), TomlValue::Float("2.5".to_string())])
    ));
    assert!(same(t.get("d").unwrap(), &TomlValue::Datetime("1979-05-27".to_string())));
    let keys: Vec<&str> = t.entries().iter().map(|(k, _)| k.as_str()).collect();
    assert_eq!(keys, vec!["a", "b", "d"]);
}

#[test]
fn frame_build_file_ends_sections_with_newlines() {
    assert_eq!(frame_build_file("[module]", "[dependencies]"), "[module]\n[dependencies]\n");
    assert_eq!(frame_build_file("", ""), "\n\n");
}

#[test]
fn parse_failure_reports() {
    let e = ParseFailed::FileError("No such file".to_string());
    assert_eq!(e.report("comb.toml"), "Error reading comb.toml:\nNo such file");
    let e = ParseFailed::TomlError { position: Some((12, 0)), message: "bad".to_string() };
    assert!(e.is_reportable());
    assert_eq!(e.report("comb.toml"), "Error parsing comb.toml at line 12, char 0:\nbad");
}

#[test]
fn complete_and_generate_reports() {
    let e = CompleteError::NotEnoughInfo("x".to_string());
    assert_eq!(e.report("in.toml"), "Missing information in in.toml:\nx");
    let e = CompleteError::BadTomlType("y".to_string());
    assert_eq!(e.report("in.toml"), "Invalid type for a build parameter in in.toml:\ny");
    let e = CompleteError::DependencyFail("z".to_string());
    assert_eq!(e.report("in.toml"), "Error with one of the dependencies in in.toml:\nz");
    let e = GenerateFailed::FileError("w".to_string());
    assert_eq!(e.report("out.toml"), "Failed to write to out.toml:\nw");
    let e = GenerateFailed::ConvertFailed("v".to_string());
    assert_eq!(
        e.report("out.toml"),
        "Error converting the comb-created build toml to a string:\nv"
    );
}

fn finish(a: BuildAction) -> (Option<String>, bool) {
    match a {
        BuildAction::Finish { message, succeeded } => (message, succeeded),
        _ => panic!("expected the end of generation"),
    }
}

fn good_document() -> String {
    "[module]\nname = \"app\"\n\n[dependencies]\n".to_string()
}

#[test]
fn build_keeps_existing_output_without_update() {
    let (mut g, a) = generate_build_toml("comb.toml", "comb.build.toml", false);
    assert!(matches!(a, BuildAction::CheckOutputExists(ref f) if f == "comb.build.toml"));
    let (m, ok) = finish(g.step(BuildEvent::Checked(true)));
    assert!(ok);
    assert_eq!(m.unwrap(), "File comb.build.toml exists, skipping regeneration...");
}

#[test]
fn build_regenerates_on_update() {
    let (mut g, _) = generate_build_toml("comb.toml", "comb.build.toml", true);
    let a = g.step(BuildEvent::Checked(true));
    assert!(matches!(a, BuildAction::ReadInput(ref f) if f == "comb.toml"));
}

#[test]
fn build_reports_parse_failure() {
    let (mut g, _) = generate_build_toml("comb.toml", "comb.build.toml", false);
    g.step(BuildEvent::Checked(false));
    let (m, ok) = finish(g.step(BuildEvent::Read(Ok("[module\n".to_string()))));
    assert!(!ok);
    assert!(m.unwrap().starts_with("Error parsing comb.toml at line 0, char "));

    let (mut g, _) = generate_build_toml("comb.toml", "comb.build.toml", false);
    g.step(BuildEvent::Checked(false));
    let (m, ok) = finish(g.step(BuildEvent::Read(Err("No such file".to_string()))));
    assert!(!ok);
    assert_eq!(m.unwrap(), "Error reading comb.toml:\nNo such file");
}

#[test]
fn build_reports_completion_failure() {
    let (mut g, _) = generate_build_toml("comb.toml", "comb.build.toml", false);
    g.step(BuildEvent::Checked(false));
    let doc = "[dependencies]\n".to_string();
    let (m, ok) = finish(g.step(BuildEvent::Read(Ok(doc))));
    assert!(!ok);
    assert_eq!(m.unwrap(), "Missing information in comb.toml:\nno 'module' section exists");
}

#[test]
fn build_writes_framed_sections() {
    let (mut g, _) = generate_build_toml("comb.toml", "out.toml", false);
    g.step(BuildEvent::Checked(false));
    let a = g.step(BuildEvent::Read(Ok(good_document())));
    assert!(matches!(a, BuildAction::CreateOutput(ref f) if f == "out.toml"));
    let a = g.step(BuildEvent::Checked(true));
    match a {
        BuildAction::WriteOutput { file, contents } => {
            assert_eq!(file, "out.toml");
            assert!(contents.starts_with("[module]\n"));
            assert!(contents.contains("binary_name = \"app\"\n"));
            assert!(contents.ends_with("\n[dependencies]\n\n"));
        }
        _ => panic!("expected a write"),
    }
    let (m, ok) = finish(g.step(BuildEvent::Checked(true)));
    assert!(ok);
    assert!(m.is_none());
}

#[test]
fn build_reports_create_and_write_failures() {
    let (mut g, _) = generate_build_toml("comb.toml", "out.toml", false);
    g.step(BuildEvent::Checked(false));
    g.step(BuildEvent::Read(Ok(good_document())));
    let (m, ok) = finish(g.step(BuildEvent::Checked(false)));
    assert!(!ok);
    assert_eq!(m.unwrap(), "Failed to write to out.toml:\ncouldn't create file comb.build");

    let (mut g, _) = generate_build_toml("comb.toml", "out.toml", false);
    g.step(BuildEvent::Checked(false));
    g.step(BuildEvent::Read(Ok(good_document())));
    g.step(BuildEvent::Checked(true));
    let (m, ok) = finish(g.step(BuildEvent::Checked(false)));
    assert!(!ok);
    assert_eq!(m.unwrap(), "Failed to write to out.toml:\nfailed to write to comb.build");
}

#[test]
fn build_aborts_without_dependencies_section() {
    let (mut g, _) = generate_build_toml("comb.toml", "out.toml", false);
    g.step(BuildEvent::Checked(false));
    let doc = "[module]\nname = \"app\"\n".to_string();
    g.step(BuildEvent::Read(Ok(doc)));
    let a = g.step(BuildEvent::Checked(true));
    assert!(matches!(a, BuildAction::Abort(_)));
}

#[test]
fn build_expects_matching_outcomes() {
    let (g, _) = generate_build_toml("comb.toml", "out.toml", false);
    assert!(g.expects(&BuildEvent::Checked(true)));
    assert!(!g.expects(&BuildEvent::Read(Ok(String::new()))));
}

#[test]
fn parse_toml_reads_documents() {
    let doc = parse_toml(Ok("title = \"x\"\n[owner]\nage = 3\nsizes = [1, 2]\nok = true\n".to_string()))
        .unwrap();
    let top = doc.as_table().unwrap();
    assert_eq!(top.get("title").unwrap().as_str().unwrap(), "x");
    let owner = top.get("owner").unwrap().as_table().unwrap();
    assert!(same(owner.get("age").unwrap(), &TomlValue::Integer(3)));
    assert!(same(
        owner.get("sizes").unwrap(),
        &TomlValue::Array(vec![TomlValue::Integer(1), TomlValue::Integer(2)])
    ));
    assert!(same(owner.get("ok").unwrap(), &TomlValue::Boolean(true)));
    let f = parse_toml(Ok("pi = 1.5\n".to_string())).unwrap();
    assert!(same(
        f.as_table().unwrap().get("pi").unwrap(),
        &TomlValue::Float("1.5".to_string())
    ));
}

#[test]
fn parse_toml_reports_failures() {
    match parse_toml(Err("gone".to_string())) {
        Err(ParseFailed::FileError(m)) => assert_eq!(m, "gone"),
        _ => panic!("expected a file error"),
    }
    match parse_toml(Ok("a = \n".to_string())) {
        Err(ParseFailed::TomlError { position, message }) => {
            assert_eq!(position.unwrap().0, 0);
            assert!(!message.is_empty());
        }
        _ => panic!("expected a TOML error"),
    }
}

#[test]
fn table_keeps_keys_in_order() {
    let mut t = TomlTable::new();
    t.insert("b".to_string(), text("1"));
    t.insert("a".to_string(), text("2"));
    t.insert("ab".to_string(), text("3"));
    t.insert("B".to_string(), text("4"));
    let keys: Vec<&str> = t.entries().iter().map(|(k, _)| k.as_str()).collect();
    assert_eq!(keys, vec!["B", "a", "ab", "b"]);
}

#[test]
fn completion_by_any_order_completes_to_itself() {
    let mut doc = table(vec![("module", table(vec![]))]);
    if let Some(r) = try_complete_module(&mut doc) {
        assert!(r.is_ok());
        let mut again = doc.deep_clone();
        assert!(complete_module(&mut again).is_ok());
        let mut third = again.deep_clone();
        assert!(complete_module(&mut third).is_ok());
        assert!(same(&again, &third));
    }
}

#[test]
fn complete_module_names_a_nameless_module_main() {
    let mut doc = table(vec![("module", table(vec![("version", text("1.0"))]))]);
    assert!(complete_module(&mut doc).is_ok());
    assert_eq!(module_string(&doc, "name"), "Main");
    assert_eq!(module_string(&doc, "binary_name"), "Main");
    assert_eq!(module_string(&doc, "version"), "1.0");
}
