use comb::dependencies::get::{
    get_dependencies, get_dependency_local_fs, local_source_dir, repository_report,
    DependencyFail, FetchAction, LocalFsStage, LocalFsStep,
};
use comb::dependencies::toml_to_struct::{
    dependency_entry_is_valid, dependency_table, dependency_table_is_valid, toml_table_to_structs, toml_to_struct,
    version_from_text, Dependency, DependencyLocation,
};
use comb::toml::value::{TomlTable, TomlValue};
use comb::text::decimal_string;

fn text(s: &str) -> TomlValue {
    TomlValue::String(s.to_string())
}

fn table(entries: Vec<(&str, TomlValue)>) -> TomlValue {
    let mut t = TomlTable::new();
    for (k, v) in entries {
        t.insert(k.to_string(), v);
    }
    TomlValue::Table(t)
}

fn local(name: &str, path: &str) -> Dependency {
    Dependency {
        name: name.to_string(),
        version: (0, 0, 0),
        location: DependencyLocation::LocalFS(path.to_string()),
    }
}

fn remote(name: &str) -> Dependency {
    Dependency {
        name: name.to_string(),
        version: (1, 0, 0),
        location: DependencyLocation::Repository(("https://r".to_string(), "p".to_string())),
    }
}

fn failure(a: FetchAction) -> DependencyFail {
    match a {
        FetchAction::Finish(Err(e)) => e,
        _ => panic!("expected a failure"),
    }
}

#[test]
fn version_reads_three_fields() {
    assert_eq!(version_from_text("1.2.3"), Some((1, 2, 3)));
    assert_eq!(version_from_text("0.0.0"), Some((0, 0, 0)));
    assert_eq!(version_from_text("10.20.30.x"), Some((10, 20, 30)));
    assert_eq!(version_from_text("+1.02.3"), Some((1, 2, 3)));
    assert_eq!(version_from_text("1.2"), None);
    assert_eq!(version_from_text("1.2."), None);
    assert_eq!(version_from_text("1..3"), None);
    assert_eq!(version_from_text("-1.2.3"), None);
    assert_eq!(version_from_text("+.2.3"), None);
    assert_eq!(version_from_text("1.2.3a"), None);
    assert_eq!(version_from_text(""), None);
    assert_eq!(version_from_text("18446744073709551616.0.0"), None);
    assert_eq!(
        version_from_text("18446744073709551615.0.0"),
        Some((18446744073709551615, 0, 0))
    );
}

#[test]
fn entry_to_struct() {
    let info = table(vec![("version", text("1.4.2")), ("source", text("~/lib"))]);
    assert!(dependency_entry_is_valid(&info));
    let d = toml_to_struct(&"lib".to_string(), &info);
    assert_eq!(d.name, "lib");
    assert_eq!(d.version, (1, 4, 2));
    assert!(matches!(d.location, DependencyLocation::LocalFS(ref p) if p == "~/lib"));

    let info = table(vec![("repo", text("https://r")), ("repo_path", text("io/fs"))]);
    assert!(dependency_entry_is_valid(&info));
    let d = toml_to_struct(&"io".to_string(), &info);
    assert_eq!(d.version, (0, 0, 0));
    assert!(
        matches!(d.location, DependencyLocation::Repository((ref r, ref p)) if r == "https://r" && p == "io/fs")
    );
}

#[test]
fn invalid_entries_are_told() {
    assert!(!dependency_entry_is_valid(&text("x")));
    assert!(!dependency_entry_is_valid(&table(vec![("source", TomlValue::Integer(1))])));
    assert!(!dependency_entry_is_valid(&table(vec![("repo", text("r"))])));
    assert!(!dependency_entry_is_valid(&table(vec![
        ("source", text("s")),
        ("version", text("1.2"))
    ])));
    assert!(!dependency_entry_is_valid(&table(vec![
        ("source", text("s")),
        ("version", TomlValue::Integer(1))
    ])));
}

#[test]
fn table_to_structs_in_key_order() {
    let deps = match table(vec![
        ("b", table(vec![("source", text("/b"))])),
        ("a", table(vec![("source", text("/a")), ("version", text("2.0.1"))])),
    ]) {
        TomlValue::Table(t) => t,
        _ => unreachable!(),
    };
    assert!(dependency_table_is_valid(&deps));
    let list = toml_table_to_structs(&deps);
    assert_eq!(list.len(), 2);
    assert_eq!(list[0].name, "a");
    assert_eq!(list[1].name, "b");
    assert_eq!(list[0].version, (2, 0, 1));

    let bad = match table(vec![("b", text("x"))]) {
        TomlValue::Table(t) => t,
        _ => unreachable!(),
    };
    assert!(!dependency_table_is_valid(&bad));
}

#[test]
fn source_dir_of_paths() {
    assert_eq!(local_source_dir("/abs/dir"), "/abs/dir");
    assert_eq!(local_source_dir("rel/dir"), "../rel/dir");
    assert_eq!(local_source_dir(""), "../");
}

#[test]
fn local_steps() {
    let d = local("m", "rel");
    match get_dependency_local_fs(&d, "rel", "../rel", LocalFsStage::CheckPath, true) {
        LocalFsStep::Next(LocalFsStage::CheckModule, FetchAction::CheckModuleFile(dir)) => {
            assert_eq!(dir, "../rel")
        }
        _ => panic!("expected the module check"),
    }
    match get_dependency_local_fs(&d, "rel", "../rel", LocalFsStage::CheckModule, true) {
        LocalFsStep::Next(LocalFsStage::Copy, FetchAction::CopyContents { from, into }) => {
            assert_eq!(from, "../rel");
            assert_eq!(into, "m");
        }
        _ => panic!("expected the copy"),
    }
    assert!(matches!(
        get_dependency_local_fs(&d, "rel", "../rel", LocalFsStage::Copy, true),
        LocalFsStep::Done(Ok(()))
    ));
}

#[test]
fn fetch_of_nothing_ends_at_once() {
    let (f, a) = get_dependencies(Vec::new(), None);
    assert!(matches!(a, FetchAction::Finish(Ok(()))));
    assert!(f.is_finished());
}

#[test]
fn fetch_reports_directory_failure() {
    let (mut f, a) = get_dependencies(vec![local("m", "/abs")], None);
    assert!(matches!(a, FetchAction::CreateDirectory(ref n) if n == "m"));
    match failure(f.step(false)) {
        DependencyFail::BuildDirFail(m) => assert_eq!(m, "failed to create directory build/m"),
        _ => panic!("wrong failure"),
    }
    assert!(f.is_finished());
}

#[test]
fn fetch_reports_missing_path() {
    let (mut f, _) = get_dependencies(vec![local("m", "/abs")], None);
    let a = f.step(true);
    assert!(matches!(a, FetchAction::CheckPath(ref p) if p == "/abs"));
    match failure(f.step(false)) {
        DependencyFail::PathDoesNotExist(m) => {
            assert_eq!(m, "path /abs (module m) does not exist")
        }
        _ => panic!("wrong failure"),
    }
}

#[test]
fn fetch_reports_missing_module_and_copy_failure() {
    let (mut f, _) = get_dependencies(vec![local("m", "rel")], None);
    assert!(matches!(f.step(true), FetchAction::CheckPath(ref p) if p == "../rel"));
    assert!(matches!(f.step(true), FetchAction::CheckModuleFile(ref p) if p == "../rel"));
    match failure(f.step(false)) {
        DependencyFail::ModuleDoesNotExist(m) => assert_eq!(m, "module m does not exist at rel"),
        _ => panic!("wrong failure"),
    }

    let (mut f, _) = get_dependencies(vec![local("m", "rel")], None);
    f.step(true);
    f.step(true);
    assert!(matches!(f.step(true), FetchAction::CopyContents { .. }));
    match failure(f.step(false)) {
        DependencyFail::FailedToGet(m) => {
            assert_eq!(m, "failed to copy contents of dir 'rel' into path 'build/m'")
        }
        _ => panic!("wrong failure"),
    }
}

#[test]
fn fetch_goes_through_all_dependencies() {
    let (mut f, a) = get_dependencies(vec![local("m", "/abs"), remote("r")], None);
    assert!(matches!(a, FetchAction::CreateDirectory(ref n) if n == "m"));
    assert!(matches!(f.step(true), FetchAction::CheckPath(_)));
    assert!(matches!(f.step(true), FetchAction::CheckModuleFile(_)));
    assert!(matches!(f.step(true), FetchAction::CopyContents { .. }));
    assert!(matches!(f.step(true), FetchAction::CreateDirectory(ref n) if n == "r"));
    match f.step(true) {
        FetchAction::ReportRepository((repo, path)) => {
            assert_eq!(repo, "https://r");
            assert_eq!(path, "p");
        }
        _ => panic!("expected the report"),
    }
    assert!(matches!(f.step(true), FetchAction::Finish(Ok(()))));
    assert!(f.is_finished());
    assert_eq!(f.dependencies().len(), 2);
}

#[test]
fn fetch_expands_tilde() {
    let home = Some("/home/u".to_string());
    let (mut f, _) = get_dependencies(vec![local("m", "~/libs/io")], home.clone());
    assert!(matches!(f.step(true), FetchAction::CheckPath(ref p) if p == "/home/u/libs/io"));
    let (mut f, _) = get_dependencies(vec![local("m", "~")], home.clone());
    assert!(matches!(f.step(true), FetchAction::CheckPath(ref p) if p == "/home/u"));
    let (mut f, _) = get_dependencies(vec![local("m", "~user/lib")], home.clone());
    assert!(matches!(f.step(true), FetchAction::CheckPath(ref p) if p == "../~user/lib"));
    let (mut f, _) = get_dependencies(vec![local("m", "lib/~/x")], home);
    assert!(matches!(f.step(true), FetchAction::CheckPath(ref p) if p == "../lib/~/x"));
}

#[test]
fn fetch_keeps_tilde_without_home() {
    let (mut f, _) = get_dependencies(vec![local("m", "~/lib")], None);
    assert!(matches!(f.step(true), FetchAction::CheckPath(ref p) if p == "../~/lib"));
}

#[test]
fn failure_reports() {
    let cases = vec![
        (DependencyFail::FailedToGet("a".to_string()), "Failed to get dependency:\na"),
        (DependencyFail::ModuleDoesNotExist("b".to_string()), "Module does not exist:\nb"),
        (DependencyFail::PathDoesNotExist("c".to_string()), "Path does not exist:\nc"),
        (DependencyFail::RepoDoesNotExist("d".to_string()), "Repository does not exist:\nd"),
        (DependencyFail::BuildDirFail("e".to_string()), "Failed to create directory:\ne"),
    ];
    for (e, m) in cases {
        assert_eq!(e.report(), m);
    }
    assert_eq!(
        repository_report(&("https://r".to_string(), "io/fs".to_string())),
        "Path io/fs in repo at https://r"
    );
}

#[test]
fn decimal_strings() {
    assert_eq!(decimal_string(0), "0");
    assert_eq!(decimal_string(7), "7");
    assert_eq!(decimal_string(42), "42");
    assert_eq!(decimal_string(1000), "1000");
    assert_eq!(decimal_string(usize::MAX), usize::MAX.to_string());
}

#[test]
fn dependency_section_of_document() {
    let doc = table(vec![("dependencies", table(vec![("a", table(vec![("source", text("/a"))]))]))]);
    let t = dependency_table(&doc).unwrap();
    assert_eq!(t.len(), 1);
    assert!(dependency_table(&table(vec![("dependencies", text("x"))])).is_none());
    assert!(dependency_table(&table(vec![])).is_none());
    assert!(dependency_table(&text("x")).is_none());
}
