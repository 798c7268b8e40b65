use hotfnl::manifest::{rebase_dep, table_insert, table_remove, ManifestError, TomlEntry, TomlValue};
use hotfnl::path::HotPath;
use hotfnl::project::HotProject;

fn s(v: &str) -> TomlValue {
    TomlValue::String(v.to_string())
}

fn table(entries: Vec<(&str, TomlValue)>) -> TomlValue {
    TomlValue::Table(entries.into_iter().map(|(k, v)| TomlEntry { key: k.to_string(), value: v }).collect())
}

fn get<'a>(v: &'a TomlValue, key: &str) -> Option<&'a TomlValue> {
    match v {
        TomlValue::Table(t) => t.iter().find(|e| e.key == key).map(|e| &e.value),
        _ => None,
    }
}

fn str_of(v: Option<&TomlValue>) -> Option<String> {
    match v {
        Some(TomlValue::String(x)) => Some(x.clone()),
        _ => None,
    }
}

fn user_manifest() -> TomlValue {
    table(vec![
        ("package", table(vec![("name", s("app")), ("edition", s("2021"))])),
        (
            "dependencies",
            table(vec![
                ("local", table(vec![("path", s("../local")), ("version", s("1"))])),
                ("serde", s("1.0")),
                ("abs", table(vec![("path", s("/opt/abs"))])),
            ]),
        ),
        (
            "workspace",
            table(vec![
                ("members", TomlValue::Array(vec![s("a"), s("b")])),
                ("dependencies", table(vec![("shared", table(vec![("path", s("shared"))]))])),
            ]),
        ),
        ("lib", table(vec![("name", s("old"))])),
        ("features", table(vec![("x", TomlValue::Array(vec![]))])),
        ("weight", TomlValue::Integer(3)),
    ])
}

fn project() -> HotProject {
    let mut p = HotProject::default();
    p.config("/h/p", "src/main.rs", &HotPath::parse("/h/p/target/debug/app"));
    p
}

#[test]
fn hot_manifest_rewrite() {
    let p = project();
    let r = p.cargo_toml_rewrite(user_manifest());
    let deps = get(&r, "dependencies").unwrap();
    assert_eq!(str_of(get(get(deps, "local").unwrap(), "path")), Some("/h/p/../local".to_string()));
    assert_eq!(str_of(get(get(deps, "local").unwrap(), "version")), Some("1".to_string()));
    assert_eq!(str_of(get(deps, "serde")), Some("1.0".to_string()));
    assert_eq!(str_of(get(get(deps, "abs").unwrap(), "path")), Some("/opt/abs".to_string()));
    let ws = get(&r, "workspace").unwrap();
    match get(ws, "members") {
        Some(TomlValue::Array(a)) => assert!(a.is_empty()),
        _ => panic!("members"),
    }
    let wdeps = get(ws, "dependencies").unwrap();
    assert_eq!(str_of(get(get(wdeps, "shared").unwrap(), "path")), Some("/h/p/shared".to_string()));
    let lib = get(&r, "lib").unwrap();
    assert_eq!(str_of(get(lib, "name")), Some("hotfnl_app".to_string()));
    assert_eq!(str_of(get(lib, "path")), Some("/h/p/src/main.rs".to_string()));
    match get(lib, "crate-type") {
        Some(TomlValue::Array(a)) => {
            assert_eq!(str_of(a.get(0)), Some("cdylib".to_string()));
            assert_eq!(str_of(a.get(1)), Some("rlib".to_string()));
        },
        _ => panic!("crate-type"),
    }
    match get(&r, "bin") {
        Some(TomlValue::Array(a)) => {
            assert_eq!(a.len(), 2);
            assert_eq!(str_of(get(&a[0], "name")), Some("hotfnl_app".to_string()));
            assert_eq!(str_of(get(&a[0], "path")), Some("/h/p/src/main.rs".to_string()));
            assert_eq!(str_of(get(&a[1], "name")), Some("hotfnlw_app".to_string()));
            assert_eq!(str_of(get(&a[1], "path")), Some("/h/p/target/hotfnl/app/wrapper.rs".to_string()));
        },
        _ => panic!("bin"),
    }
    assert_eq!(str_of(get(get(&r, "package").unwrap(), "name")), Some("app".to_string()));
    assert!(matches!(get(&r, "weight"), Some(TomlValue::Integer(3))));
}

#[test]
fn workspace_manifest_rewrite() {
    let p = project();
    let r = p.cargo_workspace_rewrite(user_manifest());
    assert!(get(&r, "lib").is_none());
    assert!(get(&r, "bin").is_none());
    assert_eq!(str_of(get(get(&r, "package").unwrap(), "name")), Some("hotfnl_app".to_string()));
    assert_eq!(str_of(get(get(&r, "package").unwrap(), "edition")), Some("2021".to_string()));
    let ws = get(&r, "workspace").unwrap();
    match get(ws, "members") {
        Some(TomlValue::Array(a)) => {
            assert_eq!(a.len(), 1);
            assert_eq!(str_of(a.get(0)), Some("./app".to_string()));
        },
        _ => panic!("members"),
    }
    let wdeps = get(ws, "dependencies").unwrap();
    assert_eq!(str_of(get(get(wdeps, "shared").unwrap(), "path")), Some("/h/p/shared".to_string()));
    let deps = get(&r, "dependencies").unwrap();
    assert_eq!(str_of(get(get(deps, "local").unwrap(), "path")), Some("/h/p/../local".to_string()));
    assert!(get(&r, "features").is_some());
}

#[test]
fn manifest_that_is_not_a_table_is_kept() {
    let p = project();
    assert!(matches!(p.cargo_toml_rewrite(TomlValue::Integer(1)), TomlValue::Integer(1)));
    assert!(matches!(p.cargo_workspace_rewrite(TomlValue::Boolean(true)), TomlValue::Boolean(true)));
}

#[test]
fn members_that_are_not_an_array_are_kept() {
    let p = project();
    let m = table(vec![("workspace", table(vec![("members", s("x"))]))]);
    let r = p.cargo_toml_rewrite(m);
    assert_eq!(str_of(get(get(&r, "workspace").unwrap(), "members")), Some("x".to_string()));
}

#[test]
fn insert_replaces_and_remove_drops() {
    let mut t = vec![TomlEntry { key: "a".to_string(), value: s("1") }];
    table_insert(&mut t, "a", s("2"));
    table_insert(&mut t, "b", s("3"));
    assert_eq!(t.len(), 2);
    let v = TomlValue::Table(t);
    assert_eq!(str_of(get(&v, "a")), Some("2".to_string()));
    let mut t = match v {
        TomlValue::Table(t) => t,
        _ => unreachable!(),
    };
    table_remove(&mut t, "a");
    table_remove(&mut t, "zzz");
    assert_eq!(t.len(), 1);
    assert_eq!(t[0].key, "b");
}

const USER_TEXT: &str = r#"
[package]
name = "app"
edition = "2021"

[dependencies]
serde = "1.0"
local = { path = "../local", version = "1" }
ratio = 0.5

[workspace]
members = ["a", "b"]
"#;

#[test]
fn hot_manifest_from_text() {
    let p = project();
    let text = p.hot_manifest_of_text(USER_TEXT).unwrap();
    let v: toml::Value = toml::from_str(&text).unwrap();
    assert_eq!(v["lib"]["name"].as_str(), Some("hotfnl_app"));
    assert_eq!(v["lib"]["path"].as_str(), Some("/h/p/src/main.rs"));
    assert_eq!(v["lib"]["crate-type"][0].as_str(), Some("cdylib"));
    assert_eq!(v["bin"][0]["name"].as_str(), Some("hotfnl_app"));
    assert_eq!(v["bin"][1]["name"].as_str(), Some("hotfnlw_app"));
    assert_eq!(v["bin"][1]["path"].as_str(), Some("/h/p/target/hotfnl/app/wrapper.rs"));
    assert_eq!(v["dependencies"]["local"]["path"].as_str(), Some("/h/p/../local"));
    assert_eq!(v["dependencies"]["local"]["version"].as_str(), Some("1"));
    assert_eq!(v["dependencies"]["serde"].as_str(), Some("1.0"));
    assert_eq!(v["dependencies"]["ratio"].as_float(), Some(0.5));
    assert_eq!(v["workspace"]["members"].as_array().map(|a| a.len()), Some(0));
    assert_eq!(v["package"]["name"].as_str(), Some("app"));
}

#[test]
fn workspace_manifest_from_text() {
    let p = project();
    let text = p.workspace_manifest_of_text(USER_TEXT).unwrap();
    let v: toml::Value = toml::from_str(&text).unwrap();
    assert_eq!(v["package"]["name"].as_str(), Some("hotfnl_app"));
    assert_eq!(v["package"]["edition"].as_str(), Some("2021"));
    assert_eq!(v["workspace"]["members"][0].as_str(), Some("./app"));
    assert_eq!(v["dependencies"]["local"]["path"].as_str(), Some("/h/p/../local"));
    assert!(v.get("lib").is_none() && v.get("bin").is_none());
}

#[test]
fn manifest_text_errors() {
    let p = project();
    assert_eq!(p.hot_manifest_of_text("[package\nname = ").unwrap_err(), ManifestError::NotToml);
    assert_eq!(p.workspace_manifest_of_text("x = = 1").unwrap_err(), ManifestError::NotToml);
    assert_eq!(
        p.workspace_manifest_of_text("[package]\nname = 1\n").unwrap_err(),
        ManifestError::PackageUnnamed
    );
    assert_eq!(
        p.workspace_manifest_of_text("[package]\nversion = \"1\"\n").unwrap_err(),
        ManifestError::PackageUnnamed
    );
    assert!(p.workspace_manifest_of_text("[dependencies]\n").is_ok());
}

#[test]
fn dependency_paths_joined_as_written() {
    let base = HotPath::parse("/w/app");
    let joined = |base: &HotPath, text: &str| {
        str_of(get(&rebase_dep(table(vec![("path", s(text)), ("v", s("1"))]), base), "path"))
    };
    assert_eq!(joined(&base, "./foo"), Some("/w/app/./foo".to_string()));
    assert_eq!(joined(&base, "foo/"), Some("/w/app/foo/".to_string()));
    assert_eq!(joined(&base, ""), Some("/w/app/".to_string()));
    assert_eq!(joined(&base, "/abs/x"), Some("/abs/x".to_string()));
    assert_eq!(joined(&HotPath::parse("/"), "x"), Some("/x".to_string()));
    let kept = rebase_dep(table(vec![("path", TomlValue::Integer(1))]), &base);
    assert!(matches!(get(&kept, "path"), Some(TomlValue::Integer(1))));
}
