use safe_cargo::cargo::{
    exit_error, get, get_text, join_args, launch_error, lock_file_packages, lock_packages,
    root_crate, root_crate_file, TomlValue,
};
use safe_cargo::error::Error;

fn text(s: &str) -> TomlValue {
    TomlValue::Text(s.to_string())
}

fn table(entries: Vec<(&str, TomlValue)>) -> TomlValue {
    TomlValue::Table(entries.into_iter().map(|(k, v)| (k.to_string(), v)).collect())
}

fn package(name: &str, version: &str, source: Option<&str>) -> TomlValue {
    let mut e = vec![("name", text(name)), ("version", text(version))];
    if let Some(s) = source {
        e.push(("source", text(s)));
    }
    table(e)
}

const REGISTRY: &str = "registry+https://github.com/rust-lang/crates.io-index";

#[test]
fn lock_keeps_registry_packages_in_order() {
    let doc = table(vec![
        ("version", TomlValue::Integer(3)),
        (
            "package",
            TomlValue::Array(vec![
                package("myapp", "0.1.0", None),
                package("serde", "1.0.200", Some(REGISTRY)),
                package("local", "0.1.0", Some("path+file:///x")),
                package("gitdep", "0.2.0", Some("git+https://example.com/x")),
                package("9bad", "1.0.0", Some(REGISTRY)),
                package("elsewhere", "1.0.0", Some("registry+https://example.com/index")),
                text("not a table"),
                table(vec![("name", text("nover")), ("source", text(REGISTRY))]),
                package("tokio", "1.38.0", Some(REGISTRY)),
            ]),
        ),
    ]);
    let pkgs = lock_packages(&doc);
    let got: Vec<(String, String)> = pkgs.into_iter().map(|p| (p.name, p.version)).collect();
    assert_eq!(
        got,
        vec![
            ("serde".to_string(), "1.0.200".to_string()),
            ("tokio".to_string(), "1.38.0".to_string())
        ]
    );
}

#[test]
fn lock_without_packages() {
    assert!(lock_packages(&table(vec![("version", TomlValue::Integer(3))])).is_empty());
    assert!(lock_packages(&table(vec![("package", text("x"))])).is_empty());
    assert!(lock_packages(&TomlValue::Boolean(true)).is_empty());
}

#[test]
fn root_crate_of_manifest() {
    let doc = table(vec![(
        "package",
        table(vec![("name", text("myapp")), ("version", text("0.3.1")), ("edition", text("2021"))]),
    )]);
    assert_eq!(
        root_crate(&doc, "/w/Cargo.toml").unwrap(),
        ("myapp".to_string(), "0.3.1".to_string())
    );
}

fn reason(r: Result<(String, String), Error>) -> String {
    match r {
        Err(Error::ConfigParse { path, reason }) => {
            assert_eq!(path, "/w/Cargo.toml");
            reason
        }
        other => panic!("unexpected {other:?}"),
    }
}

#[test]
fn root_crate_errors() {
    let p = "/w/Cargo.toml";
    assert_eq!(
        reason(root_crate(&table(vec![("workspace", table(vec![]))]), p)),
        "missing [package] section in Cargo.toml"
    );
    assert_eq!(
        reason(root_crate(&table(vec![("package", text("x"))]), p)),
        "missing [package] section in Cargo.toml"
    );
    assert_eq!(
        reason(root_crate(&table(vec![("package", table(vec![("version", text("1.0.0"))]))]), p)),
        "missing package.name in Cargo.toml"
    );
    assert_eq!(
        reason(root_crate(
            &table(vec![("package", table(vec![("name", text("a")), ("version", TomlValue::Integer(1))]))]),
            p
        )),
        "missing package.version in Cargo.toml"
    );
}

#[test]
fn table_lookup() {
    let entries = vec![("a".to_string(), text("1")), ("b".to_string(), TomlValue::Boolean(false))];
    assert!(matches!(get(&entries, "a"), Some(TomlValue::Text(s)) if s == "1"));
    assert!(matches!(get(&entries, "b"), Some(TomlValue::Boolean(false))));
    assert!(get(&entries, "c").is_none());
    let t = TomlValue::Table(entries);
    assert_eq!(get_text(&t, "a").map(|s| s.as_str()), Some("1"));
    assert!(get_text(&t, "b").is_none());
    assert!(get_text(&text("a"), "a").is_none());
}

fn words(v: &[&str]) -> Vec<String> {
    v.iter().map(|s| s.to_string()).collect()
}

#[test]
fn cargo_failures() {
    assert_eq!(join_args(&words(&[])), "");
    assert_eq!(join_args(&words(&["add", "tokio@1.38.0"])), "add tokio@1.38.0");
    match exit_error(&words(&["add", "tokio@1.38.0"]), Some(101)) {
        Error::CargoCommandFailed(m) => assert_eq!(m, "cargo add tokio@1.38.0 exited with code 101"),
        other => panic!("unexpected {other:?}"),
    }
    match exit_error(&words(&["update"]), None) {
        Error::CargoCommandFailed(m) => assert_eq!(m, "cargo update exited with code signal"),
        other => panic!("unexpected {other:?}"),
    }
    match exit_error(&words(&["build"]), Some(-2147483648)) {
        Error::CargoCommandFailed(m) => assert_eq!(m, "cargo build exited with code -2147483648"),
        other => panic!("unexpected {other:?}"),
    }
    assert!(matches!(launch_error(true, "No such file"), Error::CargoNotInstalled));
    match launch_error(false, "permission denied") {
        Error::CargoCommandFailed(m) => assert_eq!(m, "failed to launch cargo: permission denied"),
        other => panic!("unexpected {other:?}"),
    }
}

#[test]
fn lock_file_text() {
    let text = "version = 3\n\n[[package]]\nname = \"myapp\"\nversion = \"0.1.0\"\n\n[[package]]\nname = \"serde\"\nversion = \"1.0.200\"\nsource = \"registry+https://github.com/rust-lang/crates.io-index\"\nchecksum = \"abc\"\n\n[[package]]\nname = \"mirror\"\nversion = \"2.0.0\"\nsource = \"registry+https://example.com/index\"\n";
    let got: Vec<(String, String)> =
        lock_file_packages(text).unwrap().into_iter().map(|p| (p.name, p.version)).collect();
    assert_eq!(got, vec![("serde".to_string(), "1.0.200".to_string())]);
    assert!(lock_file_packages("version = 3\n").unwrap().is_empty());
    assert!(matches!(lock_file_packages("[[package]\n"), Err(Error::TomlDeserialize(_))));
}

#[test]
fn root_crate_text() {
    let text = "[package]\nname = \"myapp\"\nversion = \"0.3.1\"\nedition = \"2021\"\n";
    assert_eq!(
        root_crate_file(text, "/w/Cargo.toml").unwrap(),
        ("myapp".to_string(), "0.3.1".to_string())
    );
    assert_eq!(reason(root_crate_file("[workspace]\n", "/w/Cargo.toml")), "missing [package] section in Cargo.toml");
    assert!(matches!(root_crate_file("name = ", "/w/Cargo.toml"), Err(Error::TomlDeserialize(_))));
}
