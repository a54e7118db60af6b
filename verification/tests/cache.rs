use safe_cargo::cache::{
    evict_report, manifest_path, manifest_sig_path, report_path, report_sig_path, store_manifest_raw,
    store_manifest_sig, store_report_raw, store_report_sig,
};
use safe_cargo::error::Error;

fn parts(v: &[&str]) -> Vec<String> {
    v.iter().map(|s| s.to_string()).collect()
}

#[test]
fn cache_paths() {
    assert_eq!(report_path("tokio", "1.0.0").unwrap(), parts(&["reports", "tokio", "1.0.0.json"]));
    assert_eq!(
        report_sig_path("tokio", "1.0.0").unwrap(),
        parts(&["reports", "tokio", "1.0.0.json.minisig"])
    );
    assert_eq!(
        manifest_path("manifest-test", "0.1.0").unwrap(),
        parts(&["manifests", "manifest-test-0.1.0.json"])
    );
    assert_eq!(
        manifest_sig_path("tokio", "1.1.2+spec-1.1.0").unwrap(),
        parts(&["manifests", "tokio-1.1.2+spec-1.1.0.json.minisig"])
    );
}

#[test]
fn cache_paths_reject_traversal() {
    for (name, version) in [("..", "1.0.0"), ("tokio", "."), ("a/b", "1.0.0"), ("", "1.0.0"), ("x", "1 0")] {
        assert!(matches!(report_path(name, version), Err(Error::InvalidInput(_))), "{name} {version}");
        assert!(matches!(evict_report(name, version), Err(Error::InvalidInput(_))));
        assert!(matches!(store_manifest_raw(name, version, "{}"), Err(Error::InvalidInput(_))));
    }
}

#[test]
fn cache_writes() {
    let w = store_report_raw("roundtrip-test", "0.1.0", "{\"k\":1}").unwrap();
    assert_eq!(w.path, parts(&["reports", "roundtrip-test", "0.1.0.json"]));
    assert_eq!(w.contents, "{\"k\":1}");
    let w = store_report_sig("roundtrip-test", "0.1.0", "sig").unwrap();
    assert_eq!(w.path, parts(&["reports", "roundtrip-test", "0.1.0.json.minisig"]));
    assert_eq!(w.contents, "sig");
    let w = store_manifest_raw("m", "2.0.0", "[]").unwrap();
    assert_eq!(w.path, parts(&["manifests", "m-2.0.0.json"]));
    let w = store_manifest_sig("m", "2.0.0", "s").unwrap();
    assert_eq!(w.path, parts(&["manifests", "m-2.0.0.json.minisig"]));
    assert_eq!(w.contents, "s");
    let (doc, sig) = evict_report("m", "2.0.0").unwrap();
    assert_eq!(doc, parts(&["reports", "m", "2.0.0.json"]));
    assert_eq!(sig, parts(&["reports", "m", "2.0.0.json.minisig"]));
}

#[test]
fn cache_files_stay_inside_the_cache() {
    for (name, version) in [("a.b", "1.0.0+x"), ("tokio", "1.38.0"), ("x_y-z", "0.0.1-rc.1")] {
        let mut paths = vec![
            report_path(name, version).unwrap(),
            report_sig_path(name, version).unwrap(),
            manifest_path(name, version).unwrap(),
            manifest_sig_path(name, version).unwrap(),
        ];
        let (doc, sig) = evict_report(name, version).unwrap();
        paths.push(doc);
        paths.push(sig);
        for path in paths {
            for c in path {
                assert!(!c.is_empty() && c != "." && c != "..");
                assert!(!c.contains('/') && !c.contains('\\'));
            }
        }
    }
}
