use clip_relay::path::{
    entry, file_extension, parent, parse_db_path_from_database_url, same_path, sanitize_path,
};
use std::path::{Component, Path, PathBuf};

/// Every text of at most six characters out of a slash, a dot and a letter.
fn paths() -> Vec<String> {
    let mut all = vec![String::new()];
    let mut last = all.clone();
    for _ in 0..6 {
        let mut next = Vec::new();
        for p in &last {
            for c in ['/', '.', 'a'] {
                next.push(format!("{p}{c}"));
            }
        }
        all.extend(next.iter().cloned());
        last = next;
    }
    all
}

fn normal_components(p: &str) -> String {
    let mut out = PathBuf::new();
    for c in Path::new(p).components() {
        if let Component::Normal(seg) = c {
            out.push(seg);
        }
    }
    out.to_str().unwrap().to_string()
}

#[test]
fn sanitized_paths_hold_the_normal_components() {
    for p in paths() {
        assert_eq!(sanitize_path(&p), normal_components(&p), "{p:?}");
    }
    assert_eq!(sanitize_path("../../etc/passwd"), "etc/passwd");
    assert_eq!(sanitize_path("/_next/./static//a.js"), "_next/static/a.js");
    assert_eq!(sanitize_path("/.."), "");
}

#[test]
fn sanitizing_twice_changes_nothing() {
    for p in paths() {
        let once = sanitize_path(&p);
        assert_eq!(sanitize_path(&once), once);
        assert!(!once.starts_with('/'));
        assert!(!once.split('/').any(|s| s == ".."));
    }
}

#[test]
fn parents_are_those_of_std() {
    for p in paths() {
        let expected = Path::new(&p).parent().map(|d| d.to_str().unwrap().to_string());
        assert_eq!(parent(&p), expected, "{p:?}");
    }
}

#[test]
fn extensions_are_those_of_std() {
    for p in paths() {
        let expected = Path::new(&p).extension().map(|e| e.to_str().unwrap().to_string());
        assert_eq!(file_extension(&p), expected, "{p:?}");
    }
    assert_eq!(file_extension("photo.tar.gz"), Some("gz".to_string()));
    assert_eq!(file_extension(".env"), None);
}

#[test]
fn entries_are_those_of_std() {
    for p in paths() {
        let expected = Path::new(&p).join("custom.db");
        assert_eq!(entry(&p, "custom.db"), expected.to_str().unwrap());
        assert!(same_path(&parent(&entry(&p, "custom.db")).unwrap(), &p), "{p:?}");
    }
}

#[test]
fn equal_paths_are_those_of_std() {
    let short: Vec<String> = paths().into_iter().filter(|p| p.len() <= 4).collect();
    for a in &short {
        for b in &short {
            assert_eq!(same_path(a, b), Path::new(a) == Path::new(b), "{a:?} {b:?}");
        }
    }
}

#[test]
fn database_urls() {
    let read = |s: &str| parse_db_path_from_database_url(s);
    assert_eq!(read("file:/app/data/custom.db"), Some("/app/data/custom.db".to_string()));
    assert_eq!(read(" sqlite:data.db "), Some("data.db".to_string()));
    assert_eq!(read("file:sqlite:x"), Some("sqlite:x".to_string()));
    assert_eq!(read("file:"), None);
    assert_eq!(read("sqlite:"), None);
    assert_eq!(read("/app/data/custom.db"), None);
    assert_eq!(read("FILE:/x"), None);
    assert_eq!(read(""), None);
}
