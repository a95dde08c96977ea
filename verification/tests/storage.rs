use clip_relay::storage::{
    after_failure, candidate, configured_location, db_file, default_base, location_hint, next_step,
    Base, StorageStep, Target, CANDIDATES,
};

fn located(
    db_path: Option<&str>,
    url: Option<&str>,
    dir: Option<&str>,
) -> Option<Result<(String, String, String), String>> {
    configured_location(db_path, url, dir)
        .map(|r| r.map(|l| (l.data_dir, l.db_path, l.configured_by)))
}

fn place(dir: &str, db: &str, var: &str) -> Option<Result<(String, String, String), String>> {
    Some(Ok((dir.to_string(), db.to_string(), var.to_string())))
}

#[test]
fn database_path_goes_before_the_rest() {
    let r = located(Some(" /a/x.db "), Some("file:/b/y.db"), Some("/c"));
    assert_eq!(r, place("/a", "/a/x.db", "DB_PATH"));
    let r = located(Some("  "), Some("file:/b/y.db"), Some("/c"));
    assert_eq!(r, place("/b", "/b/y.db", "DATABASE_URL"));
    assert_eq!(located(None, Some("/b/y.db"), None), place("/b", "/b/y.db", "DATABASE_URL"));
    assert_eq!(located(None, Some("file:"), None), place("", "file:", "DATABASE_URL"));
    assert_eq!(located(None, None, Some("/c")), place("/c", "/c/custom.db", "DATA_DIR"));
    assert_eq!(located(None, Some(""), Some("/c/")), place("/c/", "/c/custom.db", "DATA_DIR"));
    assert_eq!(located(Some("x.db"), None, None), place("", "x.db", "DB_PATH"));
    assert_eq!(located(None, None, Some(" ")), None);
}

#[test]
fn paths_without_a_directory() {
    assert_eq!(
        located(Some("/"), None, None),
        Some(Err("DB_PATH must include a parent directory".to_string()))
    );
    assert_eq!(
        located(None, Some("sqlite:/"), None),
        Some(Err("DATABASE_URL must point to a file path".to_string()))
    );
}

#[test]
fn hints() {
    assert_eq!(location_hint("DB_PATH"), "explicit:DB_PATH");
    assert_eq!(db_file("/data"), "/data/custom.db");
}

#[test]
fn default_places() {
    assert_eq!(default_base(&vec![false, true, true], true), Base::Ancestor(1));
    assert_eq!(default_base(&vec![true], false), Base::Ancestor(0));
    assert_eq!(default_base(&vec![false, false], true), Base::App);
    assert_eq!(default_base(&vec![false], false), Base::WorkingDirectory);
    assert_eq!(default_base(&vec![], false), Base::WorkingDirectory);
}

#[test]
fn candidates_are_tried_in_turn() {
    let all: Vec<(Option<String>, String)> = (0..CANDIDATES)
        .map(|i| {
            let c = candidate(i);
            (c.data_dir, c.hint)
        })
        .collect();
    assert_eq!(
        all,
        vec![
            (None, "auto:default".to_string()),
            (Some("/data".to_string()), "auto:/data".to_string()),
            (Some("/tmp/clip-relay/data".to_string()), "auto:/tmp".to_string()),
        ]
    );
    assert_eq!(after_failure(0, "e0".to_string()), Ok(1));
    assert_eq!(after_failure(1, "e1".to_string()), Ok(2));
    assert_eq!(after_failure(2, "e2".to_string()), Err("e2".to_string()));
}

fn target(dir: &str, db: Option<&str>, var: Option<&str>) -> Target {
    Target {
        data_dir: dir.to_string(),
        db_path: db.map(|s| s.to_string()),
        configured_by: var.map(|s| s.to_string()),
    }
}

fn failure(t: &Target, step: StorageStep) -> String {
    next_step(t, step, Some("denied")).unwrap_err()
}

#[test]
fn steps_to_a_location() {
    let t = target("/d", Some("/d/custom.db"), None);
    let s = next_step(&t, StorageStep::CreateUploads, None).unwrap().unwrap();
    assert!(matches!(s, StorageStep::ProbeDataDir));
    assert!(next_step(&t, s, None).unwrap().is_none());

    let t = target("/d", Some("/e/custom.db"), None);
    let s = next_step(&t, StorageStep::ProbeDataDir, None).unwrap().unwrap();
    assert!(matches!(&s, StorageStep::CreateDbDir(d) if d == "/e"));
    let s = next_step(&t, s, None).unwrap().unwrap();
    assert!(matches!(&s, StorageStep::ProbeDbDir(d) if d == "/e"));
    assert!(next_step(&t, s, None).unwrap().is_none());

    let t = target("/d", None, None);
    assert!(next_step(&t, StorageStep::ProbeDataDir, None).unwrap().is_none());
}

#[test]
fn configured_databases_need_no_other_directory() {
    for (db, url, dir) in [
        (Some("/a//./x.db"), None, None),
        (Some("x.db"), None, None),
        (None, Some("file:./x.db"), None),
        (None, None, Some("/c//")),
        (None, None, Some("./d/.")),
        (None, None, Some(".")),
    ] {
        let l = configured_location(db, url, dir).unwrap().unwrap();
        let t = target(&l.data_dir, Some(&l.db_path), Some(&l.configured_by));
        assert!(next_step(&t, StorageStep::ProbeDataDir, None).unwrap().is_none());
    }
}

#[test]
fn failures_are_described() {
    let t = target("/d", Some("/e/x.db"), Some("DB_PATH"));
    assert_eq!(
        failure(&t, StorageStep::CreateUploads),
        "Failed to create storage directory (configured by DB_PATH): denied (data_dir=/d)"
    );
    assert_eq!(
        failure(&t, StorageStep::ProbeDataDir),
        "Storage directory is not writable (configured by DB_PATH): denied (data_dir=/d)"
    );
    assert_eq!(
        failure(&t, StorageStep::CreateDbDir("/e".to_string())),
        "Failed to create DB directory: denied (dir=/e)"
    );
    assert_eq!(
        failure(&t, StorageStep::ProbeDbDir("/e".to_string())),
        "DB directory is not writable: denied (dir=/e, db_path=/e/x.db)"
    );
    let t = target("/d", Some("/"), None);
    assert_eq!(
        failure(&t, StorageStep::CreateUploads),
        "Failed to create storage directory: denied (data_dir=/d)"
    );
    assert_eq!(
        failure(&t, StorageStep::ProbeDataDir),
        "Storage directory is not writable: denied (data_dir=/d)"
    );
    assert_eq!(
        next_step(&t, StorageStep::ProbeDataDir, None).unwrap_err(),
        "DB path must include a parent directory (db_path=/)"
    );
}
