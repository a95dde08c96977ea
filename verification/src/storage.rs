//! Where the data lives: which directory and database file are used, and the
//! steps that make sure that they can be written to.

use crate::path::{
    db_path_in_url, entries_are_in_their_directory, entry, entry_of, parent, parent_of,
    parse_db_path_from_database_url, same_path, same_path_as,
};
use crate::text::{trim, trim_of};
use vstd::prelude::*;

verus! {

/// A data directory and the database file that goes with it.
#[derive(Debug)]
pub struct Location {
    pub data_dir: String,
    pub db_path: String,
    /// The variable that names it.
    pub configured_by: String,
}

/// `Location` as a mathematical value.
pub struct LocationView {
    pub data_dir: Seq<char>,
    pub db_path: Seq<char>,
    pub configured_by: Seq<char>,
}

impl DeepView for Location {
    type V = LocationView;

    open spec fn deep_view(&self) -> LocationView {
        LocationView {
            data_dir: self.data_dir@,
            db_path: self.db_path@,
            configured_by: self.configured_by@,
        }
    }
}

/// The value of a variable without the white space around it; none where
/// nothing is left.
pub open spec fn setting_of(var: Option<Seq<char>>) -> Option<Seq<char>> {
    match var {
        Some(v) if trim_of(v).len() > 0 => Some(trim_of(v)),
        _ => None,
    }
}

fn setting(var: Option<&str>) -> (r: Option<String>)
    ensures
        r.deep_view() == setting_of(var.deep_view()),
{
    match var {
        Some(v) => {
            let t = trim(v);
            if t.as_str().is_empty() {
                None
            } else {
                Some(t)
            }
        },
        None => None,
    }
}

/// The location of a database file, in its own directory.
pub open spec fn beside_db(db_path: Seq<char>, var: Seq<char>, missing: Seq<char>) -> Result<
    LocationView,
    Seq<char>,
> {
    match parent_of(db_path) {
        Some(dir) => Ok(LocationView { data_dir: dir, db_path, configured_by: var }),
        None => Err(missing),
    }
}

fn location_of_db(db_path: String, var: &str, missing: &str) -> (r: Result<Location, String>)
    ensures
        (match r {
            Ok(l) => Ok(l.deep_view()),
            Err(e) => Err(e@),
        }) == beside_db(db_path@, var@, missing@),
{
    match parent(db_path.as_str()) {
        Some(data_dir) => Ok(Location { data_dir, db_path, configured_by: var.to_owned() }),
        None => Err(missing.to_owned()),
    }
}

/// The name of the database file in a data directory.
pub fn db_file(data_dir: &str) -> (r: String)
    ensures
        r@ == entry_of(data_dir@, "custom.db"@),
{
    entry(data_dir, "custom.db")
}

/// The location that the variables `DB_PATH`, `DATABASE_URL` and `DATA_DIR`
/// name, the first of them that is set. `None` where none of them is.
pub open spec fn configured_of(
    db_path: Option<Seq<char>>,
    database_url: Option<Seq<char>>,
    data_dir: Option<Seq<char>>,
) -> Option<Result<LocationView, Seq<char>>> {
    match (setting_of(db_path), setting_of(database_url), setting_of(data_dir)) {
        (Some(p), _, _) => Some(
            beside_db(p, "DB_PATH"@, "DB_PATH must include a parent directory"@),
        ),
        (None, Some(url), _) => Some(
            beside_db(
                match db_path_in_url(url) {
                    Some(p) => p,
                    None => url,
                },
                "DATABASE_URL"@,
                "DATABASE_URL must point to a file path"@,
            ),
        ),
        (None, None, Some(dir)) => Some(
            Ok(
                LocationView {
                    data_dir: dir,
                    db_path: entry_of(dir, "custom.db"@),
                    configured_by: "DATA_DIR"@,
                },
            ),
        ),
        (None, None, None) => None,
    }
}

/// Finds the location that the variables `DB_PATH`, `DATABASE_URL` and
/// `DATA_DIR` name.
pub fn configured_location(
    db_path: Option<&str>,
    database_url: Option<&str>,
    data_dir: Option<&str>,
) -> (r: Option<Result<Location, String>>)
    ensures
        (match r {
            Some(Ok(l)) => Some(Ok(l.deep_view())),
            Some(Err(e)) => Some(Err(e@)),
            None => None,
        }) == configured_of(db_path.deep_view(), database_url.deep_view(), data_dir.deep_view()),
{
    if let Some(p) = setting(db_path) {
        return Some(location_of_db(p, "DB_PATH", "DB_PATH must include a parent directory"));
    }
    if let Some(url) = setting(database_url) {
        let p = match parse_db_path_from_database_url(url.as_str()) {
            Some(p) => p,
            None => url,
        };
        return Some(location_of_db(p, "DATABASE_URL", "DATABASE_URL must point to a file path"));
    }
    match setting(data_dir) {
        Some(dir) => {
            let db_path = db_file(dir.as_str());
            Some(Ok(Location { data_dir: dir, db_path, configured_by: "DATA_DIR".to_owned() }))
        },
        None => None,
    }
}

/// How a location was found: by which variable.
pub fn location_hint(configured_by: &str) -> (r: String)
    ensures
        r@ == "explicit:"@ + configured_by@,
{
    let mut r = "explicit:".to_owned();
    r.append(configured_by);
    r
}

/// Where the default data directory stands.
#[derive(Clone, Copy, Debug, PartialEq, Eq, Structural)]
pub enum Base {
    /// In the `i`th ancestor of the working directory, itself the 0th.
    Ancestor(usize),
    /// In `/app`.
    App,
    /// In the working directory.
    WorkingDirectory,
}

/// The nearest ancestor that holds the project's marker; else `/app` if it is
/// there; else the working directory.
pub open spec fn is_default_base(marked: Seq<bool>, app_exists: bool, base: Base) -> bool {
    match base {
        Base::Ancestor(i) => i < marked.len() && marked[i as int] && forall|k: int|
            0 <= k < i ==> !#[trigger] marked[k],
        Base::App => app_exists && !marked.contains(true),
        Base::WorkingDirectory => !app_exists && !marked.contains(true),
    }
}

/// Chooses where the default data directory stands. `marked` tells of each
/// ancestor of the working directory, from itself upwards, whether it holds the
/// project's marker.
pub fn default_base(marked: &Vec<bool>, app_exists: bool) -> (r: Base)
    ensures
        is_default_base(marked@, app_exists, r),
{
    let mut i: usize = 0;
    while i < marked.len()
        invariant
            i <= marked@.len(),
            forall|k: int| 0 <= k < i ==> !#[trigger] marked@[k],
        decreases marked@.len() - i,
    {
        if marked[i] {
            return Base::Ancestor(i);
        }
        i = i + 1;
    }
    if app_exists {
        Base::App
    } else {
        Base::WorkingDirectory
    }
}

/// A data directory to try where none is configured.
#[derive(Debug)]
pub struct Candidate {
    /// `None` for the default data directory.
    pub data_dir: Option<String>,
    pub hint: String,
}

/// How many data directories are tried.
pub const CANDIDATES: usize = 3;

/// The `i`th data directory to try, with a note of what it is.
pub open spec fn candidate_of(i: int) -> (Option<Seq<char>>, Seq<char>) {
    if i == 0 {
        (None, "auto:default"@)
    } else if i == 1 {
        (Some("/data"@), "auto:/data"@)
    } else {
        (Some("/tmp/clip-relay/data"@), "auto:/tmp"@)
    }
}

/// The `i`th data directory to try where none is configured.
pub fn candidate(i: usize) -> (r: Candidate)
    requires
        i < CANDIDATES,
    ensures
        (r.data_dir.deep_view(), r.hint@) == candidate_of(i as int),
{
    if i == 0 {
        Candidate { data_dir: None, hint: "auto:default".to_owned() }
    } else if i == 1 {
        Candidate { data_dir: Some("/data".to_owned()), hint: "auto:/data".to_owned() }
    } else {
        Candidate { data_dir: Some("/tmp/clip-relay/data".to_owned()), hint: "auto:/tmp".to_owned() }
    }
}

/// What follows when the `i`th data directory cannot be used: the next one is
/// tried, or the last failure is reported.
pub fn after_failure(i: usize, failure: String) -> (r: Result<usize, String>)
    requires
        i < CANDIDATES,
    ensures
        match r {
            Ok(next) => next == i + 1 && next < CANDIDATES,
            Err(e) => e@ == failure@ && i + 1 == CANDIDATES,
        },
{
    if i + 1 < CANDIDATES {
        Ok(i + 1)
    } else {
        Err(failure)
    }
}

/// A step on the way to a usable location.
#[derive(Debug)]
pub enum StorageStep {
    /// Create the directory for uploads, and with it the data directory.
    CreateUploads,
    /// Create and remove a file in the data directory.
    ProbeDataDir,
    /// Create the directory of the database file.
    CreateDbDir(String),
    /// Create and remove a file in the directory of the database file.
    ProbeDbDir(String),
}

/// `StorageStep` as a mathematical value.
pub enum StepView {
    CreateUploads,
    ProbeDataDir,
    CreateDbDir(Seq<char>),
    ProbeDbDir(Seq<char>),
}

impl DeepView for StorageStep {
    type V = StepView;

    open spec fn deep_view(&self) -> StepView {
        match self {
            StorageStep::CreateUploads => StepView::CreateUploads,
            StorageStep::ProbeDataDir => StepView::ProbeDataDir,
            StorageStep::CreateDbDir(d) => StepView::CreateDbDir(d@),
            StorageStep::ProbeDbDir(d) => StepView::ProbeDbDir(d@),
        }
    }
}

/// A location to be made sure of.
#[derive(Debug)]
pub struct Target {
    pub data_dir: String,
    pub db_path: Option<String>,
    pub configured_by: Option<String>,
}

/// `Target` as a mathematical value.
pub struct TargetView {
    pub data_dir: Seq<char>,
    pub db_path: Option<Seq<char>>,
    pub configured_by: Option<Seq<char>>,
}

impl DeepView for Target {
    type V = TargetView;

    open spec fn deep_view(&self) -> TargetView {
        TargetView {
            data_dir: self.data_dir@,
            db_path: self.db_path.deep_view(),
            configured_by: self.configured_by.deep_view(),
        }
    }
}

/// What is reported of a data directory that cannot be used.
pub open spec fn data_dir_failure(what: Seq<char>, target: TargetView, cause: Seq<char>) -> Seq<char> {
    what + (match target.configured_by {
        Some(var) => " (configured by "@ + var + "): "@,
        None => ": "@,
    }) + cause + " (data_dir="@ + target.data_dir + ")"@
}

/// What follows a step: the next one, none where the location can be used, or
/// what is reported of the failure.
pub open spec fn next_step_of(
    target: TargetView,
    step: StepView,
    failure: Option<Seq<char>>,
) -> Result<Option<StepView>, Seq<char>> {
    match (step, failure) {
        (StepView::CreateUploads, None) => Ok(Some(StepView::ProbeDataDir)),
        (StepView::CreateUploads, Some(cause)) => Err(
            data_dir_failure("Failed to create storage directory"@, target, cause),
        ),
        (StepView::ProbeDataDir, None) => match target.db_path {
            None => Ok(None),
            Some(db) => match parent_of(db) {
                None => Err(
                    "DB path must include a parent directory (db_path="@ + db + ")"@,
                ),
                Some(dir) => if same_path_as(dir, target.data_dir) {
                    Ok(None)
                } else {
                    Ok(Some(StepView::CreateDbDir(dir)))
                },
            },
        },
        (StepView::ProbeDataDir, Some(cause)) => Err(
            data_dir_failure("Storage directory is not writable"@, target, cause),
        ),
        (StepView::CreateDbDir(dir), None) => Ok(Some(StepView::ProbeDbDir(dir))),
        (StepView::CreateDbDir(dir), Some(cause)) => Err(
            "Failed to create DB directory: "@ + cause + " (dir="@ + dir + ")"@,
        ),
        (StepView::ProbeDbDir(dir), None) => Ok(None),
        (StepView::ProbeDbDir(dir), Some(cause)) => Err(
            "DB directory is not writable: "@ + cause + " (dir="@ + dir + ", db_path="@ + (
            match target.db_path {
                Some(db) => db,
                None => ""@,
            }) + ")"@,
        ),
    }
}

fn describe_data_dir(what: &str, target: &Target, cause: &str) -> (r: String)
    ensures
        r@ == data_dir_failure(what@, target.deep_view(), cause@),
{
    let mut r = what.to_owned();
    match &target.configured_by {
        Some(var) => {
            r.append(" (configured by ");
            r.append(var.as_str());
            r.append("): ");
            assert(r@ =~= what@ + (" (configured by "@ + var@ + "): "@));
        },
        None => {
            r.append(": ");
        },
    }
    r.append(cause);
    r.append(" (data_dir=");
    r.append(target.data_dir.as_str());
    r.append(")");
    r
}

/// Decides what follows a step that was taken, and failed if `failure` says so.
/// The first step is `CreateUploads`.
pub fn next_step(target: &Target, step: StorageStep, failure: Option<&str>) -> (r: Result<
    Option<StorageStep>,
    String,
>)
    ensures
        (match r {
            Ok(s) => Ok(s.deep_view()),
            Err(e) => Err(e@),
        }) == next_step_of(target.deep_view(), step.deep_view(), failure.deep_view()),
{
    match (step, failure) {
        (StorageStep::CreateUploads, None) => Ok(Some(StorageStep::ProbeDataDir)),
        (StorageStep::CreateUploads, Some(cause)) => Err(
            describe_data_dir("Failed to create storage directory", target, cause),
        ),
        (StorageStep::ProbeDataDir, None) => match &target.db_path {
            None => Ok(None),
            Some(db) => match parent(db.as_str()) {
                None => {
                    let mut r = "DB path must include a parent directory (db_path=".to_owned();
                    r.append(db.as_str());
                    r.append(")");
                    Err(r)
                },
                Some(dir) => if same_path(dir.as_str(), target.data_dir.as_str()) {
                    Ok(None)
                } else {
                    Ok(Some(StorageStep::CreateDbDir(dir)))
                },
            },
        },
        (StorageStep::ProbeDataDir, Some(cause)) => Err(
            describe_data_dir("Storage directory is not writable", target, cause),
        ),
        (StorageStep::CreateDbDir(dir), None) => Ok(Some(StorageStep::ProbeDbDir(dir))),
        (StorageStep::CreateDbDir(dir), Some(cause)) => {
            let mut r = "Failed to create DB directory: ".to_owned();
            r.append(cause);
            r.append(" (dir=");
            r.append(dir.as_str());
            r.append(")");
            Err(r)
        },
        (StorageStep::ProbeDbDir(_), None) => Ok(None),
        (StorageStep::ProbeDbDir(dir), Some(cause)) => {
            let mut r = "DB directory is not writable: ".to_owned();
            r.append(cause);
            r.append(" (dir=");
            r.append(dir.as_str());
            r.append(", db_path=");
            r.append(
                match &target.db_path {
                    Some(db) => db.as_str(),
                    None => "",
                },
            );
            r.append(")");
            Err(r)
        },
    }
}

/// A configured location needs no directory beside its data directory: the
/// database file is in it, so once the data directory can be written to, the
/// location can be used.
pub proof fn databases_are_in_the_data_directory(
    db_path: Option<Seq<char>>,
    database_url: Option<Seq<char>>,
    data_dir: Option<Seq<char>>,
)
    ensures
        configured_of(db_path, database_url, data_dir) matches Some(Ok(l)) ==> next_step_of(
            TargetView {
                data_dir: l.data_dir,
                db_path: Some(l.db_path),
                configured_by: Some(l.configured_by),
            },
            StepView::ProbeDataDir,
            None,
        ) == Ok::<Option<StepView>, Seq<char>>(None),
{
    lemma_db_file_in(setting_of(data_dir)->0);
}

proof fn lemma_db_file_in(dir: Seq<char>)
    ensures
        parent_of(entry_of(dir, "custom.db"@)) matches Some(p) && same_path_as(p, dir),
{
    reveal_strlit("custom.db");
    reveal_strlit(".");
    reveal_strlit("..");
    assert(!"custom.db"@.contains('/'));
    entries_are_in_their_directory(dir, "custom.db"@);
}

/// The same holds of the directories that are tried where none is configured.
pub proof fn default_databases_are_in_the_data_directory(dir: Seq<char>)
    ensures
        next_step_of(
            TargetView {
                data_dir: dir,
                db_path: Some(entry_of(dir, "custom.db"@)),
                configured_by: None,
            },
            StepView::ProbeDataDir,
            None,
        ) == Ok::<Option<StepView>, Seq<char>>(None),
{
    lemma_db_file_in(dir);
}

/// `DB_PATH` goes before `DATABASE_URL`, and that before `DATA_DIR`.
pub proof fn database_paths_go_first(
    db_path: Option<Seq<char>>,
    database_url: Option<Seq<char>>,
    data_dir: Option<Seq<char>>,
)
    ensures
        setting_of(db_path) is Some ==> configured_of(db_path, database_url, data_dir)
            == configured_of(db_path, None, None),
        setting_of(db_path) is None && setting_of(database_url) is Some ==> configured_of(
            db_path,
            database_url,
            data_dir,
        ) == configured_of(None, database_url, None),
{
}

} // verus!
