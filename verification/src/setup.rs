//! How the server is set up, stated of the decisions themselves.

use crate::config::{
    cors_policy, health, listen_port, origins_of, share_page, static_dir, CorsPolicy, Health,
};
use crate::number::unsigned_of;
use crate::path::{parent_of, same_path_as};
use crate::reply::is_header_text;
use crate::storage::{
    after_failure, candidate, configured_location, db_file, default_base, location_hint, next_step,
    Base, Candidate, Location, StorageStep, Target,
};
use crate::text::{lower_of, split_of, trim_of};
use vstd::prelude::*;
use vstd::utf8::encode_utf8;

verus! {

/// The server listens on the configured port, or on 8087 where none is configured
/// or what is configured is no port number.
pub proof fn ports_are_configured(port: Option<&str>, r: u16)
    requires
        call_ensures(listen_port, (port,), r),
    ensures
        port is Some && unsigned_of(port->0@, 65535) is Some ==> r == unsigned_of(
            port->0@,
            65535,
        )->0,
        port is None || unsigned_of(port->0@, 65535) is None ==> r == 8087,
{
    assert(port.deep_view() is Some == port is Some);
}

/// The front end is in the first of its places that is there, and in the last
/// where none of the others is.
pub proof fn front_ends_are_found(
    out: bool,
    next_export: bool,
    parent_out: bool,
    r: &'static str,
    index_exists: bool,
    page: &'static str,
)
    requires
        call_ensures(static_dir, (out, next_export, parent_out), r),
        call_ensures(share_page, (index_exists,), page),
    ensures
        out ==> r@ == "out"@,
        !out && next_export ==> r@ == ".next-export"@,
        !out && !next_export && parent_out ==> r@ == "../out"@,
        !out && !next_export && !parent_out ==> r@ == "../.next-export"@,
        index_exists ==> page@ == "s/index.html"@,
        !index_exists ==> page@ == "s.html"@,
{
}

proof fn lemma_origins(pieces: Seq<Seq<char>>)
    ensures
        origins_of(pieces) == pieces.map_values(|p: Seq<char>| trim_of(p)).filter(
            |o: Seq<char>| is_header_text(encode_utf8(o)),
        ),
    decreases pieces.len(),
{
    let trimmed = pieces.map_values(|p: Seq<char>| trim_of(p));
    reveal(Seq::filter);
    if pieces.len() > 0 {
        lemma_origins(pieces.drop_last());
        assert(trimmed.drop_last() =~= pieces.drop_last().map_values(|p: Seq<char>| trim_of(p)));
        assert(trimmed.last() == trim_of(pieces.last()));
    } else {
        assert(origins_of(pieces) =~= Seq::empty());
    }
}

/// Where origins are configured, those of the list may call, in its order, with
/// credentials, but for what could not stand in a header; else every origin may,
/// without. Methods and headers are the same for all.
pub proof fn origins_are_configured(allow_origin: Option<&str>, r: CorsPolicy)
    requires
        call_ensures(cors_policy, (allow_origin,), r),
    ensures
        r.credentials <==> allow_origin is Some,
        r.origins is Some <==> allow_origin is Some,
        allow_origin is Some ==> r.origins->0.deep_view() == split_of(
            allow_origin->0@,
            ',',
        ).map_values(|p: Seq<char>| trim_of(p)).filter(
            |o: Seq<char>| is_header_text(encode_utf8(o)),
        ),
        r.methods.deep_view() == seq!["GET"@, "POST"@, "DELETE"@, "PUT"@, "OPTIONS"@],
        r.headers.deep_view() == seq!["accept"@, "content-type"@, "authorization"@],
{
    assert(allow_origin.deep_view() is Some == allow_origin is Some);
    if allow_origin is Some {
        lemma_origins(split_of(allow_origin->0@, ','));
    }
}

/// The server says that it is well; where its data lies it says exactly where the
/// configuration asks for it.
pub proof fn healths_are_told(verbose: Option<&str>, data_dir: &str, db_path: &str, r: Health)
    requires
        call_ensures(health, (verbose, data_dir, db_path), r),
    ensures
        r.message@ == "Good!"@,
        ({
            let asked = verbose is Some && (verbose->0@ == "1"@ || lower_of(verbose->0@)
                == "true"@);
            &&& asked ==> r.data_dir is Some && r.data_dir->0@ == data_dir@
            &&& asked ==> r.db_path is Some && r.db_path->0@ == db_path@
            &&& !asked ==> r.data_dir is None && r.db_path is None
        }),
{
    assert(verbose.deep_view() is Some == verbose is Some);
    assert(r.data_dir.deep_view() is Some == r.data_dir is Some);
    assert(r.db_path.deep_view() is Some == r.db_path is Some);
    assert(r.deep_view().message == r.message@);
}

/// Whether a variable is set to more than white space.
pub open spec fn is_set(var: Option<&str>) -> bool {
    var is Some && trim_of(var->0@).len() > 0
}

/// Whether a location is that of a database file, beside it.
pub open spec fn is_beside(r: Option<Result<Location, String>>, path: Seq<char>, var: Seq<char>) -> bool {
    let l = r->0->Ok_0;
    &&& r is Some
    &&& r->0 is Ok <==> parent_of(path) is Some
    &&& parent_of(path) is Some ==> {
        &&& l.db_path@ == path
        &&& l.data_dir@ == parent_of(path)->0
        &&& l.configured_by@ == var
    }
}

/// The first variable that is set decides where the data lies: `DB_PATH` names the
/// database file; `DATABASE_URL` names it too, with or without `file:` or `sqlite:`
/// in front of the path; `DATA_DIR` names the directory, with the file `custom.db`
/// in it. The data directory is always that of the database file.
pub proof fn locations_are_configured(
    db_path: Option<&str>,
    database_url: Option<&str>,
    data_dir: Option<&str>,
    r: Option<Result<Location, String>>,
)
    requires
        call_ensures(configured_location, (db_path, database_url, data_dir), r),
    ensures
        is_set(db_path) ==> is_beside(r, trim_of(db_path->0@), "DB_PATH"@),
        is_set(db_path) && parent_of(trim_of(db_path->0@)) is None ==> r->0->Err_0@
            == "DB_PATH must include a parent directory"@,
        !is_set(db_path) && is_set(database_url) ==> {
            let url = trim_of(database_url->0@);
            let inner = trim_of(url);
            let rest_a = inner.skip("file:"@.len() as int);
            let rest_b = inner.skip("sqlite:"@.len() as int);
            let path = if "file:"@.is_prefix_of(inner) {
                if rest_a.len() > 0 {
                    rest_a
                } else {
                    url
                }
            } else if "sqlite:"@.is_prefix_of(inner) && rest_b.len() > 0 {
                rest_b
            } else {
                url
            };
            &&& is_beside(r, path, "DATABASE_URL"@)
            &&& parent_of(path) is None ==> r->0->Err_0@
                == "DATABASE_URL must point to a file path"@
        },
        !is_set(db_path) && !is_set(database_url) && is_set(data_dir) ==> {
            let dir = trim_of(data_dir->0@);
            let l = r->0->Ok_0;
            &&& r is Some && r->0 is Ok
            &&& l.data_dir@ == dir
            &&& dir.last() == '/' ==> l.db_path@ == dir + "custom.db"@
            &&& dir.last() != '/' ==> l.db_path@ == dir + seq!['/'] + "custom.db"@
            &&& l.configured_by@ == "DATA_DIR"@
        },
        r is None <==> !is_set(db_path) && !is_set(database_url) && !is_set(data_dir),
{
    assert(db_path.deep_view() is Some == db_path is Some);
    assert(database_url.deep_view() is Some == database_url is Some);
    assert(data_dir.deep_view() is Some == data_dir is Some);
    if is_set(data_dir) {
        let dir = trim_of(data_dir->0@);
        assert(dir.push('/') + "custom.db"@ =~= dir + seq!['/'] + "custom.db"@);
    }
}

/// The database file of a data directory is `custom.db` in it.
pub proof fn databases_have_their_name(dir: &str, r: String)
    requires
        call_ensures(db_file, (dir,), r),
    ensures
        dir@.len() == 0 ==> r@ == "custom.db"@,
        dir@.len() > 0 && dir@.last() == '/' ==> r@ == dir@ + "custom.db"@,
        dir@.len() > 0 && dir@.last() != '/' ==> r@ == dir@ + seq!['/'] + "custom.db"@,
{
    if dir@.len() == 0 {
        assert(r@ =~= "custom.db"@);
    }
    assert(dir@.push('/') + "custom.db"@ =~= dir@ + seq!['/'] + "custom.db"@);
}

/// How a location was found is told by the variable that names it.
pub proof fn hints_name_the_variable(configured_by: &str, r: String)
    requires
        call_ensures(location_hint, (configured_by,), r),
    ensures
        r@ == "explicit:"@ + configured_by@,
{
}

/// The default data directory stands in the nearest ancestor with the project's
/// marker; without one, in `/app` if it is there, else in the working directory.
pub proof fn defaults_are_near(marked: Vec<bool>, app_exists: bool, r: Base)
    requires
        call_ensures(default_base, (&marked, app_exists), r),
    ensures
        forall|i: int|
            0 <= i < marked@.len() && #[trigger] marked@[i] && (forall|k: int|
                0 <= k < i ==> !#[trigger] marked@[k]) ==> r is Ancestor && r->Ancestor_0 == i,
        (forall|k: int| 0 <= k < marked@.len() ==> !#[trigger] marked@[k]) ==> r == if app_exists {
            Base::App
        } else {
            Base::WorkingDirectory
        },
{
    assert forall|i: int|
        0 <= i < marked@.len() && #[trigger] marked@[i] && (forall|k: int|
            0 <= k < i ==> !#[trigger] marked@[k]) implies r is Ancestor && r->Ancestor_0 == i by {
        assert(marked@.contains(true));
        if r is Ancestor {
            let j = r->Ancestor_0 as int;
            assert(marked@[j]);
            assert(j == i) by {
                if j < i {
                    assert(!marked@[j]);
                } else if i < j {
                    assert(!marked@[i]);
                }
            }
        }
    }
}

/// Three data directories are tried, one after the other: the default one, `/data`
/// and one for temporary files. When the last cannot be used either, its failure
/// is reported.
pub proof fn directories_are_tried_in_turn(
    i: usize,
    tried: Candidate,
    failure: String,
    r: Result<usize, String>,
)
    requires
        i < 3,
        call_ensures(candidate, (i,), tried),
        call_ensures(after_failure, (i, failure), r),
    ensures
        i == 0 ==> tried.data_dir is None && tried.hint@ == "auto:default"@,
        i == 1 ==> tried.data_dir is Some && tried.data_dir->0@ == "/data"@ && tried.hint@
            == "auto:/data"@,
        i == 2 ==> tried.data_dir is Some && tried.data_dir->0@ == "/tmp/clip-relay/data"@
            && tried.hint@ == "auto:/tmp"@,
        i < 2 ==> r is Ok && r->Ok_0 == i + 1,
        i == 2 ==> r is Err && r->Err_0@ == failure@,
{
    assert(tried.data_dir.deep_view() is Some == tried.data_dir is Some);
}

/// Whether the failure of a data directory is reported: what failed, the variable
/// that configured it, why, and which directory it is.
pub open spec fn reports(e: Seq<char>, what: Seq<char>, target: Target, cause: Seq<char>) -> bool {
    &&& target.configured_by is Some ==> e == what + (" (configured by "@
        + target.configured_by->0@ + "): "@) + cause + " (data_dir="@ + target.data_dir@ + ")"@
    &&& target.configured_by is None ==> e == what + ": "@ + cause + " (data_dir="@
        + target.data_dir@ + ")"@
}

/// The data directory is created and probed, then, where the database file is not
/// in it, the directory of the database file; the first failure is reported, and
/// a location can be used once every probe of it succeeded.
pub proof fn storage_is_made_sure_of(
    target: Target,
    step: StorageStep,
    failure: Option<&str>,
    r: Result<Option<StorageStep>, String>,
)
    requires
        call_ensures(next_step, (&target, step, failure), r),
    ensures
        step is CreateUploads && failure is None ==> r is Ok && r->Ok_0 is Some && r->Ok_0->0
            is ProbeDataDir,
        step is CreateUploads && failure is Some ==> r is Err && reports(
            r->Err_0@,
            "Failed to create storage directory"@,
            target,
            failure->0@,
        ),
        step is ProbeDataDir && failure is Some ==> r is Err && reports(
            r->Err_0@,
            "Storage directory is not writable"@,
            target,
            failure->0@,
        ),
        step is ProbeDataDir && failure is None && target.db_path is None ==> r is Ok && r->Ok_0
            is None,
        step is ProbeDataDir && failure is None && target.db_path is Some ==> {
            let db = target.db_path->0@;
            let dir = parent_of(db);
            &&& dir is None ==> r is Err && r->Err_0@
                == "DB path must include a parent directory (db_path="@ + db + ")"@
            &&& dir is Some && same_path_as(dir->0, target.data_dir@) ==> r is Ok && r->Ok_0 is None
            &&& dir is Some && !same_path_as(dir->0, target.data_dir@) ==> r is Ok && r->Ok_0
                is Some && r->Ok_0->0 is CreateDbDir && r->Ok_0->0->CreateDbDir_0@ == dir->0
        },
        step is CreateDbDir && failure is None ==> r is Ok && r->Ok_0 is Some && r->Ok_0->0
            is ProbeDbDir && r->Ok_0->0->ProbeDbDir_0@ == step->CreateDbDir_0@,
        step is CreateDbDir && failure is Some ==> r is Err && r->Err_0@
            == "Failed to create DB directory: "@ + failure->0@ + " (dir="@ + step->CreateDbDir_0@
            + ")"@,
        step is ProbeDbDir && failure is None ==> r is Ok && r->Ok_0 is None,
        step is ProbeDbDir && failure is Some && target.db_path is Some ==> r is Err && r->Err_0@
            == "DB directory is not writable: "@ + failure->0@ + " (dir="@ + step->ProbeDbDir_0@
            + ", db_path="@ + target.db_path->0@ + ")"@,
        step is ProbeDbDir && failure is Some && target.db_path is None ==> r is Err && r->Err_0@
            == "DB directory is not writable: "@ + failure->0@ + " (dir="@ + step->ProbeDbDir_0@
            + ", db_path="@ + ""@ + ")"@,
{
    assert(failure.deep_view() is Some == failure is Some);
    assert(target.db_path.deep_view() is Some == target.db_path is Some);
    assert(target.configured_by.deep_view() is Some == target.configured_by is Some);
    if r is Ok {
        assert(r->Ok_0.deep_view() is Some == r->Ok_0 is Some);
    }
}

} // verus!
