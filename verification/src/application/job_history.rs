//! The decisions of the job history store: when the older JSON history is
//! imported, which of its versions is read, and which timestamps the database
//! can hold. The store itself lies outside the library.

use vstd::prelude::*;
use crate::domain::job::Job;
use crate::paths::{join, joined, probed};
use crate::text::{check_view, concat2, decimal, decimal_string};

verus! {

/// The older JSON history is imported once: when the database did not exist
/// before, holds no job, and the JSON file is there.
pub fn needs_legacy_import(database_existed: bool, stored_jobs: usize, legacy_is_file: bool) -> (r: bool)
    ensures
        r == (!database_existed && stored_jobs == 0 && legacy_is_file),
{
    !database_existed && stored_jobs == 0 && legacy_is_file
}

/// Only version 1 of the JSON history is read.
pub open spec fn legacy_version_check(version: u8) -> Result<(), Seq<char>> {
    if version == 1 {
        Ok(())
    } else {
        Err("Unsupported legacy job history version: "@ + decimal(version as nat))
    }
}

pub fn check_legacy_version(version: u8) -> (r: Result<(), String>)
    ensures
        check_view(r) == legacy_version_check(version),
{
    if version == 1 {
        Ok(())
    } else {
        let n = decimal_string(version as u64);
        Err(concat2("Unsupported legacy job history version: ", n.as_str()))
    }
}

/// A job's creation time as the database stores it: a signed 64-bit number.
pub fn sqlite_timestamp(created_at: u64) -> (r: Result<i64, String>)
    ensures
        created_at <= i64::MAX ==> r == Ok::<i64, String>(created_at as i64),
        created_at > i64::MAX ==> r is Err && r->Err_0@ == "Job timestamp is too large for SQLite"@,
{
    if created_at <= i64::MAX as u64 {
        Ok(created_at as i64)
    } else {
        Err("Job timestamp is too large for SQLite".to_owned())
    }
}

/// `load` gave `r` when asked to open the database at `path` and read its
/// jobs, oldest first.
pub open spec fn loaded<L: Fn(&str) -> Result<Vec<Job>, String>>(load: L, path: Seq<char>, r: Result<Vec<Job>, String>) -> bool {
    exists|p: &str| p@ == path && #[trigger] load.ensures((p,), r)
}

/// `read_legacy` gave `r` when asked to read the JSON history at `path`: its
/// version and its jobs.
pub open spec fn read_back<J: Fn(&str) -> Result<(u8, Vec<Job>), String>>(
    read_legacy: J,
    path: Seq<char>,
    r: Result<(u8, Vec<Job>), String>,
) -> bool {
    exists|p: &str| p@ == path && #[trigger] read_legacy.ensures((p,), r)
}

/// `write` gave `r` when asked to replace the jobs stored at `path` with `jobs`.
pub open spec fn written<W: Fn(&str, &Vec<Job>) -> Result<(), String>>(
    write: W,
    path: Seq<char>,
    jobs: Vec<Job>,
    r: Result<(), String>,
) -> bool {
    exists|p: &str, js: &Vec<Job>| p@ == path && *js == jobs && #[trigger] write.ensures((p, js), r)
}

/// The outcome of importing the JSON history at `legacy` into the database at
/// `database`: its jobs, once its version is checked and they are written.
pub open spec fn import_outcome<
    J: Fn(&str) -> Result<(u8, Vec<Job>), String>,
    W: Fn(&str, &Vec<Job>) -> Result<(), String>,
>(read_legacy: J, write: W, database: Seq<char>, legacy: Seq<char>, r: Result<(String, Vec<Job>), String>) -> bool {
    exists|j: Result<(u8, Vec<Job>), String>| #[trigger] read_back(read_legacy, legacy, j) && match j {
        Err(m) => r is Err && r->Err_0@ == m@,
        Ok((version, jobs)) => match legacy_version_check(version) {
            Err(e) => r is Err && r->Err_0@ == e,
            Ok(()) => exists|w: Result<(), String>| #[trigger] written(write, database, jobs, w) && match w {
                Err(m) => r is Err && r->Err_0@ == m@,
                Ok(()) => r matches Ok((p, js)) && p@ == database && js == jobs,
            },
        },
    }
}

fn file_text() -> (r: (String, String))
    ensures
        r.0@ == "jobs.sqlite3"@,
        r.1@ == "jobs.json"@,
{
    ("jobs.sqlite3".to_owned(), "jobs.json".to_owned())
}

/// Opens the history kept in `data_directory` (the database `jobs.sqlite3`):
/// its jobs, oldest first; or, once, when the database did not exist before
/// and holds no job and the older `jobs.json` is there, the jobs of that file,
/// which are then written to the database. `existed` tells whether a path
/// exists, `load` opens the database and reads its jobs, `is_file` tells
/// whether the JSON file is there, `read_legacy` reads it and `write`
/// replaces the stored jobs.
pub fn initialize<
    E: Fn(&str) -> bool,
    L: Fn(&str) -> Result<Vec<Job>, String>,
    F: Fn(&str) -> bool,
    J: Fn(&str) -> Result<(u8, Vec<Job>), String>,
    W: Fn(&str, &Vec<Job>) -> Result<(), String>,
>(
    data_directory: &str,
    existed: &E,
    load: &L,
    is_file: &F,
    read_legacy: &J,
    write: &W,
) -> (r: Result<(String, Vec<Job>), String>)
    requires
        forall|p: &str| existed.requires((p,)),
        forall|p: &str| load.requires((p,)),
        forall|p: &str| is_file.requires((p,)),
        forall|p: &str| read_legacy.requires((p,)),
        forall|p: &str, js: &Vec<Job>| write.requires((p, js)),
    ensures
        ({
            let database = joined(data_directory@, "jobs.sqlite3"@);
            let legacy = joined(data_directory@, "jobs.json"@);
            exists|e: bool| #[trigger] probed(*existed, database, e) && exists|l: Result<Vec<Job>, String>|
                #[trigger] loaded(*load, database, l) && match l {
                Err(m) => r is Err && r->Err_0@ == m@,
                Ok(jobs) => if e || jobs.len() > 0 {
                    r matches Ok((p, js)) && p@ == database && js == jobs
                } else {
                    exists|f: bool| #[trigger] probed(*is_file, legacy, f) && if f {
                        import_outcome(*read_legacy, *write, database, legacy, r)
                    } else {
                        r matches Ok((p, js)) && p@ == database && js == jobs
                    }
                },
            }
        }),
{
    let (database_name, legacy_name) = file_text();
    let database = join(data_directory, database_name.as_str());
    let legacy = join(data_directory, legacy_name.as_str());
    let e = existed(database.as_str());
    assert(probed(*existed, database@, e));
    let l = load(database.as_str());
    assert(loaded(*load, database@, l));
    let jobs = match l {
        Err(m) => return Err(m),
        Ok(jobs) => jobs,
    };
    if e || jobs.len() > 0 {
        return Ok((database, jobs));
    }
    let f = is_file(legacy.as_str());
    assert(probed(*is_file, legacy@, f));
    if !needs_legacy_import(e, jobs.len(), f) {
        return Ok((database, jobs));
    }
    let j = read_legacy(legacy.as_str());
    assert(read_back(*read_legacy, legacy@, j));
    let ghost answer = j;
    let (version, legacy_jobs) = match j {
        Err(m) => return Err(m),
        Ok(t) => t,
    };
    assert(answer == Ok::<(u8, Vec<Job>), String>((version, legacy_jobs)));
    check_legacy_version(version)?;
    let w = write(database.as_str(), &legacy_jobs);
    assert(written(*write, database@, legacy_jobs, w));
    match w {
        Err(m) => Err(m),
        Ok(()) => Ok((database, legacy_jobs)),
    }
}

} // verus!
