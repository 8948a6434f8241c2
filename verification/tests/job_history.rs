use std::cell::RefCell;

use just_convert::application::job_history::{check_legacy_version, initialize, needs_legacy_import, sqlite_timestamp};
use just_convert::domain::job::{AudioFormat, Job};

#[test]
fn the_json_history_is_imported_only_into_a_new_empty_database() {
    assert!(needs_legacy_import(false, 0, true));
    assert!(!needs_legacy_import(true, 0, true));
    assert!(!needs_legacy_import(false, 2, true));
    assert!(!needs_legacy_import(false, 0, false));
}

#[test]
fn only_the_first_json_history_version_is_read() {
    assert_eq!(check_legacy_version(1), Ok(()));
    assert_eq!(check_legacy_version(2), Err("Unsupported legacy job history version: 2".to_string()));
}

#[test]
fn timestamps_must_fit_the_database() {
    assert_eq!(sqlite_timestamp(1_700_000_000), Ok(1_700_000_000));
    assert_eq!(sqlite_timestamp(i64::MAX as u64), Ok(i64::MAX));
    assert_eq!(sqlite_timestamp(u64::MAX), Err("Job timestamp is too large for SQLite".to_string()));
}

fn stored_job(id: &str) -> Job {
    Job::queued_audio(id, "/m/in.wav", "/m/out.mp3", AudioFormat::Mp3, 10)
}

struct Store {
    existed: bool,
    stored: Vec<&'static str>,
    legacy: Option<(u8, Vec<&'static str>)>,
    writes: RefCell<Vec<(String, Vec<String>)>>,
}

impl Store {
    fn open(&self) -> Result<(String, Vec<String>), String> {
        let existed = |path: &str| {
            assert_eq!(path, "/data/jobs.sqlite3");
            self.existed
        };
        let load = |_: &str| Ok(self.stored.iter().map(|id| stored_job(id)).collect());
        let is_file = |path: &str| {
            assert_eq!(path, "/data/jobs.json");
            self.legacy.is_some()
        };
        let read_legacy = |_: &str| {
            let (version, ids) = self.legacy.clone().unwrap();
            Ok((version, ids.iter().map(|id| stored_job(id)).collect()))
        };
        let write = |path: &str, jobs: &Vec<Job>| {
            self.writes.borrow_mut().push((path.to_string(), jobs.iter().map(|job| job.id.clone()).collect()));
            Ok(())
        };
        let (path, jobs) = initialize("/data", &existed, &load, &is_file, &read_legacy, &write)?;
        Ok((path, jobs.into_iter().map(|job| job.id).collect()))
    }
}

#[test]
fn opening_the_history_imports_the_json_file_once() {
    let fresh = Store { existed: false, stored: vec![], legacy: Some((1, vec!["a", "b"])), writes: RefCell::new(vec![]) };
    assert_eq!(fresh.open(), Ok(("/data/jobs.sqlite3".to_string(), vec!["a".to_string(), "b".to_string()])));
    assert_eq!(fresh.writes.into_inner(), vec![("/data/jobs.sqlite3".to_string(), vec!["a".to_string(), "b".to_string()])]);

    let existing = Store { existed: true, stored: vec![], legacy: Some((1, vec!["a"])), writes: RefCell::new(vec![]) };
    assert_eq!(existing.open(), Ok(("/data/jobs.sqlite3".to_string(), vec![])));
    assert!(existing.writes.into_inner().is_empty());

    let filled = Store { existed: false, stored: vec!["c"], legacy: Some((1, vec!["a"])), writes: RefCell::new(vec![]) };
    assert_eq!(filled.open(), Ok(("/data/jobs.sqlite3".to_string(), vec!["c".to_string()])));

    let without = Store { existed: false, stored: vec![], legacy: None, writes: RefCell::new(vec![]) };
    assert_eq!(without.open(), Ok(("/data/jobs.sqlite3".to_string(), vec![])));

    let newer = Store { existed: false, stored: vec![], legacy: Some((2, vec!["a"])), writes: RefCell::new(vec![]) };
    assert_eq!(newer.open(), Err("Unsupported legacy job history version: 2".to_string()));
    assert!(newer.writes.into_inner().is_empty());
}
