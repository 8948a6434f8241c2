//! Optional dependencies (LibreOffice and Python for PDF-to-Word): the paths
//! chosen by hand, their checks, and the status shown to the user.

use vstd::prelude::*;
use crate::paths::{file_name, file_name_of, is_absolute, is_absolute_path, lower, opt_view, probed};
use crate::platform::{PdfToDocxRuntime, find_pdf_to_docx_runtime, has_docx_packages, is_store_alias, is_windows_apps_python_alias};
use crate::text::{ascii_lower, same_text};

verus! {

/// The state of one optional dependency.
#[derive(Debug)]
pub struct DependencyStatus {
    pub id: String,
    pub automatic_path: Option<String>,
    pub manual_path: Option<String>,
    pub manual_path_valid: bool,
    pub resolved_path: Option<String>,
    pub ready: bool,
    pub issue: Option<String>,
}

/// The mathematical content of a [`DependencyStatus`].
pub struct StatusModel {
    pub id: Seq<char>,
    pub automatic_path: Option<Seq<char>>,
    pub manual_path: Option<Seq<char>>,
    pub manual_path_valid: bool,
    pub resolved_path: Option<Seq<char>>,
    pub ready: bool,
    pub issue: Option<Seq<char>>,
}

impl View for DependencyStatus {
    type V = StatusModel;

    open spec fn view(&self) -> StatusModel {
        StatusModel {
            id: self.id@,
            automatic_path: opt_view(self.automatic_path),
            manual_path: opt_view(self.manual_path),
            manual_path_valid: self.manual_path_valid,
            resolved_path: opt_view(self.resolved_path),
            ready: self.ready,
            issue: opt_view(self.issue),
        }
    }
}

/// The states of both optional dependencies.
#[derive(Debug)]
pub struct DependencyStatuses {
    pub libreoffice: DependencyStatus,
    pub python: DependencyStatus,
}

/// The paths chosen by hand, and where the application's resources lie.
#[derive(Debug)]
pub struct DependencyService {
    resource_directory: Option<String>,
    libreoffice: Option<String>,
    python: Option<String>,
}

/// The mathematical content of a [`DependencyService`].
pub struct OverridesModel {
    pub resource_directory: Option<Seq<char>>,
    pub libreoffice: Option<Seq<char>>,
    pub python: Option<Seq<char>>,
}

impl View for DependencyService {
    type V = OverridesModel;

    closed spec fn view(&self) -> OverridesModel {
        OverridesModel {
            resource_directory: opt_view(self.resource_directory),
            libreoffice: opt_view(self.libreoffice),
            python: opt_view(self.python),
        }
    }
}

/// The file names that LibreOffice's program has, in any ASCII case.
pub open spec fn libreoffice_name_ok(p: Seq<char>) -> bool {
    match file_name_of(p) {
        Some(n) => {
            let l = ascii_lower(n);
            l == "soffice.exe"@ || l == "soffice.com"@ || l == "soffice"@ || l == "libreoffice"@
        },
        None => false,
    }
}

/// Whether the path names LibreOffice's program: an existing file with one of
/// its names.
pub fn is_libreoffice_executable<F: Fn(&str) -> bool>(path: &str, is_file: &F) -> (r: bool)
    requires
        forall|s: &str| is_file.requires((s,)),
    ensures
        r ==> probed(*is_file, path@, true) && libreoffice_name_ok(path@),
        !r ==> probed(*is_file, path@, false) || !libreoffice_name_ok(path@),
{
    let found = is_file(path);
    assert(probed(*is_file, path@, found));
    found && libreoffice_name(path)
}

fn libreoffice_name(path: &str) -> (r: bool)
    ensures
        r == libreoffice_name_ok(path@),
{
    match file_name(path) {
        Some(n) => {
            let l = lower(n.as_str());
            same_text(l.as_str(), "soffice.exe") || same_text(l.as_str(), "soffice.com")
                || same_text(l.as_str(), "soffice") || same_text(l.as_str(), "libreoffice")
        },
        None => false,
    }
}

/// The issue reported for a path chosen by hand that is not valid.
pub open spec fn invalid_issue(manual: Option<Seq<char>>, valid: bool) -> Option<Seq<char>> {
    if manual is Some && !valid { Some("invalid_manual_path"@) } else { None }
}

pub fn invalid_override_issue(path: &Option<String>, valid: bool) -> (r: Option<String>)
    ensures
        opt_view(r) == invalid_issue(opt_view(*path), valid),
{
    if path.is_some() && !valid {
        Some("invalid_manual_path".to_owned())
    } else {
        None
    }
}

/// The status of LibreOffice, given what was found automatically and whether
/// the path chosen by hand is LibreOffice's program.
pub open spec fn libreoffice_status(manual: Option<Seq<char>>, automatic: Option<Seq<char>>, valid: bool) -> StatusModel {
    let resolved = if valid { manual } else { automatic };
    StatusModel {
        id: "libreoffice"@,
        automatic_path: automatic,
        manual_path: manual,
        manual_path_valid: valid,
        resolved_path: resolved,
        ready: resolved is Some,
        issue: invalid_issue(manual, valid),
    }
}

/// The status of Python, given what was found automatically, whether the
/// worker script was found, and the answers of the probes: whether the path
/// chosen by hand is a file (`file`), whether it passes the version check
/// (`usable`), and whether the resolved Python has the packages (`packages`).
pub open spec fn python_status(
    manual: Option<Seq<char>>,
    automatic: Option<Seq<char>>,
    worker_available: bool,
    file: bool,
    usable: bool,
    packages: bool,
) -> StatusModel {
    let eligible = manual is Some && file && !is_store_alias(manual->0);
    let version_valid = eligible && usable;
    let resolved = if eligible { manual } else { automatic };
    let packages_ready = resolved is Some && !is_store_alias(resolved->0) && packages;
    StatusModel {
        id: "python"@,
        automatic_path: automatic,
        manual_path: manual,
        manual_path_valid: eligible,
        resolved_path: resolved,
        ready: resolved is Some && packages_ready && worker_available,
        issue: if manual is Some && is_store_alias(manual->0) {
            Some("windows_apps_alias"@)
        } else if manual is Some && !eligible {
            Some("invalid_manual_path"@)
        } else if manual is Some && !version_valid {
            Some("version_check_failed"@)
        } else if resolved is Some && !packages_ready {
            Some("packages_missing"@)
        } else if resolved is Some && !worker_available {
            Some("worker_missing"@)
        } else {
            None
        },
    }
}

/// The probes answered `file`, `usable` and `packages` where `python_status`
/// consults them.
pub open spec fn python_answers<F: Fn(&str) -> bool, U: Fn(&str) -> bool, K: Fn(&str) -> bool>(
    is_file: F,
    usable: U,
    packages: K,
    manual: Option<Seq<char>>,
    automatic: Option<Seq<char>>,
    file: bool,
    usable_ok: bool,
    packages_ok: bool,
) -> bool {
    let eligible = manual is Some && file && !is_store_alias(manual->0);
    let resolved = if eligible { manual } else { automatic };
    &&& manual is Some ==> probed(is_file, manual->0, file)
    &&& eligible ==> probed(usable, manual->0, usable_ok)
    &&& resolved is Some && !is_store_alias(resolved->0) ==> probed(packages, resolved->0, packages_ok)
}

/// The PDF-to-Word runtime chosen, given that `is_file` answered `file` for
/// the Python chosen by hand.
pub open spec fn runtime_outcome<F: Fn(&str) -> bool, K: Fn(&str) -> bool>(
    is_file: F,
    packages: K,
    manual: Option<Seq<char>>,
    automatic: Option<Seq<char>>,
    worker: Option<Seq<char>>,
    file: bool,
    r: Option<PdfToDocxRuntime>,
) -> bool {
    let eligible = manual is Some && file && !is_store_alias(manual->0);
    let python = if eligible { manual } else { automatic };
    &&& manual is Some ==> probed(is_file, manual->0, file)
    &&& match (python, worker) {
        (Some(p), Some(w)) => match r {
            Some(rt) => rt.python_path@ == p && rt.worker_path@ == w && has_docx_packages(packages, p),
            None => is_store_alias(p) || probed(packages, p, false),
        },
        _ => r is None,
    }
}

/// The status of LibreOffice, given that the check of the path chosen by hand
/// answered `valid`.
pub open spec fn libreoffice_outcome<F: Fn(&str) -> bool>(
    is_file: F,
    manual: Option<Seq<char>>,
    automatic: Option<Seq<char>>,
    valid: bool,
    s: StatusModel,
) -> bool {
    &&& (manual matches Some(p) ==> (valid ==> probed(is_file, p, true) && libreoffice_name_ok(p))
        && (!valid ==> probed(is_file, p, false) || !libreoffice_name_ok(p)))
    &&& (manual is None ==> !valid)
    &&& s == libreoffice_status(manual, automatic, valid)
}

/// The status of Python, given the answers of the probes.
pub open spec fn python_outcome<F: Fn(&str) -> bool, U: Fn(&str) -> bool, K: Fn(&str) -> bool>(
    is_file: F,
    usable: U,
    packages: K,
    manual: Option<Seq<char>>,
    automatic: Option<Seq<char>>,
    worker_available: bool,
    file: bool,
    usable_ok: bool,
    packages_ok: bool,
    s: StatusModel,
) -> bool {
    &&& python_answers(is_file, usable, packages, manual, automatic, file, usable_ok, packages_ok)
    &&& s == python_status(manual, automatic, worker_available, file, usable_ok, packages_ok)
}

fn copy_opt(o: &Option<String>) -> (r: Option<String>)
    ensures
        opt_view(r) == opt_view(*o),
{
    match o {
        Some(s) => Some(s.clone()),
        None => None,
    }
}

impl DependencyService {
    /// The service with the paths chosen by hand that were saved earlier.
    pub fn new(resource_directory: Option<String>, libreoffice: Option<String>, python: Option<String>) -> (s: DependencyService)
        ensures
            s@ == (OverridesModel {
                resource_directory: opt_view(resource_directory),
                libreoffice: opt_view(libreoffice),
                python: opt_view(python),
            }),
    {
        DependencyService { resource_directory, libreoffice, python }
    }

    /// Where the application's resources lie.
    pub fn resource_directory(&self) -> (r: Option<String>)
        ensures
            opt_view(r) == self@.resource_directory,
    {
        copy_opt(&self.resource_directory)
    }

    /// The state of both dependencies. `automatic_libreoffice` and
    /// `automatic_python` are what the automatic searches found,
    /// `worker_available` whether the worker script was found; `usable` runs
    /// Python's version check and `packages` its package check.
    pub fn statuses<F: Fn(&str) -> bool, U: Fn(&str) -> bool, K: Fn(&str) -> bool>(
        &self,
        automatic_libreoffice: Option<String>,
        automatic_python: Option<String>,
        worker_available: bool,
        is_file: &F,
        usable: &U,
        packages: &K,
    ) -> (r: DependencyStatuses)
        requires
            forall|s: &str| is_file.requires((s,)),
            forall|s: &str| usable.requires((s,)),
            forall|s: &str| packages.requires((s,)),
        ensures
            exists|valid: bool| #[trigger] libreoffice_outcome(*is_file, self@.libreoffice,
                opt_view(automatic_libreoffice), valid, r.libreoffice@),
            exists|file: bool, usable_ok: bool, packages_ok: bool| #[trigger] python_outcome(*is_file, *usable, *packages,
                self@.python, opt_view(automatic_python), worker_available, file, usable_ok, packages_ok, r.python@),
    {
        let valid = match &self.libreoffice {
            Some(p) => is_libreoffice_executable(p.as_str(), is_file),
            None => false,
        };
        let lo_resolved = if valid { copy_opt(&self.libreoffice) } else { copy_opt(&automatic_libreoffice) };
        let libreoffice = DependencyStatus {
            id: "libreoffice".to_owned(),
            automatic_path: copy_opt(&automatic_libreoffice),
            manual_path: copy_opt(&self.libreoffice),
            manual_path_valid: valid,
            ready: lo_resolved.is_some(),
            resolved_path: lo_resolved,
            issue: invalid_override_issue(&self.libreoffice, valid),
        };

        let mut file = false;
        let mut alias = false;
        match &self.python {
            Some(p) => {
                file = is_file(p.as_str());
                assert(probed(*is_file, p@, file));
                alias = is_windows_apps_python_alias(p.as_str());
            },
            None => {},
        }
        let eligible = self.python.is_some() && file && !alias;
        let mut usable_ok = false;
        if eligible {
            match &self.python {
                Some(p) => {
                    usable_ok = usable(p.as_str());
                    assert(probed(*usable, p@, usable_ok));
                },
                None => {},
            }
        }
        let version_valid = eligible && usable_ok;
        let resolved = if eligible { copy_opt(&self.python) } else { copy_opt(&automatic_python) };
        let mut packages_ok = false;
        let mut resolved_alias = false;
        match &resolved {
            Some(q) => {
                resolved_alias = is_windows_apps_python_alias(q.as_str());
                if !resolved_alias {
                    packages_ok = packages(q.as_str());
                    assert(probed(*packages, q@, packages_ok));
                }
            },
            None => {},
        }
        let packages_ready = resolved.is_some() && !resolved_alias && packages_ok;
        let issue = if self.python.is_some() && alias {
            Some("windows_apps_alias".to_owned())
        } else if self.python.is_some() && !eligible {
            Some("invalid_manual_path".to_owned())
        } else if self.python.is_some() && !version_valid {
            Some("version_check_failed".to_owned())
        } else if resolved.is_some() && !packages_ready {
            Some("packages_missing".to_owned())
        } else if resolved.is_some() && !worker_available {
            Some("worker_missing".to_owned())
        } else {
            None
        };
        let python = DependencyStatus {
            id: "python".to_owned(),
            automatic_path: copy_opt(&automatic_python),
            manual_path: copy_opt(&self.python),
            manual_path_valid: eligible,
            ready: resolved.is_some() && packages_ready && worker_available,
            resolved_path: resolved,
            issue,
        };
        proof {
            assert(libreoffice_outcome(*is_file, self@.libreoffice, opt_view(automatic_libreoffice), valid, libreoffice@));
            assert(python_outcome(*is_file, *usable, *packages, self@.python, opt_view(automatic_python), worker_available,
                file, usable_ok, packages_ok, python@));
        }
        DependencyStatuses { libreoffice, python }
    }

    /// The LibreOffice program to use: the one chosen by hand when it is
    /// LibreOffice's program, else `automatic`, what the automatic search found.
    pub fn libreoffice_path<F: Fn(&str) -> bool>(&self, automatic: Option<String>, is_file: &F) -> (r: Option<String>)
        requires
            forall|s: &str| is_file.requires((s,)),
        ensures
            match self@.libreoffice {
                Some(p) => {
                    ||| probed(*is_file, p, true) && libreoffice_name_ok(p) && opt_view(r) == Some(p)
                    ||| (probed(*is_file, p, false) || !libreoffice_name_ok(p)) && opt_view(r) == opt_view(automatic)
                },
                None => opt_view(r) == opt_view(automatic),
            },
    {
        match &self.libreoffice {
            Some(p) => {
                if is_libreoffice_executable(p.as_str(), is_file) {
                    Some(p.clone())
                } else {
                    automatic
                }
            },
            None => automatic,
        }
    }

    /// The PDF-to-Word runtime: the Python chosen by hand when it is a file and
    /// not the Store placeholder, else `automatic_python`; with the worker
    /// script found, when the Python has the packages.
    pub fn pdf_to_docx_runtime<F: Fn(&str) -> bool, K: Fn(&str) -> bool>(
        &self,
        automatic_python: Option<String>,
        worker: Option<String>,
        is_file: &F,
        packages: &K,
    ) -> (r: Option<PdfToDocxRuntime>)
        requires
            forall|s: &str| is_file.requires((s,)),
            forall|s: &str| packages.requires((s,)),
        ensures
            exists|file: bool| #[trigger] runtime_outcome(*is_file, *packages, self@.python,
                opt_view(automatic_python), opt_view(worker), file, r),
    {
        let mut file = false;
        let mut eligible = false;
        match &self.python {
            Some(p) => {
                file = is_file(p.as_str());
                assert(probed(*is_file, p@, file));
                eligible = file && !is_windows_apps_python_alias(p.as_str());
            },
            None => {},
        }
        let ghost auto = opt_view(automatic_python);
        let ghost w = opt_view(worker);
        let python = if eligible { copy_opt(&self.python) } else { automatic_python };
        let r = find_pdf_to_docx_runtime(python, worker, packages);
        assert(runtime_outcome(*is_file, *packages, self@.python, auto, w, file, r));
        r
    }
}

} // verus!

verus! {

/// The key under which a dependency's path is saved.
pub open spec fn dependency_key(dependency: Seq<char>) -> Option<Seq<char>> {
    if dependency == "libreoffice"@ {
        Some("libreoffice"@)
    } else if dependency == "python"@ {
        Some("python"@)
    } else {
        None
    }
}

pub open spec fn store_alias_refusal() -> Seq<char> {
    "The Microsoft Store Python alias is not a real installation. Select a Python executable outside WindowsApps."@
}

/// The verdict on choosing `path` by hand for `dependency`, given that the
/// filesystem answered `file` for an absolute path: the key to save it under,
/// or the refusal.
pub open spec fn override_check(dependency: Seq<char>, path: Option<Seq<char>>, file: bool) -> Result<Seq<char>, Seq<char>> {
    match dependency_key(dependency) {
        None => Err("Unknown optional dependency"@),
        Some(k) => match path {
            None => Ok(k),
            Some(p) => if !is_absolute_path(p) || !file {
                Err("Select an existing executable using an absolute path"@)
            } else if k == "libreoffice"@ && !libreoffice_name_ok(p) {
                Err("The selected file is not soffice.exe"@)
            } else if k == "python"@ && is_store_alias(p) {
                Err(store_alias_refusal())
            } else {
                Ok(k)
            },
        },
    }
}

pub open spec fn opt_str(p: Option<&str>) -> Option<Seq<char>> {
    match p {
        Some(s) => Some(s@),
        None => None,
    }
}

/// Saving `path` (or removing the saved path, for `None`) under `key` gave `res`.
pub open spec fn saved<S: Fn(&str, Option<&str>) -> Result<(), String>>(save: S, key: Seq<char>, path: Option<Seq<char>>, res: Result<(), String>) -> bool {
    exists|k: &str, p: Option<&str>| k@ == key && opt_str(p) == path && #[trigger] save.ensures((k, p), res)
}

/// The paths chosen by hand once `path` is recorded under `key`.
pub open spec fn with_override(m: OverridesModel, key: Seq<char>, path: Option<Seq<char>>) -> OverridesModel {
    if key == "libreoffice"@ {
        OverridesModel { libreoffice: path, ..m }
    } else {
        OverridesModel { python: path, ..m }
    }
}

/// What choosing a path by hand did, given the filesystem's answer `file`.
pub open spec fn override_outcome<F: Fn(&str) -> bool, S: Fn(&str, Option<&str>) -> Result<(), String>>(
    is_file: F,
    save: S,
    dependency: Seq<char>,
    path: Option<Seq<char>>,
    file: bool,
    m0: OverridesModel,
    m1: OverridesModel,
    r: Result<(), String>,
) -> bool {
    &&& (dependency_key(dependency) is Some && path is Some && is_absolute_path(path->0) ==> probed(is_file, path->0, file))
    &&& match override_check(dependency, path, file) {
        Err(e) => r is Err && r->Err_0@ == e && m1 == m0,
        Ok(k) => exists|res: Result<(), String>| #[trigger] saved(save, k, path, res) && match res {
            Err(e) => r is Err && r->Err_0@ == e@ && m1 == m0,
            Ok(()) => r is Ok && m1 == with_override(m0, k, path),
        },
    }
}

fn opt_as_str(p: &Option<String>) -> (r: Option<&str>)
    ensures
        opt_str(r) == opt_view(*p),
{
    match p {
        Some(s) => Some(s.as_str()),
        None => None,
    }
}

impl DependencyService {
    /// Chooses `path` by hand for `dependency` ("libreoffice" or "python"), or
    /// forgets the choice for `None`. The path must be an absolute path of an
    /// existing file: LibreOffice's program, or a Python that is not the Store
    /// placeholder. `save` writes the choice to the settings store; nothing
    /// changes when it fails.
    pub fn set_override<F: Fn(&str) -> bool, S: Fn(&str, Option<&str>) -> Result<(), String>>(
        &mut self,
        dependency: &str,
        path: Option<String>,
        is_file: &F,
        save: &S,
    ) -> (r: Result<(), String>)
        requires
            forall|s: &str| is_file.requires((s,)),
            forall|k: &str, p: Option<&str>| save.requires((k, p)),
        ensures
            exists|file: bool| #[trigger] override_outcome(*is_file, *save, dependency@, opt_view(path), file,
                old(self)@, final(self)@, r),
    {
        let libreoffice = same_text(dependency, "libreoffice");
        let python = same_text(dependency, "python");
        if !libreoffice && !python {
            proof {
                reveal_strlit("libreoffice");
                reveal_strlit("python");
            }
            let r: Result<(), String> = Err("Unknown optional dependency".to_owned());
            assert(override_outcome(*is_file, *save, dependency@, opt_view(path), false, old(self)@, self@, r));
            return r;
        }
        let key = if libreoffice { "libreoffice" } else { "python" };
        proof {
            reveal_strlit("libreoffice");
            reveal_strlit("python");
        }
        let mut file = false;
        match &path {
            Some(p) => {
                if is_absolute(p.as_str()) {
                    file = is_file(p.as_str());
                    assert(probed(*is_file, p@, file));
                }
                if !is_absolute(p.as_str()) || !file {
                    let r: Result<(), String> = Err("Select an existing executable using an absolute path".to_owned());
                    assert(override_outcome(*is_file, *save, dependency@, opt_view(path), file, old(self)@, self@, r));
                    return r;
                }
                if libreoffice && !libreoffice_name(p.as_str()) {
                    let r: Result<(), String> = Err("The selected file is not soffice.exe".to_owned());
                    assert(override_outcome(*is_file, *save, dependency@, opt_view(path), file, old(self)@, self@, r));
                    return r;
                }
                if python && is_windows_apps_python_alias(p.as_str()) {
                    let r: Result<(), String> = Err(
                        "The Microsoft Store Python alias is not a real installation. Select a Python executable outside WindowsApps."
                            .to_owned());
                    assert(override_outcome(*is_file, *save, dependency@, opt_view(path), file, old(self)@, self@, r));
                    return r;
                }
            },
            None => {},
        }
        assert(override_check(dependency@, opt_view(path), file) == Ok::<Seq<char>, Seq<char>>(key@));
        let res = save(key, opt_as_str(&path));
        assert(saved(*save, key@, opt_view(path), res));
        match res {
            Err(e) => {
                let r: Result<(), String> = Err(e);
                assert(override_outcome(*is_file, *save, dependency@, opt_view(path), file, old(self)@, self@, r));
                r
            },
            Ok(()) => {
                if libreoffice {
                    self.libreoffice = path;
                } else {
                    self.python = path;
                }
                let r: Result<(), String> = Ok(());
                assert(override_outcome(*is_file, *save, dependency@, opt_view(path), file, old(self)@, self@, r));
                r
            },
        }
    }
}

} // verus!
