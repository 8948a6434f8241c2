use std::cell::RefCell;

use just_convert::application::bootstrap::AppBootstrap;
use just_convert::application::converter_registry::{EngineAvailability, capabilities, capabilities_with_dependencies};
use just_convert::application::dependency_service::{DependencyService, is_libreoffice_executable};
use just_convert::domain::converter::ConverterStatus;

fn nothing_found() -> EngineAvailability {
    EngineAvailability { libreoffice: false, pdf_to_docx: false, ffmpeg: false, qpdf: false, pdfium: false }
}

#[test]
fn registry_contains_every_confirmed_conversion_family() {
    let ids: Vec<_> = capabilities(&nothing_found()).into_iter().map(|item| item.id).collect();

    for expected in ["images-to-pdf", "pdf-tools", "pdf-to-images", "audio", "office-to-pdf", "pdf-to-docx"] {
        assert!(ids.contains(&expected.to_string()));
    }
}

#[test]
fn a_family_is_ready_exactly_when_its_engine_was_found() {
    let all = capabilities_with_dependencies(true, false, true, false, true);
    let status = |id: &str| all.iter().find(|c| c.id == id).unwrap().status.clone();
    assert_eq!(status("images-to-pdf"), ConverterStatus::Ready);
    assert_eq!(status("office-to-pdf"), ConverterStatus::Ready);
    assert_eq!(status("pdf-to-docx"), ConverterStatus::ExternalRequired);
    assert_eq!(status("audio"), ConverterStatus::Ready);
    assert_eq!(status("pdf-tools"), ConverterStatus::ExternalRequired);
    assert_eq!(status("pdf-to-images"), ConverterStatus::Ready);
    let audio = all.iter().find(|c| c.id == "audio").unwrap();
    assert_eq!(audio.engine, "FFmpeg");
    assert_eq!(audio.input_extensions.len(), 6);
}

#[test]
fn libreoffice_is_recognised_by_its_program_name() {
    let any_file = |_: &str| true;
    assert!(is_libreoffice_executable("C:/LO/program/SOFFICE.EXE", &any_file));
    assert!(is_libreoffice_executable("/usr/bin/libreoffice", &any_file));
    assert!(!is_libreoffice_executable("C:/LO/program/swriter.exe", &any_file));
    assert!(!is_libreoffice_executable("C:/LO/program/soffice.exe", &|_: &str| false));
}

#[test]
fn manual_override_round_trips_through_sqlite() {
    let saved = RefCell::new(Vec::new());
    let save = |key: &str, path: Option<&str>| -> Result<(), String> {
        saved.borrow_mut().push((key.to_string(), path.map(str::to_string)));
        Ok(())
    };
    let executable = "C:/Program Files/LibreOffice/program/soffice.exe".to_string();
    let is_file = |p: &str| p == "C:/Program Files/LibreOffice/program/soffice.exe";
    let mut service = DependencyService::new(None, None, None);
    service.set_override("libreoffice", Some(executable.clone()), &is_file, &save).unwrap();

    let stored = saved.borrow().last().cloned().unwrap();
    assert_eq!(stored, ("libreoffice".to_string(), Some(executable.clone())));
    let mut recreated = DependencyService::new(None, stored.1, None);
    let none = |_: &str| false;
    assert_eq!(
        recreated.statuses(None, None, false, &is_file, &none, &none).libreoffice.manual_path,
        Some(executable)
    );
    recreated.set_override("libreoffice", None, &is_file, &save).unwrap();
    assert!(recreated.statuses(None, None, false, &is_file, &none, &none).libreoffice.manual_path.is_none());
}

#[test]
fn python_override_is_saved_when_the_version_probe_fails() {
    let executable = "C:/Tools/runner.exe".to_string();
    let is_file = |p: &str| p == "C:/Tools/runner.exe";
    let save = |_: &str, _: Option<&str>| -> Result<(), String> { Ok(()) };
    let mut service = DependencyService::new(None, None, None);

    service.set_override("python", Some(executable.clone()), &is_file, &save).unwrap();
    let never = |_: &str| false;
    let status = service.statuses(None, None, true, &is_file, &never, &never).python;

    assert_eq!(status.manual_path, Some(executable.clone()));
    assert!(status.manual_path_valid);
    assert_eq!(status.issue.as_deref(), Some("version_check_failed"));
    assert_eq!(status.resolved_path, Some(executable));
}

#[test]
fn overrides_are_refused_for_bad_paths() {
    let is_file = |p: &str| p.ends_with(".exe");
    let save = |_: &str, _: Option<&str>| -> Result<(), String> { Ok(()) };
    let mut service = DependencyService::new(None, None, None);
    assert_eq!(service.set_override("ffmpeg", None, &is_file, &save).unwrap_err(), "Unknown optional dependency");
    assert_eq!(
        service.set_override("python", Some("python.exe".to_string()), &is_file, &save).unwrap_err(),
        "Select an existing executable using an absolute path"
    );
    assert_eq!(
        service.set_override("libreoffice", Some("C:/LO/swriter.exe".to_string()), &is_file, &save).unwrap_err(),
        "The selected file is not soffice.exe"
    );
    assert_eq!(
        service
            .set_override("python", Some(r"C:\Users\u\AppData\Local\Microsoft\WindowsApps\python.exe".to_string()), &is_file, &save)
            .unwrap_err(),
        "The Microsoft Store Python alias is not a real installation. Select a Python executable outside WindowsApps."
    );
    let failing_store = |_: &str, _: Option<&str>| -> Result<(), String> { Err("Dependency setting could not be saved: disk full".to_string()) };
    assert_eq!(
        service.set_override("python", Some("C:/py/python.exe".to_string()), &is_file, &failing_store).unwrap_err(),
        "Dependency setting could not be saved: disk full"
    );
    let none = |_: &str| false;
    assert!(service.statuses(None, None, false, &is_file, &none, &none).python.manual_path.is_none());
}

#[test]
fn python_issues_are_reported_in_order() {
    let is_file = |_: &str| true;
    let usable = |_: &str| true;
    let has_packages = |_: &str| false;
    let service = DependencyService::new(None, None, None);
    let status = service.statuses(None, Some("/usr/bin/python3".to_string()), true, &is_file, &usable, &has_packages).python;
    assert_eq!(status.issue.as_deref(), Some("packages_missing"));
    assert!(!status.ready);
    let with_packages = |_: &str| true;
    let status = service.statuses(None, Some("/usr/bin/python3".to_string()), false, &is_file, &usable, &with_packages).python;
    assert_eq!(status.issue.as_deref(), Some("worker_missing"));
    let status = service.statuses(None, Some("/usr/bin/python3".to_string()), true, &is_file, &usable, &with_packages).python;
    assert!(status.ready);
    assert_eq!(status.issue, None);
}

#[test]
fn an_invalid_libreoffice_override_falls_back_to_detection() {
    let service = DependencyService::new(None, Some("C:/old/soffice.exe".to_string()), None);
    let missing = |_: &str| false;
    let status = service.statuses(Some("C:/LO/soffice.exe".to_string()), None, false, &missing, &missing, &missing).libreoffice;
    assert!(!status.manual_path_valid);
    assert_eq!(status.issue.as_deref(), Some("invalid_manual_path"));
    assert_eq!(status.resolved_path, Some("C:/LO/soffice.exe".to_string()));
    assert!(status.ready);
    assert_eq!(
        service.libreoffice_path(Some("C:/LO/soffice.exe".to_string()), &missing),
        Some("C:/LO/soffice.exe".to_string())
    );
}

#[test]
fn bootstrap_marks_dependent_families_ready_from_the_statuses() {
    let service = DependencyService::new(None, None, None);
    let yes = |_: &str| true;
    let statuses = service.statuses(Some("C:/LO/soffice.exe".to_string()), None, false, &yes, &yes, &yes);
    let boot = AppBootstrap::new("0.1.0", "windows", statuses, true, true, true);
    let office = boot.converters.iter().find(|c| c.id == "office-to-pdf").unwrap();
    assert_eq!(office.status, ConverterStatus::Ready);
    let docx = boot.converters.iter().find(|c| c.id == "pdf-to-docx").unwrap();
    assert_eq!(docx.status, ConverterStatus::ExternalRequired);
    assert_eq!(boot.app_version, "0.1.0");
}
