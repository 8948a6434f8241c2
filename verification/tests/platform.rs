use std::cell::RefCell;

use just_convert::platform::{
    BundlePlaces, TargetOs, bundled_ffmpeg_file, executable_from_install_path, ffmpeg_environment_key, find_ffmpeg, find_libreoffice, find_on_path,
    find_pdf_to_docx_runtime, find_pdf_to_docx_worker, find_pdfium, find_python, find_qpdf, first_usable_python,
    is_windows_apps_python_alias,
};

fn places() -> BundlePlaces {
    BundlePlaces {
        resource_directory: Some("C:/app/resources".to_string()),
        crate_directory: "C:/src/just-convert/src-tauri".to_string(),
        executable_directory: Some("C:/app".to_string()),
    }
}

#[test]
fn libreoffice_detection_never_returns_a_missing_file() {
    let files = ["/opt/libreoffice/program/soffice".to_string()];
    let is_file = |p: &str| files.iter().any(|f| f == p);
    let dirs = vec!["/usr/bin".to_string(), "/opt/libreoffice/program".to_string()];
    if let Some(path) = find_libreoffice(TargetOs::Linux, &dirs, None, &is_file) {
        assert!(is_file(&path));
    }
    assert_eq!(
        find_libreoffice(TargetOs::Linux, &dirs, None, &is_file),
        Some("/opt/libreoffice/program/soffice".to_string())
    );
    assert_eq!(find_libreoffice(TargetOs::Linux, &vec!["/usr/bin".to_string()], None, &is_file), None);
}

#[test]
fn libreoffice_is_found_at_the_usual_windows_location_after_path_and_registry() {
    let usual = "C:\\Program Files\\LibreOffice\\program\\soffice.exe";
    let is_file = |p: &str| p == usual || p == "D:/LO/program/soffice.exe";
    assert_eq!(find_libreoffice(TargetOs::Windows, &Vec::new(), None, &is_file), Some(usual.to_string()));
    assert_eq!(
        find_libreoffice(TargetOs::Windows, &Vec::new(), Some("D:/LO/program/soffice.exe".to_string()), &is_file),
        Some("D:/LO/program/soffice.exe".to_string())
    );
}

#[test]
fn python_detection_never_returns_an_unusable_runtime() {
    let is_file = |p: &str| p == "/usr/bin/python3" || p == "/usr/local/bin/python3";
    let usable = |p: &str| p == "/usr/local/bin/python3";
    let dirs = vec!["/usr/bin".to_string(), "/usr/local/bin".to_string()];
    if let Some(path) = find_python(TargetOs::Linux, None, &dirs, Vec::new(), Vec::new(), &is_file, &usable) {
        assert!(is_file(&path));
        assert!(usable(&path));
    }
    assert_eq!(
        find_python(TargetOs::Linux, None, &dirs, Vec::new(), Vec::new(), &is_file, &usable),
        Some("/usr/local/bin/python3".to_string())
    );
}

#[test]
fn windows_apps_alias_is_skipped_before_trying_the_next_python() {
    let alias = r"C:\Users\Example\AppData\Local\Microsoft\WindowsApps\python.exe".to_string();
    let alias3 = r"C:\Users\Example\AppData\Local\Microsoft\WindowsApps\python3.exe".to_string();
    let real = r"C:\Python312\python.exe".to_string();
    let probed = RefCell::new(Vec::new());

    let selected = first_usable_python(&vec![alias.clone(), alias3.clone(), real.clone()], &|candidate: &str| {
        probed.borrow_mut().push(candidate.to_string());
        candidate == real
    });

    assert!(is_windows_apps_python_alias(&alias));
    assert!(is_windows_apps_python_alias(&alias3));
    assert_eq!(selected, Some(real.clone()));
    assert_eq!(probed.into_inner(), vec![real]);
}

#[test]
fn only_python_placeholders_in_windows_apps_count_as_aliases() {
    assert!(is_windows_apps_python_alias("c:/users/x/appdata/local/microsoft/windowsapps/PYTHON3.EXE"));
    assert!(!is_windows_apps_python_alias(r"C:\Users\x\AppData\Local\Microsoft\WindowsApps\pip.exe"));
    assert!(!is_windows_apps_python_alias(r"C:\Python312\python.exe"));
    assert!(!is_windows_apps_python_alias("python.exe"));
}

#[test]
fn pdf_to_docx_worker_is_present_in_the_source_tree() {
    let in_tree = "C:/src/just-convert/src-tauri/../workers/pdf_to_docx.py";
    let is_file = |p: &str| p == in_tree;
    let path = find_pdf_to_docx_worker(None, &places(), &is_file).expect("the worker script should be present");
    assert!(is_file(&path));
    assert_eq!(
        find_pdf_to_docx_worker(Some("D:/w.py".to_string()), &places(), &|p: &str| p == "D:/w.py" || p == in_tree),
        Some("D:/w.py".to_string())
    );
}

#[test]
fn bundled_ffmpeg_detection_returns_a_real_file() {
    let bundled = "C:/app/resources/vendor/ffmpeg/bin/ffmpeg.exe";
    let is_file = |p: &str| p == bundled;
    let path = find_ffmpeg(TargetOs::Windows, None, &places(), &Vec::new(), &is_file)
        .expect("the Windows bundle should contain FFmpeg");
    assert!(is_file(&path));
    if let Some(path) = find_ffmpeg(TargetOs::Linux, None, &places(), &Vec::new(), &is_file) {
        assert!(is_file(&path));
    }
}

#[test]
fn bundled_qpdf_detection_returns_a_real_file() {
    let bundled = "C:/app/vendor/qpdf/bin/qpdf.exe";
    let is_file = |p: &str| p == bundled;
    let path = find_qpdf(TargetOs::Windows, None, &places(), &Vec::new(), &is_file)
        .expect("the Windows bundle should contain qpdf");
    assert!(is_file(&path));
}

#[test]
fn bundled_pdfium_detection_returns_a_real_file() {
    let bundled = "C:/src/just-convert/src-tauri/../vendor/pdfium/bin/pdfium.dll";
    let is_file = |p: &str| p == bundled;
    let path = find_pdfium(TargetOs::Windows, None, &places(), &Vec::new(), &is_file)
        .expect("the Windows bundle should contain PDFium");
    assert!(is_file(&path));
    assert_eq!(find_pdfium(TargetOs::Linux, None, &places(), &Vec::new(), &is_file), None);
}

#[test]
fn tools_fall_back_to_the_search_path() {
    let is_file = |p: &str| p == "/usr/bin/qpdf";
    assert_eq!(
        find_qpdf(TargetOs::Linux, None, &places(), &vec!["/usr/local/bin".to_string(), "/usr/bin".to_string()], &is_file),
        Some("/usr/bin/qpdf".to_string())
    );
    let names = vec!["a".to_string(), "b".to_string()];
    let dirs = vec!["/x".to_string(), "/y/".to_string()];
    assert_eq!(find_on_path(&dirs, &names, &|p: &str| p == "/y/a" || p == "/y/b"), Some("/y/a".to_string()));
}

#[test]
fn ffmpeg_names_follow_the_platform() {
    assert_eq!(bundled_ffmpeg_file("ffprobe", TargetOs::Windows), "ffprobe.exe");
    assert_eq!(bundled_ffmpeg_file("ffprobe", TargetOs::MacOs), "ffprobe");
    assert_eq!(ffmpeg_environment_key("ffprobe"), "LOCAL_FILE_CONVERTER_FFPROBE");
}

#[test]
fn the_docx_runtime_needs_both_parts_and_the_packages() {
    let python = Some("C:/py/python.exe".to_string());
    let worker = Some("C:/w/pdf_to_docx.py".to_string());
    let runtime = find_pdf_to_docx_runtime(python.clone(), worker.clone(), &|_: &str| true).unwrap();
    assert_eq!(runtime.python_path, "C:/py/python.exe");
    assert_eq!(runtime.worker_path, "C:/w/pdf_to_docx.py");
    assert!(find_pdf_to_docx_runtime(python.clone(), None, &|_: &str| true).is_none());
    assert!(find_pdf_to_docx_runtime(python, worker, &|_: &str| false).is_none());
}

#[test]
fn registry_install_paths_lead_to_the_program() {
    let files = ["C:\\Program Files\\LibreOffice/program/soffice.exe", "D:\\LO\\soffice.exe"];
    let is_file = |p: &str| files.contains(&p);
    assert_eq!(
        executable_from_install_path("\"C:\\Program Files\\LibreOffice\" ", "soffice.exe", &is_file),
        Some("C:\\Program Files\\LibreOffice/program/soffice.exe".to_string())
    );
    assert_eq!(
        executable_from_install_path("D:\\LO\\soffice.exe", "soffice.exe", &is_file),
        Some("D:\\LO\\soffice.exe".to_string())
    );
    assert_eq!(executable_from_install_path("C:\\Other", "soffice.exe", &is_file), None);
}
