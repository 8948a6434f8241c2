use just_convert::application::folder_batch::{
    FileFilter, FolderTarget, collect_folder_files, plan_audio_folder_conversion, plan_file_outputs,
    plan_image_folder_to_pdf, plan_pdf_folder_to_images, validate_folder_pair,
};
use just_convert::application::job_service::{EnginePaths, JobService, next_available_directory, next_available_output};
use just_convert::domain::job::{AudioFormat, ImageFolderMode, JobKind, PdfImageFormat};
use just_convert::paths::{PathKind, file_name};

fn entry(path: &str, kind: PathKind) -> (String, PathKind) {
    (path.to_string(), kind)
}

#[test]
fn folder_audio_plan_skips_unsupported_files_and_avoids_name_collisions() {
    let listing = vec![
        entry("/tmp/t/input/song.m4a", PathKind::File),
        entry("/tmp/t/input/song.wav", PathKind::File),
        entry("/tmp/t/input/notes.txt", PathKind::File),
        entry("/tmp/t/input/nested", PathKind::Directory),
    ];
    let existing = |p: &str| p == "/tmp/t/output/song.mp3";
    let conversions = plan_audio_folder_conversion(
        "/tmp/t/input",
        "/tmp/t/output",
        AudioFormat::Mp3,
        PathKind::Directory,
        PathKind::Directory,
        Ok(listing),
        &existing,
    )
    .unwrap();
    let outputs = conversions.iter().map(|(_, output)| file_name(output).unwrap()).collect::<Vec<_>>();

    assert_eq!(conversions.len(), 2);
    assert_eq!(outputs, ["song-2.mp3", "song-3.mp3"]);
}

#[test]
fn folder_audio_plan_reports_when_no_supported_files_exist() {
    let listing = vec![entry("/tmp/t/input/notes.txt", PathKind::File)];
    let error = plan_audio_folder_conversion(
        "/tmp/t/input",
        "/tmp/t/output",
        AudioFormat::Ogg,
        PathKind::Directory,
        PathKind::Directory,
        Ok(listing),
        &|_: &str| false,
    )
    .unwrap_err();
    assert!(error.contains("No supported audio files"));
}

#[test]
fn folder_batch_helpers_skip_subfolders_and_allocate_safe_names() {
    let listing = vec![
        entry("/tmp/t/input/photo.png", PathKind::File),
        entry("/tmp/t/input/report.docx", PathKind::File),
        entry("/tmp/t/input/document.pdf", PathKind::File),
        entry("/tmp/t/input/notes.txt", PathKind::File),
        entry("/tmp/t/input/nested", PathKind::Directory),
    ];
    let images = collect_folder_files(&Ok(listing.clone()), FileFilter::Image).unwrap();
    let office = collect_folder_files(&Ok(listing.clone()), FileFilter::Office).unwrap();
    let pdfs = collect_folder_files(&Ok(listing), FileFilter::Pdf).unwrap();
    assert_eq!(images.len(), 1);
    assert_eq!(office.len(), 1);
    assert_eq!(pdfs.len(), 1);

    let existing = |p: &str| p == "/tmp/t/output/document.docx" || p == "/tmp/t/output/document";
    let mut reserved = Vec::new();
    assert_eq!(
        next_available_output("/tmp/t/output", "document", "docx", &mut reserved, &existing),
        Some("/tmp/t/output/document-2.docx".to_string())
    );
    assert_eq!(
        next_available_directory("/tmp/t/output", "document", &mut reserved, &existing),
        Some("/tmp/t/output/document-2".to_string())
    );
}

#[test]
fn image_folder_plan_supports_combined_and_separate_outputs() {
    let listing = vec![entry("/tmp/t/album/cover.jpg", PathKind::File), entry("/tmp/t/album/cover.png", PathKind::File)];
    let existing = |p: &str| p == "/tmp/t/output/cover.pdf";
    let mut counter: u64 = 1;

    let combined = plan_image_folder_to_pdf(
        "/tmp/t/album", "/tmp/t/output", ImageFolderMode::Combine, 1, PathKind::Directory, PathKind::Directory,
        Ok(listing.clone()), &existing, &mut counter,
    )
    .unwrap();
    assert_eq!(combined.len(), 1);
    let JobKind::ImagesToPdf { input_paths, output_path } = &combined[0].kind else {
        panic!("expected an images-to-PDF job");
    };
    assert_eq!(input_paths.len(), 2);
    assert!(output_path.ends_with("album-images.pdf"));

    let separate = plan_image_folder_to_pdf(
        "/tmp/t/album", "/tmp/t/output", ImageFolderMode::Separate, 1, PathKind::Directory, PathKind::Directory,
        Ok(listing), &existing, &mut counter,
    )
    .unwrap();
    let output_names = separate
        .iter()
        .map(|job| {
            let JobKind::ImagesToPdf { input_paths, output_path } = &job.kind else {
                panic!("expected an images-to-PDF job");
            };
            assert_eq!(input_paths.len(), 1);
            file_name(output_path).unwrap()
        })
        .collect::<Vec<_>>();
    assert_eq!(output_names, ["cover-2.pdf", "cover-3.pdf"]);
    assert_eq!(counter, 4);
}

#[test]
fn folder_listing_is_sorted_by_lower_case_path() {
    let listing = vec![
        entry("/in/b.MP3", PathKind::File),
        entry("/in/A.wav", PathKind::File),
        entry("/in/c.flac", PathKind::Other),
        entry("/in/a.ogg", PathKind::File),
    ];
    let files = collect_folder_files(&Ok(listing), FileFilter::Audio).unwrap();
    assert_eq!(files, ["/in/a.ogg", "/in/A.wav", "/in/b.MP3"]);
    let unread = collect_folder_files(&Err("access denied".to_string()), FileFilter::Audio).unwrap_err();
    assert_eq!(unread, "The selected input folder could not be read: access denied");
}

#[test]
fn folders_must_be_absolute_existing_directories() {
    assert_eq!(
        validate_folder_pair("in", "/out", PathKind::Directory, PathKind::Directory).unwrap_err(),
        "Input and output folders must use absolute paths"
    );
    assert_eq!(
        validate_folder_pair("/in", "/out", PathKind::File, PathKind::Directory).unwrap_err(),
        "The selected input folder does not exist"
    );
    assert_eq!(
        validate_folder_pair("/in", "/out", PathKind::Directory, PathKind::Missing).unwrap_err(),
        "The selected output folder does not exist"
    );
}

#[test]
fn batch_names_differ_ignoring_case() {
    let inputs = vec!["/in/Report.docx".to_string(), "/in/report.DOCX".to_string()];
    let outputs = plan_file_outputs(FolderTarget::Office, &inputs, "/out", PathKind::Directory, &|_: &str| false).unwrap();
    assert_eq!(outputs, ["/out/Report.pdf", "/out/report-2.pdf"]);
}

#[test]
fn pdf_folder_gets_one_created_directory_per_document() {
    let listing = vec![entry("/in/a.pdf", PathKind::File), entry("/in/b.PDF", PathKind::File)];
    let existing = |p: &str| p == "/out/a";
    let created = std::cell::RefCell::new(Vec::new());
    let create = |p: &str| -> Result<(), String> {
        created.borrow_mut().push(p.to_string());
        Ok(())
    };
    let mut counter: u64 = 10;
    let jobs = plan_pdf_folder_to_images(
        "/in", "/out", PdfImageFormat::Png, 150, 99, PathKind::Directory, PathKind::Directory, Ok(listing),
        &existing, &create, &mut counter,
    )
    .unwrap();
    assert_eq!(created.into_inner(), ["/out/a-2", "/out/b"]);
    assert_eq!(jobs[0].id, "99-10");
    assert_eq!(jobs[1].id, "99-11");
    assert_eq!(counter, 12);
    let failing = |_: &str| -> Result<(), String> { Err("read-only".to_string()) };
    let mut counter: u64 = 10;
    let error = plan_pdf_folder_to_images(
        "/in", "/out", PdfImageFormat::Png, 150, 99, PathKind::Directory, PathKind::Directory,
        Ok(vec![entry("/in/a.pdf", PathKind::File)]), &|_: &str| false, &failing, &mut counter,
    )
    .unwrap_err();
    assert_eq!(error, "PDF image output folder could not be created (/out/a): read-only");
}

#[test]
fn office_folder_batch_is_accepted_as_a_whole() {
    let engines = EnginePaths {
        ffmpeg_path: None,
        ffprobe_path: None,
        qpdf_path: Some("C:/q/qpdf.exe".to_string()),
        pdfium_path: None,
        libreoffice_path: None,
        python_path: None,
        pdf_to_docx_worker_path: None,
    };
    let mut service = JobService::new(Vec::new(), engines, 1);
    let listing = vec![entry("/in/a.docx", PathKind::File), entry("/in/b.xlsx", PathKind::File), entry("/in/c.txt", PathKind::File)];
    let jobs = service
        .enqueue_office_folder_to_pdf("/in", "/out", PathKind::Directory, PathKind::Directory, Ok(listing), &|_: &str| false,
            Some("C:/lo/soffice.exe".to_string()), true, 5)
        .unwrap();
    assert_eq!(jobs.len(), 2);
    assert_eq!(service.list_jobs().len(), 2);
    let missing = service
        .enqueue_office_folder_to_pdf("/in", "/out", PathKind::Directory, PathKind::Directory, Ok(Vec::new()), &|_: &str| false,
            None, true, 5)
        .unwrap_err();
    assert_eq!(missing, "LibreOffice is not installed");
    let empty = service
        .enqueue_office_folder_to_pdf("/in", "/out", PathKind::Directory, PathKind::Directory, Ok(Vec::new()), &|_: &str| false,
            Some("C:/lo/soffice.exe".to_string()), true, 5)
        .unwrap_err();
    assert_eq!(empty, "No supported Office files were found in the selected folder (DOCX, XLSX, or PPTX)");
    assert_eq!(service.list_jobs().len(), 2);
}
