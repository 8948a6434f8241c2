use std::cell::RefCell;

use just_convert::application::audio_converter::{self, AudioConversion};
use just_convert::application::image_converter;
use just_convert::application::office_converter;
use just_convert::application::engine_run::EngineExit;
use just_convert::application::pdf_converter::{self, OperationFacts};
use just_convert::application::pdf_docx_converter;
use just_convert::application::pdf_image_converter::{self, SniffedFormat};
use just_convert::domain::job::{AudioFormat, ExecutionOutcome, PdfImageFormat, PdfOperation};
use just_convert::paths::PathKind;

fn contains_pair(args: &[String], first: &str, second: &str) -> bool {
    args.windows(2).any(|pair| pair[0] == first && pair[1] == second)
}

#[test]
fn codec_arguments_are_owned_and_do_not_use_a_shell() {
    let rendered = audio_converter::build_arguments("C:/audio/input.wav", "C:/audio/output.mp3", AudioFormat::Mp3);
    assert!(contains_pair(&rendered, "-c:a", "libmp3lame"));
    assert_eq!(rendered.last().map(String::as_str), Some("C:/audio/output.mp3"));
}

#[test]
fn m4a_output_uses_the_aac_codec_and_m4a_container_extension() {
    let rendered = audio_converter::build_arguments("C:/audio/input.wav", "C:/audio/output.m4a", AudioFormat::M4a);
    assert!(contains_pair(&rendered, "-c:a", "aac"));
    assert_eq!(rendered.last().map(String::as_str), Some("C:/audio/output.m4a"));
}

#[test]
fn validation_rejects_existing_outputs() {
    let error = audio_converter::validate_request(
        "/tmp/job/input.wav",
        "/tmp/job/output.mp3",
        AudioFormat::Mp3,
        PathKind::File,
        PathKind::File,
        PathKind::Directory,
    )
    .unwrap_err();
    assert!(error.contains("already exists"));
}

#[test]
fn staging_keeps_the_real_output_extension() {
    assert_eq!(
        audio_converter::staged_output_path("C:/audio/output.ogg", "42").unwrap(),
        "C:/audio/.output.42.part.ogg"
    );
}

#[test]
fn audio_requests_are_checked_in_order() {
    let check = |input: &str, output: &str, input_kind: PathKind, output_kind: PathKind, parent_kind: PathKind| {
        audio_converter::validate_request(input, output, AudioFormat::Flac, input_kind, output_kind, parent_kind)
    };
    assert_eq!(
        check("input.wav", "/o/out.flac", PathKind::File, PathKind::Missing, PathKind::Directory).unwrap_err(),
        "Input and output paths must be absolute"
    );
    assert_eq!(
        check("/i/in.wav", "/o/out.flac", PathKind::Missing, PathKind::Missing, PathKind::Directory).unwrap_err(),
        "The selected input file does not exist"
    );
    assert_eq!(
        check("/i/in", "/o/out.flac", PathKind::File, PathKind::Missing, PathKind::Directory).unwrap_err(),
        "The input file has no extension"
    );
    assert_eq!(
        check("/i/in.TXT", "/o/out.flac", PathKind::File, PathKind::Missing, PathKind::Directory).unwrap_err(),
        "Unsupported audio input format: txt"
    );
    assert_eq!(
        check("/i/in.wav", "/o/out.mp3", PathKind::File, PathKind::Missing, PathKind::Directory).unwrap_err(),
        "The output file extension must be .flac"
    );
    assert_eq!(
        check("/i/in.wav", "/o/out.flac", PathKind::File, PathKind::Missing, PathKind::Missing).unwrap_err(),
        "The output directory does not exist"
    );
    assert_eq!(
        check("/i/in.flac", "/i/in.flac", PathKind::File, PathKind::Missing, PathKind::Directory).unwrap_err(),
        "Input and output paths must be different"
    );
    assert!(check("/i/in.WAV", "/o/out.FLAC", PathKind::File, PathKind::Missing, PathKind::Directory).is_ok());
}

#[test]
fn conversion_record_stages_beside_its_output() {
    let conversion = AudioConversion {
        ffmpeg_path: "C:/ffmpeg.exe".to_string(),
        ffprobe_path: None,
        input_path: "C:/a/in.wav".to_string(),
        output_path: "C:/a/song.flac".to_string(),
        format: AudioFormat::Flac,
        job_id: "7".to_string(),
    };
    assert_eq!(conversion.staged_path().unwrap(), "C:/a/.song.7.part.flac");
}

#[test]
fn ffmpeg_failures_prefer_its_diagnostics() {
    assert_eq!(audio_converter::failure_message("  broken stream \n", "exit status: 1"), "FFmpeg conversion failed: broken stream");
    assert_eq!(audio_converter::failure_message(" \n", "exit status: 1"), "FFmpeg exited with status exit status: 1");
}

#[test]
fn empty_image_list_is_rejected() {
    assert!(image_converter::validate_request(&Vec::new(), &Vec::new(), "C:/output.pdf", PathKind::Missing, PathKind::Directory)
        .unwrap_err()
        .contains("At least one"));
}

#[test]
fn existing_output_is_rejected() {
    let inputs = vec!["/tmp/job/image.png".to_string()];
    assert!(image_converter::validate_request(&inputs, &vec![PathKind::File], "/tmp/job/output.pdf", PathKind::File, PathKind::Directory)
        .unwrap_err()
        .contains("already exists"));
}

#[test]
fn image_inputs_must_exist_and_be_supported() {
    let inputs = vec!["/p/a.png".to_string(), "/p/b.gif".to_string()];
    assert_eq!(
        image_converter::validate_request(&inputs, &vec![PathKind::File, PathKind::File], "/p/out.pdf", PathKind::Missing, PathKind::Directory)
            .unwrap_err(),
        "Unsupported image format: /p/b.gif"
    );
    assert_eq!(
        image_converter::validate_request(&inputs, &vec![PathKind::File], "/p/out.pdf", PathKind::Missing, PathKind::Directory)
            .unwrap_err(),
        "Image input does not exist: /p/b.gif"
    );
}

#[test]
fn assembled_pdf_needs_one_page_per_image() {
    assert!(image_converter::check_generated_pages(Ok(2), 2).is_ok());
    assert_eq!(
        image_converter::check_generated_pages(Ok(1), 2).unwrap_err(),
        "Generated PDF contains an unexpected number of pages"
    );
    assert_eq!(
        image_converter::check_generated_pages(Err("damaged".to_string()), 2).unwrap_err(),
        "Generated PDF validation failed: damaged"
    );
    assert_eq!(image_converter::placement_progress(1, 2), 42);
    assert_eq!(image_converter::placement_progress(2, 2), 85);
}

#[test]
fn unsupported_office_formats_are_rejected() {
    assert!(office_converter::validate_request("/tmp/job/notes.txt", "/tmp/job/notes.pdf", PathKind::File, PathKind::Missing, PathKind::Directory)
        .unwrap_err()
        .contains("DOCX, XLSX, or PPTX"));
}

#[test]
fn generated_name_uses_the_source_stem() {
    assert_eq!(
        office_converter::generated_output_path("C:/files/report.docx", "C:/out").unwrap(),
        "C:/out/report.pdf"
    );
}

#[test]
fn office_results_are_judged_by_their_pages() {
    assert!(office_converter::check_generated_pages(Ok(3)).is_ok());
    assert_eq!(office_converter::check_generated_pages(Ok(0)).unwrap_err(), "LibreOffice produced a PDF with no pages");
    assert_eq!(
        office_converter::process_error("", "  profile locked \n"),
        "LibreOffice conversion failed: profile locked"
    );
    assert_eq!(
        office_converter::missing_pdf_error("", ""),
        "LibreOffice did not produce a PDF. LibreOffice conversion failed: No diagnostic output was provided"
    );
}

#[test]
fn merge_requires_two_inputs() {
    let operation = PdfOperation::Merge {
        input_paths: vec!["C:/one.pdf".to_string()],
        output_path: "C:/merged.pdf".to_string(),
    };
    let facts = OperationFacts { input_kinds: vec![PathKind::File], output_kind: PathKind::Missing, output_parent_kind: PathKind::Directory };
    assert!(pdf_converter::validate_request(&operation, &facts).unwrap_err().contains("at least two"));
}

#[test]
fn duplicate_reorder_pages_are_rejected() {
    assert!(pdf_converter::validate_page_list(&vec![1, 2, 2], false).unwrap_err().contains("repeated"));
}

#[test]
fn output_validation_refuses_overwrites() {
    assert!(pdf_converter::validate_output("/tmp/job/output.pdf", PathKind::File, PathKind::Directory)
        .unwrap_err()
        .contains("already exists"));
}

#[test]
fn page_lists_start_at_one_and_may_be_empty_only_for_rotation() {
    assert_eq!(pdf_converter::validate_page_list(&vec![0, 1], true).unwrap_err(), "Page numbers start at 1");
    assert_eq!(pdf_converter::validate_page_list(&Vec::new(), false).unwrap_err(), "A page order is required");
    assert!(pdf_converter::validate_page_list(&Vec::new(), true).is_ok());
}

#[test]
fn rotation_angle_must_be_a_right_angle() {
    let operation = PdfOperation::Rotate {
        input_path: "/d/in.pdf".to_string(),
        output_path: "/d/out.pdf".to_string(),
        angle: 45,
        pages: Vec::new(),
    };
    let facts = OperationFacts { input_kinds: vec![PathKind::File], output_kind: PathKind::Missing, output_parent_kind: PathKind::Directory };
    assert_eq!(pdf_converter::validate_request(&operation, &facts).unwrap_err(), "Rotation angle must be 90, 180, or 270 degrees");
}

#[test]
fn reorder_needs_every_page_exactly_once() {
    assert!(pdf_converter::is_complete_page_order(&vec![3, 1, 2], 3));
    assert!(!pdf_converter::is_complete_page_order(&vec![1, 2], 3));
    assert!(!pdf_converter::is_complete_page_order(&vec![1, 1, 2], 3));
}

#[test]
fn page_count_output_is_read_as_a_number() {
    assert_eq!(pdf_converter::parse_page_count(" 12\n"), Ok(12));
    assert_eq!(pdf_converter::parse_page_count("twelve").unwrap_err(), "qpdf returned an invalid page count");
}

#[test]
fn split_plans_every_page_range_and_refuses_existing_outputs() {
    let plan = pdf_converter::plan_split("/d/report.pdf", "/out", 5, 2, "9", &|_: &str| false).unwrap();
    let names: Vec<String> = plan.iter().map(|part| part.final_path.clone()).collect();
    assert_eq!(names, vec![
        "/out/report-pages-1-2.pdf".to_string(),
        "/out/report-pages-3-4.pdf".to_string(),
        "/out/report-page-5.pdf".to_string(),
    ]);
    assert_eq!(plan[2].page_spec, "5");
    assert_eq!(plan[0].staged_path, "/out/.report.9.part-1-2.pdf");
    let refused = pdf_converter::plan_split("/d/report.pdf", "/out", 5, 2, "9", &|p: &str| p == "/out/report-pages-3-4.pdf");
    assert_eq!(refused.unwrap_err(), "Split output already exists: /out/report-pages-3-4.pdf");
}

#[test]
fn validation_rejects_non_pdf_inputs_and_existing_outputs() {
    assert!(pdf_docx_converter::validate_request("/tmp/job/notes.txt", "/tmp/job/notes.docx", PathKind::File, PathKind::Missing, PathKind::Directory)
        .unwrap_err()
        .contains(".pdf"));
    assert!(pdf_docx_converter::validate_request("/tmp/job/notes.pdf", "/tmp/job/notes.docx", PathKind::File, PathKind::File, PathKind::Directory)
        .unwrap_err()
        .contains("already exists"));
}

#[test]
fn staging_path_keeps_a_docx_extension() {
    assert_eq!(
        pdf_docx_converter::staged_output_path("C:/files/report.docx", "42").unwrap(),
        "C:/files/.report.42.part.docx"
    );
}

#[test]
fn worker_progress_lines_are_read_and_capped() {
    assert_eq!(pdf_docx_converter::progress_from_line("FILE_CONVERTER_PROGRESS:50"), Some(50));
    assert_eq!(pdf_docx_converter::progress_from_line("FILE_CONVERTER_PROGRESS:250"), Some(100));
    assert_eq!(pdf_docx_converter::progress_from_line("FILE_CONVERTER_PROGRESS:300"), None);
    assert_eq!(pdf_docx_converter::progress_from_line("progress 50"), None);
    assert_eq!(pdf_docx_converter::failure_message("Traceback: boom\n", "exit status: 1"), "Traceback: boom");
}

#[test]
fn generated_docx_must_be_a_zip_archive() {
    assert!(pdf_docx_converter::validate_generated_docx(&[0x50, 0x4b, 0x03, 0x04, 0]).is_ok());
    assert_eq!(
        pdf_docx_converter::validate_generated_docx(&[0x50, 0x4b]).unwrap_err(),
        "The Python worker did not produce a valid DOCX file"
    );
    assert_eq!(
        pdf_docx_converter::validate_generated_docx(&[1, 2, 3, 4]).unwrap_err(),
        "The Python worker produced an invalid DOCX archive"
    );
}

#[test]
fn unsupported_dpi_is_rejected() {
    assert!(pdf_image_converter::validate_request("/tmp/job/input.pdf", "/tmp/job", PdfImageFormat::Png, 72, PathKind::File, PathKind::Directory)
        .unwrap_err()
        .contains("150 or 300"));
}

#[test]
fn output_names_include_format_and_quality() {
    let nothing_exists = |_: &str| false;
    let png = pdf_image_converter::output_paths("/tmp/job/input.pdf", "/tmp/job", 1, PdfImageFormat::Png, 150, "test", &nothing_exists).unwrap();
    let jpeg = pdf_image_converter::output_paths("/tmp/job/input.pdf", "/tmp/job", 1, PdfImageFormat::Jpeg, 300, "test", &nothing_exists).unwrap();
    assert_eq!(png[0].1, "/tmp/job/input-page-01-png-normal.png");
    assert_eq!(jpeg[0].1, "/tmp/job/input-page-01-jpeg-high.jpg");
}

#[test]
fn output_collisions_receive_incrementing_suffixes() {
    let existing = |p: &str| p == "/tmp/job/input-page-01-png-normal.png" || p == "/tmp/job/input-page-01-png-normal-2.png";
    let outputs = pdf_image_converter::output_paths("/tmp/job/input.pdf", "/tmp/job", 1, PdfImageFormat::Png, 150, "test", &existing).unwrap();
    assert_eq!(outputs[0].1, "/tmp/job/input-page-01-png-normal-3.png");
    assert_eq!(outputs[0].0, "/tmp/job/.input.test.page-1.part.png");
}

#[test]
fn page_numbers_are_padded_to_the_page_count() {
    let outputs = pdf_image_converter::output_paths("/d/big.pdf", "/o", 120, PdfImageFormat::Jpeg, 150, "j", &|_: &str| false).unwrap();
    assert_eq!(outputs.len(), 120);
    assert_eq!(outputs[0].1, "/o/big-page-001-jpeg-normal.jpg");
    assert_eq!(outputs[119].1, "/o/big-page-120-jpeg-normal.jpg");
    assert_eq!(pdf_image_converter::render_progress(60, 120), 47);
}

#[test]
fn rendered_images_are_checked_by_signature_and_decoding() {
    let png_header: Vec<u8> = vec![0x89, 0x50, 0x4e, 0x47, 0x0d, 0x0a, 0x1a, 0x0a, 0, 0, 0, 0];
    let error = pdf_image_converter::validate_image("/o/.page.part.jpg", &png_header, PdfImageFormat::Jpeg).unwrap_err();
    assert_eq!(error, "Rendered image has an unexpected format");
    let error = pdf_image_converter::validate_image("/o/.page.part.png", &png_header, PdfImageFormat::Png).unwrap_err();
    assert!(error.starts_with("Rendered image validation failed: "));
    let unknown: Vec<u8> = vec![1, 2, 3, 4];
    let error = pdf_image_converter::validate_image("/o/.page.part.png", &unknown, PdfImageFormat::Png).unwrap_err();
    assert!(error.starts_with("Rendered image validation failed: "));
    assert_eq!(
        pdf_image_converter::judge_rendered_image(Some(SniffedFormat::Png), PdfImageFormat::Png, Ok((0, 10))).unwrap_err(),
        "Rendered image has invalid dimensions"
    );
    assert!(pdf_image_converter::judge_rendered_image(Some(SniffedFormat::Png), PdfImageFormat::Png, Ok((4, 4))).is_ok());
    assert_eq!(
        pdf_image_converter::judge_rendered_image(None, PdfImageFormat::Png, Ok((4, 4))).unwrap_err(),
        "Rendered image has an unexpected format"
    );
}

#[test]
fn split_progress_counts_written_files() {
    assert_eq!(pdf_converter::split_progress(1, 3), 33);
    assert_eq!(pdf_converter::split_progress(2, 3), 66);
    assert_eq!(pdf_converter::split_progress(3, 3), 100);
    assert_eq!(pdf_converter::split_progress(0, 7), 0);
}

#[test]
fn libreoffice_runs_headless_with_its_own_profile() {
    let args = office_converter::libreoffice_arguments("/tmp/.just-convert-office-7/profile", "/tmp/.just-convert-office-7/output", "/tmp/report.docx").unwrap();
    assert_eq!(args.len(), 11);
    assert_eq!(&args[..5], &["--headless", "--nologo", "--nodefault", "--nolockcheck", "--nofirststartwizard"]);
    assert!(args[5].starts_with("-env:UserInstallation=file://"));
    assert!(args[5].ends_with("/profile/"));
    assert_eq!(&args[6..], &["--convert-to", "pdf", "--outdir", "/tmp/.just-convert-office-7/output", "/tmp/report.docx"]);
    assert_eq!(
        office_converter::libreoffice_arguments("relative/profile", "/tmp/out", "/tmp/report.docx"),
        Err("LibreOffice profile path could not be encoded".to_string())
    );
}

fn file_facts() -> OperationFacts {
    OperationFacts { input_kinds: vec![PathKind::File, PathKind::File], output_kind: PathKind::Missing, output_parent_kind: PathKind::Directory }
}

fn qpdf_exit(success: bool, code: i32, stdout: &str, stderr: &str) -> EngineExit {
    EngineExit {
        success,
        code: Some(code),
        status: format!("exit status: {code}"),
        stdout: stdout.to_string(),
        stderr: stderr.to_string(),
    }
}

/// A stand-in for qpdf: answers page counts with `pages`, passes checks, and
/// records every other command line it is given.
struct FakeQpdf {
    pages: Option<u32>,
    write_code: i32,
    check_code: i32,
    written: RefCell<Vec<Vec<String>>>,
    moved: RefCell<Vec<(String, String)>>,
    discarded: RefCell<Vec<String>>,
    reported: RefCell<Vec<u8>>,
}

impl FakeQpdf {
    fn new(pages: Option<u32>) -> FakeQpdf {
        FakeQpdf {
            pages,
            write_code: 0,
            check_code: 0,
            written: RefCell::new(Vec::new()),
            moved: RefCell::new(Vec::new()),
            discarded: RefCell::new(Vec::new()),
            reported: RefCell::new(Vec::new()),
        }
    }

    fn run(&self, program: &str, args: &Vec<String>) -> Result<Option<EngineExit>, String> {
        assert_eq!(program, "/q/qpdf");
        match args[0].as_str() {
            "--show-npages" => Ok(self.pages.map(|n| qpdf_exit(true, 0, &format!("{n}\n"), ""))),
            "--check" => Ok(Some(qpdf_exit(self.check_code == 0, self.check_code, "", "damaged file"))),
            _ => {
                self.written.borrow_mut().push(args.clone());
                Ok(Some(qpdf_exit(self.write_code == 0, self.write_code, "", "")))
            }
        }
    }

    fn execute(&self, operation: &PdfOperation, facts: &OperationFacts, qpdf_is_file: bool) -> Result<ExecutionOutcome, String> {
        let run = |program: &str, args: &Vec<String>| self.run(program, args);
        let size = |_: &str| Some(100u64);
        let publish = |from: &str, to: &str| {
            self.moved.borrow_mut().push((from.to_string(), to.to_string()));
            Ok(())
        };
        let discard = |path: &str| self.discarded.borrow_mut().push(path.to_string());
        let report = |value: u8| self.reported.borrow_mut().push(value);
        pdf_converter::execute("/q/qpdf", qpdf_is_file, operation, facts, "7", &|_: &str| false, &run, &size, &publish,
            &discard, &report)
    }
}

#[test]
fn page_count_inspection_checks_its_input_and_engine() {
    let qpdf = FakeQpdf::new(Some(3));
    let run = |program: &str, args: &Vec<String>| qpdf.run(program, args);
    assert_eq!(pdf_converter::inspect_page_count("/q/qpdf", "/d/a.pdf", PathKind::File, true, &run), Ok(3));
    assert_eq!(
        pdf_converter::inspect_page_count("/q/qpdf", "/d/a.txt", PathKind::File, true, &run),
        Err("Input must be a PDF file: /d/a.txt".to_string())
    );
    assert_eq!(
        pdf_converter::inspect_page_count("/q/qpdf", "/d/a.pdf", PathKind::Missing, true, &run),
        Err("PDF input does not exist: /d/a.pdf".to_string())
    );
    assert_eq!(
        pdf_converter::inspect_page_count("/q/qpdf", "/d/a.pdf", PathKind::File, false, &run),
        Err("The bundled qpdf executable could not be found".to_string())
    );
    let cancelled = FakeQpdf::new(None);
    let run = |program: &str, args: &Vec<String>| cancelled.run(program, args);
    assert_eq!(
        pdf_converter::inspect_page_count("/q/qpdf", "/d/a.pdf", PathKind::File, true, &run),
        Err("PDF inspection was cancelled".to_string())
    );
    let garbled = |_: &str, _: &Vec<String>| Ok(Some(qpdf_exit(true, 0, "many", "")));
    assert_eq!(
        pdf_converter::inspect_page_count("/q/qpdf", "/d/a.pdf", PathKind::File, true, &garbled),
        Err("qpdf returned an invalid page count".to_string())
    );
}

#[test]
fn execution_runs_the_planned_merge() {
    let operation = PdfOperation::Merge {
        input_paths: vec!["/d/a.pdf".to_string(), "/d/b.pdf".to_string()],
        output_path: "/d/out.pdf".to_string(),
    };
    let qpdf = FakeQpdf::new(None);
    let result = qpdf.execute(&operation, &file_facts(), true);
    assert_eq!(result, Ok(ExecutionOutcome::Completed));
    let written = qpdf.written.into_inner();
    assert_eq!(written.len(), 1);
    assert_eq!(written[0], vec!["--empty", "--pages", "/d/a.pdf", "1-z", "/d/b.pdf", "1-z", "--", "/d/.out.7.part.pdf"]);
    assert_eq!(qpdf.moved.into_inner(), vec![("/d/.out.7.part.pdf".to_string(), "/d/out.pdf".to_string())]);
    assert_eq!(qpdf.reported.into_inner(), vec![100]);
}

#[test]
fn execution_accepts_warnings_and_refuses_failed_checks() {
    let operation = PdfOperation::Merge {
        input_paths: vec!["/d/a.pdf".to_string(), "/d/b.pdf".to_string()],
        output_path: "/d/out.pdf".to_string(),
    };
    let mut warned = FakeQpdf::new(None);
    warned.write_code = 3;
    assert_eq!(warned.execute(&operation, &file_facts(), true), Ok(ExecutionOutcome::Completed));
    let mut damaged = FakeQpdf::new(None);
    damaged.check_code = 2;
    assert_eq!(damaged.execute(&operation, &file_facts(), true), Err("qpdf operation failed: damaged file".to_string()));
    assert!(damaged.moved.into_inner().is_empty());
    assert_eq!(damaged.discarded.into_inner(), vec!["/d/.out.7.part.pdf".to_string(), "/d/.out.7.part.pdf".to_string()]);
    let mut failed = FakeQpdf::new(None);
    failed.write_code = 2;
    assert_eq!(failed.execute(&operation, &file_facts(), true), Err("qpdf exited with status exit status: 2".to_string()));
}

#[test]
fn execution_stops_when_the_page_count_is_cancelled_or_wrong() {
    let operation = PdfOperation::Reorder {
        input_path: "/d/in.pdf".to_string(),
        output_path: "/d/out.pdf".to_string(),
        page_order: vec![2, 1],
    };
    let cancelled = FakeQpdf::new(None);
    assert_eq!(cancelled.execute(&operation, &file_facts(), true), Ok(ExecutionOutcome::Cancelled));
    assert!(cancelled.written.into_inner().is_empty());
    let three = FakeQpdf::new(Some(3));
    assert_eq!(
        three.execute(&operation, &file_facts(), true),
        Err("Page order must contain every page from 1 through 3 exactly once".to_string())
    );
    assert!(three.written.into_inner().is_empty());
    assert_eq!(
        FakeQpdf::new(Some(3)).execute(&operation, &file_facts(), false),
        Err("The bundled qpdf executable could not be found".to_string())
    );
}

#[test]
fn execution_splits_into_the_planned_parts() {
    let operation = PdfOperation::Split {
        input_path: "/d/report.pdf".to_string(),
        output_directory: "/out".to_string(),
        pages_per_file: 2,
    };
    let facts = OperationFacts { input_kinds: vec![PathKind::File], output_kind: PathKind::Directory, output_parent_kind: PathKind::Directory };
    let qpdf = FakeQpdf::new(Some(5));
    assert_eq!(qpdf.execute(&operation, &facts, true), Ok(ExecutionOutcome::Completed));
    let specs: Vec<String> = qpdf.written.into_inner().iter().map(|args| args[3].clone()).collect();
    assert_eq!(specs, vec!["1-2", "3-4", "5"]);
    let moved = qpdf.moved.into_inner();
    assert_eq!(moved.len(), 3);
    assert_eq!(moved[2].1, "/out/report-page-5.pdf");
    assert_eq!(qpdf.reported.into_inner(), vec![33, 66, 100, 100]);
}
