use std::cell::RefCell;

use just_convert::application::audio_converter::{self, AudioConversion};
use just_convert::application::engine_run::EngineExit;
use just_convert::application::image_converter;
use just_convert::application::office_converter;
use just_convert::application::pdf_image_converter::{self, RenderFailure};
use just_convert::application::pdf_docx_converter;
use just_convert::domain::job::{AudioFormat, ExecutionOutcome, PdfImageFormat};
use just_convert::paths::{join, PathKind};

fn exit(success: bool, stdout: &str, stderr: &str) -> EngineExit {
    EngineExit {
        success,
        code: Some(if success { 0 } else { 1 }),
        status: "exit status: 1".to_string(),
        stdout: stdout.to_string(),
        stderr: stderr.to_string(),
    }
}

fn audio_request() -> AudioConversion {
    AudioConversion {
        ffmpeg_path: "/opt/ffmpeg".to_string(),
        ffprobe_path: None,
        input_path: "/music/song.wav".to_string(),
        output_path: "/music/song.mp3".to_string(),
        format: AudioFormat::Mp3,
        job_id: "job-7".to_string(),
    }
}

fn run_audio(
    outcome: Result<Option<EngineExit>, String>,
    size: Option<u64>,
    publish: Result<(), String>,
) -> (Result<ExecutionOutcome, String>, Vec<String>, Vec<(String, String)>) {
    let request = audio_request();
    let outcome = RefCell::new(Some(outcome));
    let programs = RefCell::new(Vec::new());
    let moves = RefCell::new(Vec::new());
    let discarded = RefCell::new(Vec::new());
    let run = |program: &str, args: &Vec<String>| {
        programs.borrow_mut().push(program.to_string());
        assert_eq!(args.last().map(String::as_str), Some(request.staged_path().unwrap().as_str()));
        outcome.borrow_mut().take().unwrap()
    };
    let size_of = |_: &str| size;
    let publish_to = |from: &str, to: &str| {
        moves.borrow_mut().push((from.to_string(), to.to_string()));
        publish.clone()
    };
    let discard = |path: &str| discarded.borrow_mut().push(path.to_string());
    let result = audio_converter::convert(
        &request,
        PathKind::File,
        PathKind::Missing,
        PathKind::Directory,
        true,
        &run,
        &size_of,
        &publish_to,
        &discard,
        &|_: u8| {},
    );
    let moves = moves.into_inner();
    (result, programs.into_inner(), moves)
}

#[test]
fn audio_conversion_publishes_the_staged_output() {
    let (result, programs, moves) = run_audio(Ok(Some(exit(true, "", ""))), Some(10), Ok(()));
    assert_eq!(result, Ok(ExecutionOutcome::Completed));
    assert_eq!(programs, vec!["/opt/ffmpeg".to_string()]);
    let staged = audio_request().staged_path().unwrap();
    assert_eq!(moves, vec![(staged, "/music/song.mp3".to_string())]);
}

#[test]
fn audio_conversion_reports_each_failure() {
    let (result, _, moves) = run_audio(Ok(Some(exit(true, "", ""))), Some(0), Ok(()));
    assert_eq!(result, Err("FFmpeg did not produce a valid output file".to_string()));
    assert!(moves.is_empty());
    let (result, _, _) = run_audio(Ok(Some(exit(true, "", ""))), None, Ok(()));
    assert_eq!(result, Err("FFmpeg did not produce a valid output file".to_string()));
    let (result, _, _) = run_audio(Ok(Some(exit(false, "", "  bad codec \n"))), Some(10), Ok(()));
    assert_eq!(result, Err("FFmpeg conversion failed: bad codec".to_string()));
    let (result, _, _) = run_audio(Ok(None), Some(10), Ok(()));
    assert_eq!(result, Ok(ExecutionOutcome::Cancelled));
    let (result, _, _) = run_audio(Err("spawn failed".to_string()), Some(10), Ok(()));
    assert_eq!(result, Err("spawn failed".to_string()));
    let (result, _, _) = run_audio(Ok(Some(exit(true, "", ""))), Some(10), Err("denied".to_string()));
    assert_eq!(result, Err("Converted output could not be finalized: denied".to_string()));
}

#[test]
fn audio_conversion_needs_ffmpeg_and_a_valid_request() {
    let never_run = |_: &str, _: &Vec<String>| -> Result<Option<EngineExit>, String> { panic!("must not run") };
    let size = |_: &str| Some(1u64);
    let publish = |_: &str, _: &str| Ok(());
    let discard = |_: &str| {};
    let request = audio_request();
    let missing = audio_converter::convert(
        &request,
        PathKind::File,
        PathKind::Missing,
        PathKind::Directory,
        false,
        &never_run,
        &size,
        &publish,
        &discard,
        &|_: u8| {},
    );
    assert_eq!(missing, Err("The bundled FFmpeg executable could not be found".to_string()));
    let taken = audio_converter::convert(
        &request,
        PathKind::File,
        PathKind::File,
        PathKind::Directory,
        true,
        &never_run,
        &size,
        &publish,
        &discard,
        &|_: u8| {},
    );
    assert_eq!(taken, Err("The output file already exists".to_string()));
}

fn run_docx(
    outcome: Result<Option<EngineExit>, String>,
    head: Result<Vec<u8>, String>,
    cancelled: bool,
) -> (Result<ExecutionOutcome, String>, Vec<(String, String)>) {
    let outcome = RefCell::new(Some(outcome));
    let moves = RefCell::new(Vec::new());
    let run = |program: &str, args: &Vec<String>| {
        assert_eq!(program, "/usr/bin/python3");
        assert_eq!(args[0], "-B");
        assert_eq!(args[1], "/opt/worker.py");
        outcome.borrow_mut().take().unwrap()
    };
    let first = |_: &str| head.clone();
    let was_cancelled = || cancelled;
    let publish = |from: &str, to: &str| {
        moves.borrow_mut().push((from.to_string(), to.to_string()));
        Ok(())
    };
    let discard = |_: &str| {};
    let result = pdf_docx_converter::convert(
        "/usr/bin/python3",
        "/opt/worker.py",
        "/docs/report.pdf",
        "/docs/report.docx",
        "job-3",
        PathKind::File,
        PathKind::Missing,
        PathKind::Directory,
        true,
        true,
        &run,
        &first,
        &was_cancelled,
        &publish,
        &discard,
        &|_: u8| {},
    );
    (result, moves.into_inner())
}

#[test]
fn word_conversion_publishes_a_zip_archive() {
    let (result, moves) = run_docx(Ok(Some(exit(true, "", ""))), Ok(vec![0x50, 0x4b, 0x03, 0x04]), false);
    assert_eq!(result, Ok(ExecutionOutcome::Completed));
    let staged = pdf_docx_converter::staged_output_path("/docs/report.docx", "job-3").unwrap();
    assert_eq!(moves, vec![(staged, "/docs/report.docx".to_string())]);
}

#[test]
fn word_conversion_rejects_what_is_not_a_docx() {
    let (result, moves) = run_docx(Ok(Some(exit(true, "", ""))), Ok(vec![0x50, 0x4b]), false);
    assert_eq!(result, Err("The Python worker did not produce a valid DOCX file".to_string()));
    assert!(moves.is_empty());
    let (result, _) = run_docx(Ok(Some(exit(true, "", ""))), Ok(vec![1, 2, 3, 4]), false);
    assert_eq!(result, Err("The Python worker produced an invalid DOCX archive".to_string()));
    let (result, _) = run_docx(Ok(Some(exit(true, "", ""))), Err("unreadable".to_string()), false);
    assert_eq!(result, Err("Generated DOCX could not be validated: unreadable".to_string()));
    let (result, _) = run_docx(Ok(Some(exit(false, "", ""))), Ok(vec![]), false);
    assert_eq!(result, Err("Python PDF-to-Word worker exited with status exit status: 1".to_string()));
    let (result, moves) = run_docx(Ok(Some(exit(true, "", ""))), Ok(vec![0x50, 0x4b, 0x03, 0x04]), true);
    assert_eq!(result, Ok(ExecutionOutcome::Cancelled));
    assert!(moves.is_empty());
}

struct OfficeScript {
    taken: bool,
    outcome: Result<Option<EngineExit>, String>,
    generated: bool,
    pages: Result<u32, String>,
    cancelled: bool,
}

fn run_office(script: OfficeScript) -> (Result<ExecutionOutcome, String>, Vec<(String, String)>, Vec<String>, Vec<u8>) {
    let outcome = RefCell::new(Some(script.outcome));
    let moves = RefCell::new(Vec::new());
    let cleared = RefCell::new(Vec::new());
    let reported = RefCell::new(Vec::new());
    let taken = |_: &str| script.taken;
    let prepare = |_: &str, _: &str| Ok(());
    let run = |program: &str, args: &Vec<String>| {
        assert_eq!(program, "/opt/soffice");
        assert!(args.contains(&"--headless".to_string()));
        outcome.borrow_mut().take().unwrap()
    };
    let is_file = |_: &str| script.generated;
    let count = |qpdf: &str, _: &str| {
        assert_eq!(qpdf, "/opt/qpdf");
        script.pages.clone()
    };
    let cancelled = || script.cancelled;
    let publish = |from: &str, to: &str| {
        moves.borrow_mut().push((from.to_string(), to.to_string()));
        Ok(())
    };
    let clear = |path: &str| cleared.borrow_mut().push(path.to_string());
    let report = |value: u8| reported.borrow_mut().push(value);
    let result = office_converter::convert(
        "/opt/soffice",
        "/opt/qpdf",
        "/docs/slides.pptx",
        "/docs/slides.pdf",
        "job-9",
        PathKind::File,
        PathKind::Missing,
        PathKind::Directory,
        true,
        &taken,
        &prepare,
        &run,
        &is_file,
        &count,
        &cancelled,
        &publish,
        &clear,
        &report,
    );
    (result, moves.into_inner(), cleared.into_inner(), reported.into_inner())
}

fn good_office_run() -> OfficeScript {
    OfficeScript { taken: false, outcome: Ok(Some(exit(true, "", ""))), generated: true, pages: Ok(3), cancelled: false }
}

#[test]
fn office_conversion_publishes_the_checked_pdf() {
    let (result, moves, cleared, reported) = run_office(good_office_run());
    assert_eq!(result, Ok(ExecutionOutcome::Completed));
    let staging = office_converter::staging_directory("/docs/slides.pdf", "job-9").unwrap();
    let generated = office_converter::generated_output_path("/docs/slides.pptx", &join(&staging, "output")).unwrap();
    assert_eq!(moves, vec![(generated, "/docs/slides.pdf".to_string())]);
    assert_eq!(cleared, vec![staging]);
    assert_eq!(reported, vec![5, 75, 90, 100]);
}

#[test]
fn office_conversion_reports_each_failure() {
    let (result, _, _, _) = run_office(OfficeScript { taken: true, ..good_office_run() });
    assert_eq!(result, Err("Office conversion staging directory already exists".to_string()));
    let (result, moves, cleared, _) = run_office(OfficeScript { generated: false, ..good_office_run() });
    assert_eq!(result, Err("LibreOffice did not produce a PDF. LibreOffice conversion failed: No diagnostic output was provided".to_string()));
    assert!(moves.is_empty());
    assert_eq!(cleared.len(), 1);
    let (result, _, _, _) = run_office(OfficeScript { pages: Ok(0), ..good_office_run() });
    assert_eq!(result, Err("LibreOffice produced a PDF with no pages".to_string()));
    let (result, _, _, _) = run_office(OfficeScript { pages: Err("damaged".to_string()), ..good_office_run() });
    assert_eq!(result, Err("LibreOffice PDF validation failed: damaged".to_string()));
    let (result, moves, _, _) = run_office(OfficeScript { cancelled: true, ..good_office_run() });
    assert_eq!(result, Ok(ExecutionOutcome::Cancelled));
    assert!(moves.is_empty());
    let (result, _, _, _) = run_office(OfficeScript { outcome: Ok(Some(exit(false, "", "boom"))), ..good_office_run() });
    assert_eq!(result, Err("LibreOffice conversion failed: boom".to_string()));
    let (result, _, _, _) = run_office(OfficeScript { outcome: Ok(None), ..good_office_run() });
    assert_eq!(result, Ok(ExecutionOutcome::Cancelled));
}

const ONE_PIXEL_PNG: &[u8] = &[
    137, 80, 78, 71, 13, 10, 26, 10, 0, 0, 0, 13, 73, 72, 68, 82, 0, 0, 0, 1, 0, 0, 0, 1, 8, 4, 0, 0, 0, 181, 28, 12, 2, 0,
    0, 0, 11, 73, 68, 65, 84, 120, 218, 99, 100, 248, 15, 0, 1, 5, 1, 1, 39, 24, 227, 102, 0, 0, 0, 0, 73, 69, 78, 68,
    174, 66, 96, 130,
];

struct ImageScript {
    unreadable: Option<&'static str>,
    bytes: &'static [u8],
    pages: Result<u32, String>,
    cancel_after: usize,
}

struct ImageRun {
    result: Result<ExecutionOutcome, String>,
    placed: Vec<(usize, usize, usize)>,
    saved: Vec<String>,
    moves: Vec<(String, String)>,
    reported: Vec<u8>,
}

fn run_images(script: ImageScript) -> ImageRun {
    let inputs = vec!["/imgs/first.png".to_string(), "/imgs/second.png".to_string()];
    let kinds = vec![PathKind::File, PathKind::File];
    let asked = RefCell::new(0usize);
    let placed = RefCell::new(Vec::new());
    let saved = RefCell::new(Vec::new());
    let moves = RefCell::new(Vec::new());
    let reported = RefCell::new(Vec::new());
    let discard = |_: &str| {};
    let cancelled = || {
        *asked.borrow_mut() += 1;
        *asked.borrow() > script.cancel_after
    };
    let read = |path: &str| {
        if script.unreadable == Some(path) {
            Err("denied".to_string())
        } else {
            Ok(script.bytes.to_vec())
        }
    };
    let place = |index: usize, image: &printpdf::RawImage, width: usize, height: usize| {
        assert_eq!((image.width, image.height), (width, height));
        placed.borrow_mut().push((index, width, height));
    };
    let save = |path: &str| {
        saved.borrow_mut().push(path.to_string());
        Ok(())
    };
    let count = |_: &str, _: &str| script.pages.clone();
    let publish = |from: &str, to: &str| {
        moves.borrow_mut().push((from.to_string(), to.to_string()));
        Ok(())
    };
    let report = |value: u8| reported.borrow_mut().push(value);
    let result = image_converter::convert(
        "/opt/qpdf",
        &inputs,
        &kinds,
        "/imgs/album.pdf",
        PathKind::Missing,
        PathKind::Directory,
        "job-5",
        &discard,
        &cancelled,
        &read,
        &place,
        &save,
        &count,
        &publish,
        &report,
    );
    ImageRun {
        result,
        placed: placed.into_inner(),
        saved: saved.into_inner(),
        moves: moves.into_inner(),
        reported: reported.into_inner(),
    }
}

fn good_images() -> ImageScript {
    ImageScript { unreadable: None, bytes: ONE_PIXEL_PNG, pages: Ok(2), cancel_after: usize::MAX }
}

#[test]
fn images_are_placed_one_per_page_and_published() {
    let run = run_images(good_images());
    assert_eq!(run.result, Ok(ExecutionOutcome::Completed));
    assert_eq!(run.placed, vec![(0, 1, 1), (1, 1, 1)]);
    let staged = image_converter::staged_output_path("/imgs/album.pdf", "job-5").unwrap();
    assert_eq!(run.saved, vec![staged.clone()]);
    assert_eq!(run.moves, vec![(staged, "/imgs/album.pdf".to_string())]);
    assert_eq!(run.reported, vec![42, 85, 90, 100]);
}

#[test]
fn image_assembly_reports_each_failure() {
    let run = run_images(ImageScript { unreadable: Some("/imgs/second.png"), ..good_images() });
    assert_eq!(run.result, Err("Image could not be read (/imgs/second.png): denied".to_string()));
    assert_eq!(run.placed.len(), 1);
    assert!(run.saved.is_empty());
    let run = run_images(ImageScript { bytes: b"not an image", ..good_images() });
    assert!(run.result.unwrap_err().starts_with("Image could not be decoded (/imgs/first.png): "));
    let run = run_images(ImageScript { pages: Ok(1), ..good_images() });
    assert_eq!(run.result, Err("Generated PDF contains an unexpected number of pages".to_string()));
    assert!(run.moves.is_empty());
    let run = run_images(ImageScript { pages: Err("damaged".to_string()), ..good_images() });
    assert_eq!(run.result, Err("Generated PDF validation failed: damaged".to_string()));
}

#[test]
fn image_assembly_stops_at_a_cancellation() {
    let run = run_images(ImageScript { cancel_after: 0, ..good_images() });
    assert_eq!(run.result, Ok(ExecutionOutcome::Cancelled));
    assert!(run.placed.is_empty());
    let run = run_images(ImageScript { cancel_after: 2, ..good_images() });
    assert_eq!(run.result, Ok(ExecutionOutcome::Cancelled));
    assert_eq!(run.placed.len(), 2);
    assert!(run.saved.is_empty());
    let run = run_images(ImageScript { cancel_after: 3, ..good_images() });
    assert_eq!(run.result, Ok(ExecutionOutcome::Cancelled));
    assert_eq!(run.saved.len(), 1);
    assert!(run.moves.is_empty());
}

struct PageScript {
    pages: Result<usize, String>,
    render_failure: Option<(usize, RenderFailure)>,
    refuse_move: Option<usize>,
}

struct PageRun {
    result: Result<ExecutionOutcome, String>,
    rendered: Vec<(usize, String)>,
    moves: Vec<(String, String)>,
    discarded: Vec<String>,
    reported: Vec<u8>,
}

fn run_pages(script: PageScript) -> PageRun {
    let failure = RefCell::new(script.render_failure);
    let rendered = RefCell::new(Vec::new());
    let moves = RefCell::new(Vec::new());
    let discarded = RefCell::new(Vec::new());
    let reported = RefCell::new(Vec::new());
    let open = || script.pages.clone();
    let exists = |_: &str| false;
    let cancelled = || false;
    let render = |index: usize, staged: &str| {
        rendered.borrow_mut().push((index, staged.to_string()));
        let pending = failure.borrow_mut().take();
        match pending {
            Some((at, reason)) if at == index => Err(reason),
            other => {
                *failure.borrow_mut() = other;
                Ok(())
            }
        }
    };
    let read = |_: &str| Ok(ONE_PIXEL_PNG.to_vec());
    let publish = |from: &str, to: &str| {
        let index = moves.borrow().len();
        if script.refuse_move == Some(index) {
            return Err("locked".to_string());
        }
        moves.borrow_mut().push((from.to_string(), to.to_string()));
        Ok(())
    };
    let discard = |path: &str| discarded.borrow_mut().push(path.to_string());
    let report = |value: u8| reported.borrow_mut().push(value);
    let result = pdf_image_converter::convert(
        "/docs/input.pdf",
        "/out",
        PdfImageFormat::Png,
        150,
        "job-1",
        PathKind::File,
        PathKind::Directory,
        true,
        &open,
        &exists,
        &cancelled,
        &render,
        &read,
        &publish,
        &discard,
        &report,
    );
    PageRun {
        result,
        rendered: rendered.into_inner(),
        moves: moves.into_inner(),
        discarded: discarded.into_inner(),
        reported: reported.into_inner(),
    }
}

fn planned() -> Vec<(String, String)> {
    pdf_image_converter::output_paths("/docs/input.pdf", "/out", 2, PdfImageFormat::Png, 150, "job-1", &|_: &str| false)
        .unwrap()
}

#[test]
fn every_page_is_rendered_checked_and_moved_to_its_name() {
    let run = run_pages(PageScript { pages: Ok(2), render_failure: None, refuse_move: None });
    assert_eq!(run.result, Ok(ExecutionOutcome::Completed));
    let outs = planned();
    assert_eq!(outs[0].1, "/out/input-page-01-png-normal.png");
    assert_eq!(run.rendered, vec![(0, outs[0].0.clone()), (1, outs[1].0.clone())]);
    assert_eq!(run.moves, outs);
    assert!(run.discarded.is_empty());
    assert_eq!(run.reported, vec![47, 95, 100]);
}

#[test]
fn page_rendering_failures_name_the_page() {
    let run = run_pages(PageScript {
        pages: Ok(2),
        render_failure: Some((1, RenderFailure::Render("broken page".to_string()))),
        refuse_move: None,
    });
    assert_eq!(run.result, Err("PDF page 2 could not be rendered: broken page".to_string()));
    assert_eq!(run.discarded.len(), 2);
    let run = run_pages(PageScript {
        pages: Ok(2),
        render_failure: Some((0, RenderFailure::Save("disk full".to_string()))),
        refuse_move: None,
    });
    assert_eq!(run.result, Err("PDF page 1 could not be saved: disk full".to_string()));
    assert_eq!(run.discarded.len(), 2);
    let run = run_pages(PageScript { pages: Ok(0), render_failure: None, refuse_move: None });
    assert_eq!(run.result, Err("The PDF contains no pages".to_string()));
    let run = run_pages(PageScript { pages: Err("PDFium could not open the PDF: bad".to_string()), render_failure: None, refuse_move: None });
    assert_eq!(run.result, Err("PDFium could not open the PDF: bad".to_string()));
}

#[test]
fn a_failed_move_removes_the_pages_already_moved() {
    let run = run_pages(PageScript { pages: Ok(2), render_failure: None, refuse_move: Some(1) });
    let error = run.result.unwrap_err();
    assert!(error.starts_with("Rendered images could not be finalized: locked. Existing files were preserved"));
    let outs = planned();
    assert_eq!(run.moves, vec![outs[0].clone()]);
    assert_eq!(run.discarded, vec![outs[0].1.clone(), outs[0].0.clone(), outs[1].0.clone()]);
}

#[test]
fn wide_images_get_landscape_pages() {
    assert_eq!(image_converter::a4_page_mm(300, 200), (297, 210));
    assert_eq!(image_converter::a4_page_mm(200, 300), (210, 297));
    assert_eq!(image_converter::a4_page_mm(200, 200), (210, 297));
}

#[test]
fn office_staging_needs_a_profile_url() {
    let cleared = RefCell::new(Vec::new());
    let runs = RefCell::new(Vec::new());
    let run = |program: &str, args: &Vec<String>| {
        runs.borrow_mut().push((program.to_string(), args.clone()));
        Ok(None)
    };
    let clear = |path: &str| cleared.borrow_mut().push(path.to_string());
    let no = |_: &str| false;
    let pages = |_: &str, _: &str| Ok(1u32);
    let cancelled = || false;
    let publish = |_: &str, _: &str| Ok(());
    let report = |_: u8| {};
    let missing = office_converter::convert_in_staging("/opt/soffice", "/opt/qpdf", "/d/a.docx", "/d/a.pdf", "/d/.stage",
        None, &run, &no, &pages, &cancelled, &publish, &clear, &report);
    assert_eq!(missing, Err("LibreOffice profile path could not be encoded".to_string()));
    assert!(runs.borrow().is_empty());
    assert_eq!(cleared.borrow().clone(), vec!["/d/.stage".to_string()]);
    let given = office_converter::convert_in_staging("/opt/soffice", "/opt/qpdf", "/d/a.docx", "/d/a.pdf", "/d/.stage",
        Some("file:///d/.stage/profile/".to_string()), &run, &no, &pages, &cancelled, &publish, &clear, &report);
    assert_eq!(given, Ok(ExecutionOutcome::Cancelled));
    let args = runs.borrow()[0].1.clone();
    assert!(args.contains(&"-env:UserInstallation=file:///d/.stage/profile/".to_string()));
    assert!(args.contains(&"/d/.stage/output".to_string()));
}
