use just_convert::application::job_service::{EnginePaths, Execution, JobService, issue_id};
use just_convert::domain::job::{AudioFormat, ExecutionOutcome, Job, JobKind, JobStatus};
use just_convert::paths::PathKind;

fn no_engines() -> EnginePaths {
    EnginePaths {
        ffmpeg_path: None,
        ffprobe_path: None,
        qpdf_path: None,
        pdfium_path: None,
        libreoffice_path: None,
        python_path: None,
        pdf_to_docx_worker_path: None,
    }
}

fn with_ffmpeg() -> EnginePaths {
    let mut engines = no_engines();
    engines.ffmpeg_path = Some("C:/tools/ffmpeg.exe".to_string());
    engines
}

fn job_with_status(id: &str, status: JobStatus) -> Job {
    let mut job = Job::queued_audio(id, "input.wav", "output.mp3", AudioFormat::Mp3, 1);
    job.status = status;
    job
}

fn terminal_mix() -> Vec<Job> {
    vec![
        job_with_status("completed", JobStatus::Completed),
        job_with_status("failed", JobStatus::Failed),
        job_with_status("cancelled", JobStatus::Cancelled),
        job_with_status("active", JobStatus::Queued),
    ]
}

#[test]
fn history_survives_service_recreation() {
    let service = JobService::new(
        vec![Job::queued_audio("persisted", "input.wav", "output.mp3", AudioFormat::Mp3, 1)],
        no_engines(),
        5,
    );
    let recreated = JobService::new(service.list_jobs(), no_engines(), 6);
    assert_eq!(recreated.list_jobs()[0].id, "persisted");
}

#[test]
fn completed_history_entry_can_be_deleted_without_removing_output() {
    let mut job = Job::queued_audio("completed", "input.wav", "C:/out/converted.mp3", AudioFormat::Mp3, 1);
    job.status = JobStatus::Completed;
    job.progress = 100;
    job.finished_at = Some(2);
    let mut service = JobService::new(vec![job], no_engines(), 3);

    service.delete_history_entry("completed").unwrap();
    assert!(service.list_jobs().is_empty());
    let recreated = JobService::new(service.list_jobs(), no_engines(), 4);
    assert!(recreated.list_jobs().is_empty());
}

#[test]
fn active_history_entries_cannot_be_deleted() {
    let mut service = JobService::new(
        vec![Job::queued_audio("active", "input.wav", "output.mp3", AudioFormat::Mp3, 1)],
        no_engines(),
        2,
    );

    let error = service.delete_history_entry("active").unwrap_err();
    assert!(error.contains("cancel"));
    assert_eq!(service.list_jobs().len(), 1);
}

#[test]
fn clear_history_preserves_active_jobs() {
    let mut service = JobService::new(terminal_mix(), no_engines(), 2);

    assert_eq!(service.clear_history(), 2);
    let jobs = service.list_jobs();
    assert_eq!(jobs.len(), 2);
    assert!(jobs.iter().any(|job| job.id == "active"));
    assert!(jobs.iter().any(|job| job.id == "failed"));
}

#[test]
fn section_cleanup_removes_only_the_requested_terminal_group() {
    let mut service = JobService::new(terminal_mix(), no_engines(), 2);

    assert_eq!(service.clear_history_section("failed").unwrap(), 2);
    let jobs = service.list_jobs();
    assert!(jobs.iter().any(|job| job.id == "completed"));
    assert!(jobs.iter().any(|job| job.id == "active"));
    assert!(!jobs.iter().any(|job| job.id == "failed"));
    assert!(!jobs.iter().any(|job| job.id == "cancelled"));
}

#[test]
fn unknown_history_sections_are_refused() {
    let mut service = JobService::new(terminal_mix(), no_engines(), 2);
    assert_eq!(service.clear_history_section("recent").unwrap_err(), "Unknown job history section");
    assert_eq!(service.list_jobs().len(), 4);
}

#[test]
fn enqueue_reports_a_missing_engine_before_mutating_history() {
    let mut service = JobService::new(Vec::new(), no_engines(), 1);
    let error = service
        .enqueue_audio("input.wav", "output.mp3", AudioFormat::Mp3, PathKind::File, PathKind::Missing, PathKind::Directory, 10)
        .unwrap_err();

    assert!(error.contains("unavailable"));
    assert!(service.list_jobs().is_empty());
}

#[test]
fn accepted_audio_job_is_queued_with_a_time_and_counter_id() {
    let mut service = JobService::new(Vec::new(), with_ffmpeg(), 1);
    let job = service
        .enqueue_audio("C:/music/in.wav", "C:/music/out.mp3", AudioFormat::Mp3, PathKind::File, PathKind::Missing,
            PathKind::Directory, 1700000000)
        .unwrap();
    assert_eq!(job.id, "1700000000-1");
    assert_eq!(job.job_type, "audio_conversion");
    assert_eq!(job.status, JobStatus::Queued);
    let second = service
        .enqueue_audio("C:/music/in.wav", "C:/music/out2.mp3", AudioFormat::Mp3, PathKind::File, PathKind::Missing,
            PathKind::Directory, 1700000000)
        .unwrap();
    assert_eq!(second.id, "1700000000-2");
    assert_eq!(service.list_jobs().len(), 2);
}

#[test]
fn invalid_audio_request_is_refused_without_a_job() {
    let mut service = JobService::new(Vec::new(), with_ffmpeg(), 1);
    let error = service
        .enqueue_audio("C:/music/in.wav", "C:/music/out.mp3", AudioFormat::Mp3, PathKind::File, PathKind::File,
            PathKind::Directory, 5)
        .unwrap_err();
    assert_eq!(error, "The output file already exists");
    assert!(service.list_jobs().is_empty());
}

#[test]
fn cancelling_a_queued_job_keeps_it_from_running() {
    let mut service = JobService::new(Vec::new(), with_ffmpeg(), 1);
    let job = service
        .enqueue_audio("C:/music/in.wav", "C:/music/out.mp3", AudioFormat::Mp3, PathKind::File, PathKind::Missing,
            PathKind::Directory, 7)
        .unwrap();
    let cancelled = service.cancel(&job.id, 8).unwrap();
    assert_eq!(cancelled.status, JobStatus::Cancelled);
    assert_eq!(cancelled.finished_at, Some(8));
    assert!(!service.start());
    assert!(service.begin_next(9).is_none());
}

#[test]
fn cancelling_unknown_or_finished_jobs_is_refused() {
    let mut service = JobService::new(terminal_mix(), no_engines(), 2);
    assert_eq!(service.cancel("missing", 3).unwrap_err(), "Job not found");
    assert_eq!(service.cancel("completed", 3).unwrap_err(), "Only queued or running jobs can be cancelled");
}

#[test]
fn worker_runs_jobs_in_order_and_records_outcomes() {
    let mut service = JobService::new(Vec::new(), with_ffmpeg(), 1);
    let first = service
        .enqueue_audio("C:/m/a.wav", "C:/m/a.mp3", AudioFormat::Mp3, PathKind::File, PathKind::Missing, PathKind::Directory, 1)
        .unwrap();
    let second = service
        .enqueue_audio("C:/m/b.wav", "C:/m/b.mp3", AudioFormat::Mp3, PathKind::File, PathKind::Missing, PathKind::Directory, 1)
        .unwrap();
    assert!(service.start());
    assert!(!service.start());

    let running = service.begin_next(2).unwrap();
    assert_eq!(running.id, first.id);
    assert!(service.cancel(&first.id, 2).is_ok());
    assert!(service.update_progress(&first.id, 40));
    assert!(!service.update_progress(&first.id, 30));
    service.complete(&first.id, Ok(ExecutionOutcome::Completed), 3);

    let next = service.begin_next(4).unwrap();
    assert_eq!(next.id, second.id);
    service.complete(&second.id, Err("FFmpeg conversion failed: bad input".to_string()), 5);
    assert!(service.begin_next(6).is_none());

    let jobs = service.list_jobs();
    let done = jobs.iter().find(|job| job.id == first.id).unwrap();
    assert_eq!(done.status, JobStatus::Completed);
    assert_eq!(done.progress, 100);
    let failed = jobs.iter().find(|job| job.id == second.id).unwrap();
    assert_eq!(failed.status, JobStatus::Failed);
    let error = failed.error.as_ref().unwrap();
    assert_eq!(error.code, "conversion_failed");
    assert_eq!(error.message, "FFmpeg conversion failed: bad input");
}

#[test]
fn restart_marks_running_jobs_interrupted_and_requeues_queued_ones() {
    let running = job_with_status("was-running", JobStatus::Running);
    let queued = job_with_status("still-queued", JobStatus::Queued);
    let mut service = JobService::new(vec![running, queued], with_ffmpeg(), 50);
    let jobs = service.list_jobs();
    let interrupted = jobs.iter().find(|job| job.id == "was-running").unwrap();
    assert_eq!(interrupted.status, JobStatus::Failed);
    assert_eq!(interrupted.finished_at, Some(50));
    assert_eq!(interrupted.error.as_ref().unwrap().code, "interrupted");
    let next = service.begin_next(51).unwrap();
    assert_eq!(next.id, "still-queued");
}

#[test]
fn jobs_are_listed_newest_first() {
    let mut old = job_with_status("old", JobStatus::Completed);
    old.created_at = 1;
    let mut new = job_with_status("new", JobStatus::Completed);
    new.created_at = 9;
    let service = JobService::new(vec![old, new], no_engines(), 10);
    let ids: Vec<String> = service.list_jobs().into_iter().map(|job| job.id).collect();
    assert_eq!(ids, vec!["new".to_string(), "old".to_string()]);
}

#[test]
fn ids_count_up_from_the_given_counter() {
    let mut counter: u64 = 41;
    assert_eq!(issue_id(&mut counter, 1000), "1000-41");
    assert_eq!(counter, 42);
    let mut last: u64 = u64::MAX;
    assert_eq!(issue_id(&mut last, 7), format!("7-{}", u64::MAX));
    assert_eq!(last, 0);
}

#[test]
fn execution_names_the_engine_a_job_needs() {
    let service = JobService::new(Vec::new(), with_ffmpeg(), 1);
    let audio = Job::queued_audio("a", "C:/in.wav", "C:/out.mp3", AudioFormat::Mp3, 1);
    match service.execution(&audio, None, None).unwrap() {
        Execution::Audio { ffmpeg, ffprobe, .. } => {
            assert_eq!(ffmpeg, "C:/tools/ffmpeg.exe");
            assert!(ffprobe.is_none());
        },
        _ => panic!("expected an audio execution"),
    }
    let office = Job::queued_office_to_pdf("o", "C:/in.docx", "C:/out.pdf", 1);
    assert_eq!(service.execution(&office, None, None).unwrap_err(), "LibreOffice is not installed");
    assert_eq!(
        service.execution(&office, Some("C:/lo/soffice.exe".to_string()), None).unwrap_err(),
        "The bundled qpdf executable is unavailable"
    );
    let docx = Job::queued_pdf_to_docx("d", "C:/in.pdf", "C:/out.docx", 1);
    assert_eq!(service.execution(&docx, None, None).unwrap_err(), "Python, PyMuPDF, and pdf2docx are required");
    assert!(matches!(audio.kind, JobKind::AudioConversion { .. }));
}

#[test]
fn libreoffice_from_settings_wins_over_the_configured_path() {
    let mut engines = no_engines();
    engines.libreoffice_path = Some("C:/configured/soffice.exe".to_string());
    engines.python_path = Some("C:/py/python.exe".to_string());
    engines.pdf_to_docx_worker_path = Some("C:/w/pdf_to_docx.py".to_string());
    let service = JobService::new(Vec::new(), engines, 1);
    assert_eq!(
        service.resolved_libreoffice_path(Some(Some("C:/detected/soffice.exe".to_string()))),
        Some("C:/detected/soffice.exe".to_string())
    );
    assert_eq!(service.resolved_libreoffice_path(Some(None)), Some("C:/configured/soffice.exe".to_string()));
    assert_eq!(
        service.resolved_pdf_to_docx_runtime(None),
        Some(("C:/py/python.exe".to_string(), "C:/w/pdf_to_docx.py".to_string()))
    );
    assert_eq!(service.resolved_pdf_to_docx_runtime(Some(None)), None);
}

#[test]
fn page_count_needs_qpdf() {
    let service = JobService::new(Vec::new(), no_engines(), 1);
    let answer = service.pdf_page_count("C:/a.pdf", &|_qpdf: &str, _input: &str| Ok(3));
    assert_eq!(answer.unwrap_err(), "The bundled qpdf executable is unavailable");
    let mut engines = no_engines();
    engines.qpdf_path = Some("C:/q/qpdf.exe".to_string());
    let service = JobService::new(Vec::new(), engines, 1);
    let answer = service.pdf_page_count("C:/a.pdf", &|qpdf: &str, _input: &str| {
        if qpdf == "C:/q/qpdf.exe" { Ok(3) } else { Err("wrong tool".to_string()) }
    });
    assert_eq!(answer, Ok(3));
}

#[test]
fn jobs_run_one_at_a_time_in_turn() {
    let mut service = JobService::new(Vec::new(), with_ffmpeg(), 1);
    let first = service
        .enqueue_audio("C:/music/a.wav", "C:/music/a.mp3", AudioFormat::Mp3, PathKind::File, PathKind::Missing,
            PathKind::Directory, 20)
        .unwrap();
    let second = service
        .enqueue_audio("C:/music/b.wav", "C:/music/b.mp3", AudioFormat::Mp3, PathKind::File, PathKind::Missing,
            PathKind::Directory, 20)
        .unwrap();
    assert!(service.start());
    let running = service.begin_next(21).unwrap();
    assert_eq!(running.id, first.id);
    assert!(service.begin_next(22).is_none());
    let running_now: Vec<_> = service.list_jobs().into_iter().filter(|job| job.status == JobStatus::Running).collect();
    assert_eq!(running_now.len(), 1);
    service.complete(&first.id, Ok(ExecutionOutcome::Completed), 23);
    assert!(service.list_jobs().iter().all(|job| job.status != JobStatus::Running));
    let next = service.begin_next(24).unwrap();
    assert_eq!(next.id, second.id);
}
