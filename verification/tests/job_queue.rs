use just_convert::application::job_queue::JobQueue;
use just_convert::domain::job::{AudioFormat, Job};

fn job(id: &str) -> Job {
    Job::queued_audio(id, "input.wav", "output.mp3", AudioFormat::Mp3, 0)
}

#[test]
fn preserves_fifo_order_and_respects_the_concurrency_limit() {
    let mut queue = JobQueue::new(1);
    queue.enqueue(job("first"));
    queue.enqueue(job("second"));

    assert_eq!(queue.pending_count(), 2);
    assert_eq!(queue.take_next().map(|job| job.id), Some("first".to_string()));
    assert!(queue.take_next().is_none());

    queue.finish_active();
    assert_eq!(queue.take_next().map(|job| job.id), Some("second".to_string()));
}

#[test]
fn queued_jobs_can_be_removed_before_execution() {
    let mut queue = JobQueue::new(1);
    queue.enqueue(job("cancel-me"));

    assert!(queue.remove("cancel-me"));
    assert_eq!(queue.pending_count(), 0);
}

#[test]
fn a_higher_limit_lets_two_jobs_run_at_once() {
    let mut queue = JobQueue::new(2);
    queue.enqueue(job("a"));
    queue.enqueue(job("b"));
    queue.enqueue(job("c"));
    assert_eq!(queue.take_next().map(|job| job.id), Some("a".to_string()));
    assert_eq!(queue.take_next().map(|job| job.id), Some("b".to_string()));
    assert!(queue.take_next().is_none());
    queue.finish_active();
    assert_eq!(queue.take_next().map(|job| job.id), Some("c".to_string()));
}

#[test]
fn removing_an_unknown_job_changes_nothing() {
    let mut queue = JobQueue::new(1);
    queue.enqueue(job("kept"));
    assert!(!queue.remove("missing"));
    assert_eq!(queue.pending_count(), 1);
}

#[test]
fn a_taken_job_is_marked_running() {
    let mut queue = JobQueue::new(1);
    queue.enqueue(job("first"));
    let taken = queue.take_next().unwrap();
    assert_eq!(taken.status, just_convert::domain::job::JobStatus::Running);
}
