//! The job service: enqueueing, cancelling, running and forgetting jobs, and the
//! planning of folder batches.

use vstd::prelude::*;
use crate::application::job_queue::{JobQueue, QueueModel, finish_model, remove_model, running, take_next_model};
use crate::application::audio_converter::{self, audio_request_check};
use crate::application::folder_batch::{
    FileFilter, FolderTarget, folder_inputs, folder_inputs_spec, image_none_found, pdf_folder_outcome,
    pdf_none_found, plan_audio_folder_conversion, plan_failed, plan_failed_after, plan_file_outputs, plan_image_folder_to_pdf,
    plan_ok, plan_pdf_folder_to_images, combine_outcome, all_files, combined_job, separate_jobs, audio_none_found,
    pair_inputs, pair_outputs, all_files_taken, combine_stem, names_exhausted,
};
use crate::application::image_converter::{self, image_request_check};
use crate::application::office_converter::{self, office_request_check};
use crate::application::pdf_converter::{self, OperationFacts, pdf_request_check};
use crate::application::pdf_docx_converter::{self, docx_request_check};
use crate::application::pdf_image_converter::{self, pdf_image_request_check};
use crate::domain::job::{
    AudioFormat, ExecutionOutcome, ImageFolderMode, Job, JobError, JobErrorModel, JobKindModel, JobModel,
    JobStatus, PdfImageFormat, PdfOperation, job_views, queued,
};
use crate::paths::{PathKind, join, joined, lower, opt_view, probed};
use crate::text::{ascii_lower, concat3, decimal, push_decimal, same_text, string_of, views, chars_of};

verus! {

/// The file name tried for the `k`-th attempt: `stem.ext`, then `stem-2.ext`, ...
pub open spec fn numbered_file_name(stem: Seq<char>, extension: Seq<char>, k: nat) -> Seq<char> {
    if k == 1 {
        stem + "."@ + extension
    } else {
        stem + "-"@ + decimal(k) + "."@ + extension
    }
}

/// The directory name tried for the `k`-th attempt: `stem`, then `stem-2`, ...
pub open spec fn numbered_dir_name(stem: Seq<char>, k: nat) -> Seq<char> {
    if k == 1 {
        stem
    } else {
        stem + "-"@ + decimal(k)
    }
}

/// A candidate is unusable when the probe found it or its lower-case form is
/// among the reserved keys.
pub open spec fn blocked<F: Fn(&str) -> bool>(probe: F, keys: Seq<Seq<char>>, p: Seq<char>) -> bool {
    probed(probe, p, true) || keys.contains(ascii_lower(p))
}

/// Whether `key` is among the reserved keys.
pub fn is_reserved(reserved: &Vec<String>, key: &str) -> (r: bool)
    ensures
        r == views(reserved@).contains(key@),
{
    let mut i: usize = 0;
    while i < reserved.len()
        invariant
            i <= reserved.len(),
            forall|j: int| 0 <= j < i ==> reserved@[j]@ != key@,
        decreases reserved.len() - i,
    {
        if same_text(reserved[i].as_str(), key) {
            assert(views(reserved@)[i as int] == key@);
            return true;
        }
        i = i + 1;
    }
    assert forall|j: int| 0 <= j < views(reserved@).len() implies views(reserved@)[j] != key@ by {
        assert(views(reserved@)[j] == reserved@[j]@);
    }
    false
}

fn numbered(stem: &str, suffix: u32) -> (r: Vec<char>)
    requires
        suffix >= 2,
    ensures
        r@ == stem@ + "-"@ + decimal(suffix as nat),
{
    let mut v = chars_of(stem);
    v.push('-');
    proof {
        reveal_strlit("-");
    }
    let ghost before = v@;
    push_decimal(&mut v, suffix as u64);
    v
}

fn file_candidate(stem: &str, extension: &str, suffix: u32) -> (r: String)
    requires
        suffix >= 1,
    ensures
        r@ == numbered_file_name(stem@, extension@, suffix as nat),
{
    if suffix == 1 {
        concat3(stem, ".", extension)
    } else {
        let v = numbered(stem, suffix);
        let s = string_of(&v);
        concat3(s.as_str(), ".", extension)
    }
}

fn dir_candidate(stem: &str, suffix: u32) -> (r: String)
    requires
        suffix >= 1,
    ensures
        r@ == numbered_dir_name(stem@, suffix as nat),
{
    if suffix == 1 {
        stem.to_owned()
    } else {
        let v = numbered(stem, suffix);
        string_of(&v)
    }
}

/// Picks the first output file `stem.ext`, `stem-2.ext`, ... inside
/// `output_directory` that the probe does not report as existing and whose
/// lower-case path is not reserved yet, and reserves it. `None` only when every
/// suffix a `u32` can hold is taken.
pub fn next_available_output<F: Fn(&str) -> bool>(
    output_directory: &str,
    stem: &str,
    extension: &str,
    reserved_outputs: &mut Vec<String>,
    probe: &F,
) -> (r: Option<String>)
    requires
        forall|s: &str| probe.requires((s,)),
    ensures
        match r {
            Some(p) => {
                &&& exists|k: nat|
                    1 <= k <= u32::MAX && p@ == joined(output_directory@, numbered_file_name(stem@, extension@, k))
                        && (forall|j: nat| 1 <= j < k ==> #[trigger] blocked(*probe, views(old(reserved_outputs)@),
                            joined(output_directory@, numbered_file_name(stem@, extension@, j))))
                &&& probed(*probe, p@, false)
                &&& !views(old(reserved_outputs)@).contains(ascii_lower(p@))
                &&& views(final(reserved_outputs)@) == views(old(reserved_outputs)@).push(ascii_lower(p@))
            },
            None => {
                &&& forall|j: nat| 1 <= j <= u32::MAX ==> #[trigger] blocked(*probe, views(old(reserved_outputs)@),
                    joined(output_directory@, numbered_file_name(stem@, extension@, j)))
                &&& final(reserved_outputs)@ == old(reserved_outputs)@
            },
        },
{
    let mut suffix: u32 = 1;
    loop
        invariant
            1 <= suffix,
            forall|s: &str| probe.requires((s,)),
            reserved_outputs@ == old(reserved_outputs)@,
            forall|j: nat| 1 <= j < suffix ==> #[trigger] blocked(*probe, views(old(reserved_outputs)@),
                joined(output_directory@, numbered_file_name(stem@, extension@, j))),
        decreases u32::MAX - suffix,
    {
        let name = file_candidate(stem, extension, suffix);
        let candidate = join(output_directory, name.as_str());
        let key = lower(candidate.as_str());
        let s = candidate.as_str();
        let taken = probe(s);
        proof {
            assert(probed(*probe, candidate@, taken));
        }
        if !taken && !is_reserved(reserved_outputs, key.as_str()) {
            let ghost before = reserved_outputs@;
            reserved_outputs.push(key);
            proof {
                assert(views(reserved_outputs@) =~= views(before).push(ascii_lower(candidate@)));
            }
            return Some(candidate);
        }
        proof {
            if taken {
                assert(probed(*probe, candidate@, true));
            }
            assert(blocked(*probe, views(old(reserved_outputs)@), joined(output_directory@, numbered_file_name(stem@, extension@, suffix as nat))));
        }
        if suffix == u32::MAX {
            return None;
        }
        suffix = suffix + 1;
    }
}

/// Picks the first output directory `stem`, `stem-2`, ... inside
/// `output_directory` that the probe does not report as existing and whose
/// lower-case path is not reserved yet, and reserves it.
pub fn next_available_directory<F: Fn(&str) -> bool>(
    output_directory: &str,
    stem: &str,
    reserved_outputs: &mut Vec<String>,
    probe: &F,
) -> (r: Option<String>)
    requires
        forall|s: &str| probe.requires((s,)),
    ensures
        match r {
            Some(p) => {
                &&& exists|k: nat|
                    1 <= k <= u32::MAX && p@ == joined(output_directory@, numbered_dir_name(stem@, k))
                        && (forall|j: nat| 1 <= j < k ==> #[trigger] blocked(*probe, views(old(reserved_outputs)@),
                            joined(output_directory@, numbered_dir_name(stem@, j))))
                &&& probed(*probe, p@, false)
                &&& !views(old(reserved_outputs)@).contains(ascii_lower(p@))
                &&& views(final(reserved_outputs)@) == views(old(reserved_outputs)@).push(ascii_lower(p@))
            },
            None => {
                &&& forall|j: nat| 1 <= j <= u32::MAX ==> #[trigger] blocked(*probe, views(old(reserved_outputs)@),
                    joined(output_directory@, numbered_dir_name(stem@, j)))
                &&& final(reserved_outputs)@ == old(reserved_outputs)@
            },
        },
{
    let mut suffix: u32 = 1;
    loop
        invariant
            1 <= suffix,
            forall|s: &str| probe.requires((s,)),
            reserved_outputs@ == old(reserved_outputs)@,
            forall|j: nat| 1 <= j < suffix ==> #[trigger] blocked(*probe, views(old(reserved_outputs)@),
                joined(output_directory@, numbered_dir_name(stem@, j))),
        decreases u32::MAX - suffix,
    {
        let name = dir_candidate(stem, suffix);
        let candidate = join(output_directory, name.as_str());
        let key = lower(candidate.as_str());
        let s = candidate.as_str();
        let taken = probe(s);
        proof {
            assert(probed(*probe, candidate@, taken));
        }
        if !taken && !is_reserved(reserved_outputs, key.as_str()) {
            let ghost before = reserved_outputs@;
            reserved_outputs.push(key);
            proof {
                assert(views(reserved_outputs@) =~= views(before).push(ascii_lower(candidate@)));
            }
            return Some(candidate);
        }
        proof {
            if taken {
                assert(probed(*probe, candidate@, true));
            }
            assert(blocked(*probe, views(old(reserved_outputs)@), joined(output_directory@, numbered_dir_name(stem@, suffix as nat))));
        }
        if suffix == u32::MAX {
            return None;
        }
        suffix = suffix + 1;
    }
}

} // verus!

verus! {

/// Engine locations known to the service; `None` means the engine is unavailable.
#[derive(Debug)]
pub struct EnginePaths {
    pub ffmpeg_path: Option<String>,
    pub ffprobe_path: Option<String>,
    pub qpdf_path: Option<String>,
    pub pdfium_path: Option<String>,
    pub libreoffice_path: Option<String>,
    pub python_path: Option<String>,
    pub pdf_to_docx_worker_path: Option<String>,
}

/// The mathematical content of a [`JobService`].
pub struct ServiceModel {
    pub queue: QueueModel,
    pub jobs: Seq<JobModel>,
    pub handles: Seq<Seq<char>>,
    pub worker_running: bool,
    pub next_id: u64,
}

/// The service state: the queue, every job record in creation order, the ids of
/// running jobs that can be signalled to stop, and whether a worker runs.
pub struct JobService {
    queue: JobQueue,
    jobs: Vec<Job>,
    cancellations: Vec<String>,
    worker_running: bool,
    next_job_id: u64,
    engines: EnginePaths,
}

impl View for JobService {
    type V = ServiceModel;

    closed spec fn view(&self) -> ServiceModel {
        ServiceModel {
            queue: self.queue@,
            jobs: job_views(self.jobs@),
            handles: views(self.cancellations@),
            worker_running: self.worker_running,
            next_id: self.next_job_id,
        }
    }
}

/// Completed, failed and cancelled jobs make up the history.
pub open spec fn is_history(s: JobStatus) -> bool {
    s == JobStatus::Completed || s == JobStatus::Failed || s == JobStatus::Cancelled
}

/// The index of the first job with the given id among the first `n`, or -1.
pub open spec fn find_from(jobs: Seq<JobModel>, id: Seq<char>, i: int) -> int
    decreases jobs.len() - i,
{
    if i < 0 || i >= jobs.len() {
        -1
    } else if jobs[i].id == id {
        i
    } else {
        find_from(jobs, id, i + 1)
    }
}

/// The index of the first job with the given id, or -1.
pub open spec fn find_job(jobs: Seq<JobModel>, id: Seq<char>) -> int {
    find_from(jobs, id, 0)
}

/// A job recovered at start-up: a job that was running when the application
/// closed is recorded as failed.
pub open spec fn recovered(j: JobModel, now: u64) -> JobModel {
    if j.status == JobStatus::Running {
        JobModel {
            status: JobStatus::Failed,
            finished_at: Some(now),
            error: Some(JobErrorModel {
                code: "interrupted"@,
                message: "The application closed before this job finished"@,
            }),
            ..j
        }
    } else {
        j
    }
}

pub open spec fn is_queued_job() -> spec_fn(JobModel) -> bool {
    |j: JobModel| j.status == JobStatus::Queued
}

/// The service reconstructed from persisted jobs.
pub open spec fn restored(jobs: Seq<JobModel>, now: u64) -> ServiceModel {
    ServiceModel {
        queue: QueueModel { limit: 1, active: 0, pending: jobs.filter(is_queued_job()) },
        jobs: jobs.map_values(|j: JobModel| recovered(j, now)),
        handles: Seq::empty(),
        worker_running: false,
        next_id: 1,
    }
}

/// The outcome of a cancellation request.
pub open spec fn cancel_model(m: ServiceModel, id: Seq<char>, now: u64) -> (ServiceModel, Result<JobModel, Seq<char>>) {
    let i = find_job(m.jobs, id);
    if i < 0 {
        (m, Err("Job not found"@))
    } else if m.jobs[i].status == JobStatus::Queued {
        let cancelled = JobModel { status: JobStatus::Cancelled, finished_at: Some(now), ..m.jobs[i] };
        (
            ServiceModel { queue: remove_model(m.queue, id), jobs: m.jobs.update(i, cancelled), ..m },
            Ok(cancelled),
        )
    } else if m.jobs[i].status == JobStatus::Running {
        if m.handles.contains(id) {
            (m, Ok(m.jobs[i]))
        } else {
            (m, Err("Running job cancellation handle unavailable"@))
        }
    } else {
        (m, Err("Only queued or running jobs can be cancelled"@))
    }
}

/// The outcome of deleting a history entry.
pub open spec fn delete_model(m: ServiceModel, id: Seq<char>) -> (ServiceModel, Result<(), Seq<char>>) {
    let i = find_job(m.jobs, id);
    if i < 0 {
        (m, Err("Job not found"@))
    } else if !is_history(m.jobs[i].status) {
        (m, Err("Active jobs cannot be deleted; cancel the job first"@))
    } else {
        (ServiceModel { jobs: m.jobs.remove(i), ..m }, Ok(()))
    }
}

/// Keeps the jobs whose status is not among the dropped ones.
pub open spec fn kept_by(completed: bool, failed: bool, cancelled: bool) -> spec_fn(JobModel) -> bool {
    |j: JobModel| !((completed && j.status == JobStatus::Completed) || (failed && j.status == JobStatus::Failed)
        || (cancelled && j.status == JobStatus::Cancelled))
}

/// Clearing the history drops completed and cancelled jobs.
pub open spec fn kept_by_clear() -> spec_fn(JobModel) -> bool {
    kept_by(true, false, true)
}

/// The "completed" section holds completed jobs.
pub open spec fn kept_by_completed_cleanup() -> spec_fn(JobModel) -> bool {
    kept_by(true, false, false)
}

/// The "failed" section holds failed and cancelled jobs.
pub open spec fn kept_by_failed_cleanup() -> spec_fn(JobModel) -> bool {
    kept_by(false, true, true)
}

/// The jobs left after clearing the history section with the given name.
pub open spec fn section_model(jobs: Seq<JobModel>, section: Seq<char>) -> Result<Seq<JobModel>, Seq<char>> {
    if section == "completed"@ {
        Ok(jobs.filter(kept_by_completed_cleanup()))
    } else if section == "failed"@ {
        Ok(jobs.filter(kept_by_failed_cleanup()))
    } else {
        Err("Unknown job history section"@)
    }
}

/// The worker takes the next queued job and marks its record as running.
pub open spec fn begin_model(m: ServiceModel, now: u64) -> (ServiceModel, Option<JobModel>) {
    let (q, o) = take_next_model(m.queue);
    match o {
        None => (ServiceModel { queue: q, worker_running: false, ..m }, None),
        Some(j) => {
            let i = find_job(m.jobs, j.id);
            let jobs = if i < 0 {
                m.jobs
            } else {
                m.jobs.update(i, JobModel { status: JobStatus::Running, started_at: Some(now), progress: 0, ..m.jobs[i] })
            };
            (ServiceModel { queue: q, jobs, handles: m.handles.push(j.id), ..m }, Some(j))
        },
    }
}

/// How an engine run ended.
pub enum RunResult {
    Finished(ExecutionOutcome),
    Failed(Seq<char>),
}

/// A job record once its engine run has ended.
pub open spec fn finished(j: JobModel, result: RunResult, now: u64) -> JobModel {
    match result {
        RunResult::Finished(ExecutionOutcome::Completed) => JobModel {
            status: JobStatus::Completed,
            progress: 100,
            error: None,
            finished_at: Some(now),
            ..j
        },
        RunResult::Finished(ExecutionOutcome::Cancelled) => JobModel {
            status: JobStatus::Cancelled,
            error: None,
            finished_at: Some(now),
            ..j
        },
        RunResult::Failed(message) => JobModel {
            status: JobStatus::Failed,
            error: Some(JobErrorModel { code: "conversion_failed"@, message }),
            finished_at: Some(now),
            ..j
        },
    }
}

pub open spec fn run_result(r: Result<ExecutionOutcome, String>) -> RunResult {
    match r {
        Ok(o) => RunResult::Finished(o),
        Err(e) => RunResult::Failed(e@),
    }
}

pub open spec fn other_id(id: Seq<char>) -> spec_fn(Seq<char>) -> bool {
    |h: Seq<char>| h != id
}

/// The service once the engine run of job `id` has ended.
pub open spec fn complete_model(m: ServiceModel, id: Seq<char>, result: RunResult, now: u64) -> ServiceModel {
    let i = find_job(m.jobs, id);
    ServiceModel {
        queue: finish_model(m.queue),
        jobs: if i < 0 { m.jobs } else { m.jobs.update(i, finished(m.jobs[i], result, now)) },
        handles: m.handles.filter(other_id(id)),
        ..m
    }
}

/// Progress only moves forward.
pub open spec fn progress_model(m: ServiceModel, id: Seq<char>, progress: u8) -> (ServiceModel, bool) {
    let i = find_job(m.jobs, id);
    if i < 0 || progress <= m.jobs[i].progress {
        (m, false)
    } else {
        (ServiceModel { jobs: m.jobs.update(i, JobModel { progress, ..m.jobs[i] }), ..m }, true)
    }
}

} // verus!

verus! {

/// Starting a worker is needed when none runs and work is pending.
pub open spec fn start_model(m: ServiceModel) -> (ServiceModel, bool) {
    if m.worker_running || m.queue.pending.len() == 0 {
        (m, false)
    } else {
        (ServiceModel { worker_running: true, ..m }, true)
    }
}

/// Where `x` goes in a list ordered newest first: after every job created at
/// the same time or later.
pub open spec fn newest_first_pos(s: Seq<JobModel>, created_at: u64) -> nat
    decreases s.len(),
{
    if s.len() == 0 {
        0
    } else if s[0].created_at >= created_at {
        1 + newest_first_pos(s.drop_first(), created_at)
    } else {
        0
    }
}

/// The jobs ordered newest first; jobs created at the same time keep their order.
pub open spec fn newest_first(s: Seq<JobModel>) -> Seq<JobModel>
    decreases s.len(),
{
    if s.len() == 0 {
        s
    } else {
        let rest = newest_first(s.drop_last());
        rest.insert(newest_first_pos(rest, s.last().created_at) as int, s.last())
    }
}

proof fn lemma_newest_first_pos(s: Seq<JobModel>, key: u64, p: int)
    requires
        0 <= p <= s.len(),
        forall|k: int| 0 <= k < p ==> #[trigger] s[k].created_at >= key,
        p == s.len() || s[p].created_at < key,
    ensures
        newest_first_pos(s, key) == p,
    decreases s.len(),
{
    if s.len() > 0 && p > 0 {
        assert forall|k: int| 0 <= k < p - 1 implies #[trigger] s.drop_first()[k].created_at >= key by {
            assert(s.drop_first()[k] == s[k + 1]);
        }
        lemma_newest_first_pos(s.drop_first(), key, p - 1);
    }
}

fn remove_text(v: Vec<String>, id: &str) -> (r: Vec<String>)
    ensures
        views(r@) == views(v@).filter(other_id(id@)),
{
    let ghost pred = other_id(id@);
    let mut r: Vec<String> = Vec::new();
    let mut i: usize = 0;
    while i < v.len()
        invariant
            i <= v.len(),
            pred == other_id(id@),
            views(r@) == views(v@).take(i as int).filter(pred),
        decreases v.len() - i,
    {
        let ghost before = r@;
        proof {
            assert(views(v@).take(i + 1) =~= views(v@).take(i as int).push(views(v@)[i as int]));
            lemma_filter_push_text(views(v@).take(i as int), views(v@)[i as int], pred);
        }
        if !same_text(v[i].as_str(), id) {
            r.push(v[i].clone());
            assert(views(r@) =~= views(before).push(views(v@)[i as int]));
        }
        i = i + 1;
    }
    assert(views(v@).take(v.len() as int) =~= views(v@));
    r
}

proof fn lemma_filter_push_text(s: Seq<Seq<char>>, x: Seq<char>, pred: spec_fn(Seq<char>) -> bool)
    ensures
        s.push(x).filter(pred) == if pred(x) { s.filter(pred).push(x) } else { s.filter(pred) },
{
    reveal(Seq::filter);
    assert(s.push(x).drop_last() =~= s);
}

proof fn lemma_filter_push_job(s: Seq<JobModel>, x: JobModel, pred: spec_fn(JobModel) -> bool)
    ensures
        s.push(x).filter(pred) == if pred(x) { s.filter(pred).push(x) } else { s.filter(pred) },
{
    reveal(Seq::filter);
    assert(s.push(x).drop_last() =~= s);
}

fn keep_jobs(jobs: Vec<Job>, completed: bool, failed: bool, cancelled: bool) -> (r: Vec<Job>)
    ensures
        job_views(r@) == job_views(jobs@).filter(kept_by(completed, failed, cancelled)),
{
    let ghost pred = kept_by(completed, failed, cancelled);
    let mut r: Vec<Job> = Vec::new();
    let mut i: usize = 0;
    while i < jobs.len()
        invariant
            i <= jobs.len(),
            pred == kept_by(completed, failed, cancelled),
            job_views(r@) == job_views(jobs@).take(i as int).filter(pred),
        decreases jobs.len() - i,
    {
        let ghost before = r@;
        proof {
            assert(job_views(jobs@).take(i + 1) =~= job_views(jobs@).take(i as int).push(job_views(jobs@)[i as int]));
            lemma_filter_push_job(job_views(jobs@).take(i as int), job_views(jobs@)[i as int], pred);
        }
        let st = jobs[i].status;
        let drop = (completed && st == JobStatus::Completed) || (failed && st == JobStatus::Failed)
            || (cancelled && st == JobStatus::Cancelled);
        if !drop {
            r.push(jobs[i].duplicate());
            assert(job_views(r@) =~= job_views(before).push(job_views(jobs@)[i as int]));
        }
        i = i + 1;
    }
    assert(job_views(jobs@).take(jobs.len() as int) =~= job_views(jobs@));
    r
}

fn recovered_job(j: &Job, now: u64) -> (r: Job)
    ensures
        r@ == recovered(j@, now),
{
    let mut r = j.duplicate();
    if r.status == JobStatus::Running {
        r.status = JobStatus::Failed;
        r.finished_at = Some(now);
        r.error = Some(JobError {
            code: "interrupted".to_owned(),
            message: "The application closed before this job finished".to_owned(),
        });
    }
    r
}

impl JobService {
    /// The service is well formed.
    pub closed spec fn inv(&self) -> bool {
        self.queue.inv()
    }

    /// The engine locations of the service.
    pub closed spec fn engine_paths(&self) -> &EnginePaths {
        &self.engines
    }

    /// Rebuilds the service from persisted jobs: queued jobs are queued again in
    /// creation order, and jobs that were running are recorded as interrupted.
    pub fn new(jobs: Vec<Job>, engines: EnginePaths, now: u64) -> (s: JobService)
        ensures
            s.inv(),
            s@ == restored(job_views(jobs@), now),
            s.engine_paths() == &engines,
    {
        let mut queue = JobQueue::new(1);
        let mut out: Vec<Job> = Vec::new();
        let ghost all = job_views(jobs@);
        let mut i: usize = 0;
        while i < jobs.len()
            invariant
                i <= jobs.len(),
                all == job_views(jobs@),
                queue.inv(),
                queue@.limit == 1,
                queue@.active == 0,
                queue@.pending == all.take(i as int).filter(is_queued_job()),
                job_views(out@) == all.take(i as int).map_values(|j: JobModel| recovered(j, now)),
            decreases jobs.len() - i,
        {
            proof {
                assert(all.take(i + 1) =~= all.take(i as int).push(all[i as int]));
                lemma_filter_push_job(all.take(i as int), all[i as int], is_queued_job());
            }
            let ghost before = out@;
            if jobs[i].status == JobStatus::Queued {
                queue.enqueue(jobs[i].duplicate());
            }
            out.push(recovered_job(&jobs[i], now));
            assert(job_views(out@) =~= job_views(before).push(recovered(all[i as int], now)));
            assert(job_views(out@) =~= all.take(i + 1).map_values(|j: JobModel| recovered(j, now)));
            i = i + 1;
        }
        assert(all.take(jobs.len() as int) =~= all);
        let s = JobService {
            queue,
            jobs: out,
            cancellations: Vec::new(),
            worker_running: false,
            next_job_id: 1,
            engines,
        };
        assert(views(s.cancellations@) =~= Seq::<Seq<char>>::empty());
        s
    }

    fn find_index(&self, id: &str) -> (r: Option<usize>)
        ensures
            match r {
                Some(i) => i as int == find_job(self@.jobs, id@) && i < self.jobs.len(),
                None => find_job(self@.jobs, id@) == -1,
            },
    {
        let ghost all = self@.jobs;
        let mut i: usize = 0;
        while i < self.jobs.len()
            invariant
                i <= self.jobs.len(),
                all == job_views(self.jobs@),
                find_job(all, id@) == find_from(all, id@, i as int),
            decreases self.jobs.len() - i,
        {
            if same_text(self.jobs[i].id.as_str(), id) {
                assert(all[i as int].id == id@);
                return Some(i);
            }
            assert(all[i as int].id != id@);
            i = i + 1;
        }
        None
    }

    fn has_handle(&self, id: &str) -> (r: bool)
        ensures
            r == self@.handles.contains(id@),
    {
        is_reserved(&self.cancellations, id)
    }

    /// Every job, newest first.
    pub fn list_jobs(&self) -> (r: Vec<Job>)
        ensures
            job_views(r@) == newest_first(self@.jobs),
    {
        let ghost all = self@.jobs;
        let mut r: Vec<Job> = Vec::new();
        let mut i: usize = 0;
        while i < self.jobs.len()
            invariant
                i <= self.jobs.len(),
                all == job_views(self.jobs@),
                job_views(r@) == newest_first(all.take(i as int)),
            decreases self.jobs.len() - i,
        {
            let key = self.jobs[i].created_at;
            let mut p: usize = 0;
            while p < r.len() && r[p].created_at >= key
                invariant
                    p <= r.len(),
                    forall|k: int| 0 <= k < p ==> #[trigger] job_views(r@)[k].created_at >= key,
                decreases r.len() - p,
            {
                p = p + 1;
            }
            proof {
                lemma_newest_first_pos(job_views(r@), key, p as int);
                assert(all.take(i + 1).drop_last() =~= all.take(i as int));
            }
            let ghost before = r@;
            r.insert(p, self.jobs[i].duplicate());
            assert(job_views(r@) =~= job_views(before).insert(p as int, all[i as int]));
            i = i + 1;
        }
        assert(all.take(self.jobs.len() as int) =~= all);
        r
    }

    /// Decides whether a worker must be started, and marks it as running if so.
    pub fn start(&mut self) -> (spawn: bool)
        requires
            old(self).inv(),
        ensures
            final(self).inv(),
            (final(self)@, spawn) == start_model(old(self)@),
            final(self).engine_paths() == old(self).engine_paths(),
    {
        if self.worker_running || self.queue.pending_count() == 0 {
            false
        } else {
            self.worker_running = true;
            true
        }
    }

    /// Cancels a queued job, or confirms that a running job may be signalled to stop.
    pub fn cancel(&mut self, id: &str, now: u64) -> (r: Result<Job, String>)
        requires
            old(self).inv(),
        ensures
            final(self).inv(),
            final(self)@ == cancel_model(old(self)@, id@, now).0,
            match r {
                Ok(j) => cancel_model(old(self)@, id@, now).1 == Ok::<JobModel, Seq<char>>(j@),
                Err(e) => cancel_model(old(self)@, id@, now).1 == Err::<JobModel, Seq<char>>(e@),
            },
            final(self).engine_paths() == old(self).engine_paths(),
    {
        let i = match self.find_index(id) {
            Some(i) => i,
            None => return Err("Job not found".to_owned()),
        };
        let status = self.jobs[i].status;
        if status == JobStatus::Queued {
            self.queue.remove(id);
            let mut j = self.jobs[i].duplicate();
            j.status = JobStatus::Cancelled;
            j.finished_at = Some(now);
            let ghost before = self.jobs@;
            self.jobs.set(i, j.duplicate());
            assert(job_views(self.jobs@) =~= job_views(before).update(i as int, j@));
            Ok(j)
        } else if status == JobStatus::Running {
            if self.has_handle(id) {
                Ok(self.jobs[i].duplicate())
            } else {
                Err("Running job cancellation handle unavailable".to_owned())
            }
        } else {
            Err("Only queued or running jobs can be cancelled".to_owned())
        }
    }

    /// Forgets a completed, failed or cancelled job.
    pub fn delete_history_entry(&mut self, id: &str) -> (r: Result<(), String>)
        requires
            old(self).inv(),
        ensures
            final(self).inv(),
            final(self)@ == delete_model(old(self)@, id@).0,
            crate::text::check_view(r) == delete_model(old(self)@, id@).1,
            final(self).engine_paths() == old(self).engine_paths(),
    {
        let i = match self.find_index(id) {
            Some(i) => i,
            None => return Err("Job not found".to_owned()),
        };
        let status = self.jobs[i].status;
        if !(status == JobStatus::Completed || status == JobStatus::Failed || status == JobStatus::Cancelled) {
            return Err("Active jobs cannot be deleted; cancel the job first".to_owned());
        }
        let ghost before = self.jobs@;
        let _removed = self.jobs.remove(i);
        assert(job_views(self.jobs@) =~= job_views(before).remove(i as int));
        Ok(())
    }

    /// Forgets every completed and cancelled job; returns how many were forgotten.
    pub fn clear_history(&mut self) -> (removed: usize)
        requires
            old(self).inv(),
        ensures
            final(self).inv(),
            final(self)@ == (ServiceModel { jobs: old(self)@.jobs.filter(kept_by_clear()), ..old(self)@ }),
            removed == old(self)@.jobs.len() - final(self)@.jobs.len(),
            final(self).engine_paths() == old(self).engine_paths(),
    {
        let previous_len = self.jobs.len();
        let mut jobs: Vec<Job> = Vec::new();
        std::mem::swap(&mut jobs, &mut self.jobs);
        let kept = keep_jobs(jobs, true, false, true);
        self.jobs = kept;
        proof {
            old(self)@.jobs.lemma_filter_len(kept_by_clear());
        }
        previous_len - self.jobs.len()
    }

    /// Forgets the jobs of one history section: "completed" holds completed
    /// jobs, "failed" failed and cancelled ones.
    pub fn clear_history_section(&mut self, section: &str) -> (r: Result<usize, String>)
        requires
            old(self).inv(),
        ensures
            final(self).inv(),
            match section_model(old(self)@.jobs, section@) {
                Ok(jobs) => final(self)@ == (ServiceModel { jobs, ..old(self)@ }) && r is Ok
                    && r->Ok_0 == old(self)@.jobs.len() - jobs.len(),
                Err(e) => final(self)@ == old(self)@ && r is Err && r->Err_0@ == e,
            },
            final(self).engine_paths() == old(self).engine_paths(),
    {
        let completed = same_text(section, "completed");
        let failed = same_text(section, "failed");
        if !completed && !failed {
            return Err("Unknown job history section".to_owned());
        }
        let previous_len = self.jobs.len();
        let mut jobs: Vec<Job> = Vec::new();
        std::mem::swap(&mut jobs, &mut self.jobs);
        let kept = if completed { keep_jobs(jobs, true, false, false) } else { keep_jobs(jobs, false, true, true) };
        self.jobs = kept;
        proof {
            old(self)@.jobs.lemma_filter_len(kept_by_completed_cleanup());
            old(self)@.jobs.lemma_filter_len(kept_by_failed_cleanup());
        }
        Ok(previous_len - self.jobs.len())
    }

    /// The worker's next job: taken from the queue and recorded as running, with
    /// a cancellation handle registered. `None` when nothing can start, which
    /// also ends the worker.
    pub fn begin_next(&mut self, now: u64) -> (r: Option<Job>)
        requires
            old(self).inv(),
        ensures
            final(self).inv(),
            final(self)@ == begin_model(old(self)@, now).0,
            crate::application::job_queue::opt_job_view(r) == begin_model(old(self)@, now).1,
            final(self).engine_paths() == old(self).engine_paths(),
    {
        match self.queue.take_next() {
            None => {
                self.worker_running = false;
                None
            },
            Some(next) => {
                let ghost handles_before = self.cancellations@;
                self.cancellations.push(next.id.clone());
                assert(views(self.cancellations@) =~= views(handles_before).push(next.id@));
                match self.find_index(next.id.as_str()) {
                    Some(i) => {
                        let mut j = self.jobs[i].duplicate();
                        j.status = JobStatus::Running;
                        j.started_at = Some(now);
                        j.progress = 0;
                        let ghost before = self.jobs@;
                        self.jobs.set(i, j);
                        assert(job_views(self.jobs@) =~= job_views(before).update(i as int, job_views(self.jobs@)[i as int]));
                    },
                    None => {},
                }
                Some(next)
            },
        }
    }

    /// Records how the engine run of job `id` ended.
    pub fn complete(&mut self, id: &str, result: Result<ExecutionOutcome, String>, now: u64)
        requires
            old(self).inv(),
        ensures
            final(self).inv(),
            final(self)@ == complete_model(old(self)@, id@, run_result(result), now),
            final(self).engine_paths() == old(self).engine_paths(),
    {
        self.queue.finish_active();
        let mut handles: Vec<String> = Vec::new();
        std::mem::swap(&mut handles, &mut self.cancellations);
        self.cancellations = remove_text(handles, id);
        match self.find_index(id) {
            Some(i) => {
                let mut j = self.jobs[i].duplicate();
                j.finished_at = Some(now);
                match result {
                    Ok(ExecutionOutcome::Completed) => {
                        j.status = JobStatus::Completed;
                        j.progress = 100;
                        j.error = None;
                    },
                    Ok(ExecutionOutcome::Cancelled) => {
                        j.status = JobStatus::Cancelled;
                        j.error = None;
                    },
                    Err(message) => {
                        j.status = JobStatus::Failed;
                        j.error = Some(JobError { code: "conversion_failed".to_owned(), message });
                    },
                }
                let ghost before = self.jobs@;
                self.jobs.set(i, j);
                assert(job_views(self.jobs@) =~= job_views(before).update(i as int, job_views(self.jobs@)[i as int]));
            },
            None => {},
        }
    }

    /// Raises the progress of job `id`; returns whether anything changed.
    pub fn update_progress(&mut self, id: &str, progress: u8) -> (changed: bool)
        requires
            old(self).inv(),
        ensures
            final(self).inv(),
            (final(self)@, changed) == progress_model(old(self)@, id@, progress),
            final(self).engine_paths() == old(self).engine_paths(),
    {
        match self.find_index(id) {
            None => false,
            Some(i) => {
                if progress <= self.jobs[i].progress {
                    return false;
                }
                let mut j = self.jobs[i].duplicate();
                j.progress = progress;
                let ghost before = self.jobs@;
                self.jobs.set(i, j);
                assert(job_views(self.jobs@) =~= job_views(before).update(i as int, job_views(self.jobs@)[i as int]));
                true
            },
        }
    }
}

} // verus!

verus! {

proof fn lemma_find_from(jobs: Seq<JobModel>, id: Seq<char>, i: int)
    requires
        0 <= i,
    ensures
        find_from(jobs, id, i) == -1 || (i <= find_from(jobs, id, i) < jobs.len()
            && jobs[find_from(jobs, id, i)].id == id),
        find_from(jobs, id, i) == -1 ==> forall|k: int| i <= k < jobs.len() ==> #[trigger] jobs[k].id != id,
    decreases jobs.len() - i,
{
    if i < jobs.len() && jobs[i].id != id {
        lemma_find_from(jobs, id, i + 1);
    }
}

/// The position of the job with the given id, when there is one, names that job.
pub proof fn lemma_find_job(jobs: Seq<JobModel>, id: Seq<char>)
    ensures
        find_job(jobs, id) == -1 || (0 <= find_job(jobs, id) < jobs.len()
            && jobs[find_job(jobs, id)].id == id),
        find_job(jobs, id) == -1 <==> forall|k: int| 0 <= k < jobs.len() ==> #[trigger] jobs[k].id != id,
{
    lemma_find_from(jobs, id, 0);
}

/// Clearing the history forgets exactly the completed and cancelled jobs: every
/// queued, running or failed job stays, in its order, and none of the forgotten
/// statuses remains.
pub proof fn law_clear_history_preserves_active_jobs(m: ServiceModel)
    ensures
        forall|i: int| 0 <= i < m.jobs.len() && !(m.jobs[i].status == JobStatus::Completed
            || m.jobs[i].status == JobStatus::Cancelled)
            ==> m.jobs.filter(kept_by_clear()).contains(#[trigger] m.jobs[i]),
        forall|i: int| 0 <= i < m.jobs.filter(kept_by_clear()).len()
            ==> !(#[trigger] m.jobs.filter(kept_by_clear())[i].status == JobStatus::Completed
            || m.jobs.filter(kept_by_clear())[i].status == JobStatus::Cancelled),
{
    assert forall|i: int| 0 <= i < m.jobs.len() && !(m.jobs[i].status == JobStatus::Completed
        || m.jobs[i].status == JobStatus::Cancelled)
        implies m.jobs.filter(kept_by_clear()).contains(#[trigger] m.jobs[i]) by {
        m.jobs.lemma_filter_contains(kept_by_clear(), i);
    }
    assert forall|i: int| 0 <= i < m.jobs.filter(kept_by_clear()).len()
        implies !(#[trigger] m.jobs.filter(kept_by_clear())[i].status == JobStatus::Completed
        || m.jobs.filter(kept_by_clear())[i].status == JobStatus::Cancelled) by {
        m.jobs.lemma_filter_pred(kept_by_clear(), i);
    }
}

/// Clearing a history section removes only that section's jobs: queued and
/// running jobs always stay, and so do the jobs of the other section.
pub proof fn law_section_cleanup_removes_only_its_group(jobs: Seq<JobModel>, section: Seq<char>)
    ensures
        section_model(jobs, section) is Ok <==> (section == "completed"@ || section == "failed"@),
        section_model(jobs, section) matches Ok(kept) ==> {
            &&& forall|i: int| 0 <= i < jobs.len() && !is_history(jobs[i].status)
                ==> kept.contains(#[trigger] jobs[i])
            &&& section == "completed"@ ==> forall|i: int| 0 <= i < jobs.len()
                && jobs[i].status != JobStatus::Completed ==> kept.contains(#[trigger] jobs[i])
            &&& section == "failed"@ ==> forall|i: int| 0 <= i < jobs.len()
                && jobs[i].status == JobStatus::Completed ==> kept.contains(#[trigger] jobs[i])
            &&& section == "completed"@ ==> forall|i: int| 0 <= i < kept.len()
                ==> #[trigger] kept[i].status != JobStatus::Completed
            &&& section == "failed"@ ==> forall|i: int| 0 <= i < kept.len()
                ==> !(#[trigger] kept[i].status == JobStatus::Failed || kept[i].status == JobStatus::Cancelled)
        },
{
    reveal_strlit("completed");
    reveal_strlit("failed");
    let c = kept_by_completed_cleanup();
    let f = kept_by_failed_cleanup();
    if section == "completed"@ {
        assert("failed"@.len() != "completed"@.len());
        assert(section_model(jobs, section) == Ok::<Seq<JobModel>, Seq<char>>(jobs.filter(c)));
        assert forall|i: int| 0 <= i < jobs.len() && jobs[i].status != JobStatus::Completed
            implies jobs.filter(c).contains(#[trigger] jobs[i]) by {
            assert(c(jobs[i]));
            jobs.lemma_filter_contains(c, i);
        }
        assert forall|i: int| 0 <= i < jobs.filter(c).len() implies #[trigger] jobs.filter(c)[i].status != JobStatus::Completed by {
            jobs.lemma_filter_pred(c, i);
        }
    } else if section == "failed"@ {
        assert("failed"@.len() != "completed"@.len());
        assert(section_model(jobs, section) == Ok::<Seq<JobModel>, Seq<char>>(jobs.filter(f)));
        assert forall|i: int| 0 <= i < jobs.len() && !(jobs[i].status == JobStatus::Failed || jobs[i].status == JobStatus::Cancelled)
            implies jobs.filter(f).contains(#[trigger] jobs[i]) by {
            assert(f(jobs[i]));
            jobs.lemma_filter_contains(f, i);
        }
        assert forall|i: int| 0 <= i < jobs.len() && jobs[i].status == JobStatus::Completed
            implies jobs.filter(f).contains(#[trigger] jobs[i]) by {
            assert(f(jobs[i]));
            jobs.lemma_filter_contains(f, i);
        }
        assert forall|i: int| 0 <= i < jobs.filter(f).len()
            implies !(#[trigger] jobs.filter(f)[i].status == JobStatus::Failed || jobs.filter(f)[i].status == JobStatus::Cancelled) by {
            jobs.lemma_filter_pred(f, i);
            assert(f(jobs.filter(f)[i]));
        }
    }
}

/// Only history entries can be deleted; deleting one forgets exactly that entry.
pub proof fn law_delete_forgets_only_history(m: ServiceModel, id: Seq<char>)
    ensures
        delete_model(m, id).1 is Ok ==> {
            let i = find_job(m.jobs, id);
            &&& 0 <= i < m.jobs.len()
            &&& m.jobs[i].id == id
            &&& is_history(m.jobs[i].status)
            &&& delete_model(m, id).0.jobs == m.jobs.remove(i)
            &&& delete_model(m, id).0.queue == m.queue
        },
        delete_model(m, id).1 is Err ==> delete_model(m, id).0 == m,
        (exists|k: int| 0 <= k < m.jobs.len() && #[trigger] m.jobs[k].id == id
            && !is_history(m.jobs[k].status) && forall|l: int| 0 <= l < k ==> m.jobs[l].id != id)
            ==> delete_model(m, id).1 is Err,
{
    lemma_find_job(m.jobs, id);
    if exists|k: int| 0 <= k < m.jobs.len() && #[trigger] m.jobs[k].id == id
        && !is_history(m.jobs[k].status) && forall|l: int| 0 <= l < k ==> m.jobs[l].id != id {
        let k = choose|k: int| 0 <= k < m.jobs.len() && #[trigger] m.jobs[k].id == id
            && !is_history(m.jobs[k].status) && forall|l: int| 0 <= l < k ==> m.jobs[l].id != id;
        lemma_find_first(m.jobs, id, k);
    }
}

proof fn lemma_find_first(jobs: Seq<JobModel>, id: Seq<char>, k: int)
    requires
        0 <= k < jobs.len(),
        jobs[k].id == id,
        forall|l: int| 0 <= l < k ==> jobs[l].id != id,
    ensures
        find_job(jobs, id) == k,
{
    assert forall|i: int| 0 <= i <= k implies #[trigger] find_from(jobs, id, i) == k by {
        lemma_find_down(jobs, id, k, i);
    }
}

proof fn lemma_find_down(jobs: Seq<JobModel>, id: Seq<char>, k: int, i: int)
    requires
        0 <= i <= k < jobs.len(),
        jobs[k].id == id,
        forall|l: int| 0 <= l < k ==> jobs[l].id != id,
    ensures
        find_from(jobs, id, i) == k,
    decreases k - i,
{
    if i < k {
        lemma_find_down(jobs, id, k, i + 1);
    }
}

/// Cancelling a queued job removes it from the queue, so it never starts, and
/// records it as cancelled; cancelling a finished job changes nothing.
pub proof fn law_cancelled_queued_job_never_runs(m: ServiceModel, id: Seq<char>, now: u64)
    ensures
        ({
            let i = find_job(m.jobs, id);
            0 <= i < m.jobs.len() && m.jobs[i].status == JobStatus::Queued ==> {
                let after = cancel_model(m, id, now).0;
                &&& cancel_model(m, id, now).1 is Ok
                &&& after.jobs[i].status == JobStatus::Cancelled
                &&& after.jobs[i].finished_at == Some(now)
                &&& forall|k: int| 0 <= k < after.queue.pending.len() ==> #[trigger] after.queue.pending[k].id != id
                &&& forall|k: int| 0 <= k < m.jobs.len() && k != i ==> #[trigger] after.jobs[k] == m.jobs[k]
            }
        }),
        ({
            let i = find_job(m.jobs, id);
            0 <= i < m.jobs.len() && is_history(m.jobs[i].status) ==> {
                &&& cancel_model(m, id, now).0 == m
                &&& cancel_model(m, id, now).1 == Err::<JobModel, Seq<char>>("Only queued or running jobs can be cancelled"@)
            }
        }),
{
    crate::application::job_queue::law_removed_job_is_gone(m.queue, id);
}

/// Progress never goes backwards, and reporting it changes nothing but progress.
pub proof fn law_progress_is_monotonic(m: ServiceModel, id: Seq<char>, progress: u8)
    ensures
        progress_model(m, id, progress).0.jobs.len() == m.jobs.len(),
        forall|k: int| 0 <= k < m.jobs.len() ==> #[trigger] progress_model(m, id, progress).0.jobs[k].progress >= m.jobs[k].progress,
        forall|k: int| 0 <= k < m.jobs.len() ==> #[trigger] progress_model(m, id, progress).0.jobs[k].status == m.jobs[k].status,
        progress_model(m, id, progress).0.queue == m.queue,
{
    lemma_find_job(m.jobs, id);
}

/// After a restart no job is running: jobs that were running are failed as
/// interrupted, every other record is kept, and queued jobs wait in the queue
/// in the order they had before.
pub proof fn law_restart_recovers_interrupted_jobs(jobs: Seq<JobModel>, now: u64)
    ensures
        restored(jobs, now).jobs.len() == jobs.len(),
        forall|i: int| 0 <= i < jobs.len() ==> #[trigger] restored(jobs, now).jobs[i].status != JobStatus::Running,
        forall|i: int| 0 <= i < jobs.len() && jobs[i].status == JobStatus::Running ==> {
            &&& #[trigger] restored(jobs, now).jobs[i].status == JobStatus::Failed
            &&& restored(jobs, now).jobs[i].finished_at == Some(now)
            &&& restored(jobs, now).jobs[i].error == Some(JobErrorModel {
                code: "interrupted"@,
                message: "The application closed before this job finished"@,
            })
        },
        forall|i: int| 0 <= i < jobs.len() && jobs[i].status != JobStatus::Running
            ==> #[trigger] restored(jobs, now).jobs[i] == jobs[i],
        restored(jobs, now).queue.pending == jobs.filter(is_queued_job()),
        restored(jobs, now).queue.active == 0,
{
}

/// The service runs jobs one at a time: with a limit of one on the queue, no
/// job is running while the queue counts none as active, and at most one job
/// is running otherwise.
pub open spec fn runs_serially(m: ServiceModel) -> bool {
    &&& m.queue.limit == 1
    &&& m.queue.active <= 1
    &&& forall|i: int, j: int| 0 <= i < m.jobs.len() && 0 <= j < m.jobs.len() && m.jobs[i].status == JobStatus::Running
        && m.jobs[j].status == JobStatus::Running ==> i == j
    &&& m.queue.active == 0 ==> forall|i: int| 0 <= i < m.jobs.len() ==> m.jobs[i].status != JobStatus::Running
}

/// No two job records share an id.
pub open spec fn distinct_ids(jobs: Seq<JobModel>) -> bool {
    forall|i: int, j: int| 0 <= i < jobs.len() && 0 <= j < jobs.len() && jobs[i].id == jobs[j].id ==> i == j
}

/// At most one job runs at a time, and jobs run in turn: while one is running
/// the worker starts no other; starting the next queued job makes it the only
/// running one; when the running job's run ends, no job is running until the
/// worker starts the next; the worker stops only when no job is pending.
/// Reporting progress and cancelling keep this.
pub proof fn law_jobs_run_one_at_a_time(m: ServiceModel, now: u64, id: Seq<char>, result: RunResult, progress: u8)
    requires
        runs_serially(m),
        distinct_ids(m.jobs),
    ensures
        (exists|k: int| 0 <= k < m.jobs.len() && m.jobs[k].status == JobStatus::Running) ==> begin_model(m, now).1 is None,
        begin_model(m, now).1 is None && m.queue.active == 0 ==> m.queue.pending.len() == 0
            && !begin_model(m, now).0.worker_running,
        runs_serially(begin_model(m, now).0),
        begin_model(m, now).1 matches Some(job) ==> forall|i: int| 0 <= i < begin_model(m, now).0.jobs.len()
            && begin_model(m, now).0.jobs[i].status == JobStatus::Running ==> begin_model(m, now).0.jobs[i].id == job.id,
        (exists|k: int| 0 <= k < m.jobs.len() && m.jobs[k].status == JobStatus::Running && m.jobs[k].id == id) ==> {
            let done = complete_model(m, id, result, now);
            &&& runs_serially(done)
            &&& forall|i: int| 0 <= i < done.jobs.len() ==> done.jobs[i].status != JobStatus::Running
        },
        runs_serially(progress_model(m, id, progress).0),
        runs_serially(cancel_model(m, id, now).0),
{
    let (q, o) = take_next_model(m.queue);
    if o is Some {
        let job = o->0;
        let b = begin_model(m, now).0;
        lemma_find_job(m.jobs, job.id);
        let i = find_job(m.jobs, job.id);
        assert(m.queue.active == 0);
        assert forall|x: int, y: int| 0 <= x < b.jobs.len() && 0 <= y < b.jobs.len() && b.jobs[x].status
            == JobStatus::Running && b.jobs[y].status == JobStatus::Running implies x == y by {
            if i >= 0 {
                assert(x == i && y == i);
            }
        }
    }
    if exists|k: int| 0 <= k < m.jobs.len() && m.jobs[k].status == JobStatus::Running && m.jobs[k].id == id {
        let k = choose|k: int| 0 <= k < m.jobs.len() && m.jobs[k].status == JobStatus::Running && m.jobs[k].id == id;
        lemma_find_job(m.jobs, id);
        let f = find_job(m.jobs, id);
        assert(f == k);
        let done = complete_model(m, id, result, now);
        assert forall|i: int| 0 <= i < done.jobs.len() implies done.jobs[i].status != JobStatus::Running by {
            if i != k {
                assert(done.jobs[i] == m.jobs[i]);
            }
        }
    }
    lemma_find_job(m.jobs, id);
    let c = cancel_model(m, id, now).0;
    let fi = find_job(m.jobs, id);
    if fi >= 0 && m.jobs[fi].status == JobStatus::Queued {
        assert forall|x: int| 0 <= x < c.jobs.len() && c.jobs[x].status == JobStatus::Running implies x != fi
            && m.jobs[x].status == JobStatus::Running by {
        }
        assert(remove_model(m.queue, id).limit == 1);
    }
}

/// The job that the worker starts is recorded as running with a cancellation
/// handle, and once its run completes it is recorded as completed at 100% with
/// no error and no handle.
pub proof fn law_worker_lifecycle(m: ServiceModel, start: u64, end: u64)
    requires
        begin_model(m, start).1 is Some,
        find_job(m.jobs, begin_model(m, start).1->0.id) >= 0,
    ensures
        ({
            let started = begin_model(m, start).0;
            let job = begin_model(m, start).1->0;
            let i = find_job(m.jobs, job.id);
            let done = complete_model(started, job.id, RunResult::Finished(ExecutionOutcome::Completed), end);
            &&& job == running(m.queue.pending[0])
            &&& started.jobs[i].status == JobStatus::Running
            &&& started.jobs[i].started_at == Some(start)
            &&& started.handles.contains(job.id)
            &&& cancel_model(started, job.id, end).1 is Ok
            &&& done.jobs[i].status == JobStatus::Completed
            &&& done.jobs[i].progress == 100
            &&& done.jobs[i].error is None
            &&& done.jobs[i].finished_at == Some(end)
            &&& !done.handles.contains(job.id)
            &&& done.queue.active == m.queue.active
        }),
{
    let started = begin_model(m, start).0;
    let job = begin_model(m, start).1->0;
    let i = find_job(m.jobs, job.id);
    lemma_find_job(m.jobs, job.id);
    assert(started.handles.last() == job.id);
    assert(started.handles.contains(job.id));
    assert(started.jobs.len() == m.jobs.len());
    lemma_same_ids_find(m.jobs, started.jobs, job.id);
    let f = other_id(job.id);
    if started.handles.filter(f).contains(job.id) {
        let k = choose|k: int| 0 <= k < started.handles.filter(f).len() && started.handles.filter(f)[k] == job.id;
        started.handles.lemma_filter_pred(f, k);
    }
}

proof fn lemma_same_ids_find(a: Seq<JobModel>, b: Seq<JobModel>, id: Seq<char>)
    requires
        a.len() == b.len(),
        forall|k: int| 0 <= k < a.len() ==> #[trigger] a[k].id == b[k].id,
    ensures
        find_job(a, id) == find_job(b, id),
{
    assert forall|i: int| 0 <= i <= a.len() implies #[trigger] find_from(a, id, i) == find_from(b, id, i) by {
        lemma_same_ids_find_from(a, b, id, i);
    }
}

proof fn lemma_same_ids_find_from(a: Seq<JobModel>, b: Seq<JobModel>, id: Seq<char>, i: int)
    requires
        a.len() == b.len(),
        0 <= i <= a.len(),
        forall|k: int| 0 <= k < a.len() ==> #[trigger] a[k].id == b[k].id,
    ensures
        find_from(a, id, i) == find_from(b, id, i),
    decreases a.len() - i,
{
    if i < a.len() {
        lemma_same_ids_find_from(a, b, id, i + 1);
    }
}

} // verus!

verus! {

proof fn lemma_pos_spec(s: Seq<JobModel>, key: u64)
    ensures
        newest_first_pos(s, key) <= s.len(),
        forall|k: int| 0 <= k < newest_first_pos(s, key) ==> #[trigger] s[k].created_at >= key,
        newest_first_pos(s, key) < s.len() ==> s[newest_first_pos(s, key) as int].created_at < key,
    decreases s.len(),
{
    if s.len() > 0 && s[0].created_at >= key {
        lemma_pos_spec(s.drop_first(), key);
        assert forall|k: int| 0 <= k < newest_first_pos(s, key) implies #[trigger] s[k].created_at >= key by {
            if k > 0 {
                assert(s[k] == s.drop_first()[k - 1]);
            }
        }
    }
}

/// The job list is shown newest first: it holds the same jobs, each later one
/// created no later than the one before it, and jobs created at the same time
/// keep the order in which they were recorded.
pub proof fn law_list_is_newest_first(s: Seq<JobModel>)
    ensures
        newest_first(s).len() == s.len(),
        newest_first(s).to_multiset() == s.to_multiset(),
        forall|i: int, j: int| 0 <= i < j < s.len() ==> #[trigger] newest_first(s)[i].created_at >= #[trigger] newest_first(s)[j].created_at,
    decreases s.len(),
{
    broadcast use vstd::seq_lib::to_multiset_insert, vstd::seq_lib::to_multiset_build;
    if s.len() > 0 {
        let rest = newest_first(s.drop_last());
        let x = s.last();
        let p = newest_first_pos(rest, x.created_at) as int;
        law_list_is_newest_first(s.drop_last());
        lemma_pos_spec(rest, x.created_at);
        let r = rest.insert(p, x);
        assert(s.drop_last().push(x) =~= s);
        assert forall|i: int, j: int| 0 <= i < j < s.len() implies #[trigger] r[i].created_at >= #[trigger] r[j].created_at by {
            if j < p {
            } else if j == p {
            } else if i < p {
                assert(r[j] == rest[j - 1]);
            } else if i == p {
                assert(r[j] == rest[j - 1]);
                assert(rest[p].created_at >= rest[j - 1].created_at);
            } else {
                assert(r[i] == rest[i - 1]);
                assert(r[j] == rest[j - 1]);
            }
        }
    }
}

} // verus!

verus! {

/// The id of the job accepted at `now` with counter value `n`: `now-n`.
pub open spec fn job_id(now: u64, n: u64) -> Seq<char> {
    decimal(now as nat) + "-"@ + decimal(n as nat)
}

/// The counter after one id was issued; it wraps around after the largest value.
pub open spec fn next_counter(n: u64) -> u64 {
    if n == u64::MAX { 0 } else { (n + 1) as u64 }
}

/// The counter after `i` ids were issued.
pub open spec fn counter_after(n: u64, i: nat) -> u64
    decreases i,
{
    if i == 0 { n } else { next_counter(counter_after(n, (i - 1) as nat)) }
}

/// Uses up `k` job ids, as a batch does for the jobs it planned before one
/// failed.
pub fn skip_ids(counter: &mut u64, k: usize)
    ensures
        *final(counter) == counter_after(*old(counter), k as nat),
{
    let mut i: usize = 0;
    while i < k
        invariant
            i <= k,
            *counter == counter_after(*old(counter), i as nat),
        decreases k - i,
    {
        *counter = if *counter == u64::MAX { 0 } else { *counter + 1 };
        i = i + 1;
    }
}

/// Issues the next job id for a job accepted at `now`.
pub fn issue_id(counter: &mut u64, now: u64) -> (id: String)
    ensures
        id@ == job_id(now, *old(counter)),
        *final(counter) == next_counter(*old(counter)),
{
    let mut v: Vec<char> = Vec::new();
    push_decimal(&mut v, now);
    v.push('-');
    push_decimal(&mut v, *counter);
    assert(v@ =~= decimal(now as nat) + "-"@ + decimal(*old(counter) as nat)) by {
        reveal_strlit("-");
    }
    *counter = if *counter == u64::MAX { 0 } else { *counter + 1 };
    string_of(&v)
}

} // verus!

verus! {

/// The service after accepting the jobs `new`: each is queued and recorded, in
/// order, and the id counter stands at `next_id`.
pub open spec fn accept_model(m: ServiceModel, new: Seq<JobModel>, next_id: u64) -> ServiceModel {
    ServiceModel {
        queue: QueueModel { pending: m.queue.pending + new, ..m.queue },
        jobs: m.jobs + new,
        next_id,
        ..m
    }
}

/// The outcome of a request for one job: refused with the verdict's error and
/// nothing changed, or accepted as `job` with the next id.
pub open spec fn single_outcome(m0: ServiceModel, m1: ServiceModel, verdict: Result<(), Seq<char>>, job: JobModel, r: Result<Job, String>) -> bool {
    match verdict {
        Err(e) => r is Err && r->Err_0@ == e && m1 == m0,
        Ok(()) => r is Ok && r->Ok_0@ == job && m1 == accept_model(m0, seq![job], next_counter(m0.next_id)),
    }
}

/// The job made of the `i`-th file of a batch and its planned output.
pub open spec fn batch_job(t: FolderTarget, input: Seq<char>, output: Seq<char>, id: Seq<char>, now: u64) -> JobModel {
    match t {
        FolderTarget::Audio(f) => queued(id, "audio_conversion"@,
            JobKindModel::AudioConversion { input_path: input, output_path: output, format: f }, now),
        FolderTarget::Office => queued(id, "office_to_pdf"@,
            JobKindModel::OfficeToPdf { input_path: input, output_path: output }, now),
        FolderTarget::Docx => queued(id, "pdf_to_docx"@,
            JobKindModel::PdfToDocx { input_path: input, output_path: output }, now),
        FolderTarget::ImagePdf => queued(id, "images_to_pdf"@,
            JobKindModel::ImagesToPdf { input_paths: seq![input], output_path: output }, now),
    }
}

/// The jobs of a batch, with consecutive ids from counter value `n`.
pub open spec fn batch_jobs(t: FolderTarget, files: Seq<Seq<char>>, outs: Seq<Seq<char>>, now: u64, n: u64) -> Seq<JobModel> {
    Seq::new(outs.len(), |i: int| batch_job(t, files[i], outs[i], job_id(now, counter_after(n, i as nat)), now))
}

/// The outcome of enqueueing a batch of `files`: every file planned and its job
/// accepted, or the error of the first file that failed with nothing changed.
pub open spec fn file_batch_outcome<F: Fn(&str) -> bool>(
    probe: F,
    t: FolderTarget,
    dir: Seq<char>,
    directory_kind: PathKind,
    files: Seq<Seq<char>>,
    now: u64,
    m0: ServiceModel,
    m1: ServiceModel,
    r: Result<Vec<Job>, String>,
) -> bool {
    match r {
        Ok(jobs) => exists|outs: Seq<Seq<char>>| #[trigger] plan_ok(probe, t, dir, directory_kind, files, outs)
            && outs.len() == files.len()
            && job_views(jobs@) == batch_jobs(t, files, outs, now, m0.next_id)
            && m1 == accept_model(m0, job_views(jobs@), counter_after(m0.next_id, files.len())),
        Err(e) => if t is Audio {
            plan_failed(probe, t, dir, directory_kind, files, e@) && m1 == m0
        } else {
            exists|k: nat| #[trigger] plan_failed_after(probe, t, dir, directory_kind, files, k, e@)
                && m1 == (ServiceModel { next_id: counter_after(m0.next_id, k), ..m0 })
        },
    }
}

pub open spec fn ffmpeg_unavailable() -> Seq<char> {
    "The bundled FFmpeg executable is unavailable"@
}

pub open spec fn qpdf_unavailable() -> Seq<char> {
    "The bundled qpdf executable is unavailable"@
}

pub open spec fn pdfium_unavailable() -> Seq<char> {
    "The bundled PDFium library is unavailable"@
}

pub open spec fn libreoffice_missing() -> Seq<char> {
    "LibreOffice is not installed"@
}

pub open spec fn office_tools_unavailable() -> Seq<char> {
    "LibreOffice or the bundled PDF validator is unavailable"@
}

pub open spec fn docx_runtime_missing() -> Seq<char> {
    "Python, PyMuPDF, and pdf2docx are required"@
}

pub open spec fn docx_runtime_unavailable() -> Seq<char> {
    "Python PDF-to-Word dependencies are unavailable"@
}

pub open spec fn office_none_found() -> Seq<char> {
    "No supported Office files were found in the selected folder (DOCX, XLSX, or PPTX)"@
}

/// The LibreOffice executable to use: the one the dependency settings give when
/// they give one, else the configured one.
pub open spec fn resolve_libreoffice(from_settings: Option<Option<String>>, configured: Option<String>) -> Option<Seq<char>> {
    match from_settings {
        Some(Some(p)) => Some(p@),
        _ => match configured {
            Some(p) => Some(p@),
            None => None,
        },
    }
}

/// The Python interpreter and worker script for PDF-to-Word: what the
/// dependency settings give when there are settings, else both configured paths.
pub open spec fn resolve_docx_runtime(
    from_settings: Option<Option<(String, String)>>,
    python: Option<String>,
    worker: Option<String>,
) -> Option<(Seq<char>, Seq<char>)> {
    match from_settings {
        Some(answer) => match answer {
            Some(pair) => Some((pair.0@, pair.1@)),
            None => None,
        },
        None => match (python, worker) {
            (Some(p), Some(w)) => Some((p@, w@)),
            _ => None,
        },
    }
}

} // verus!

verus! {

fn make_batch_job(t: FolderTarget, input: &str, output: &str, id: &str, now: u64) -> (j: Job)
    ensures
        j@ == batch_job(t, input@, output@, id@, now),
{
    match t {
        FolderTarget::Audio(f) => Job::queued_audio(id, input, output, f, now),
        FolderTarget::Office => Job::queued_office_to_pdf(id, input, output, now),
        FolderTarget::Docx => Job::queued_pdf_to_docx(id, input, output, now),
        FolderTarget::ImagePdf => {
            let mut one: Vec<String> = Vec::new();
            one.push(input.to_owned());
            assert(views(one@) =~= seq![input@]);
            Job::queued_images_to_pdf(id, one, output, now)
        },
    }
}

impl JobService {
    /// The configured engine locations.
    pub fn engines(&self) -> (r: &EnginePaths)
        ensures
            r == self.engine_paths(),
    {
        &self.engines
    }

    /// Queues and records the jobs, in order.
    fn accept(&mut self, jobs: &Vec<Job>)
        requires
            old(self).inv(),
        ensures
            final(self).inv(),
            final(self)@ == accept_model(old(self)@, job_views(jobs@), old(self)@.next_id),
            final(self).engine_paths() == old(self).engine_paths(),
    {
        let ghost m0 = self@;
        let mut i: usize = 0;
        while i < jobs.len()
            invariant
                i <= jobs.len(),
                self.inv(),
                self@ == accept_model(m0, job_views(jobs@).take(i as int), m0.next_id),
                self.engine_paths() == old(self).engine_paths(),
            decreases jobs.len() - i,
        {
            let ghost before = self.jobs@;
            self.queue.enqueue(jobs[i].duplicate());
            self.jobs.push(jobs[i].duplicate());
            proof {
                assert(job_views(jobs@).take(i + 1) =~= job_views(jobs@).take(i as int).push(jobs@[i as int]@));
                assert(job_views(self.jobs@) =~= job_views(before).push(jobs@[i as int]@));
            }
            i = i + 1;
        }
        assert(job_views(jobs@).take(jobs.len() as int) =~= job_views(jobs@));
    }

    /// Queues and records one job and gives it back.
    fn accept_one(&mut self, job: Job) -> (r: Job)
        requires
            old(self).inv(),
        ensures
            final(self).inv(),
            r@ == job@,
            final(self)@ == accept_model(old(self)@, seq![job@], old(self)@.next_id),
            final(self).engine_paths() == old(self).engine_paths(),
    {
        let mut jobs: Vec<Job> = Vec::new();
        jobs.push(job.duplicate());
        assert(job_views(jobs@) =~= seq![job@]);
        self.accept(&jobs);
        job
    }

    /// Issues ids for the jobs of a batch, one per input and its output, and
    /// accepts them.
    fn issue_batch(&mut self, t: FolderTarget, inputs: &Vec<String>, outputs: &Vec<String>, now: u64) -> (jobs: Vec<Job>)
        requires
            old(self).inv(),
            inputs.len() == outputs.len(),
        ensures
            final(self).inv(),
            job_views(jobs@) == batch_jobs(t, views(inputs@), views(outputs@), now, old(self)@.next_id),
            final(self)@ == accept_model(old(self)@, job_views(jobs@), counter_after(old(self)@.next_id, inputs.len() as nat)),
            final(self).engine_paths() == old(self).engine_paths(),
    {
        let ghost m0 = self@;
        let ghost target = batch_jobs(t, views(inputs@), views(outputs@), now, m0.next_id);
        let mut jobs: Vec<Job> = Vec::new();
        let mut i: usize = 0;
        while i < inputs.len()
            invariant
                i <= inputs.len(),
                inputs.len() == outputs.len(),
                self.inv(),
                self@ == (ServiceModel { next_id: counter_after(m0.next_id, i as nat), ..m0 }),
                target == batch_jobs(t, views(inputs@), views(outputs@), now, m0.next_id),
                job_views(jobs@) == target.take(i as int),
                self.engine_paths() == old(self).engine_paths(),
            decreases inputs.len() - i,
        {
            let id = issue_id(&mut self.next_job_id, now);
            let ghost before = jobs@;
            jobs.push(make_batch_job(t, inputs[i].as_str(), outputs[i].as_str(), id.as_str(), now));
            proof {
                assert(views(inputs@)[i as int] == inputs@[i as int]@);
                assert(views(outputs@)[i as int] == outputs@[i as int]@);
                assert(job_views(jobs@) =~= job_views(before).push(jobs@[i as int]@));
                assert(job_views(jobs@) =~= target.take(i + 1));
            }
            i = i + 1;
        }
        assert(target.take(inputs.len() as int) =~= target);
        self.accept(&jobs);
        jobs
    }

    /// The LibreOffice executable to use, given what the dependency settings
    /// report (`None` when the service has no settings).
    pub fn resolved_libreoffice_path(&self, from_settings: Option<Option<String>>) -> (r: Option<String>)
        ensures
            opt_view(r) == resolve_libreoffice(from_settings, self.engine_paths().libreoffice_path),
    {
        match from_settings {
            Some(Some(p)) => Some(p),
            _ => match &self.engines.libreoffice_path {
                Some(p) => Some(p.clone()),
                None => None,
            },
        }
    }

    /// The Python interpreter and worker script for PDF-to-Word, given what the
    /// dependency settings report (`None` when the service has no settings).
    pub fn resolved_pdf_to_docx_runtime(&self, from_settings: Option<Option<(String, String)>>) -> (r: Option<(String, String)>)
        ensures
            match r {
                Some(pair) => resolve_docx_runtime(from_settings, self.engine_paths().python_path,
                    self.engine_paths().pdf_to_docx_worker_path) == Some((pair.0@, pair.1@)),
                None => resolve_docx_runtime(from_settings, self.engine_paths().python_path,
                    self.engine_paths().pdf_to_docx_worker_path) is None,
            },
    {
        match from_settings {
            Some(answer) => answer,
            None => match (&self.engines.python_path, &self.engines.pdf_to_docx_worker_path) {
                (Some(p), Some(w)) => Some((p.clone(), w.clone())),
                _ => None,
            },
        }
    }
}

} // verus!

verus! {

impl JobService {
    /// Accepts an audio conversion. The kinds describe what is found at the
    /// input, the output and the output's parent directory.
    pub fn enqueue_audio(
        &mut self,
        input_path: &str,
        output_path: &str,
        format: AudioFormat,
        input_kind: PathKind,
        output_kind: PathKind,
        parent_kind: PathKind,
        now: u64,
    ) -> (r: Result<Job, String>)
        requires
            old(self).inv(),
        ensures
            final(self).inv(),
            final(self).engine_paths() == old(self).engine_paths(),
            single_outcome(
                old(self)@,
                final(self)@,
                if old(self).engine_paths().ffmpeg_path is None {
                    Err(ffmpeg_unavailable())
                } else {
                    audio_request_check(input_path@, output_path@, format, input_kind, output_kind, parent_kind)
                },
                queued(job_id(now, old(self)@.next_id), "audio_conversion"@,
                    JobKindModel::AudioConversion { input_path: input_path@, output_path: output_path@, format }, now),
                r,
            ),
    {
        if self.engines.ffmpeg_path.is_none() {
            return Err("The bundled FFmpeg executable is unavailable".to_owned());
        }
        match audio_converter::validate_request(input_path, output_path, format, input_kind, output_kind, parent_kind) {
            Err(e) => return Err(e),
            Ok(()) => {},
        }
        let id = issue_id(&mut self.next_job_id, now);
        let job = Job::queued_audio(id.as_str(), input_path, output_path, format, now);
        Ok(self.accept_one(job))
    }

    /// Accepts a PDF page operation; `facts` describes what is found on disk.
    pub fn enqueue_pdf(&mut self, operation: PdfOperation, facts: &OperationFacts, now: u64) -> (r: Result<Job, String>)
        requires
            old(self).inv(),
        ensures
            final(self).inv(),
            final(self).engine_paths() == old(self).engine_paths(),
            single_outcome(
                old(self)@,
                final(self)@,
                if old(self).engine_paths().qpdf_path is None {
                    Err(qpdf_unavailable())
                } else {
                    pdf_request_check(operation@, facts.input_kinds@, facts.output_kind, facts.output_parent_kind)
                },
                queued(job_id(now, old(self)@.next_id), "pdf_operation"@,
                    JobKindModel::PdfOperation { operation: operation@ }, now),
                r,
            ),
    {
        if self.engines.qpdf_path.is_none() {
            return Err("The bundled qpdf executable is unavailable".to_owned());
        }
        match pdf_converter::validate_request(&operation, facts) {
            Err(e) => return Err(e),
            Ok(()) => {},
        }
        let id = issue_id(&mut self.next_job_id, now);
        let job = Job::queued_pdf(id.as_str(), operation, now);
        Ok(self.accept_one(job))
    }

    /// Accepts combining images into one PDF. `qpdf_is_file` tells whether the
    /// configured qpdf path names a file.
    pub fn enqueue_images_to_pdf(
        &mut self,
        input_paths: Vec<String>,
        output_path: &str,
        input_kinds: &Vec<PathKind>,
        output_kind: PathKind,
        parent_kind: PathKind,
        qpdf_is_file: bool,
        now: u64,
    ) -> (r: Result<Job, String>)
        requires
            old(self).inv(),
        ensures
            final(self).inv(),
            final(self).engine_paths() == old(self).engine_paths(),
            single_outcome(
                old(self)@,
                final(self)@,
                if old(self).engine_paths().qpdf_path is None || !qpdf_is_file {
                    Err(qpdf_unavailable())
                } else {
                    image_request_check(views(input_paths@), input_kinds@, output_path@, output_kind, parent_kind)
                },
                queued(job_id(now, old(self)@.next_id), "images_to_pdf"@,
                    JobKindModel::ImagesToPdf { input_paths: views(input_paths@), output_path: output_path@ }, now),
                r,
            ),
    {
        if self.engines.qpdf_path.is_none() || !qpdf_is_file {
            return Err("The bundled qpdf executable is unavailable".to_owned());
        }
        match image_converter::validate_request(&input_paths, input_kinds, output_path, output_kind, parent_kind) {
            Err(e) => return Err(e),
            Ok(()) => {},
        }
        let id = issue_id(&mut self.next_job_id, now);
        let job = Job::queued_images_to_pdf(id.as_str(), input_paths, output_path, now);
        Ok(self.accept_one(job))
    }

    /// Accepts rendering the pages of a PDF as images. `pdfium_is_file` tells
    /// whether the configured PDFium path names a file.
    pub fn enqueue_pdf_to_images(
        &mut self,
        input_path: &str,
        output_directory: &str,
        format: PdfImageFormat,
        dpi: u16,
        input_kind: PathKind,
        directory_kind: PathKind,
        pdfium_is_file: bool,
        now: u64,
    ) -> (r: Result<Job, String>)
        requires
            old(self).inv(),
        ensures
            final(self).inv(),
            final(self).engine_paths() == old(self).engine_paths(),
            single_outcome(
                old(self)@,
                final(self)@,
                if old(self).engine_paths().pdfium_path is None || !pdfium_is_file {
                    Err(pdfium_unavailable())
                } else {
                    pdf_image_request_check(input_path@, output_directory@, dpi, input_kind, directory_kind)
                },
                queued(job_id(now, old(self)@.next_id), "pdf_to_images"@,
                    JobKindModel::PdfToImages { input_path: input_path@, output_directory: output_directory@, format, dpi }, now),
                r,
            ),
    {
        if self.engines.pdfium_path.is_none() || !pdfium_is_file {
            return Err("The bundled PDFium library is unavailable".to_owned());
        }
        match pdf_image_converter::validate_request(input_path, output_directory, format, dpi, input_kind, directory_kind) {
            Err(e) => return Err(e),
            Ok(()) => {},
        }
        let id = issue_id(&mut self.next_job_id, now);
        let job = Job::queued_pdf_to_images(id.as_str(), input_path, output_directory, format, dpi, now);
        Ok(self.accept_one(job))
    }

    /// Accepts converting an Office document to PDF. `libreoffice` is the
    /// resolved LibreOffice executable and `libreoffice_is_file` whether it
    /// names a file.
    pub fn enqueue_office_to_pdf(
        &mut self,
        input_path: &str,
        output_path: &str,
        input_kind: PathKind,
        output_kind: PathKind,
        parent_kind: PathKind,
        libreoffice: Option<String>,
        libreoffice_is_file: bool,
        now: u64,
    ) -> (r: Result<Job, String>)
        requires
            old(self).inv(),
        ensures
            final(self).inv(),
            final(self).engine_paths() == old(self).engine_paths(),
            single_outcome(
                old(self)@,
                final(self)@,
                if libreoffice is None {
                    Err(libreoffice_missing())
                } else if !libreoffice_is_file || old(self).engine_paths().qpdf_path is None {
                    Err(office_tools_unavailable())
                } else {
                    office_request_check(input_path@, output_path@, input_kind, output_kind, parent_kind)
                },
                queued(job_id(now, old(self)@.next_id), "office_to_pdf"@,
                    JobKindModel::OfficeToPdf { input_path: input_path@, output_path: output_path@ }, now),
                r,
            ),
    {
        if libreoffice.is_none() {
            return Err("LibreOffice is not installed".to_owned());
        }
        if !libreoffice_is_file || self.engines.qpdf_path.is_none() {
            return Err("LibreOffice or the bundled PDF validator is unavailable".to_owned());
        }
        match office_converter::validate_request(input_path, output_path, input_kind, output_kind, parent_kind) {
            Err(e) => return Err(e),
            Ok(()) => {},
        }
        let id = issue_id(&mut self.next_job_id, now);
        let job = Job::queued_office_to_pdf(id.as_str(), input_path, output_path, now);
        Ok(self.accept_one(job))
    }

    /// Accepts converting a PDF to a Word document. `runtime` is the resolved
    /// interpreter and worker script; the flags tell whether each names a file.
    pub fn enqueue_pdf_to_docx(
        &mut self,
        input_path: &str,
        output_path: &str,
        input_kind: PathKind,
        output_kind: PathKind,
        parent_kind: PathKind,
        runtime: Option<(String, String)>,
        python_is_file: bool,
        worker_is_file: bool,
        now: u64,
    ) -> (r: Result<Job, String>)
        requires
            old(self).inv(),
        ensures
            final(self).inv(),
            final(self).engine_paths() == old(self).engine_paths(),
            single_outcome(
                old(self)@,
                final(self)@,
                if runtime is None {
                    Err(docx_runtime_missing())
                } else if !python_is_file || !worker_is_file {
                    Err(docx_runtime_unavailable())
                } else {
                    docx_request_check(input_path@, output_path@, input_kind, output_kind, parent_kind)
                },
                queued(job_id(now, old(self)@.next_id), "pdf_to_docx"@,
                    JobKindModel::PdfToDocx { input_path: input_path@, output_path: output_path@ }, now),
                r,
            ),
    {
        if runtime.is_none() {
            return Err("Python, PyMuPDF, and pdf2docx are required".to_owned());
        }
        if !python_is_file || !worker_is_file {
            return Err("Python PDF-to-Word dependencies are unavailable".to_owned());
        }
        match pdf_docx_converter::validate_request(input_path, output_path, input_kind, output_kind, parent_kind) {
            Err(e) => return Err(e),
            Ok(()) => {},
        }
        let id = issue_id(&mut self.next_job_id, now);
        let job = Job::queued_pdf_to_docx(id.as_str(), input_path, output_path, now);
        Ok(self.accept_one(job))
    }
}

} // verus!

verus! {

proof fn lemma_separate_is_batch(files: Seq<Seq<char>>, outs: Seq<Seq<char>>, now: u64, n: u64)
    requires
        outs.len() == files.len(),
    ensures
        separate_jobs(files, outs, now, n) == batch_jobs(FolderTarget::ImagePdf, files, outs, now, n),
{
    assert(separate_jobs(files, outs, now, n) =~= batch_jobs(FolderTarget::ImagePdf, files, outs, now, n));
}

impl JobService {
    /// Accepts converting every supported audio file of a folder. `listing` is
    /// what reading the input folder gave, `probe` tells whether a path exists.
    pub fn enqueue_audio_folder<F: Fn(&str) -> bool>(
        &mut self,
        input_directory: &str,
        output_directory: &str,
        format: AudioFormat,
        input_kind: PathKind,
        output_kind: PathKind,
        listing: Result<Vec<(String, PathKind)>, String>,
        probe: &F,
        now: u64,
    ) -> (r: Result<Vec<Job>, String>)
        requires
            old(self).inv(),
            forall|s: &str| probe.requires((s,)),
        ensures
            final(self).inv(),
            final(self).engine_paths() == old(self).engine_paths(),
            old(self).engine_paths().ffmpeg_path is None ==> r is Err && r->Err_0@ == ffmpeg_unavailable()
                && final(self)@ == old(self)@,
            old(self).engine_paths().ffmpeg_path is Some ==> match folder_inputs_spec(input_directory@,
                output_directory@, input_kind, output_kind, listing, FileFilter::Audio, audio_none_found()) {
                Err(e) => r is Err && r->Err_0@ == e && final(self)@ == old(self)@,
                Ok(files) => file_batch_outcome(*probe, FolderTarget::Audio(format), output_directory@, output_kind,
                    files, now, old(self)@, final(self)@, r),
            },
    {
        if self.engines.ffmpeg_path.is_none() {
            return Err("The bundled FFmpeg executable is unavailable".to_owned());
        }
        let pairs = match plan_audio_folder_conversion(input_directory, output_directory, format, input_kind,
            output_kind, listing, probe) {
            Ok(p) => p,
            Err(e) => return Err(e),
        };
        let mut inputs: Vec<String> = Vec::new();
        let mut outputs: Vec<String> = Vec::new();
        let mut i: usize = 0;
        while i < pairs.len()
            invariant
                i <= pairs.len(),
                inputs.len() == i,
                outputs.len() == i,
                views(inputs@) == pair_inputs(pairs@).take(i as int),
                views(outputs@) == pair_outputs(pairs@).take(i as int),
            decreases pairs.len() - i,
        {
            inputs.push(pairs[i].0.clone());
            outputs.push(pairs[i].1.clone());
            assert(views(inputs@) =~= pair_inputs(pairs@).take(i + 1));
            assert(views(outputs@) =~= pair_outputs(pairs@).take(i + 1));
            i = i + 1;
        }
        assert(pair_inputs(pairs@).take(pairs.len() as int) =~= pair_inputs(pairs@));
        assert(pair_outputs(pairs@).take(pairs.len() as int) =~= pair_outputs(pairs@));
        let jobs = self.issue_batch(FolderTarget::Audio(format), &inputs, &outputs, now);
        assert(plan_ok(*probe, FolderTarget::Audio(format), output_directory@, output_kind, views(inputs@), views(outputs@)));
        Ok(jobs)
    }

    /// Accepts converting every supported Office file of a folder to PDF.
    /// `libreoffice` is the resolved executable and `libreoffice_is_file`
    /// whether it names a file.
    pub fn enqueue_office_folder_to_pdf<F: Fn(&str) -> bool>(
        &mut self,
        input_directory: &str,
        output_directory: &str,
        input_kind: PathKind,
        output_kind: PathKind,
        listing: Result<Vec<(String, PathKind)>, String>,
        probe: &F,
        libreoffice: Option<String>,
        libreoffice_is_file: bool,
        now: u64,
    ) -> (r: Result<Vec<Job>, String>)
        requires
            old(self).inv(),
            forall|s: &str| probe.requires((s,)),
        ensures
            final(self).inv(),
            final(self).engine_paths() == old(self).engine_paths(),
            libreoffice is None ==> r is Err && r->Err_0@ == libreoffice_missing() && final(self)@ == old(self)@,
            libreoffice is Some && (!libreoffice_is_file || old(self).engine_paths().qpdf_path is None) ==> r is Err
                && r->Err_0@ == office_tools_unavailable() && final(self)@ == old(self)@,
            libreoffice is Some && libreoffice_is_file && old(self).engine_paths().qpdf_path is Some ==> match folder_inputs_spec(
                input_directory@, output_directory@, input_kind, output_kind, listing, FileFilter::Office, office_none_found()) {
                Err(e) => r is Err && r->Err_0@ == e && final(self)@ == old(self)@,
                Ok(files) => file_batch_outcome(*probe, FolderTarget::Office, output_directory@, output_kind,
                    files, now, old(self)@, final(self)@, r),
            },
    {
        if libreoffice.is_none() {
            return Err("LibreOffice is not installed".to_owned());
        }
        if !libreoffice_is_file || self.engines.qpdf_path.is_none() {
            return Err("LibreOffice or the bundled PDF validator is unavailable".to_owned());
        }
        self.enqueue_folder_files(FolderTarget::Office, input_directory, output_directory, input_kind, output_kind,
            &listing, FileFilter::Office,
            "No supported Office files were found in the selected folder (DOCX, XLSX, or PPTX)", probe, now)
    }

    /// Accepts converting every PDF of a folder to a Word document. `runtime` is
    /// the resolved interpreter and worker script; the flags tell whether each
    /// names a file.
    pub fn enqueue_pdf_folder_to_docx<F: Fn(&str) -> bool>(
        &mut self,
        input_directory: &str,
        output_directory: &str,
        input_kind: PathKind,
        output_kind: PathKind,
        listing: Result<Vec<(String, PathKind)>, String>,
        probe: &F,
        runtime: Option<(String, String)>,
        python_is_file: bool,
        worker_is_file: bool,
        now: u64,
    ) -> (r: Result<Vec<Job>, String>)
        requires
            old(self).inv(),
            forall|s: &str| probe.requires((s,)),
        ensures
            final(self).inv(),
            final(self).engine_paths() == old(self).engine_paths(),
            runtime is None ==> r is Err && r->Err_0@ == docx_runtime_missing() && final(self)@ == old(self)@,
            runtime is Some && (!python_is_file || !worker_is_file) ==> r is Err
                && r->Err_0@ == docx_runtime_unavailable() && final(self)@ == old(self)@,
            runtime is Some && python_is_file && worker_is_file ==> match folder_inputs_spec(
                input_directory@, output_directory@, input_kind, output_kind, listing, FileFilter::Pdf, pdf_none_found()) {
                Err(e) => r is Err && r->Err_0@ == e && final(self)@ == old(self)@,
                Ok(files) => file_batch_outcome(*probe, FolderTarget::Docx, output_directory@, output_kind,
                    files, now, old(self)@, final(self)@, r),
            },
    {
        if runtime.is_none() {
            return Err("Python, PyMuPDF, and pdf2docx are required".to_owned());
        }
        if !python_is_file || !worker_is_file {
            return Err("Python PDF-to-Word dependencies are unavailable".to_owned());
        }
        self.enqueue_folder_files(FolderTarget::Docx, input_directory, output_directory, input_kind, output_kind,
            &listing, FileFilter::Pdf, "No PDF files were found in the selected folder", probe, now)
    }

    fn enqueue_folder_files<F: Fn(&str) -> bool>(
        &mut self,
        target: FolderTarget,
        input_directory: &str,
        output_directory: &str,
        input_kind: PathKind,
        output_kind: PathKind,
        listing: &Result<Vec<(String, PathKind)>, String>,
        filter: FileFilter,
        none_found: &str,
        probe: &F,
        now: u64,
    ) -> (r: Result<Vec<Job>, String>)
        requires
            old(self).inv(),
            !(target is Audio),
            forall|s: &str| probe.requires((s,)),
        ensures
            final(self).inv(),
            final(self).engine_paths() == old(self).engine_paths(),
            match folder_inputs_spec(input_directory@, output_directory@, input_kind, output_kind, *listing, filter, none_found@) {
                Err(e) => r is Err && r->Err_0@ == e && final(self)@ == old(self)@,
                Ok(files) => file_batch_outcome(*probe, target, output_directory@, output_kind, files, now,
                    old(self)@, final(self)@, r),
            },
    {
        let inputs = match folder_inputs(input_directory, output_directory, input_kind, output_kind, listing, filter, none_found) {
            Ok(v) => v,
            Err(e) => return Err(e),
        };
        let outputs = match plan_file_outputs(target, &inputs, output_directory, output_kind, probe) {
            Ok(v) => v,
            Err((e, k)) => {
                let ghost m0 = self@;
                skip_ids(&mut self.next_job_id, k);
                let r: Result<Vec<Job>, String> = Err(e);
                proof {
                    assert(plan_failed_after(*probe, target, output_directory@, output_kind, views(inputs@), k as nat, r->Err_0@));
                    assert(self@ == (ServiceModel { next_id: counter_after(m0.next_id, k as nat), ..m0 }));
                    assert(file_batch_outcome(*probe, target, output_directory@, output_kind, views(inputs@), now, m0, self@, r));
                }
                return r;
            },
        };
        let jobs = self.issue_batch(target, &inputs, &outputs, now);
        assert(plan_ok(*probe, target, output_directory@, output_kind, views(inputs@), views(outputs@)));
        Ok(jobs)
    }

    /// Accepts turning the images of a folder into PDFs: one combined PDF or one
    /// PDF per image. `qpdf_is_file` tells whether the configured qpdf path
    /// names a file.
    pub fn enqueue_image_folder_to_pdf<F: Fn(&str) -> bool>(
        &mut self,
        input_directory: &str,
        output_directory: &str,
        mode: ImageFolderMode,
        input_kind: PathKind,
        output_kind: PathKind,
        listing: Result<Vec<(String, PathKind)>, String>,
        probe: &F,
        qpdf_is_file: bool,
        now: u64,
    ) -> (r: Result<Vec<Job>, String>)
        requires
            old(self).inv(),
            forall|s: &str| probe.requires((s,)),
        ensures
            final(self).inv(),
            final(self).engine_paths() == old(self).engine_paths(),
            old(self).engine_paths().qpdf_path is None || !qpdf_is_file ==> r is Err
                && r->Err_0@ == qpdf_unavailable() && final(self)@ == old(self)@,
            old(self).engine_paths().qpdf_path is Some && qpdf_is_file ==> match folder_inputs_spec(
                input_directory@, output_directory@, input_kind, output_kind, listing, FileFilter::Image, image_none_found()) {
                Err(e) => r is Err && r->Err_0@ == e && final(self)@ == old(self)@,
                Ok(files) => match mode {
                    ImageFolderMode::Combine => match r {
                        Ok(jobs) => exists|o: Seq<char>| #[trigger] combine_outcome(*probe, input_directory@, output_directory@, output_kind, files, o)
                            && image_request_check(files, all_files(files.len()), o, PathKind::Missing, output_kind) is Ok
                            && job_views(jobs@) == seq![combined_job(files, o, now, old(self)@.next_id)]
                            && final(self)@ == accept_model(old(self)@, job_views(jobs@), next_counter(old(self)@.next_id)),
                        Err(e) => final(self)@ == old(self)@ && (
                            (all_files_taken(*probe, output_directory@, combine_stem(input_directory@), "pdf"@, Seq::empty())
                                && e@ == names_exhausted())
                            || exists|o: Seq<char>| #[trigger] combine_outcome(*probe, input_directory@, output_directory@, output_kind, files, o)
                                && image_request_check(files, all_files(files.len()), o, PathKind::Missing, output_kind)
                                    == Err::<(), Seq<char>>(e@)),
                    },
                    ImageFolderMode::Separate => file_batch_outcome(*probe, FolderTarget::ImagePdf, output_directory@,
                        output_kind, files, now, old(self)@, final(self)@, r),
                },
            },
    {
        if self.engines.qpdf_path.is_none() || !qpdf_is_file {
            return Err("The bundled qpdf executable is unavailable".to_owned());
        }
        let ghost m0 = self@;
        let jobs = match plan_image_folder_to_pdf(input_directory, output_directory, mode, now, input_kind, output_kind,
            listing, probe, &mut self.next_job_id) {
            Ok(j) => j,
            Err(e) => {
                proof {
                    match folder_inputs_spec(input_directory@, output_directory@, input_kind, output_kind, listing,
                        FileFilter::Image, image_none_found()) {
                        Err(_) => {
                            assert(self@ == m0);
                        },
                        Ok(files) => {
                            if mode == ImageFolderMode::Separate {
                                let k = choose|k: nat| #[trigger] plan_failed_after(*probe, FolderTarget::ImagePdf,
                                    output_directory@, output_kind, files, k, e@)
                                    && self.next_job_id == counter_after(m0.next_id, k);
                                assert(self@ == (ServiceModel { next_id: counter_after(m0.next_id, k), ..m0 }));
                            } else {
                                assert(self@ == m0);
                            }
                        },
                    }
                }
                return Err(e);
            },
        };
        let ghost m1 = self@;
        self.accept(&jobs);
        proof {
            if mode == ImageFolderMode::Separate {
                let files = folder_inputs_spec(input_directory@, output_directory@, input_kind, output_kind, listing,
                    FileFilter::Image, image_none_found())->Ok_0;
                let outs = choose|outs: Seq<Seq<char>>| #[trigger] plan_ok(*probe, FolderTarget::ImagePdf, output_directory@, output_kind, files, outs)
                    && outs.len() == files.len()
                    && job_views(jobs@) == separate_jobs(files, outs, now, m0.next_id);
                lemma_separate_is_batch(files, outs, now, m0.next_id);
            } else {
                assert(job_views(jobs@) =~= seq![jobs@[0]@]);
            }
        }
        Ok(jobs)
    }

    /// Accepts rendering every PDF of a folder as images, each into a new
    /// directory that `create` makes. `pdfium_is_file` tells whether the
    /// configured PDFium path names a file; `create` is needed (and so called)
    /// only when PDFium is available. Ids issued before a failure stay used.
    pub fn enqueue_pdf_folder_to_images<F: Fn(&str) -> bool, C: Fn(&str) -> Result<(), String>>(
        &mut self,
        input_directory: &str,
        output_directory: &str,
        format: PdfImageFormat,
        dpi: u16,
        input_kind: PathKind,
        output_kind: PathKind,
        listing: Result<Vec<(String, PathKind)>, String>,
        probe: &F,
        create: &C,
        pdfium_is_file: bool,
        now: u64,
    ) -> (r: Result<Vec<Job>, String>)
        requires
            old(self).inv(),
            forall|s: &str| probe.requires((s,)),
            old(self).engine_paths().pdfium_path is Some && pdfium_is_file ==> forall|s: &str| create.requires((s,)),
        ensures
            final(self).inv(),
            final(self).engine_paths() == old(self).engine_paths(),
            old(self).engine_paths().pdfium_path is None || !pdfium_is_file ==> r is Err
                && r->Err_0@ == pdfium_unavailable() && final(self)@ == old(self)@,
            old(self).engine_paths().pdfium_path is Some && pdfium_is_file ==> match folder_inputs_spec(
                input_directory@, output_directory@, input_kind, output_kind, listing, FileFilter::Pdf, pdf_none_found()) {
                Err(e) => r is Err && r->Err_0@ == e && final(self)@ == old(self)@,
                Ok(files) => pdf_folder_outcome(*probe, *create, output_directory@, format, dpi, now, files,
                    old(self)@.next_id, final(self)@.next_id, r)
                    && match r {
                        Ok(jobs) => final(self)@ == accept_model(old(self)@, job_views(jobs@), final(self)@.next_id),
                        Err(_) => final(self)@ == (ServiceModel { next_id: final(self)@.next_id, ..old(self)@ }),
                    },
            },
    {
        if self.engines.pdfium_path.is_none() || !pdfium_is_file {
            return Err("The bundled PDFium library is unavailable".to_owned());
        }
        let jobs = match plan_pdf_folder_to_images(input_directory, output_directory, format, dpi, now, input_kind,
            output_kind, listing, probe, create, &mut self.next_job_id) {
            Ok(j) => j,
            Err(e) => return Err(e),
        };
        self.accept(&jobs);
        Ok(jobs)
    }
}

} // verus!

verus! {

/// What the worker runs for a job, with the engine paths it needs.
#[derive(Debug)]
pub enum Execution {
    Audio { ffmpeg: String, ffprobe: Option<String>, input_path: String, output_path: String, format: AudioFormat },
    Pdf { qpdf: String, operation: PdfOperation },
    ImagesToPdf { qpdf: String, input_paths: Vec<String>, output_path: String },
    PdfToImages { pdfium: String, input_path: String, output_directory: String, format: PdfImageFormat, dpi: u16 },
    OfficeToPdf { libreoffice: String, qpdf: String, input_path: String, output_path: String },
    PdfToDocx { python: String, worker: String, input_path: String, output_path: String },
}

/// The mathematical content of an [`Execution`].
pub enum ExecutionModel {
    Audio { ffmpeg: Seq<char>, ffprobe: Option<Seq<char>>, input_path: Seq<char>, output_path: Seq<char>, format: AudioFormat },
    Pdf { qpdf: Seq<char>, operation: crate::domain::job::PdfOperationModel },
    ImagesToPdf { qpdf: Seq<char>, input_paths: Seq<Seq<char>>, output_path: Seq<char> },
    PdfToImages { pdfium: Seq<char>, input_path: Seq<char>, output_directory: Seq<char>, format: PdfImageFormat, dpi: u16 },
    OfficeToPdf { libreoffice: Seq<char>, qpdf: Seq<char>, input_path: Seq<char>, output_path: Seq<char> },
    PdfToDocx { python: Seq<char>, worker: Seq<char>, input_path: Seq<char>, output_path: Seq<char> },
}

impl View for Execution {
    type V = ExecutionModel;

    open spec fn view(&self) -> ExecutionModel {
        match self {
            Execution::Audio { ffmpeg, ffprobe, input_path, output_path, format } => ExecutionModel::Audio {
                ffmpeg: ffmpeg@,
                ffprobe: opt_view(*ffprobe),
                input_path: input_path@,
                output_path: output_path@,
                format: *format,
            },
            Execution::Pdf { qpdf, operation } => ExecutionModel::Pdf { qpdf: qpdf@, operation: operation@ },
            Execution::ImagesToPdf { qpdf, input_paths, output_path } => ExecutionModel::ImagesToPdf {
                qpdf: qpdf@,
                input_paths: views(input_paths@),
                output_path: output_path@,
            },
            Execution::PdfToImages { pdfium, input_path, output_directory, format, dpi } => ExecutionModel::PdfToImages {
                pdfium: pdfium@,
                input_path: input_path@,
                output_directory: output_directory@,
                format: *format,
                dpi: *dpi,
            },
            Execution::OfficeToPdf { libreoffice, qpdf, input_path, output_path } => ExecutionModel::OfficeToPdf {
                libreoffice: libreoffice@,
                qpdf: qpdf@,
                input_path: input_path@,
                output_path: output_path@,
            },
            Execution::PdfToDocx { python, worker, input_path, output_path } => ExecutionModel::PdfToDocx {
                python: python@,
                worker: worker@,
                input_path: input_path@,
                output_path: output_path@,
            },
        }
    }
}

/// The execution of a job of the given kind: its engines must be available.
/// `libreoffice` and `runtime` are the resolved LibreOffice executable and
/// PDF-to-Word runtime, consulted only for the jobs that need them.
pub open spec fn execution_plan(
    engines: EnginePaths,
    kind: JobKindModel,
    libreoffice: Option<Seq<char>>,
    runtime: Option<(Seq<char>, Seq<char>)>,
) -> Result<ExecutionModel, Seq<char>> {
    match kind {
        JobKindModel::AudioConversion { input_path, output_path, format } => match engines.ffmpeg_path {
            None => Err(ffmpeg_unavailable()),
            Some(f) => Ok(ExecutionModel::Audio {
                ffmpeg: f@,
                ffprobe: opt_view(engines.ffprobe_path),
                input_path,
                output_path,
                format,
            }),
        },
        JobKindModel::PdfOperation { operation } => match engines.qpdf_path {
            None => Err(qpdf_unavailable()),
            Some(q) => Ok(ExecutionModel::Pdf { qpdf: q@, operation }),
        },
        JobKindModel::ImagesToPdf { input_paths, output_path } => match engines.qpdf_path {
            None => Err(qpdf_unavailable()),
            Some(q) => Ok(ExecutionModel::ImagesToPdf { qpdf: q@, input_paths, output_path }),
        },
        JobKindModel::PdfToImages { input_path, output_directory, format, dpi } => match engines.pdfium_path {
            None => Err(pdfium_unavailable()),
            Some(p) => Ok(ExecutionModel::PdfToImages { pdfium: p@, input_path, output_directory, format, dpi }),
        },
        JobKindModel::OfficeToPdf { input_path, output_path } => match libreoffice {
            None => Err(libreoffice_missing()),
            Some(l) => match engines.qpdf_path {
                None => Err(qpdf_unavailable()),
                Some(q) => Ok(ExecutionModel::OfficeToPdf { libreoffice: l, qpdf: q@, input_path, output_path }),
            },
        },
        JobKindModel::PdfToDocx { input_path, output_path } => match runtime {
            None => Err(docx_runtime_missing()),
            Some(pair) => Ok(ExecutionModel::PdfToDocx { python: pair.0, worker: pair.1, input_path, output_path }),
        },
    }
}

fn required(path: &Option<String>, missing: &str) -> (r: Result<String, String>)
    ensures
        match *path {
            Some(p) => r is Ok && r->Ok_0@ == p@,
            None => r is Err && r->Err_0@ == missing@,
        },
{
    match path {
        Some(p) => Ok(p.clone()),
        None => Err(missing.to_owned()),
    }
}

impl JobService {
    /// Decides what the worker runs for `job`, or why it cannot run.
    /// `libreoffice` and `runtime` are the resolved LibreOffice executable and
    /// PDF-to-Word runtime (see [`JobService::resolved_libreoffice_path`] and
    /// [`JobService::resolved_pdf_to_docx_runtime`]).
    pub fn execution(&self, job: &Job, libreoffice: Option<String>, runtime: Option<(String, String)>) -> (r: Result<Execution, String>)
        ensures
            match execution_plan(*self.engine_paths(), job@.kind, opt_view(libreoffice), match runtime {
                Some(pair) => Some((pair.0@, pair.1@)),
                None => None,
            }) {
                Ok(x) => r is Ok && r->Ok_0@ == x,
                Err(e) => r is Err && r->Err_0@ == e,
            },
    {
        match &job.kind {
            crate::domain::job::JobKind::AudioConversion { input_path, output_path, format } => {
                let ffmpeg = required(&self.engines.ffmpeg_path, "The bundled FFmpeg executable is unavailable")?;
                let ffprobe = match &self.engines.ffprobe_path {
                    Some(p) => Some(p.clone()),
                    None => None,
                };
                Ok(Execution::Audio {
                    ffmpeg,
                    ffprobe,
                    input_path: input_path.clone(),
                    output_path: output_path.clone(),
                    format: *format,
                })
            },
            crate::domain::job::JobKind::PdfOperation { operation } => {
                let qpdf = required(&self.engines.qpdf_path, "The bundled qpdf executable is unavailable")?;
                Ok(Execution::Pdf { qpdf, operation: operation.duplicate() })
            },
            crate::domain::job::JobKind::ImagesToPdf { input_paths, output_path } => {
                let qpdf = required(&self.engines.qpdf_path, "The bundled qpdf executable is unavailable")?;
                Ok(Execution::ImagesToPdf {
                    qpdf,
                    input_paths: crate::text::copy_strings(input_paths),
                    output_path: output_path.clone(),
                })
            },
            crate::domain::job::JobKind::PdfToImages { input_path, output_directory, format, dpi } => {
                let pdfium = required(&self.engines.pdfium_path, "The bundled PDFium library is unavailable")?;
                Ok(Execution::PdfToImages {
                    pdfium,
                    input_path: input_path.clone(),
                    output_directory: output_directory.clone(),
                    format: *format,
                    dpi: *dpi,
                })
            },
            crate::domain::job::JobKind::OfficeToPdf { input_path, output_path } => {
                let libreoffice = required(&libreoffice, "LibreOffice is not installed")?;
                let qpdf = required(&self.engines.qpdf_path, "The bundled qpdf executable is unavailable")?;
                Ok(Execution::OfficeToPdf {
                    libreoffice,
                    qpdf,
                    input_path: input_path.clone(),
                    output_path: output_path.clone(),
                })
            },
            crate::domain::job::JobKind::PdfToDocx { input_path, output_path } => {
                match runtime {
                    None => Err("Python, PyMuPDF, and pdf2docx are required".to_owned()),
                    Some(pair) => Ok(Execution::PdfToDocx {
                        python: pair.0,
                        worker: pair.1,
                        input_path: input_path.clone(),
                        output_path: output_path.clone(),
                    }),
                }
            },
        }
    }
}

} // verus!

verus! {

/// `inspect` gave `r` for qpdf at `qpdf` and the PDF at `input`.
pub open spec fn inspected<R: Fn(&str, &str) -> Result<u32, String>>(inspect: R, qpdf: Seq<char>, input: Seq<char>, r: Result<u32, String>) -> bool {
    exists|q: &str, i: &str| q@ == qpdf && i@ == input && #[trigger] inspect.ensures((q, i), r)
}

impl JobService {
    /// The page count of a PDF, as `inspect` reads it with the configured qpdf.
    pub fn pdf_page_count<R: Fn(&str, &str) -> Result<u32, String>>(&self, input_path: &str, inspect: &R) -> (r: Result<u32, String>)
        requires
            forall|q: &str, i: &str| inspect.requires((q, i)),
        ensures
            match self.engine_paths().qpdf_path {
                None => r is Err && r->Err_0@ == qpdf_unavailable(),
                Some(q) => inspected(*inspect, q@, input_path@, r),
            },
    {
        match &self.engines.qpdf_path {
            None => Err("The bundled qpdf executable is unavailable".to_owned()),
            Some(q) => {
                let r = inspect(q.as_str(), input_path);
                assert(inspected(*inspect, q@, input_path@, r));
                r
            },
        }
    }
}

} // verus!

verus! {

impl JobService {
    /// Every job record, in creation order.
    pub fn records(&self) -> (r: Vec<Job>)
        ensures
            job_views(r@) == self@.jobs,
    {
        let mut r: Vec<Job> = Vec::new();
        let mut i: usize = 0;
        while i < self.jobs.len()
            invariant
                i <= self.jobs.len(),
                r.len() == i,
                job_views(r@) == job_views(self.jobs@).take(i as int),
            decreases self.jobs.len() - i,
        {
            let ghost before = r@;
            r.push(self.jobs[i].duplicate());
            assert(r@ =~= before.push(r@[i as int]));
            assert(job_views(r@) =~= job_views(before).push(self.jobs@[i as int]@));
            assert(job_views(r@) =~= job_views(self.jobs@).take(i + 1));
            i = i + 1;
        }
        assert(job_views(self.jobs@).take(self.jobs.len() as int) =~= job_views(self.jobs@));
        r
    }

    /// Puts back job records taken with [`JobService::records`], as when
    /// saving a change failed; the queue and the workers are left as they are.
    pub fn restore_records(&mut self, records: Vec<Job>)
        requires
            old(self).inv(),
        ensures
            final(self).inv(),
            final(self)@ == (ServiceModel { jobs: job_views(records@), ..old(self)@ }),
            final(self).engine_paths() == old(self).engine_paths(),
    {
        self.jobs = records;
    }
}


/// The end of a job's run is recorded as it happened: the job is Completed
/// exactly when its run completed, Cancelled exactly when its run was
/// cancelled, and Failed, with the run's error, exactly when the run failed;
/// it is finished at the given time, and only a failure leaves an error.
pub proof fn law_completion_records_how_the_run_ended(m: ServiceModel, id: Seq<char>, result: RunResult, now: u64)
    requires
        find_job(m.jobs, id) >= 0,
    ensures
        ({
            let i = find_job(m.jobs, id);
            let j = complete_model(m, id, result, now).jobs[i];
            &&& (j.status == JobStatus::Completed) <==> result == RunResult::Finished(ExecutionOutcome::Completed)
            &&& (j.status == JobStatus::Cancelled) <==> result == RunResult::Finished(ExecutionOutcome::Cancelled)
            &&& (j.status == JobStatus::Failed) <==> result is Failed
            &&& result matches RunResult::Failed(message) ==> j.error matches Some(e) && e.message == message
            &&& result is Finished ==> j.error is None
            &&& j.finished_at == Some(now)
            &&& j.id == m.jobs[i].id
        }),
{
    lemma_find_job(m.jobs, id);
}

} // verus!
