//! A first-in, first-out job queue with a concurrency limit.

use std::collections::VecDeque;
use vstd::prelude::*;
use crate::domain::job::{Job, JobModel, JobStatus, job_views};
use crate::text::same_text;

verus! {

/// The mathematical content of a [`JobQueue`].
pub struct QueueModel {
    pub limit: nat,
    pub active: nat,
    pub pending: Seq<JobModel>,
}

/// The queue's invariant: a positive limit that the active count never exceeds.
pub open spec fn queue_ok(q: QueueModel) -> bool {
    q.limit > 0 && q.active <= q.limit
}

/// A job marked as running.
pub open spec fn running(j: JobModel) -> JobModel {
    JobModel { status: JobStatus::Running, ..j }
}

pub open spec fn enqueue_model(q: QueueModel, j: JobModel) -> QueueModel {
    QueueModel { pending: q.pending.push(j), ..q }
}

/// Takes the oldest pending job when the limit allows it.
pub open spec fn take_next_model(q: QueueModel) -> (QueueModel, Option<JobModel>) {
    if q.active >= q.limit || q.pending.len() == 0 {
        (q, None)
    } else {
        (
            QueueModel { active: q.active + 1, pending: q.pending.drop_first(), ..q },
            Some(running(q.pending[0])),
        )
    }
}

/// Keeps the jobs whose id differs from `id`.
pub open spec fn other_than(id: Seq<char>) -> spec_fn(JobModel) -> bool {
    |j: JobModel| j.id != id
}

pub open spec fn remove_model(q: QueueModel, id: Seq<char>) -> QueueModel {
    QueueModel { pending: q.pending.filter(other_than(id)), ..q }
}

pub open spec fn finish_model(q: QueueModel) -> QueueModel {
    QueueModel { active: if q.active == 0 { 0 } else { (q.active - 1) as nat }, ..q }
}

#[derive(Debug)]
pub struct JobQueue {
    concurrency_limit: usize,
    active: usize,
    pending: VecDeque<Job>,
}

impl View for JobQueue {
    type V = QueueModel;

    closed spec fn view(&self) -> QueueModel {
        QueueModel {
            limit: self.concurrency_limit as nat,
            active: self.active as nat,
            pending: job_views(self.pending@),
        }
    }
}

impl JobQueue {
    /// The queue is well formed.
    pub closed spec fn inv(&self) -> bool {
        queue_ok(self@)
    }

    pub fn new(concurrency_limit: usize) -> (q: JobQueue)
        requires
            concurrency_limit > 0,
        ensures
            q.inv(),
            q@ == (QueueModel { limit: concurrency_limit as nat, active: 0, pending: Seq::empty() }),
    {
        let q = JobQueue { concurrency_limit, active: 0, pending: VecDeque::new() };
        assert(job_views(q.pending@) =~= Seq::<JobModel>::empty());
        q
    }

    pub fn enqueue(&mut self, job: Job)
        requires
            old(self).inv(),
        ensures
            final(self).inv(),
            final(self)@ == enqueue_model(old(self)@, job@),
    {
        let ghost before = self.pending@;
        self.pending.push_back(job);
        assert(job_views(self.pending@) =~= job_views(before).push(job@));
    }

    pub fn take_next(&mut self) -> (r: Option<Job>)
        requires
            old(self).inv(),
        ensures
            final(self).inv(),
            final(self)@ == take_next_model(old(self)@).0,
            opt_job_view(r) == take_next_model(old(self)@).1,
    {
        if self.active >= self.concurrency_limit {
            return None;
        }
        let ghost before = self.pending@;
        match self.pending.pop_front() {
            None => None,
            Some(mut job) => {
                job.status = JobStatus::Running;
                self.active = self.active + 1;
                assert(job_views(self.pending@) =~= job_views(before).drop_first());
                Some(job)
            },
        }
    }

    pub fn remove(&mut self, id: &str) -> (removed: bool)
        requires
            old(self).inv(),
        ensures
            final(self).inv(),
            final(self)@ == remove_model(old(self)@, id@),
            removed == (final(self)@.pending.len() != old(self)@.pending.len()),
            removed == (exists|i: int| 0 <= i < old(self)@.pending.len() && #[trigger] old(self)@.pending[i].id == id@),
    {
        let ghost initial = job_views(self.pending@);
        let ghost pred = other_than(id@);
        let initial_len = self.pending.len();
        let mut kept: VecDeque<Job> = VecDeque::new();
        let mut found = false;
        while self.pending.len() > 0
            invariant
                initial.len() == initial_len,
                job_views(self.pending@) == initial.skip(initial_len - self.pending@.len()),
                job_views(kept@) == initial.take(initial_len - self.pending@.len()).filter(pred),
                found == (exists|i: int| 0 <= i < initial_len - self.pending@.len() && #[trigger] initial[i].id == id@),
                self.pending@.len() <= initial_len,
                pred == other_than(id@),
                self.active == old(self).active,
                self.concurrency_limit == old(self).concurrency_limit,
            decreases self.pending@.len(),
        {
            let ghost done = (initial_len - self.pending@.len()) as int;
            let ghost rest = self.pending@;
            let ghost kept_before = kept@;
            let job = self.pending.pop_front().unwrap();
            assert(job@ == initial[done]) by {
                assert(job_views(rest)[0] == initial.skip(done)[0]);
            }
            assert(job_views(self.pending@) =~= initial.skip(done + 1)) by {
                assert(job_views(self.pending@) =~= job_views(rest).drop_first());
            }
            assert(initial.take(done + 1) =~= initial.take(done).push(initial[done]));
            proof { lemma_filter_push(initial.take(done), initial[done], pred); }
            assert(initial_len - self.pending@.len() == done + 1);
            assert(pred(initial[done]) == (initial[done].id != id@));
            assert(initial.take(done + 1).filter(pred) == if pred(initial[done]) {
                initial.take(done).filter(pred).push(initial[done])
            } else {
                initial.take(done).filter(pred)
            });
            if same_text(job.id.as_str(), id) {
                found = true;
                assert(initial[done].id == id@);
            } else {
                kept.push_back(job);
                assert(job_views(kept@) =~= job_views(kept_before).push(initial[done]));
                assert(initial[done].id != id@);
            }
            assert(job_views(kept@) == initial.take(done + 1).filter(pred));
            assert(found == (exists|i: int| 0 <= i < done + 1 && #[trigger] initial[i].id == id@));
        }
        assert(initial.take(initial_len as int) =~= initial);
        self.pending = kept;
        proof {

            if found {
                let i = choose|i: int| 0 <= i < initial_len && #[trigger] initial[i].id == id@;
                if job_views(self.pending@).len() == initial.len() {
                    assert(!pred(initial[i]));
                    lemma_filter_same_len(initial, pred, i);
                }
            } else {
                assert(initial.filter(pred) =~= initial) by {
                    lemma_filter_all(initial, pred);
                }
            }
        }
        found
    }

    pub fn finish_active(&mut self)
        requires
            old(self).inv(),
        ensures
            final(self).inv(),
            final(self)@ == finish_model(old(self)@),
    {
        self.active = if self.active == 0 { 0 } else { self.active - 1 };
    }

    pub fn pending_count(&self) -> (n: usize)
        ensures
            n == self@.pending.len(),
    {
        proof {
            assert(job_views(self.pending@).len() == self.pending@.len());
        }
        self.pending.len()
    }
}

/// The view of an optional job.
pub open spec fn opt_job_view(o: Option<Job>) -> Option<JobModel> {
    match o {
        Some(j) => Some(j@),
        None => None,
    }
}

proof fn lemma_filter_push(s: Seq<JobModel>, x: JobModel, pred: spec_fn(JobModel) -> bool)
    ensures
        s.push(x).filter(pred) == if pred(x) { s.filter(pred).push(x) } else { s.filter(pred) },
{
    reveal(Seq::filter);
    assert(s.push(x).drop_last() =~= s);
}

proof fn lemma_filter_all(s: Seq<JobModel>, pred: spec_fn(JobModel) -> bool)
    requires
        forall|i: int| 0 <= i < s.len() ==> pred(#[trigger] s[i]),
    ensures
        s.filter(pred) =~= s,
    decreases s.len(),
{
    reveal(Seq::filter);
    if s.len() > 0 {
        lemma_filter_all(s.drop_last(), pred);
    }
}

proof fn lemma_filter_same_len(s: Seq<JobModel>, pred: spec_fn(JobModel) -> bool, i: int)
    requires
        0 <= i < s.len(),
        !pred(s[i]),
    ensures
        s.filter(pred).len() < s.len(),
    decreases s.len(),
{
    reveal(Seq::filter);
    s.drop_last().lemma_filter_len(pred);
    if i < s.len() - 1 {
        lemma_filter_same_len(s.drop_last(), pred, i);
    }
}

} // verus!

verus! {

/// Enqueues every job of `js`, in order.
pub open spec fn enqueue_all(q: QueueModel, js: Seq<JobModel>) -> QueueModel
    decreases js.len(),
{
    if js.len() == 0 {
        q
    } else {
        enqueue_model(enqueue_all(q, js.drop_last()), js.last())
    }
}

/// The jobs handed out by `n` rounds of taking the next job and finishing it.
pub open spec fn drain(q: QueueModel, n: nat) -> Seq<JobModel>
    decreases n,
{
    if n == 0 {
        Seq::empty()
    } else {
        match take_next_model(q).1 {
            None => Seq::empty(),
            Some(j) => seq![j] + drain(finish_model(take_next_model(q).0), (n - 1) as nat),
        }
    }
}

/// Every queue operation keeps the limit positive and the number of active jobs
/// within it, and no job is handed out while the limit is reached.
pub proof fn law_queue_respects_concurrency_limit(q: QueueModel, j: JobModel, id: Seq<char>)
    requires
        queue_ok(q),
    ensures
        queue_ok(enqueue_model(q, j)),
        queue_ok(take_next_model(q).0),
        queue_ok(remove_model(q, id)),
        queue_ok(finish_model(q)),
        q.active >= q.limit ==> take_next_model(q).1 is None,
        take_next_model(q).1 is Some ==> take_next_model(q).0.active == q.active + 1,
{
}

/// Jobs leave the queue in the order in which they were enqueued.
pub proof fn law_queue_is_fifo(q: QueueModel, js: Seq<JobModel>)
    requires
        queue_ok(q),
        q.active < q.limit,
        q.pending.len() == 0,
    ensures
        drain(enqueue_all(q, js), js.len()) == js.map_values(|j: JobModel| running(j)),
{
    lemma_enqueue_all(q, js);
    lemma_drain(enqueue_all(q, js), js.len());
    assert(js.take(js.len() as int) =~= js);
    assert(enqueue_all(q, js).pending =~= js);
}

proof fn lemma_enqueue_all(q: QueueModel, js: Seq<JobModel>)
    ensures
        enqueue_all(q, js).pending == q.pending + js,
        enqueue_all(q, js).active == q.active,
        enqueue_all(q, js).limit == q.limit,
    decreases js.len(),
{
    if js.len() > 0 {
        lemma_enqueue_all(q, js.drop_last());
        assert(q.pending + js =~= (q.pending + js.drop_last()).push(js.last()));
    }
}

proof fn lemma_drain(q: QueueModel, n: nat)
    requires
        queue_ok(q),
        q.active < q.limit,
        n <= q.pending.len(),
    ensures
        drain(q, n) == q.pending.take(n as int).map_values(|j: JobModel| running(j)),
    decreases n,
{
    if n > 0 {
        let q1 = finish_model(take_next_model(q).0);
        assert(q1.pending == q.pending.drop_first());
        assert(q1.active == q.active);
        lemma_drain(q1, (n - 1) as nat);
        assert(q.pending.take(n as int).map_values(|j: JobModel| running(j)) =~= seq![running(q.pending[0])]
            + q1.pending.take(n - 1).map_values(|j: JobModel| running(j)));
    } else {
        assert(q.pending.take(0).map_values(|j: JobModel| running(j)) =~= Seq::<JobModel>::empty());
    }
}

/// A removed job is no longer pending; the other pending jobs keep their order.
pub proof fn law_removed_job_is_gone(q: QueueModel, id: Seq<char>)
    ensures
        forall|i: int| 0 <= i < remove_model(q, id).pending.len() ==> #[trigger] remove_model(q, id).pending[i].id != id,
        remove_model(q, id).pending == q.pending.filter(other_than(id)),
{
    assert forall|i: int| 0 <= i < remove_model(q, id).pending.len() implies #[trigger] remove_model(q, id).pending[i].id != id by {
        q.pending.lemma_filter_pred(other_than(id), i);
    }
}

} // verus!
