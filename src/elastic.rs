use std::collections::VecDeque;
use vstd::prelude::*;

verus! {

/// Why a submission to the elastic pool failed.
#[derive(Debug, Clone, Copy, PartialEq, Eq, Structural)]
pub enum DispatchError {
    /// The receiving side is gone; nothing was started.
    Disconnected,
}

/// Where an accepted job goes.
pub enum Route<J> {
    /// An idle worker took it through the handoff.
    Handed,
    /// No worker was idle: start a new worker with this job as its first task.
    Spawn(J),
}

/// Abstract state of the elastic pool's handoff.
pub struct ElasticView<J> {
    /// Workers blocked on receive that no job has been handed to yet.
    pub idle: nat,
    /// Jobs handed over that their workers have not picked up yet, oldest first.
    pub handed: Seq<J>,
    /// Workers started so far; this count never goes down.
    pub spawned: nat,
    /// Whether the receiving side has been destroyed.
    pub closed: bool,
}

/// The outcome of submitting `job` in state `v`: a non-blocking handoff to
/// an idle worker if there is one, else a new worker; nothing once closed.
pub open spec fn submit_next<J>(v: ElasticView<J>, job: J) -> (ElasticView<J>, Result<Route<J>, DispatchError>) {
    if v.closed {
        (v, Err(DispatchError::Disconnected))
    } else if v.idle > 0 {
        (ElasticView { idle: (v.idle - 1) as nat, handed: v.handed.push(job), ..v }, Ok(Route::Handed))
    } else {
        (ElasticView { spawned: v.spawned + 1, ..v }, Ok(Route::Spawn(job)))
    }
}

/// The state after a worker, done with its job, blocks on receive again.
pub open spec fn wait_next<J>(v: ElasticView<J>) -> ElasticView<J> {
    ElasticView { idle: v.idle + 1, ..v }
}

/// The state after the receiving side is destroyed.
pub open spec fn disconnect_next<J>(v: ElasticView<J>) -> ElasticView<J> {
    ElasticView { closed: true, ..v }
}

/// The state after submitting the jobs `js` one after another, with no
/// worker becoming idle in between.
pub open spec fn submit_all<J>(v: ElasticView<J>, js: Seq<J>) -> ElasticView<J>
    decreases js.len(),
{
    if js.len() == 0 {
        v
    } else {
        submit_all(submit_next(v, js[0]).0, js.drop_first())
    }
}

/// The dispatch core of an elastic pool: a rendezvous handoff that starts
/// with no workers and grows by one whenever a job finds no idle worker.
pub struct ElasticCore<J> {
    idle: usize,
    handed: VecDeque<J>,
    spawned: usize,
    closed: bool,
}

impl<J> View for ElasticCore<J> {
    type V = ElasticView<J>;

    closed spec fn view(&self) -> ElasticView<J> {
        ElasticView {
            idle: self.idle as nat,
            handed: self.handed@,
            spawned: self.spawned as nat,
            closed: self.closed,
        }
    }
}

impl<J> ElasticCore<J> {
    /// An open handoff with no workers.
    pub fn new() -> (r: Self)
        ensures
            r@ == (ElasticView::<J> { idle: 0, handed: Seq::empty(), spawned: 0, closed: false }),
    {
        ElasticCore { idle: 0, handed: VecDeque::new(), spawned: 0, closed: false }
    }

    /// Workers blocked on receive with no job handed to them.
    pub fn idle(&self) -> (r: usize)
        ensures
            r as nat == self@.idle,
    {
        self.idle
    }

    /// Workers started so far.
    pub fn spawned(&self) -> (r: usize)
        ensures
            r as nat == self@.spawned,
    {
        self.spawned
    }

    /// Whether the receiving side has been destroyed.
    pub fn is_disconnected(&self) -> (r: bool)
        ensures
            r == self@.closed,
    {
        self.closed
    }

    /// Submits a job without blocking. An idle worker takes it if there is
    /// one; otherwise the caller is told to start a new worker with it.
    /// Once the receiving side is gone the job is refused.
    pub fn submit(&mut self, job: J) -> (r: Result<Route<J>, DispatchError>)
        requires
            old(self)@.spawned < usize::MAX,
        ensures
            (final(self)@, r) == submit_next(old(self)@, job),
    {
        if self.closed {
            Err(DispatchError::Disconnected)
        } else if self.idle > 0 {
            self.idle = self.idle - 1;
            self.handed.push_back(job);
            Ok(Route::Handed)
        } else {
            self.spawned = self.spawned + 1;
            Ok(Route::Spawn(job))
        }
    }

    /// Records that a worker is blocked on receive, ready for a handoff.
    pub fn begin_wait(&mut self)
        requires
            old(self)@.idle < usize::MAX,
        ensures
            final(self)@ == wait_next(old(self)@),
    {
        self.idle = self.idle + 1;
    }

    /// Picks up the oldest job handed over, if any.
    pub fn take(&mut self) -> (r: Option<J>)
        ensures
            old(self)@.handed.len() == 0 ==> r is None && final(self)@ == old(self)@,
            old(self)@.handed.len() > 0 ==> r == Some(old(self)@.handed[0])
                && final(self)@ == (ElasticView { handed: old(self)@.handed.drop_first(), ..old(self)@ }),
    {
        self.handed.pop_front()
    }

    /// Destroys the receiving side: every later submission fails.
    pub fn disconnect(&mut self)
        ensures
            final(self)@ == disconnect_next(old(self)@),
    {
        self.closed = true;
    }
}

/// An accepted job goes to exactly one place: either it joins the handoff
/// to an idle worker, or it is given back as the first task of one new
/// worker, never both and never neither. A refused job goes nowhere and
/// changes nothing.
pub proof fn lemma_job_routed_once<J>(v: ElasticView<J>, job: J)
    ensures
        ({
            let (w, r) = submit_next(v, job);
            &&& r is Ok ==> ((w.handed == v.handed.push(job) && w.spawned == v.spawned && r == Ok::<Route<J>, DispatchError>(Route::Handed))
                || (w.handed == v.handed && w.spawned == v.spawned + 1 && r == Ok::<Route<J>, DispatchError>(Route::Spawn(job))))
            &&& r is Err ==> w == v
        }),
{
}

/// A burst of submissions that finds no idle worker starts one new worker
/// per job, and hands nothing over.
pub proof fn lemma_burst_spawns_per_job<J>(v: ElasticView<J>, js: Seq<J>)
    requires
        v.idle == 0,
        !v.closed,
    ensures
        submit_all(v, js) == (ElasticView { spawned: v.spawned + js.len(), ..v }),
    decreases js.len(),
{
    if js.len() > 0 {
        lemma_burst_spawns_per_job(submit_next(v, js[0]).0, js.drop_first());
    }
}

/// A worker that went back to waiting is reused: two submissions with a
/// worker becoming idle between them start at most one new worker, and the
/// second job goes through the handoff.
pub proof fn lemma_idle_worker_reused<J>(v: ElasticView<J>, first: J, second: J)
    requires
        !v.closed,
    ensures
        ({
            let (a, r1) = submit_next(v, first);
            let (b, r2) = submit_next(wait_next(a), second);
            &&& r1 is Ok
            &&& r2 == Ok::<Route<J>, DispatchError>(Route::Handed)
            &&& b.spawned <= v.spawned + 1
        }),
{
}

/// Once the receiving side is destroyed, every submission fails with
/// `Disconnected` and starts nothing.
pub proof fn lemma_disconnected_refuses<J>(v: ElasticView<J>, job: J)
    ensures
        submit_next(disconnect_next(v), job) == (disconnect_next(v), Err::<Route<J>, DispatchError>(DispatchError::Disconnected)),
{
}

/// Workers are never retired: whatever is submitted, the number of workers
/// started does not go down.
pub proof fn lemma_workers_only_grow<J>(v: ElasticView<J>, js: Seq<J>)
    ensures
        submit_all(v, js).spawned >= v.spawned,
    decreases js.len(),
{
    if js.len() > 0 {
        lemma_workers_only_grow(submit_next(v, js[0]).0, js.drop_first());
    }
}

} // verus!
