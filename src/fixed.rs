use std::collections::VecDeque;
use vstd::prelude::*;

verus! {

/// A message on the fixed pool's shared queue.
pub enum Message<J> {
    /// Deliver one job to whichever worker dequeues it next.
    NewJob(J),
    /// Tell the worker that dequeues it to leave its receive loop.
    Terminate,
}

/// What a worker does with the message it dequeued.
pub enum WorkerStep<J> {
    /// Invoke this job, then go back to the queue.
    Run(J),
    /// Stop receiving and exit.
    Exit,
}

/// The step a worker takes on a message.
pub open spec fn step_of<J>(m: Message<J>) -> WorkerStep<J> {
    match m {
        Message::NewJob(j) => WorkerStep::Run(j),
        Message::Terminate => WorkerStep::Exit,
    }
}

/// Decides what a worker does with a dequeued message.
pub fn worker_step<J>(m: Message<J>) -> (r: WorkerStep<J>)
    ensures
        r == step_of(m),
{
    match m {
        Message::NewJob(j) => WorkerStep::Run(j),
        Message::Terminate => WorkerStep::Exit,
    }
}

/// Abstract state of a fixed pool's dispatch core.
pub struct FixedView<J> {
    /// Messages waiting on the shared queue, oldest first.
    pub queue: Seq<Message<J>>,
    /// Number of workers the pool was built with.
    pub size: nat,
    /// Whether teardown has begun.
    pub stopping: bool,
}

/// `n` terminate messages.
pub open spec fn terminates<J>(n: nat) -> Seq<Message<J>> {
    Seq::new(n, |i: int| Message::Terminate)
}

/// The queue after the jobs `js` were submitted, in order, onto `q`.
pub open spec fn submitted<J>(q: Seq<Message<J>>, js: Seq<J>) -> Seq<Message<J>> {
    q + js.map_values(|j: J| Message::NewJob(j))
}

/// The steps that workers take, in dequeue order, when `q` is drained.
pub open spec fn drained<J>(q: Seq<Message<J>>) -> Seq<WorkerStep<J>>
    decreases q.len(),
{
    if q.len() == 0 {
        Seq::empty()
    } else {
        seq![step_of(q[0])] + drained(q.drop_first())
    }
}

/// The dispatch core of a fixed pool: one FIFO queue shared by `size`
/// workers, and the ordered teardown that sends one terminate per worker.
pub struct FixedCore<J> {
    queue: VecDeque<Message<J>>,
    size: usize,
    stopping: bool,
}

impl<J> View for FixedCore<J> {
    type V = FixedView<J>;

    closed spec fn view(&self) -> FixedView<J> {
        FixedView { queue: self.queue@, size: self.size as nat, stopping: self.stopping }
    }
}

impl<J> FixedCore<J> {
    /// A core for `size` workers with an empty queue. A pool of no workers
    /// is a programming error, so `size` must be positive.
    pub fn new(size: usize) -> (r: Self)
        requires
            size > 0,
        ensures
            r@ == (FixedView::<J> { queue: Seq::empty(), size: size as nat, stopping: false }),
    {
        FixedCore { queue: VecDeque::new(), size, stopping: false }
    }

    /// Number of workers.
    pub fn size(&self) -> (r: usize)
        ensures
            r as nat == self@.size,
    {
        self.size
    }

    /// Whether teardown has begun.
    pub fn is_stopping(&self) -> (r: bool)
        ensures
            r == self@.stopping,
    {
        self.stopping
    }

    /// Number of messages waiting.
    pub fn pending(&self) -> (r: usize)
        ensures
            r as nat == self@.queue.len(),
    {
        self.queue.len()
    }

    /// Queues a job behind everything already waiting. Submitting after
    /// teardown has begun is a programming error.
    pub fn submit(&mut self, job: J)
        requires
            !old(self)@.stopping,
        ensures
            final(self)@ == (FixedView { queue: old(self)@.queue.push(Message::NewJob(job)), ..old(self)@ }),
    {
        self.queue.push_back(Message::NewJob(job));
    }

    /// Begins teardown: queues one terminate message per worker behind the
    /// jobs already waiting.
    pub fn shutdown(&mut self)
        requires
            !old(self)@.stopping,
        ensures
            final(self)@ == (FixedView {
                queue: old(self)@.queue + terminates::<J>(old(self)@.size),
                stopping: true,
                ..old(self)@
            }),
    {
        let ghost q0 = self.queue@;
        let mut i: usize = 0;
        while i < self.size
            invariant
                i <= self.size,
                self.size == old(self).size,
                self.stopping == old(self).stopping,
                self.queue@ == q0 + terminates::<J>(i as nat),
            decreases self.size - i,
        {
            self.queue.push_back(Message::Terminate);
            i = i + 1;
            assert(self.queue@ =~= q0 + terminates::<J>(i as nat));
        }
        self.stopping = true;
    }

    /// Dequeues the oldest message and says what the worker that took it
    /// does; `None` when nothing is waiting.
    pub fn next_step(&mut self) -> (r: Option<WorkerStep<J>>)
        ensures
            old(self)@.queue.len() == 0 ==> r is None && final(self)@ == old(self)@,
            old(self)@.queue.len() > 0 ==> r == Some(step_of(old(self)@.queue[0]))
                && final(self)@ == (FixedView { queue: old(self)@.queue.drop_first(), ..old(self)@ }),
    {
        match self.queue.pop_front() {
            Some(m) => Some(worker_step(m)),
            None => None,
        }
    }
}

/// Draining two queues one after the other gives the steps of the first,
/// then those of the second.
pub proof fn lemma_drained_append<J>(p: Seq<Message<J>>, q: Seq<Message<J>>)
    ensures
        drained(p + q) == drained(p) + drained(q),
    decreases p.len(),
{
    if p.len() == 0 {
        assert(p + q =~= q);
        assert(drained(p) + drained(q) =~= drained(q));
    } else {
        assert((p + q).drop_first() =~= p.drop_first() + q);
        lemma_drained_append(p.drop_first(), q);
        assert(drained(p + q) =~= drained(p) + drained(q));
    }
}

/// Jobs submitted to an empty queue are dequeued each exactly once, in the
/// order in which they were submitted: draining it runs `js` in order, and
/// nothing else.
pub proof fn lemma_jobs_run_once_in_order<J>(js: Seq<J>)
    ensures
        drained(submitted(Seq::<Message<J>>::empty(), js)) == js.map_values(|j: J| WorkerStep::Run(j)),
    decreases js.len(),
{
    let q = submitted(Seq::<Message<J>>::empty(), js);
    if js.len() == 0 {
        assert(q =~= Seq::<Message<J>>::empty());
        assert(js.map_values(|j: J| WorkerStep::Run(j)) =~= Seq::<WorkerStep<J>>::empty());
    } else {
        let rest = js.drop_first();
        lemma_jobs_run_once_in_order(rest);
        assert(q.drop_first() =~= submitted(Seq::<Message<J>>::empty(), rest));
        assert(drained(q) =~= js.map_values(|j: J| WorkerStep::Run(j)));
    }
}

/// Draining `n` terminate messages makes `n` workers exit.
pub proof fn lemma_drained_terminates<J>(n: nat)
    ensures
        drained(terminates::<J>(n)) == Seq::new(n, |i: int| WorkerStep::<J>::Exit),
    decreases n,
{
    if n > 0 {
        let t = terminates::<J>(n);
        assert(t.drop_first() =~= terminates::<J>((n - 1) as nat));
        lemma_drained_terminates::<J>((n - 1) as nat);
        assert(drained(t) =~= Seq::new(n, |i: int| WorkerStep::<J>::Exit));
    } else {
        assert(drained(terminates::<J>(n)) =~= Seq::new(n, |i: int| WorkerStep::<J>::Exit));
    }
}

/// Teardown drains before it stops: after `shutdown`, every message that was
/// waiting is dequeued and acted on before the first worker is told to
/// exit, and then exactly `size` exits follow.
pub proof fn lemma_shutdown_drains_first<J>(before: FixedView<J>, after: FixedView<J>)
    requires
        after == (FixedView { queue: before.queue + terminates::<J>(before.size), stopping: true, ..before }),
    ensures
        drained(after.queue) == drained(before.queue) + Seq::new(before.size, |i: int| WorkerStep::<J>::Exit),
{
    lemma_drained_append(before.queue, terminates::<J>(before.size));
    lemma_drained_terminates::<J>(before.size);
}

} // verus!
