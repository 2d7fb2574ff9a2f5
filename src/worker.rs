use vstd::prelude::*;

use crate::gateway::DeviceError;
use crate::protocol::{Command, Event};

verus! {

/// Where the worker stands in carrying out one command.
#[derive(Clone, Copy, Debug, PartialEq, Eq)]
pub enum Stage {
    Detecting,
    QueryingModel,
    Listing,
    Uninstalling,
    Rebooting,
    Done,
}

/// The next call the worker makes on the device gateway.
#[derive(Clone, Debug, PartialEq, Eq)]
pub enum Action {
    Detect,
    QueryModel,
    ListPackages,
    /// Attempt to uninstall this package.
    Uninstall(String),
    /// Every package of the batch has been attempted: report the end.
    Conclude,
    Reboot,
    /// The command is carried out.
    Idle,
}

/// What came back from carrying out an action.
#[derive(Debug, PartialEq, Eq)]
pub enum Reply {
    Detected(Result<(), DeviceError>),
    Model(Result<String, DeviceError>),
    Packages(Result<Vec<String>, DeviceError>),
    Attempted,
    Concluded,
    Rebooted,
}

/// One command in the hands of the worker.
#[derive(Clone, Debug)]
pub struct Job {
    pub stage: Stage,
    /// The packages of an uninstall batch, in order; empty otherwise.
    pub targets: Vec<String>,
    /// How many of `targets` have been attempted.
    pub attempted: usize,
    /// The device model, once read.
    pub model: String,
}

/// Whether `reply` is what carrying out `action` gives back.
pub open spec fn answers(action: Action, reply: Reply) -> bool {
    match action {
        Action::Detect => reply is Detected,
        Action::QueryModel => reply is Model,
        Action::ListPackages => reply is Packages,
        Action::Uninstall(_) => reply is Attempted,
        Action::Conclude => reply is Concluded,
        Action::Reboot => reply is Rebooted,
        Action::Idle => false,
    }
}

impl Job {
    pub open spec fn wf(&self) -> bool {
        self.attempted <= self.targets@.len() <= usize::MAX
    }

    /// Whether this is the job that takes up `cmd`, before any action.
    pub open spec fn is_start_of(&self, cmd: Command) -> bool {
        &&& self.attempted == 0
        &&& self.model@.len() == 0
        &&& match cmd {
            Command::DetectAndRefresh => self.stage == Stage::Detecting && self.targets@.len() == 0,
            Command::Uninstall(ids) => self.stage == Stage::Uninstalling && self.targets == ids,
            Command::Reboot => self.stage == Stage::Rebooting && self.targets@.len() == 0,
        }
    }

    pub open spec fn next_action(&self) -> Action {
        match self.stage {
            Stage::Detecting => Action::Detect,
            Stage::QueryingModel => Action::QueryModel,
            Stage::Listing => Action::ListPackages,
            Stage::Uninstalling => if self.attempted < self.targets@.len() {
                Action::Uninstall(self.targets@[self.attempted as int])
            } else {
                Action::Conclude
            },
            Stage::Rebooting => Action::Reboot,
            Stage::Done => Action::Idle,
        }
    }

    pub open spec fn with_stage(self, stage: Stage) -> Job {
        Job { stage, ..self }
    }

    /// The job after `reply`, and the event it reports, if any.
    pub open spec fn step(self, reply: Reply) -> (Job, Option<Event>) {
        match reply {
            Reply::Detected(Ok(())) => (self.with_stage(Stage::QueryingModel), None),
            Reply::Model(Ok(m)) => (Job { stage: Stage::Listing, model: m, ..self }, None),
            Reply::Packages(Ok(ids)) => (
                self.with_stage(Stage::Done),
                Some(Event::RefreshSucceeded(self.model, ids)),
            ),
            Reply::Detected(Err(e)) => (self.with_stage(Stage::Done), Some(Event::RefreshFailed(e))),
            Reply::Model(Err(e)) => (self.with_stage(Stage::Done), Some(Event::RefreshFailed(e))),
            Reply::Packages(Err(e)) => (self.with_stage(Stage::Done), Some(Event::RefreshFailed(e))),
            Reply::Attempted => (
                Job { attempted: (self.attempted + 1) as usize, ..self },
                Some(Event::UninstallProgress((self.attempted + 1) as usize, self.targets@.len() as usize)),
            ),
            Reply::Concluded => (self.with_stage(Stage::Done), Some(Event::UninstallFinished)),
            Reply::Rebooted => (self.with_stage(Stage::Done), Some(Event::RebootFinished)),
        }
    }

    /// Takes up a command.
    pub fn new(cmd: Command) -> (r: Job)
        ensures
            r.is_start_of(cmd),
            r.wf(),
    {
        match cmd {
            Command::DetectAndRefresh => Job {
                stage: Stage::Detecting,
                targets: Vec::new(),
                attempted: 0,
                model: String::new(),
            },
            Command::Uninstall(ids) => {
                // The batch's size is a Vec length, so the counter cannot overflow.
                let _size: usize = ids.len();
                Job { stage: Stage::Uninstalling, targets: ids, attempted: 0, model: String::new() }
            },
            Command::Reboot => Job {
                stage: Stage::Rebooting,
                targets: Vec::new(),
                attempted: 0,
                model: String::new(),
            },
        }
    }

    /// The call to make next on the gateway.
    pub fn action(&self) -> (r: Action)
        requires
            self.wf(),
        ensures
            r == self.next_action(),
    {
        match self.stage {
            Stage::Detecting => Action::Detect,
            Stage::QueryingModel => Action::QueryModel,
            Stage::Listing => Action::ListPackages,
            Stage::Uninstalling => if self.attempted < self.targets.len() {
                Action::Uninstall(self.targets[self.attempted].clone())
            } else {
                Action::Conclude
            },
            Stage::Rebooting => Action::Reboot,
            Stage::Done => Action::Idle,
        }
    }

    /// Takes in what the last action gave back; returns the event to report.
    pub fn advance(&mut self, reply: Reply) -> (r: Option<Event>)
        requires
            old(self).wf(),
            answers(old(self).next_action(), reply),
        ensures
            (*final(self), r) == old(self).step(reply),
            final(self).wf(),
    {
        match reply {
            Reply::Detected(Ok(())) => {
                self.stage = Stage::QueryingModel;
                None
            },
            Reply::Model(Ok(m)) => {
                self.stage = Stage::Listing;
                self.model = m;
                None
            },
            Reply::Packages(Ok(ids)) => {
                self.stage = Stage::Done;
                Some(Event::RefreshSucceeded(self.model.clone(), ids))
            },
            Reply::Detected(Err(e)) => {
                self.stage = Stage::Done;
                Some(Event::RefreshFailed(e))
            },
            Reply::Model(Err(e)) => {
                self.stage = Stage::Done;
                Some(Event::RefreshFailed(e))
            },
            Reply::Packages(Err(e)) => {
                self.stage = Stage::Done;
                Some(Event::RefreshFailed(e))
            },
            Reply::Attempted => {
                let total = self.targets.len();
                assert(self.stage == Stage::Uninstalling && self.attempted < total);
                self.attempted = self.attempted + 1;
                Some(Event::UninstallProgress(self.attempted, total))
            },
            Reply::Concluded => {
                self.stage = Stage::Done;
                Some(Event::UninstallFinished)
            },
            Reply::Rebooted => {
                self.stage = Stage::Done;
                Some(Event::RebootFinished)
            },
        }
    }

    /// Whether the command is carried out.
    pub fn is_done(&self) -> (r: bool)
        ensures
            r == (self.stage == Stage::Done),
    {
        match self.stage {
            Stage::Done => true,
            _ => false,
        }
    }
}

/// The reply that an action of an uninstall batch always gives back: the
/// outcome of an attempt is not reported.
pub open spec fn batch_reply(action: Action) -> Reply {
    match action {
        Action::Conclude => Reply::Concluded,
        _ => Reply::Attempted,
    }
}

pub open spec fn opt_seq(e: Option<Event>) -> Seq<Event> {
    match e {
        Some(x) => seq![x],
        None => Seq::empty(),
    }
}

/// The job after `n` steps of a batch, and the events reported on the way.
pub open spec fn run_batch(j: Job, n: nat) -> (Job, Seq<Event>)
    decreases n,
{
    if n == 0 {
        (j, Seq::empty())
    } else {
        let (next, e) = j.step(batch_reply(j.next_action()));
        let (last, rest) = run_batch(next, (n - 1) as nat);
        (last, opt_seq(e) + rest)
    }
}

/// The events of a batch of `total` packages from `done` attempts on.
pub open spec fn batch_events_from(done: nat, total: nat) -> Seq<Event> {
    Seq::new(
        (total - done) as nat,
        |i: int| Event::UninstallProgress((done + i + 1) as usize, total as usize),
    ).push(Event::UninstallFinished)
}

proof fn lemma_batch_from(j: Job)
    requires
        j.wf(),
        j.stage == Stage::Uninstalling,
    ensures
        ({
            let n = (j.targets@.len() - j.attempted + 1) as nat;
            let (last, events) = run_batch(j, n);
            &&& events == batch_events_from(j.attempted as nat, j.targets@.len())
            &&& last.stage == Stage::Done
        }),
    decreases j.targets@.len() - j.attempted,
{
    let n = (j.targets@.len() - j.attempted + 1) as nat;
    assert(j.next_action() == if j.attempted < j.targets@.len() {
        Action::Uninstall(j.targets@[j.attempted as int])
    } else {
        Action::Conclude
    });
    if j.attempted < j.targets@.len() {
        let next = j.step(Reply::Attempted).0;
        let e = j.step(Reply::Attempted).1;
        assert(next.attempted == j.attempted + 1 && next.targets == j.targets && next.stage == j.stage);
        lemma_batch_from(next);
        let rest = run_batch(next, (n - 1) as nat).1;
        assert(run_batch(j, n).1 == opt_seq(e) + rest);
        assert(opt_seq(e) + rest =~= batch_events_from(j.attempted as nat, j.targets@.len()));
    } else {
        let next = j.step(Reply::Concluded).0;
        assert(run_batch(next, 0).1 =~= Seq::<Event>::empty());
        assert(run_batch(j, 1).1 =~= batch_events_from(j.attempted as nat, j.targets@.len()));
    }
}

/// An uninstall batch of `t` packages, run to its end, reports progress
/// `(1, t)`, `(2, t)`, ..., `(t, t)` in that order and then finishes once; the
/// gateway is asked each time for what the batch's replies answer.
pub proof fn batch_reports_each_attempt_then_finishes(j: Job, ids: Vec<String>)
    requires
        j.is_start_of(Command::Uninstall(ids)),
        j.wf(),
    ensures
        ({
            let t = ids@.len();
            let (last, events) = run_batch(j, t + 1);
            &&& events.len() == t + 1
            &&& forall|i: int|
                0 <= i < t ==> #[trigger] events[i] == Event::UninstallProgress(
                    (i + 1) as usize,
                    t as usize,
                )
            &&& events[t as int] == Event::UninstallFinished
            &&& last.stage == Stage::Done
        }),
{
    lemma_batch_from(j);
}

/// A step ends the job exactly when it reports the command's last event, and
/// a job that is done takes no further reply: so the events of one command
/// all come before those of the command the worker takes up next.
pub proof fn job_ends_with_its_final_event(j: Job, reply: Reply)
    requires
        j.wf(),
        answers(j.next_action(), reply),
    ensures
        j.stage != Stage::Done,
        ({
            let (next, e) = j.step(reply);
            next.stage == Stage::Done <==> (e is Some && is_final_event(e->Some_0))
        }),
        forall|r: Reply| !answers(Action::Idle, r),
{
}

/// Whether `e` is the last event a command reports.
pub open spec fn is_final_event(e: Event) -> bool {
    match e {
        Event::UninstallProgress(_, _) => false,
        _ => true,
    }
}

/// The worker: commands wait in submission order, and one job at a time is
/// carried out.
pub struct Worker {
    /// Commands not yet taken up, oldest first.
    pub pending: Vec<Command>,
    /// The command being carried out, or the last one, once done.
    pub job: Option<Job>,
    /// Every command submitted so far, in order.
    pub submitted: Ghost<Seq<Command>>,
    /// The commands taken up so far, in order.
    pub taken: Ghost<Seq<Command>>,
}

impl Worker {
    pub open spec fn wf(&self) -> bool {
        &&& self.taken@ + self.pending@ == self.submitted@
        &&& self.job is Some ==> self.job->Some_0.wf()
    }

    /// Whether the current job, if any, is carried out.
    pub open spec fn free(&self) -> bool {
        self.job is None || self.job->Some_0.stage == Stage::Done
    }

    pub fn new() -> (r: Worker)
        ensures
            r.wf(),
            r.free(),
            r.pending@.len() == 0,
            r.submitted@.len() == 0,
    {
        Worker {
            pending: Vec::new(),
            job: None,
            submitted: Ghost(Seq::empty()),
            taken: Ghost(Seq::empty()),
        }
    }

    /// Queues `cmd` behind every command submitted before it.
    pub fn submit(&mut self, cmd: Command)
        requires
            old(self).wf(),
        ensures
            final(self).wf(),
            final(self).pending@ == old(self).pending@.push(cmd),
            final(self).submitted@ == old(self).submitted@.push(cmd),
            final(self).taken == old(self).taken,
            final(self).job == old(self).job,
    {
        let ghost c = cmd;
        self.pending.push(cmd);
        self.submitted = Ghost(self.submitted@.push(c));
        assert(self.taken@ + self.pending@ =~= self.submitted@);
    }

    /// Whether nothing is under way or waiting.
    pub fn is_idle(&self) -> (r: bool)
        ensures
            r == (self.free() && self.pending@.len() == 0),
    {
        let free = match &self.job {
            None => true,
            Some(j) => j.is_done(),
        };
        free && self.pending.len() == 0
    }

    /// The call to make next: on the current job while it is not done, else
    /// on the oldest waiting command, which is then taken up.
    pub fn next_action(&mut self) -> (r: Action)
        requires
            old(self).wf(),
        ensures
            final(self).wf(),
            final(self).submitted == old(self).submitted,
            !old(self).free() ==> *final(self) == *old(self) && r == old(self).job->Some_0.next_action(),
            old(self).free() && old(self).pending@.len() == 0 ==> *final(self) == *old(self) && r
                == Action::Idle,
            old(self).free() && old(self).pending@.len() > 0 ==> {
                &&& final(self).job is Some
                &&& final(self).job->Some_0.is_start_of(old(self).pending@[0])
                &&& final(self).pending@ == old(self).pending@.drop_first()
                &&& final(self).taken@ == old(self).taken@.push(old(self).pending@[0])
                &&& r == final(self).job->Some_0.next_action()
            },
    {
        let free = match &self.job {
            None => true,
            Some(j) => j.is_done(),
        };
        if free {
            if self.pending.len() == 0 {
                return Action::Idle;
            }
            let cmd = self.pending.remove(0);
            let ghost c = cmd;
            self.taken = Ghost(self.taken@.push(c));
            assert(self.taken@ + self.pending@ =~= self.submitted@) by {
                assert(old(self).pending@ =~= seq![c] + self.pending@);
                assert(old(self).taken@ + old(self).pending@ =~= self.taken@ + self.pending@);
            }
            self.job = Some(Job::new(cmd));
        }
        match &self.job {
            Some(j) => j.action(),
            None => Action::Idle,
        }
    }

    /// Takes in what the last action gave back; returns the event to report.
    pub fn advance(&mut self, reply: Reply) -> (r: Option<Event>)
        requires
            old(self).wf(),
            old(self).job is Some,
            answers(old(self).job->Some_0.next_action(), reply),
        ensures
            final(self).wf(),
            final(self).pending == old(self).pending,
            final(self).submitted == old(self).submitted,
            final(self).taken == old(self).taken,
            final(self).job is Some,
            (final(self).job->Some_0, r) == old(self).job->Some_0.step(reply),
    {
        match &mut self.job {
            Some(j) => j.advance(reply),
            None => None,
        }
    }
}

/// The worker takes commands up in the order they were submitted: those
/// taken so far, followed by those waiting, are exactly the submitted ones.
/// Together with `next_action`, which takes up a command only once the
/// current job is done, and `job_ends_with_its_final_event`, the events of
/// each command all come before those of the next.
pub proof fn worker_serves_in_submission_order(w: Worker)
    requires
        w.wf(),
    ensures
        w.taken@.len() <= w.submitted@.len(),
        forall|i: int| 0 <= i < w.taken@.len() ==> #[trigger] w.taken@[i] == w.submitted@[i],
        forall|i: int| 0 <= i < w.pending@.len() ==> #[trigger] w.pending@[i] == w.submitted@[w.taken@.len() + i],
{
    assert forall|i: int| 0 <= i < w.taken@.len() implies #[trigger] w.taken@[i] == w.submitted@[i] by {
        assert((w.taken@ + w.pending@)[i] == w.taken@[i]);
    }
    assert forall|i: int| 0 <= i < w.pending@.len() implies #[trigger] w.pending@[i] == w.submitted@[w.taken@.len() + i] by {
        assert((w.taken@ + w.pending@)[w.taken@.len() + i] == w.pending@[i]);
    }
}

} // verus!
