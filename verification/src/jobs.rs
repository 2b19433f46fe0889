//! The runs of the rendering engine: how the engine is called, and the record of what
//! became of each run, which decides when the rendered images may be published.

use vstd::prelude::*;
use vstd::string::StringExecFns;
use crate::error::{optional_error, Error, ErrorView};

verus! {

/// The arguments of the rendering engine: `compile`, `-` for a program on standard input,
/// the file to write, and the root directory where one is set.
pub open spec fn engine_arguments_of(output_path: Seq<char>, root: Option<Seq<char>>) -> Seq<
    Seq<char>,
> {
    let fixed = seq!["compile"@, "-"@, output_path];
    match root {
        Some(root) => fixed + seq!["--root"@, root],
        None => fixed,
    }
}

/// The arguments with which the rendering engine is started to write `output_path`.
pub fn engine_arguments(output_path: &str, root: &Option<String>) -> (arguments: Vec<String>)
    ensures
        arguments.deep_view() == engine_arguments_of(output_path@, root.deep_view()),
{
    let mut arguments: Vec<String> = Vec::new();
    arguments.push(String::from_str("compile"));
    arguments.push(String::from_str("-"));
    arguments.push(String::from_str(output_path));
    match root {
        Some(root) => {
            arguments.push(String::from_str("--root"));
            arguments.push(root.clone());
        },
        None => {},
    }
    assert(arguments.deep_view() =~= engine_arguments_of(output_path@, root.deep_view()));
    arguments
}

/// How far a job has come.
#[derive(Debug, Clone, Copy, PartialEq, Eq)]
pub enum JobState {
    /// The engine was not yet started for the job.
    Pending,
    /// The engine was started.
    Spawned,
    /// The engine has its input and is at work.
    Running,
    /// The engine exited with success.
    Succeeded,
    /// The engine could not be started, or exited with a failure.
    Failed,
}

/// Whether the engine is under way for a job: started, and not yet over.
pub open spec fn is_active(state: JobState) -> bool {
    state is Spawned || state is Running
}

/// What is to be done next in a run of the preprocessor.
#[derive(Debug, Clone, PartialEq, Eq)]
pub enum Action {
    /// Start the engine for this job, hand it the program, and say how that went.
    Spawn(usize),
    /// Wait until the engine of this job exits, and say how it exited.
    Wait(usize),
    /// The engine has succeeded for every job: publish the images.
    Publish,
    /// A job has failed and the engine is under way for no other: give up with this error.
    Abort(Error),
}

/// An [`Action`] as a value of the model.
pub enum ActionView {
    Spawn(int),
    Wait(int),
    Publish,
    Abort(ErrorView),
}

impl View for Action {
    type V = ActionView;

    open spec fn view(&self) -> ActionView {
        match *self {
            Action::Spawn(job) => ActionView::Spawn(job as int),
            Action::Wait(job) => ActionView::Wait(job as int),
            Action::Publish => ActionView::Publish,
            Action::Abort(error) => ActionView::Abort(error@),
        }
    }
}

/// The record of the jobs of a run: how far each job has come, by its number, and the
/// error of the first job that failed.
pub struct Orchestrator {
    states: Vec<JobState>,
    failure: Option<Error>,
}

/// An [`Orchestrator`] as values of the model.
pub struct OrchestratorView {
    pub states: Seq<JobState>,
    pub failure: Option<ErrorView>,
}

/// The error that a record holds after a job failed with `error`: the first failure stays.
pub open spec fn first_failure(failure: Option<ErrorView>, error: ErrorView) -> Option<ErrorView> {
    match failure {
        Some(first) => Some(first),
        None => Some(error),
    }
}

/// The record at the start, for a number of jobs: the engine was started for none.
pub open spec fn all_pending(jobs: nat) -> OrchestratorView {
    OrchestratorView { states: Seq::new(jobs, |job: int| JobState::Pending), failure: None }
}

/// Whether `job` is a job of the record in the state `state`.
pub open spec fn is_in(record: OrchestratorView, job: int, state: JobState) -> bool {
    0 <= job < record.states.len() && record.states[job] == state
}

/// The record after the engine was started for `job`. Only a pending job is moved on.
pub open spec fn after_spawn(record: OrchestratorView, job: int) -> OrchestratorView {
    if is_in(record, job, JobState::Pending) {
        OrchestratorView { states: record.states.update(job, JobState::Spawned), ..record }
    } else {
        record
    }
}

/// The record after the engine could not be started for `job`. Only a pending job is moved
/// on; it counts as failed.
pub open spec fn after_spawn_failure(record: OrchestratorView, job: int, reason: Seq<char>) -> OrchestratorView {
    if is_in(record, job, JobState::Pending) {
        OrchestratorView {
            states: record.states.update(job, JobState::Failed),
            failure: first_failure(record.failure, ErrorView::SubprocessSpawn(reason)),
        }
    } else {
        record
    }
}

/// The record after the engine of `job` got its input. Only a job whose engine was just
/// started is moved on.
pub open spec fn after_input(record: OrchestratorView, job: int) -> OrchestratorView {
    if is_in(record, job, JobState::Spawned) {
        OrchestratorView { states: record.states.update(job, JobState::Running), ..record }
    } else {
        record
    }
}

/// The record after the engine of `job` could not be given its input. Only a job whose
/// engine was just started is touched: the failure is recorded, and the engine is still to
/// be waited for.
pub open spec fn after_input_failure(record: OrchestratorView, job: int, reason: Seq<char>) -> OrchestratorView {
    if is_in(record, job, JobState::Spawned) {
        OrchestratorView {
            failure: first_failure(record.failure, ErrorView::SubprocessSpawn(reason)),
            ..record
        }
    } else {
        record
    }
}

/// The record after the engine of `job` exited. Only a job whose engine is under way is
/// moved on; a failure is recorded with what the engine wrote to standard error.
pub open spec fn after_exit(
    record: OrchestratorView,
    job: int,
    success: bool,
    stderr: Seq<char>,
) -> OrchestratorView {
    if 0 <= job < record.states.len() && is_active(record.states[job]) {
        if success {
            OrchestratorView { states: record.states.update(job, JobState::Succeeded), ..record }
        } else {
            OrchestratorView {
                states: record.states.update(job, JobState::Failed),
                failure: first_failure(record.failure, ErrorView::SubprocessFailure(stderr)),
            }
        }
    } else {
        record
    }
}

/// Whether a job in this state is looked for: a pending one, or one whose engine is under
/// way.
pub open spec fn is_wanted(state: JobState, pending: bool) -> bool {
    if pending {
        state is Pending
    } else {
        is_active(state)
    }
}

/// The first job at or after `from` that is looked for.
pub open spec fn first_wanted(states: Seq<JobState>, pending: bool, from: int) -> Option<int>
    decreases states.len() - from,
{
    if from < 0 || from >= states.len() {
        None
    } else if is_wanted(states[from], pending) {
        Some(from)
    } else {
        first_wanted(states, pending, from + 1)
    }
}

/// What is to be done next, given a record.
///
/// While no job has failed, the engine is started for the pending jobs, in their order, so
/// that all of them are at work at once. Then the jobs whose engine is under way are
/// waited for, in their order. When none is left, the run is given up where a job has
/// failed, and else the images are published.
pub open spec fn next_action(record: OrchestratorView) -> ActionView {
    match (record.failure, first_wanted(record.states, true, 0)) {
        (None, Some(job)) => ActionView::Spawn(job),
        _ => match (first_wanted(record.states, false, 0), record.failure) {
            (Some(job), _) => ActionView::Wait(job),
            (None, Some(error)) => ActionView::Abort(error),
            (None, None) => ActionView::Publish,
        },
    }
}

/// What the first job that is looked for is: it is looked for, and no job before it is;
/// where there is none, no job is looked for.
pub proof fn lemma_first_wanted(states: Seq<JobState>, pending: bool, from: int)
    requires
        0 <= from,
    ensures
        match first_wanted(states, pending, from) {
            Some(job) => {
                &&& from <= job < states.len()
                &&& is_wanted(states[job], pending)
                &&& forall|other: int| from <= other < job ==> !is_wanted(states[other], pending)
            },
            None => forall|other: int|
                from <= other < states.len() ==> !is_wanted(states[other], pending),
        },
    decreases states.len() - from,
{
    if from < states.len() && !is_wanted(states[from], pending) {
        lemma_first_wanted(states, pending, from + 1);
    }
}

/// The images are published only when the engine has succeeded for every job, and the run
/// is given up only when the engine is under way for no job.
pub proof fn lemma_barrier(record: OrchestratorView)
    requires
        consistent(record),
    ensures
        next_action(record) is Publish ==> forall|job: int|
            0 <= job < record.states.len() ==> #[trigger] record.states[job] is Succeeded,
        next_action(record) is Abort ==> forall|job: int|
            0 <= job < record.states.len() ==> !is_active(#[trigger] record.states[job]),
        next_action(record) matches ActionView::Spawn(job) ==> is_in(
            record,
            job,
            JobState::Pending,
        ) && record.failure is None,
        next_action(record) matches ActionView::Wait(job) ==> 0 <= job < record.states.len()
            && is_active(record.states[job]),
{
    lemma_first_wanted(record.states, true, 0);
    lemma_first_wanted(record.states, false, 0);
}

/// The steps that a job in this state is from its end.
pub open spec fn steps_left(state: JobState) -> nat {
    match state {
        JobState::Pending => 3,
        JobState::Spawned => 2,
        JobState::Running => 1,
        _ => 0,
    }
}

/// The steps that the first `n` jobs are from their end, taken together.
pub open spec fn work_left(states: Seq<JobState>, n: nat) -> nat
    decreases n,
{
    if n == 0 || n > states.len() {
        0
    } else {
        work_left(states, (n - 1) as nat) + steps_left(states[n - 1])
    }
}

/// Moving one job on by some steps takes as many steps from the work that is left.
proof fn lemma_work_left_update(states: Seq<JobState>, job: int, state: JobState, n: nat)
    requires
        0 <= job < states.len(),
        n <= states.len(),
    ensures
        work_left(states.update(job, state), n) == if job < n {
            work_left(states, n) - steps_left(states[job]) + steps_left(state)
        } else {
            work_left(states, n) as int
        },
    decreases n,
{
    if n > 0 {
        lemma_work_left_update(states, job, state, (n - 1) as nat);
    }
}

/// Every action but the last comes to an end: once the host has done what the action asks
/// and has said how it went, less work is left than before. So a run takes no more than
/// three steps for each job.
pub proof fn lemma_progress(record: OrchestratorView, success: bool, text: Seq<char>)
    requires
        consistent(record),
    ensures
        match next_action(record) {
            ActionView::Spawn(job) => {
                &&& work_left(after_spawn(record, job).states, record.states.len()) < work_left(
                    record.states,
                    record.states.len(),
                )
                &&& work_left(
                    after_spawn_failure(record, job, text).states,
                    record.states.len(),
                ) < work_left(record.states, record.states.len())
            },
            ActionView::Wait(job) => work_left(
                after_exit(record, job, success, text).states,
                record.states.len(),
            ) < work_left(record.states, record.states.len()),
            _ => true,
        },
{
    lemma_barrier(record);
    match next_action(record) {
        ActionView::Spawn(job) => {
            lemma_work_left_update(record.states, job, JobState::Spawned, record.states.len());
            lemma_work_left_update(record.states, job, JobState::Failed, record.states.len());
        },
        ActionView::Wait(job) => {
            lemma_work_left_update(record.states, job, JobState::Succeeded, record.states.len());
            lemma_work_left_update(record.states, job, JobState::Failed, record.states.len());
        },
        _ => {},
    }
}

/// A failure that is recorded stays as it is, whatever is noted after it.
pub proof fn lemma_failure_stays(
    record: OrchestratorView,
    job: int,
    success: bool,
    text: Seq<char>,
)
    requires
        record.failure is Some,
    ensures
        after_spawn(record, job).failure == record.failure,
        after_spawn_failure(record, job, text).failure == record.failure,
        after_input(record, job).failure == record.failure,
        after_input_failure(record, job, text).failure == record.failure,
        after_exit(record, job, success, text).failure == record.failure,
{
}

/// Once a failure is recorded, the engine is started for no further job and the images
/// are never published: the jobs under way are waited for, and then the run is given up
/// with the error that was recorded.
pub proof fn lemma_failure_aborts(record: OrchestratorView)
    requires
        record.failure is Some,
    ensures
        match next_action(record) {
            ActionView::Wait(_) => true,
            ActionView::Abort(error) => record.failure == Some(error),
            _ => false,
        },
{
}

/// An engine that exits with a failure, where none was recorded before, is recorded with
/// what it wrote to standard error, and that is what the error says in words.
pub proof fn lemma_failed_exit(record: OrchestratorView, job: int, stderr: Seq<char>)
    requires
        record.failure is None,
        0 <= job < record.states.len(),
        is_active(record.states[job]),
    ensures
        after_exit(record, job, false, stderr).failure == Some(
            ErrorView::SubprocessFailure(stderr),
        ),
        crate::error::message_of(ErrorView::SubprocessFailure(stderr)) == stderr,
{
}

impl View for Orchestrator {
    type V = OrchestratorView;

    closed spec fn view(&self) -> OrchestratorView {
        OrchestratorView { states: self.states@, failure: optional_error(self.failure) }
    }
}

/// A record is consistent where it holds the error of a failure whenever a job has failed.
pub open spec fn consistent(record: OrchestratorView) -> bool {
    forall|job: int|
        0 <= job < record.states.len() && #[trigger] record.states[job] is Failed
            ==> record.failure is Some
}

impl Orchestrator {
    #[verifier::type_invariant]
    spec fn inv(&self) -> bool {
        consistent(self@)
    }

    /// The record of a run with `jobs` jobs, for none of which the engine was started.
    pub fn new(jobs: usize) -> (record: Orchestrator)
        ensures
            record@ == all_pending(jobs as nat),
    {
        let mut states: Vec<JobState> = Vec::new();
        let mut i: usize = 0;
        while i < jobs
            invariant
                i <= jobs,
                states@ == Seq::new(i as nat, |job: int| JobState::Pending),
            decreases jobs - i,
        {
            states.push(JobState::Pending);
            assert(states@ =~= Seq::new((i + 1) as nat, |job: int| JobState::Pending));
            i = i + 1;
        }
        Orchestrator { states, failure: None }
    }

    /// Puts `state` in the place of the state of `job`. The states are taken out of the
    /// record for it, so that the record is never seen with a failed job and no error.
    fn put(&mut self, job: usize, state: JobState)
        requires
            job < old(self)@.states.len(),
            state is Failed ==> old(self)@.failure is Some,
        ensures
            final(self)@.failure == old(self)@.failure,
            final(self)@.states == old(self)@.states.update(job as int, state),
    {
        proof {
            use_type_invariant(&*self);
        }
        let mut states: Vec<JobState> = Vec::new();
        std::mem::swap(&mut states, &mut self.states);
        states.set(job, state);
        std::mem::swap(&mut states, &mut self.states);
    }

    /// The state of `job`, where the record has such a job.
    pub fn state(&self, job: usize) -> (state: Option<JobState>)
        ensures
            state == if job < self@.states.len() {
                Some(self@.states[job as int])
            } else {
                None
            },
    {
        if job < self.states.len() {
            Some(self.states[job])
        } else {
            None
        }
    }

    /// Notes that the engine was started for `job`.
    pub fn spawned(&mut self, job: usize)
        ensures
            final(self)@ == after_spawn(old(self)@, job as int),
    {
        match self.state(job) {
            Some(JobState::Pending) => {
                self.put(job, JobState::Spawned);
            },
            _ => {},
        }
    }

    /// Notes that the engine could not be started for `job`.
    pub fn spawn_failed(&mut self, job: usize, reason: String)
        ensures
            final(self)@ == after_spawn_failure(old(self)@, job as int, reason@),
    {
        match self.state(job) {
            Some(JobState::Pending) => {
                if self.failure.is_none() {
                    self.failure = Some(Error::SubprocessSpawn(reason));
                }
                self.put(job, JobState::Failed);
            },
            _ => {},
        }
    }

    /// Notes that the engine of `job` got its input.
    pub fn input_written(&mut self, job: usize)
        ensures
            final(self)@ == after_input(old(self)@, job as int),
    {
        match self.state(job) {
            Some(JobState::Spawned) => {
                self.put(job, JobState::Running);
            },
            _ => {},
        }
    }

    /// Notes that the engine of `job` could not be given its input.
    pub fn input_failed(&mut self, job: usize, reason: String)
        ensures
            final(self)@ == after_input_failure(old(self)@, job as int, reason@),
    {
        match self.state(job) {
            Some(JobState::Spawned) => {
                if self.failure.is_none() {
                    self.failure = Some(Error::SubprocessSpawn(reason));
                }
            },
            _ => {},
        }
    }

    /// Notes that the engine of `job` exited, with success or not, and what it wrote to
    /// standard error.
    pub fn exited(&mut self, job: usize, success: bool, stderr: String)
        ensures
            final(self)@ == after_exit(old(self)@, job as int, success, stderr@),
    {
        match self.state(job) {
            Some(JobState::Spawned) | Some(JobState::Running) => {
                if success {
                    self.put(job, JobState::Succeeded);
                } else {
                    if self.failure.is_none() {
                        self.failure = Some(Error::SubprocessFailure(stderr));
                    }
                    self.put(job, JobState::Failed);
                }
            },
            _ => {},
        }
    }

    /// The first job that is looked for: a pending one, or one whose engine is under way.
    fn first(&self, pending: bool) -> (found: Option<usize>)
        ensures
            match found {
                Some(job) => first_wanted(self@.states, pending, 0) == Some(job as int),
                None => first_wanted(self@.states, pending, 0) is None,
            },
    {
        let mut i: usize = 0;
        while i < self.states.len()
            invariant
                i <= self.states.len(),
                first_wanted(self@.states, pending, 0) == first_wanted(
                    self@.states,
                    pending,
                    i as int,
                ),
            decreases self.states.len() - i,
        {
            let wanted = match self.states[i] {
                JobState::Pending => pending,
                JobState::Spawned | JobState::Running => !pending,
                _ => false,
            };
            if wanted {
                return Some(i);
            }
            i = i + 1;
        }
        None
    }

    /// What is to be done next. The images are published only when the engine has
    /// succeeded for every job, and the run is given up only when the engine is under way
    /// for no job.
    pub fn next(&self) -> (action: Action)
        ensures
            action@ == next_action(self@),
            consistent(self@),
            action is Publish ==> forall|job: int|
                0 <= job < self@.states.len() ==> #[trigger] self@.states[job] is Succeeded,
            action is Abort ==> forall|job: int|
                0 <= job < self@.states.len() ==> !is_active(#[trigger] self@.states[job]),
            action matches Action::Spawn(job) ==> is_in(self@, job as int, JobState::Pending),
            action matches Action::Wait(job) ==> job < self@.states.len() && is_active(
                self@.states[job as int],
            ),
    {
        proof {
            use_type_invariant(self);
            lemma_barrier(self@);
        }
        if self.failure.is_none() {
            match self.first(true) {
                Some(job) => {
                    return Action::Spawn(job);
                },
                None => {},
            }
        }
        match self.first(false) {
            Some(job) => Action::Wait(job),
            None => match &self.failure {
                Some(error) => Action::Abort(error.duplicate()),
                None => Action::Publish,
            },
        }
    }
}

} // verus!
