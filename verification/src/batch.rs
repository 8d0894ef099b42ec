//! The run of a whole list of tasks.
//!
//! The tasks are run one after another, the last of the list first. The
//! first task that fails ends the batch with its error, and the tasks that
//! wait are never started. Like the run of a single task, a batch asks for
//! what it needs and is told how it went.

use crate::action::{MapFileTask, TaskView};
use crate::context::{ContextView, MapFileContext};
use crate::error::{MapError, MapErrorView};
use crate::execution::{
    initial_run, lemma_run_keeps_task, next_progress, request_of, Progress, ProgressView, Reply,
    ReplyView, Request, RunView, TaskRun,
};
use crate::path::path_file_name;
use vstd::prelude::*;

verus! {

/// A list of tasks that is being run.
#[derive(Debug)]
pub struct TaskBatch {
    waiting: Vec<MapFileTask>,
    current: TaskRun,
    context: MapFileContext,
}

/// The mathematical value of a [`TaskBatch`]: the tasks that wait, the last
/// of which is next, the task that runs, and the context of them all.
pub struct BatchView {
    pub waiting: Seq<TaskView>,
    pub current: RunView,
    pub context: ContextView,
}

impl View for TaskBatch {
    type V = BatchView;

    closed spec fn view(&self) -> BatchView {
        BatchView {
            waiting: self.waiting.deep_view(),
            current: self.current@,
            context: self.context@,
        }
    }
}

/// A batch after a reply: still under way, or over with its result.
#[derive(Debug)]
pub enum BatchProgress {
    Pending(TaskBatch),
    Finished(Result<(), MapError>),
}

/// The mathematical value of a [`BatchProgress`].
pub enum BatchProgressView {
    Pending(BatchView),
    Finished(Result<(), MapErrorView>),
}

impl View for BatchProgress {
    type V = BatchProgressView;

    open spec fn view(&self) -> BatchProgressView {
        match self {
            BatchProgress::Pending(batch) => BatchProgressView::Pending(batch@),
            BatchProgress::Finished(Ok(_)) => BatchProgressView::Finished(Ok(())),
            BatchProgress::Finished(Err(error)) => BatchProgressView::Finished(Err(error@)),
        }
    }
}

/// The batch of `tasks` at its start: over at once where there is no task,
/// and else running the last task while the others wait.
pub open spec fn begin_batch(tasks: Seq<TaskView>, context: ContextView) -> BatchProgressView {
    if tasks.len() == 0 {
        BatchProgressView::Finished(Ok(()))
    } else {
        BatchProgressView::Pending(
            BatchView {
                waiting: tasks.drop_last(),
                current: initial_run(tasks.last(), context),
                context,
            },
        )
    }
}

/// `batch` after `reply`: the task that runs goes on; where it fails, the
/// batch is over with its error; where it succeeds, the next task starts.
pub open spec fn next_batch(batch: BatchView, reply: ReplyView) -> BatchProgressView {
    match next_progress(batch.current, reply) {
        ProgressView::Pending(run) => BatchProgressView::Pending(
            BatchView { current: run, ..batch },
        ),
        ProgressView::Finished(Err(error)) => BatchProgressView::Finished(Err(error)),
        ProgressView::Finished(Ok(_)) => begin_batch(batch.waiting, batch.context),
    }
}

/// A batch after every reply of `replies` in turn. Replies that come after
/// the batch is over are not looked at.
pub open spec fn batch_through(progress: BatchProgressView, replies: Seq<ReplyView>)
    -> BatchProgressView
    decreases replies.len(),
{
    match progress {
        BatchProgressView::Finished(result) => progress,
        BatchProgressView::Pending(batch) => if replies.len() == 0 {
            progress
        } else {
            batch_through(next_batch(batch, replies.first()), replies.drop_first())
        },
    }
}

impl TaskBatch {
    /// Starts the run of `tasks` under `context`.
    pub fn begin(tasks: Vec<MapFileTask>, context: MapFileContext) -> (progress: BatchProgress)
        ensures
            progress@ == begin_batch(tasks.deep_view(), context@),
    {
        let mut waiting = tasks;
        match waiting.pop() {
            None => BatchProgress::Finished(Ok(())),
            Some(task) => {
                proof {
                    assert(waiting.deep_view() =~= tasks.deep_view().drop_last());
                }
                let current = task.execute(&context);
                BatchProgress::Pending(TaskBatch { waiting, current, context })
            },
        }
    }

    /// What the batch needs next: what the task that runs needs.
    pub fn request(&self) -> (request: Request)
        ensures
            request@ == request_of(self@.current),
    {
        self.current.request()
    }

    /// How many tasks wait to be started.
    pub fn waiting(&self) -> (count: usize)
        ensures
            count == self@.waiting.len(),
    {
        self.waiting.len()
    }

    /// Takes the reply to the pending request and goes on.
    pub fn resume(self, reply: Reply) -> (progress: BatchProgress)
        ensures
            progress@ == next_batch(self@, reply@),
    {
        let TaskBatch { waiting, current, context } = self;
        match current.resume(reply) {
            Progress::Pending(run) => BatchProgress::Pending(
                TaskBatch { waiting, current: run, context },
            ),
            Progress::Finished(Err(error)) => BatchProgress::Finished(Err(error)),
            Progress::Finished(Ok(_)) => Self::begin(waiting, context),
        }
    }
}

/// A batch in a dry run, somewhere on its way through `tasks`: the task that
/// runs and those that wait are tasks of the list, and all of it is dry.
pub open spec fn dry_within(batch: BatchView, tasks: Seq<TaskView>) -> bool {
    &&& batch.context.dry_run
    &&& batch.current.dry_run
    &&& batch.waiting.len() < tasks.len()
    &&& batch.waiting == tasks.take(batch.waiting.len() as int)
    &&& batch.current.file == tasks[batch.waiting.len() as int].file
}

/// What a dry run of `tasks` may have come to: a request that performs
/// nothing, success, or the error of a task whose file has no base name.
pub open spec fn dry_outcome(progress: BatchProgressView, tasks: Seq<TaskView>) -> bool {
    match progress {
        BatchProgressView::Pending(batch) => !(request_of(batch.current) is Perform),
        BatchProgressView::Finished(result) => result == Ok::<(), MapErrorView>(()) || exists|
            k: int,
        |
            0 <= k < tasks.len() && path_file_name(#[trigger] tasks[k].file) is None && result
                == Err::<(), MapErrorView>(MapErrorView::NoFileName { file: tasks[k].file }),
    }
}

proof fn lemma_dry_batch_goes_on(batch: BatchView, tasks: Seq<TaskView>, replies: Seq<ReplyView>)
    requires
        dry_within(batch, tasks),
    ensures
        dry_outcome(batch_through(BatchProgressView::Pending(batch), replies), tasks),
    decreases batch.waiting.len(), replies.len(),
{
    if replies.len() > 0 {
        let reply = replies.first();
        let rest = replies.drop_first();
        let index = batch.waiting.len() as int;
        let after = next_batch(batch, reply);
        assert(batch_through(BatchProgressView::Pending(batch), replies) == batch_through(
            after,
            rest,
        ));
        match next_progress(batch.current, reply) {
            ProgressView::Pending(run) => {
                lemma_run_keeps_task(batch.current, reply);
                lemma_dry_batch_goes_on(BatchView { current: run, ..batch }, tasks, rest);
            },
            ProgressView::Finished(Err(error)) => {
                assert(path_file_name(tasks[index].file) is None);
                assert(error == MapErrorView::NoFileName { file: tasks[index].file });
                assert(batch_through(after, rest) == after);
            },
            ProgressView::Finished(Ok(_)) => {
                if batch.waiting.len() > 0 {
                    let next = BatchView {
                        waiting: batch.waiting.drop_last(),
                        current: initial_run(batch.waiting.last(), batch.context),
                        context: batch.context,
                    };
                    assert(after == BatchProgressView::Pending(next));
                    assert(next.waiting =~= tasks.take(index - 1));
                    assert(batch.waiting.last() == tasks[index - 1]);
                    lemma_dry_batch_goes_on(next, tasks, rest);
                } else {
                    assert(batch_through(after, rest) == after);
                }
            },
        }
    }
}

/// A dry run of a whole list of tasks changes nothing: whatever the replies,
/// the batch never asks for an operation to be performed, and where it ends,
/// it ends in success, or with the error of a task whose file has no base
/// name.
pub proof fn lemma_dry_batch_is_harmless(
    tasks: Seq<TaskView>,
    context: ContextView,
    replies: Seq<ReplyView>,
)
    requires
        context.dry_run,
    ensures
        dry_outcome(batch_through(begin_batch(tasks, context), replies), tasks),
{
    if tasks.len() > 0 {
        let batch = BatchView {
            waiting: tasks.drop_last(),
            current: initial_run(tasks.last(), context),
            context,
        };
        assert(batch.waiting =~= tasks.take(tasks.len() - 1));
        lemma_dry_batch_goes_on(batch, tasks, replies);
    }
}

/// The first failure ends a batch: a task that fails ends it with its own
/// error, however many tasks wait.
pub proof fn lemma_batch_fails_fast(batch: BatchView, reply: ReplyView, error: MapErrorView)
    requires
        next_progress(batch.current, reply) == ProgressView::Finished(
            Err::<(), MapErrorView>(error),
        ),
    ensures
        next_batch(batch, reply) == BatchProgressView::Finished(Err::<(), MapErrorView>(error)),
{
}

} // verus!
