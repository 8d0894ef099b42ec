//! The run of a task, step by step.
//!
//! A run never touches the file system itself. It states the one thing it
//! needs next, a [`Request`], and is resumed with the [`Reply`] to it:
//!
//! 1. it asks whether the output directory exists;
//! 2. where it does not, it has the directory created;
//! 3. it has the file copied or moved into the directory, unless the file has
//!    no base name, which ends the run with an error.
//!
//! In a dry run every operation is only announced, so that it can be
//! reported, and never performed.

use crate::action::{TaskKind, TaskView};
use crate::context::{ContextView, MapFileContext};
use crate::error::{MapError, MapErrorView};
use crate::path::{file_name, join, path_file_name, path_join};
use vstd::prelude::*;

verus! {

/// A change to the file system.
#[derive(Clone, Debug, PartialEq, Eq)]
pub enum FileOperation {
    /// Create `directory` and the directories above it that are missing.
    CreateDirectory { directory: String },
    /// Copy the file `source` to `destination`.
    Copy { source: String, destination: String },
    /// Rename the file `source` to `destination`.
    Move { source: String, destination: String },
}

/// The mathematical value of a [`FileOperation`].
pub enum OperationView {
    CreateDirectory { directory: Seq<char> },
    Copy { source: Seq<char>, destination: Seq<char> },
    Move { source: Seq<char>, destination: Seq<char> },
}

impl View for FileOperation {
    type V = OperationView;

    open spec fn view(&self) -> OperationView {
        match self {
            FileOperation::CreateDirectory { directory } => OperationView::CreateDirectory {
                directory: directory@,
            },
            FileOperation::Copy { source, destination } => OperationView::Copy {
                source: source@,
                destination: destination@,
            },
            FileOperation::Move { source, destination } => OperationView::Move {
                source: source@,
                destination: destination@,
            },
        }
    }
}

/// What a run needs next.
#[derive(Clone, Debug, PartialEq, Eq)]
pub enum Request {
    /// Is `directory` an existing directory? Answered by
    /// [`Reply::Directory`].
    Probe { directory: String },
    /// Report `operation` and leave the file system alone. Answered by
    /// [`Reply::Done`].
    Announce { operation: FileOperation },
    /// Report `operation` and perform it. Answered by [`Reply::Done`] or
    /// [`Reply::Failed`].
    Perform { operation: FileOperation },
}

/// The mathematical value of a [`Request`].
pub enum RequestView {
    Probe { directory: Seq<char> },
    Announce { operation: OperationView },
    Perform { operation: OperationView },
}

impl View for Request {
    type V = RequestView;

    open spec fn view(&self) -> RequestView {
        match self {
            Request::Probe { directory } => RequestView::Probe { directory: directory@ },
            Request::Announce { operation } => RequestView::Announce { operation: operation@ },
            Request::Perform { operation } => RequestView::Perform { operation: operation@ },
        }
    }
}

/// How a request went.
#[derive(Clone, Debug, PartialEq, Eq)]
pub enum Reply {
    /// Whether the directory asked about exists.
    Directory { exists: bool },
    /// The operation was reported and, where asked for, performed.
    Done,
    /// The operation failed; `cause` is what the operating system said.
    Failed { cause: String },
}

/// The mathematical value of a [`Reply`].
pub enum ReplyView {
    Directory { exists: bool },
    Done,
    Failed { cause: Seq<char> },
}

impl View for Reply {
    type V = ReplyView;

    open spec fn view(&self) -> ReplyView {
        match self {
            Reply::Directory { exists } => ReplyView::Directory { exists: *exists },
            Reply::Done => ReplyView::Done,
            Reply::Failed { cause } => ReplyView::Failed { cause: cause@ },
        }
    }
}

/// How far a run has come.
#[derive(Debug)]
enum Stage {
    Probing,
    Preparing,
    Transferring { destination: String },
}

/// How far a run has come.
pub enum StageView {
    /// The run asks whether the output directory exists.
    Probing,
    /// The run has the output directory created.
    Preparing,
    /// The run has the file placed at `destination`.
    Transferring { destination: Seq<char> },
}

/// A task that is being run.
#[derive(Debug)]
pub struct TaskRun {
    kind: TaskKind,
    file: String,
    output_directory: String,
    dry_run: bool,
    stage: Stage,
}

/// The mathematical value of a [`TaskRun`].
pub struct RunView {
    pub kind: TaskKind,
    pub file: Seq<char>,
    pub output_directory: Seq<char>,
    pub dry_run: bool,
    pub stage: StageView,
}

impl View for TaskRun {
    type V = RunView;

    closed spec fn view(&self) -> RunView {
        RunView {
            kind: self.kind,
            file: self.file@,
            output_directory: self.output_directory@,
            dry_run: self.dry_run,
            stage: match self.stage {
                Stage::Probing => StageView::Probing,
                Stage::Preparing => StageView::Preparing,
                Stage::Transferring { destination } => StageView::Transferring {
                    destination: destination@,
                },
            },
        }
    }
}

/// A run after a reply: still under way, or over with its result.
#[derive(Debug)]
pub enum Progress {
    Pending(TaskRun),
    Finished(Result<(), MapError>),
}

/// The mathematical value of a [`Progress`].
pub enum ProgressView {
    Pending(RunView),
    Finished(Result<(), MapErrorView>),
}

impl View for Progress {
    type V = ProgressView;

    open spec fn view(&self) -> ProgressView {
        match self {
            Progress::Pending(run) => ProgressView::Pending(run@),
            Progress::Finished(Ok(_)) => ProgressView::Finished(Ok(())),
            Progress::Finished(Err(error)) => ProgressView::Finished(Err(error@)),
        }
    }
}

/// The run that `task` starts under `context`: it places the file in the
/// directory that the task names, below the destination directory of the
/// context, and begins by asking whether that directory exists.
pub open spec fn initial_run(task: TaskView, context: ContextView) -> RunView {
    RunView {
        kind: task.kind,
        file: task.file,
        output_directory: path_join(context.dest_dir, task.relative_destination),
        dry_run: context.dry_run,
        stage: StageView::Probing,
    }
}

/// The request for `operation`: announced in a dry run, performed otherwise.
pub open spec fn guarded(dry_run: bool, operation: OperationView) -> RequestView {
    if dry_run {
        RequestView::Announce { operation }
    } else {
        RequestView::Perform { operation }
    }
}

/// The operation by which a task of `kind` places `source` at `destination`.
pub open spec fn transfer(kind: TaskKind, source: Seq<char>, destination: Seq<char>)
    -> OperationView {
    match kind {
        TaskKind::Copy => OperationView::Copy { source, destination },
        TaskKind::Move => OperationView::Move { source, destination },
    }
}

/// What `run` needs next.
pub open spec fn request_of(run: RunView) -> RequestView {
    match run.stage {
        StageView::Probing => RequestView::Probe { directory: run.output_directory },
        StageView::Preparing => guarded(
            run.dry_run,
            OperationView::CreateDirectory { directory: run.output_directory },
        ),
        StageView::Transferring { destination } => guarded(
            run.dry_run,
            transfer(run.kind, run.file, destination),
        ),
    }
}

/// Whether `reply` is an answer to `request`.
pub open spec fn answers(request: RequestView, reply: ReplyView) -> bool {
    match request {
        RequestView::Probe { .. } => reply is Directory,
        RequestView::Announce { .. } => reply is Done,
        RequestView::Perform { .. } => reply is Done || reply is Failed,
    }
}

/// `run` once its output directory is there: the file goes to its base name
/// in that directory, and a file without a base name ends the run.
pub open spec fn after_directory(run: RunView) -> ProgressView {
    match path_file_name(run.file) {
        Some(name) => ProgressView::Pending(
            RunView {
                stage: StageView::Transferring {
                    destination: path_join(run.output_directory, name),
                },
                ..run
            },
        ),
        None => ProgressView::Finished(Err(MapErrorView::NoFileName { file: run.file })),
    }
}

/// `run` after `reply`. A reply that does not answer the pending request
/// leaves the run where it is.
pub open spec fn next_progress(run: RunView, reply: ReplyView) -> ProgressView {
    if !answers(request_of(run), reply) {
        ProgressView::Pending(run)
    } else {
        match run.stage {
            StageView::Probing => if reply->exists {
                after_directory(run)
            } else {
                ProgressView::Pending(RunView { stage: StageView::Preparing, ..run })
            },
            StageView::Preparing => match reply {
                ReplyView::Failed { cause } => ProgressView::Finished(
                    Err(
                        MapErrorView::DirectoryCreationFailed {
                            directory: run.output_directory,
                            cause,
                        },
                    ),
                ),
                _ => after_directory(run),
            },
            StageView::Transferring { destination } => match reply {
                ReplyView::Failed { cause } => ProgressView::Finished(
                    Err(
                        MapErrorView::FileOperationFailed {
                            kind: run.kind,
                            source: run.file,
                            destination,
                            cause,
                        },
                    ),
                ),
                _ => ProgressView::Finished(Ok(())),
            },
        }
    }
}

/// `run` after every reply of `replies` in turn. Replies that come after the
/// run is over are not looked at.
pub open spec fn run_through(run: RunView, replies: Seq<ReplyView>) -> ProgressView
    decreases replies.len(),
{
    if replies.len() == 0 {
        ProgressView::Pending(run)
    } else {
        match next_progress(run, replies.first()) {
            ProgressView::Pending(next) => run_through(next, replies.drop_first()),
            ProgressView::Finished(result) => ProgressView::Finished(result),
        }
    }
}

/// Every reply of `replies` answers the request that is pending when it
/// comes.
pub open spec fn answered(run: RunView, replies: Seq<ReplyView>) -> bool
    decreases replies.len(),
{
    if replies.len() == 0 {
        true
    } else {
        &&& answers(request_of(run), replies.first())
        &&& match next_progress(run, replies.first()) {
            ProgressView::Pending(next) => answered(next, replies.drop_first()),
            ProgressView::Finished(_) => true,
        }
    }
}

impl TaskRun {
    /// The run that places `file` in `relative_destination` below the
    /// destination directory of `context`.
    pub(crate) fn start(
        kind: TaskKind,
        file: String,
        relative_destination: String,
        context: &MapFileContext,
    ) -> (run: TaskRun)
        ensures
            run@ == initial_run(
                TaskView { kind, file: file@, relative_destination: relative_destination@ },
                context@,
            ),
    {
        let output_directory = join(context.dest_dir.as_str(), relative_destination.as_str());
        TaskRun { kind, file, output_directory, dry_run: context.dry_run, stage: Stage::Probing }
    }

    /// The request for `operation`: announced in a dry run, performed
    /// otherwise.
    fn guard(dry_run: bool, operation: FileOperation) -> (request: Request)
        ensures
            request@ == guarded(dry_run, operation@),
    {
        if dry_run {
            Request::Announce { operation }
        } else {
            Request::Perform { operation }
        }
    }

    /// What the run needs next.
    pub fn request(&self) -> (request: Request)
        ensures
            request@ == request_of(self@),
    {
        match &self.stage {
            Stage::Probing => Request::Probe { directory: self.output_directory.clone() },
            Stage::Preparing => Self::guard(
                self.dry_run,
                FileOperation::CreateDirectory { directory: self.output_directory.clone() },
            ),
            Stage::Transferring { destination } => {
                let operation = match self.kind {
                    TaskKind::Copy => FileOperation::Copy {
                        source: self.file.clone(),
                        destination: destination.clone(),
                    },
                    TaskKind::Move => FileOperation::Move {
                        source: self.file.clone(),
                        destination: destination.clone(),
                    },
                };
                Self::guard(self.dry_run, operation)
            },
        }
    }

    /// Whether the run only announces its operations.
    pub fn is_dry_run(&self) -> (dry_run: bool)
        ensures
            dry_run == self@.dry_run,
    {
        self.dry_run
    }

    /// The run once its output directory is there.
    fn enter_directory(
        kind: TaskKind,
        file: String,
        output_directory: String,
        dry_run: bool,
    ) -> (progress: Progress)
        ensures
            progress@ == after_directory(
                RunView {
                    kind,
                    file: file@,
                    output_directory: output_directory@,
                    dry_run,
                    stage: StageView::Probing,
                },
            ),
    {
        match file_name(file.as_str()) {
            Some(name) => {
                let destination = join(output_directory.as_str(), name.as_str());
                Progress::Pending(
                    TaskRun {
                        kind,
                        file,
                        output_directory,
                        dry_run,
                        stage: Stage::Transferring { destination },
                    },
                )
            },
            None => Progress::Finished(Err(MapError::NoFileName { file })),
        }
    }

    /// Takes the reply to the pending request and goes on: to the next
    /// request, or to the end of the run.
    pub fn resume(self, reply: Reply) -> (progress: Progress)
        ensures
            progress@ == next_progress(self@, reply@),
    {
        let ghost before = self@;
        let TaskRun { kind, file, output_directory, dry_run, stage } = self;
        match stage {
            Stage::Probing => match reply {
                Reply::Directory { exists } => {
                    if exists {
                        Self::enter_directory(kind, file, output_directory, dry_run)
                    } else {
                        Progress::Pending(
                            TaskRun {
                                kind,
                                file,
                                output_directory,
                                dry_run,
                                stage: Stage::Preparing,
                            },
                        )
                    }
                },
                _ => Progress::Pending(
                    TaskRun { kind, file, output_directory, dry_run, stage: Stage::Probing },
                ),
            },
            Stage::Preparing => match reply {
                Reply::Done => Self::enter_directory(kind, file, output_directory, dry_run),
                Reply::Failed { cause } => {
                    if dry_run {
                        Progress::Pending(
                            TaskRun {
                                kind,
                                file,
                                output_directory,
                                dry_run,
                                stage: Stage::Preparing,
                            },
                        )
                    } else {
                        Progress::Finished(
                            Err(
                                MapError::DirectoryCreationFailed {
                                    directory: output_directory,
                                    cause,
                                },
                            ),
                        )
                    }
                },
                _ => Progress::Pending(
                    TaskRun { kind, file, output_directory, dry_run, stage: Stage::Preparing },
                ),
            },
            Stage::Transferring { destination } => match reply {
                Reply::Done => Progress::Finished(Ok(())),
                Reply::Failed { cause } => {
                    if dry_run {
                        Progress::Pending(
                            TaskRun {
                                kind,
                                file,
                                output_directory,
                                dry_run,
                                stage: Stage::Transferring { destination },
                            },
                        )
                    } else {
                        Progress::Finished(
                            Err(
                                MapError::FileOperationFailed {
                                    kind,
                                    source: file,
                                    destination,
                                    cause,
                                },
                            ),
                        )
                    }
                },
                _ => Progress::Pending(
                    TaskRun {
                        kind,
                        file,
                        output_directory,
                        dry_run,
                        stage: Stage::Transferring { destination },
                    },
                ),
            },
        }
    }
}

/// A run keeps its task: whatever the reply, the run that goes on differs
/// from the one before in its stage alone.
pub proof fn lemma_run_keeps_task(run: RunView, reply: ReplyView)
    ensures
        next_progress(run, reply) matches ProgressView::Pending(next) ==> next == (RunView {
            stage: next.stage,
            ..run
        }),
{
}

/// A dry run changes nothing: whatever the replies, it never asks for an
/// operation to be performed, and it ends in success unless the file has no
/// base name.
pub proof fn lemma_dry_run_is_harmless(run: RunView, replies: Seq<ReplyView>)
    requires
        run.dry_run,
    ensures
        match run_through(run, replies) {
            ProgressView::Pending(later) => later.dry_run && !(request_of(later) is Perform),
            ProgressView::Finished(result) => result == Ok::<(), MapErrorView>(()) || (
            path_file_name(run.file) is None && result == Err::<(), MapErrorView>(
                MapErrorView::NoFileName { file: run.file },
            )),
        },
    decreases replies.len(),
{
    if replies.len() > 0 {
        match next_progress(run, replies.first()) {
            ProgressView::Pending(next) => {
                lemma_run_keeps_task(run, replies.first());
                lemma_dry_run_is_harmless(next, replies.drop_first());
            },
            ProgressView::Finished(_) => {},
        }
    }
}

/// A dry run that is answered comes to its end: after three replies at the
/// latest the run of a task is over, in success where the file has a base
/// name, and else with the error that says it has none.
pub proof fn lemma_dry_run_ends(task: TaskView, context: ContextView, replies: Seq<ReplyView>)
    requires
        context.dry_run,
        answered(initial_run(task, context), replies),
        replies.len() >= 3,
    ensures
        run_through(initial_run(task, context), replies) == ProgressView::Finished(
            if path_file_name(task.file) is Some {
                Ok(())
            } else {
                Err(MapErrorView::NoFileName { file: task.file })
            },
        ),
{
    let run = initial_run(task, context);
    let second = replies.drop_first();
    let third = second.drop_first();
    reveal_with_fuel(run_through, 4);
    reveal_with_fuel(answered, 4);
    assert(second.len() >= 2);
    assert(third.len() >= 1);
}

/// Whatever the replies, the run of a task asks for three things only:
/// whether its output directory exists, that this directory be created, and
/// that the file of the task be placed at its base name in this directory,
/// by a copy where the task copies and by a move where it moves. So a
/// copying task never asks for a move, nor a moving task for a copy.
pub proof fn lemma_transfer_is_of_kind(task: TaskView, context: ContextView, replies: Seq<ReplyView>)
    ensures
        run_through(initial_run(task, context), replies) matches ProgressView::Pending(later)
            ==> match request_of(later) {
            RequestView::Probe { directory } => directory == path_join(
                context.dest_dir,
                task.relative_destination,
            ),
            RequestView::Announce { operation } | RequestView::Perform { operation } => {
                ||| operation == OperationView::CreateDirectory {
                    directory: path_join(context.dest_dir, task.relative_destination),
                }
                ||| path_file_name(task.file) matches Some(name) && operation == transfer(
                    task.kind,
                    task.file,
                    path_join(path_join(context.dest_dir, task.relative_destination), name),
                )
            },
        },
{
    lemma_reachable(initial_run(task, context), replies);
}

/// Whatever the replies, a run keeps its task and its output directory, and
/// places the file at nothing but its base name in that directory.
proof fn lemma_reachable(run: RunView, replies: Seq<ReplyView>)
    requires
        run.stage matches StageView::Transferring { destination } ==> path_file_name(run.file)
            matches Some(name) && destination == path_join(run.output_directory, name),
    ensures
        run_through(run, replies) matches ProgressView::Pending(later) ==> {
            &&& later == RunView { stage: later.stage, ..run }
            &&& later.stage matches StageView::Transferring { destination } ==> path_file_name(
                run.file,
            ) matches Some(name) && destination == path_join(run.output_directory, name)
        },
    decreases replies.len(),
{
    if replies.len() > 0 {
        match next_progress(run, replies.first()) {
            ProgressView::Pending(next) => {
                lemma_reachable(next, replies.drop_first());
            },
            ProgressView::Finished(_) => {},
        }
    }
}

} // verus!
