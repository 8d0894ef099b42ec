use crate::context::MapFileContext;
use crate::execution::{initial_run, TaskRun};
use vstd::prelude::*;

verus! {

/// What a task does with its file.
#[derive(Clone, Copy, PartialEq, Eq, Structural, Debug)]
pub enum TaskKind {
    /// The file is copied; the source stays.
    Copy,
    /// The file is renamed into the destination; the source goes.
    Move,
}

impl TaskKind {
    /// The verb by which messages name the operation.
    pub open spec fn verb(self) -> Seq<char> {
        match self {
            TaskKind::Copy => "copy"@,
            TaskKind::Move => "move"@,
        }
    }

    /// The verb by which messages name the operation.
    pub fn verb_text(self) -> (text: &'static str)
        ensures
            text@ == self.verb(),
    {
        match self {
            TaskKind::Copy => "copy",
            TaskKind::Move => "move",
        }
    }
}

/// One pending operation on one file: the file is to be copied or moved into
/// the directory `relative_destination` below the destination directory of
/// the run. A task is run once, by [`MapFileTask::execute`], which uses it up.
#[derive(Debug)]
pub struct MapFileTask {
    kind: TaskKind,
    file: String,
    relative_destination: String,
}

/// The mathematical value of a [`MapFileTask`].
pub struct TaskView {
    pub kind: TaskKind,
    pub file: Seq<char>,
    pub relative_destination: Seq<char>,
}

impl View for MapFileTask {
    type V = TaskView;

    closed spec fn view(&self) -> TaskView {
        TaskView {
            kind: self.kind,
            file: self.file@,
            relative_destination: self.relative_destination@,
        }
    }
}

impl DeepView for MapFileTask {
    type V = TaskView;

    open spec fn deep_view(&self) -> TaskView {
        self@
    }
}

impl MapFileTask {
    pub fn new(kind: TaskKind, file: String, relative_destination: String) -> (task: MapFileTask)
        ensures
            task@ == (TaskView {
                kind,
                file: file@,
                relative_destination: relative_destination@,
            }),
    {
        MapFileTask { kind, file, relative_destination }
    }

    pub fn kind(&self) -> (kind: TaskKind)
        ensures
            kind == self@.kind,
    {
        self.kind
    }

    pub fn file(&self) -> (file: &String)
        ensures
            file@ == self@.file,
    {
        &self.file
    }

    pub fn relative_destination(&self) -> (relative_destination: &String)
        ensures
            relative_destination@ == self@.relative_destination,
    {
        &self.relative_destination
    }

    /// Starts the one run of the task. The run asks for the file operations
    /// it needs, one at a time, and is told how each went.
    pub fn execute(self, file_context: &MapFileContext) -> (run: TaskRun)
        ensures
            run@ == initial_run(self@, file_context@),
    {
        TaskRun::start(self.kind, self.file, self.relative_destination, file_context)
    }
}

/// Builds the task for a file that a mapping governs.
///
/// `task_for` names what `create_task` returns. An implementation must
/// answer alike whenever it is asked alike. Of an implementation that is
/// compiled without being verified nothing more is known; it gives the
/// specification function a body that is never run.
pub trait MapAction {
    /// The task that the action builds for `file`.
    spec fn task_for(&self, file: Seq<char>) -> TaskView;

    fn create_task(&self, file: String) -> (task: MapFileTask)
        ensures
            task@ == self.task_for(file@),
    ;
}

/// Copies the files it is given into a directory below the destination
/// directory of the run.
#[derive(Debug)]
pub struct CopyAction {
    relative_destination: String,
}

impl CopyAction {
    /// The directory, relative to the destination directory of the run, that
    /// the action copies into.
    pub closed spec fn relative_destination(&self) -> Seq<char> {
        self.relative_destination@
    }

    pub fn new(relative_destination: String) -> (action: CopyAction)
        ensures
            action.relative_destination() == relative_destination@,
    {
        CopyAction { relative_destination }
    }
}

impl MapAction for CopyAction {
    open spec fn task_for(&self, file: Seq<char>) -> TaskView {
        TaskView {
            kind: TaskKind::Copy,
            file,
            relative_destination: self.relative_destination(),
        }
    }

    fn create_task(&self, file: String) -> (task: MapFileTask) {
        MapFileTask::new(TaskKind::Copy, file, self.relative_destination.clone())
    }
}

/// Moves the files it is given into a directory below the destination
/// directory of the run.
#[derive(Debug)]
pub struct MoveAction {
    relative_destination: String,
}

impl MoveAction {
    /// The directory, relative to the destination directory of the run, that
    /// the action moves into.
    pub closed spec fn relative_destination(&self) -> Seq<char> {
        self.relative_destination@
    }

    pub fn new(relative_destination: String) -> (action: MoveAction)
        ensures
            action.relative_destination() == relative_destination@,
    {
        MoveAction { relative_destination }
    }
}

impl MapAction for MoveAction {
    open spec fn task_for(&self, file: Seq<char>) -> TaskView {
        TaskView {
            kind: TaskKind::Move,
            file,
            relative_destination: self.relative_destination(),
        }
    }

    fn create_task(&self, file: String) -> (task: MapFileTask) {
        MapFileTask::new(TaskKind::Move, file, self.relative_destination.clone())
    }
}

} // verus!
