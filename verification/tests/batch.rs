use filemap::action::{MapFileTask, TaskKind};
use filemap::batch::{BatchProgress, TaskBatch};
use filemap::context::MapFileContext;
use filemap::error::MapError;
use filemap::execution::{FileOperation, Reply, Request};

fn context(dry_run: bool) -> MapFileContext {
    MapFileContext { source_dir: "/in".to_string(), dest_dir: "/out".to_string(), dry_run }
}

fn task(kind: TaskKind, file: &str, destination: &str) -> MapFileTask {
    MapFileTask::new(kind, file.to_string(), destination.to_string())
}

/// Runs the batch against a file system in which `existing` are the
/// directories and `failing` the sources that cannot be placed, and returns
/// the requests that were made with the result.
fn drive(
    tasks: Vec<MapFileTask>,
    context: MapFileContext,
    existing: &[&str],
    failing: &[&str],
) -> (Vec<Request>, Result<(), MapError>) {
    let mut requests = Vec::new();
    let mut directories: Vec<String> = existing.iter().map(|name| name.to_string()).collect();
    let mut progress = TaskBatch::begin(tasks, context);
    loop {
        let batch = match progress {
            BatchProgress::Finished(result) => return (requests, result),
            BatchProgress::Pending(batch) => batch,
        };
        let request = batch.request();
        let reply = match &request {
            Request::Probe { directory } => Reply::Directory { exists: directories.contains(directory) },
            Request::Announce { .. } => Reply::Done,
            Request::Perform { operation } => match operation {
                FileOperation::CreateDirectory { directory } => {
                    directories.push(directory.clone());
                    Reply::Done
                }
                FileOperation::Copy { source, .. } | FileOperation::Move { source, .. } => {
                    if failing.contains(&source.as_str()) {
                        Reply::Failed { cause: "refused".to_string() }
                    } else {
                        Reply::Done
                    }
                }
            },
        };
        requests.push(request);
        progress = batch.resume(reply);
    }
}

fn perform(operation: FileOperation) -> Request {
    Request::Perform { operation }
}

fn announce(operation: FileOperation) -> Request {
    Request::Announce { operation }
}

fn probe(directory: &str) -> Request {
    Request::Probe { directory: directory.to_string() }
}

fn create(directory: &str) -> FileOperation {
    FileOperation::CreateDirectory { directory: directory.to_string() }
}

fn copy(source: &str, destination: &str) -> FileOperation {
    FileOperation::Copy { source: source.to_string(), destination: destination.to_string() }
}

fn rename(source: &str, destination: &str) -> FileOperation {
    FileOperation::Move { source: source.to_string(), destination: destination.to_string() }
}

#[test]
fn empty_batch_is_over_at_once() {
    let (requests, result) = drive(vec![], context(false), &[], &[]);
    assert_eq!(requests, vec![]);
    assert_eq!(result, Ok(()));
}

#[test]
fn batch_runs_the_last_task_first() {
    let tasks = vec![
        task(TaskKind::Copy, "/in/a.txt", "notes"),
        task(TaskKind::Move, "/in/b.log", "logs"),
        task(TaskKind::Copy, "/in/c.txt", "notes"),
    ];
    let (requests, result) = drive(tasks, context(false), &["/out/logs"], &[]);
    assert_eq!(result, Ok(()));
    assert_eq!(
        requests,
        vec![
            probe("/out/notes"),
            perform(create("/out/notes")),
            perform(copy("/in/c.txt", "/out/notes/c.txt")),
            probe("/out/logs"),
            perform(rename("/in/b.log", "/out/logs/b.log")),
            probe("/out/notes"),
            perform(copy("/in/a.txt", "/out/notes/a.txt")),
        ]
    );
}

#[test]
fn batch_stops_at_the_first_failure() {
    let tasks = vec![
        task(TaskKind::Copy, "/in/a.txt", "notes"),
        task(TaskKind::Move, "/in/b.log", "logs"),
        task(TaskKind::Copy, "/in/c.txt", "notes"),
    ];
    let (requests, result) = drive(tasks, context(false), &["/out/logs", "/out/notes"], &["/in/b.log"]);
    assert_eq!(
        result,
        Err(MapError::FileOperationFailed {
            kind: TaskKind::Move,
            source: "/in/b.log".to_string(),
            destination: "/out/logs/b.log".to_string(),
            cause: "refused".to_string(),
        })
    );
    assert_eq!(
        requests,
        vec![
            probe("/out/notes"),
            perform(copy("/in/c.txt", "/out/notes/c.txt")),
            probe("/out/logs"),
            perform(rename("/in/b.log", "/out/logs/b.log")),
        ]
    );
}

#[test]
fn dry_batch_announces_everything_and_performs_nothing() {
    let tasks = vec![
        task(TaskKind::Copy, "/in/a.txt", "notes"),
        task(TaskKind::Move, "/in/b.log", "logs"),
    ];
    let (requests, result) = drive(tasks, context(true), &[], &["/in/a.txt", "/in/b.log"]);
    assert_eq!(result, Ok(()));
    assert_eq!(
        requests,
        vec![
            probe("/out/logs"),
            announce(create("/out/logs")),
            announce(rename("/in/b.log", "/out/logs/b.log")),
            probe("/out/notes"),
            announce(create("/out/notes")),
            announce(copy("/in/a.txt", "/out/notes/a.txt")),
        ]
    );
}

#[test]
fn dry_batch_fails_only_for_want_of_a_file_name() {
    let tasks = vec![
        task(TaskKind::Copy, "/in/a.txt", "notes"),
        task(TaskKind::Move, "/in/..", "logs"),
        task(TaskKind::Copy, "/in/c.txt", "notes"),
    ];
    let (requests, result) = drive(tasks, context(true), &["/out/notes", "/out/logs"], &[]);
    assert_eq!(result, Err(MapError::NoFileName { file: "/in/..".to_string() }));
    assert_eq!(
        requests,
        vec![
            probe("/out/notes"),
            announce(copy("/in/c.txt", "/out/notes/c.txt")),
            probe("/out/logs"),
        ]
    );
}

#[test]
fn batch_counts_the_tasks_that_wait() {
    let tasks = vec![
        task(TaskKind::Copy, "/in/a.txt", "notes"),
        task(TaskKind::Move, "/in/b.log", "logs"),
    ];
    let batch = match TaskBatch::begin(tasks, context(false)) {
        BatchProgress::Pending(batch) => batch,
        BatchProgress::Finished(_) => panic!("two tasks are to be run"),
    };
    assert_eq!(batch.waiting(), 1);
    assert_eq!(batch.request(), probe("/out/logs"));
    let batch = match batch.resume(Reply::Done) {
        BatchProgress::Pending(batch) => batch,
        BatchProgress::Finished(_) => panic!("nothing was answered"),
    };
    assert_eq!(batch.waiting(), 1);
    assert_eq!(batch.request(), probe("/out/logs"));
}
