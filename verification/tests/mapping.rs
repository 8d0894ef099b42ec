use filemap::action::{CopyAction, MapAction, MapFileTask, MoveAction, TaskKind, TaskView};
use filemap::context::{ContextView, MapFileContext};
use filemap::directive::{create_directives, mappings_from_lines};
use filemap::error::MapError;
use filemap::execution::{FileOperation, Progress, Reply, Request};
use filemap::mapping::{determine_task, determine_tasks, Mapping};
use filemap::rule::{MapRule, RegexRule};

fn random_string() -> String {
    let random_number = rand::random::<u32>();
    println!("Using random number: {:?}", random_number);
    random_number.to_string()
}

fn default_test_file() -> String {
    format!("./test_output/output{}/{}test_file.test", random_string(), random_string())
}

fn dummy_map_file_context() -> MapFileContext {
    MapFileContext {
        source_dir: "dummy-source-dir".to_string(),
        dest_dir: "dummy-dest-dir".to_string(),
        dry_run: false,
    }
}

/// Runs `task` against a file system in which every directory exists and
/// every operation succeeds.
fn execute(task: MapFileTask, context: &MapFileContext) -> Result<(), MapError> {
    let mut run = task.execute(context);
    loop {
        let reply = match run.request() {
            Request::Probe { .. } => Reply::Directory { exists: true },
            Request::Announce { .. } => Reply::Done,
            Request::Perform { .. } => Reply::Done,
        };
        match run.resume(reply) {
            Progress::Pending(next) => run = next,
            Progress::Finished(result) => return result,
        }
    }
}

#[derive(Debug)]
struct TestMapRule(String);

impl MapRule for TestMapRule {
    fn matches(&self, _file: vstd::seq::Seq<char>, _context: ContextView) -> bool {
        unreachable!()
    }

    fn description(&self) -> vstd::seq::Seq<char> {
        unreachable!()
    }

    fn file_matches_rule(&self, file: &String, _file_context: &MapFileContext) -> bool {
        file == &self.0
    }

    fn describe(&self) -> String {
        format!("{:?}", self)
    }
}

struct TestMapAction();

struct TestErrorMapAction();

impl MapAction for TestMapAction {
    fn task_for(&self, _file: vstd::seq::Seq<char>) -> TaskView {
        unreachable!()
    }

    fn create_task(&self, file: String) -> MapFileTask {
        MapFileTask::new(TaskKind::Copy, file, "kept".to_string())
    }
}

impl MapAction for TestErrorMapAction {
    fn task_for(&self, _file: vstd::seq::Seq<char>) -> TaskView {
        unreachable!()
    }

    fn create_task(&self, _file: String) -> MapFileTask {
        MapFileTask::new(TaskKind::Copy, "..".to_string(), "Always returns an error".to_string())
    }
}

#[test]
fn determine_tasks_no_mappings() {
    let test_file = default_test_file();
    let tasks = determine_tasks(&vec![], &vec![test_file.clone()], &dummy_map_file_context())
        .unwrap();
    assert_eq!(tasks.len(), 0);
}

#[test]
fn determine_tasks_no_files() {
    let mappings = vec![Mapping::new(
        Box::new(TestMapRule("not-used".to_string())),
        Box::new(TestMapAction()),
    )];
    let tasks = determine_tasks(&mappings, &vec![], &dummy_map_file_context()).unwrap();
    assert_eq!(tasks.len(), 0);
}

#[test]
fn determine_tasks_with_mappings() {
    let test_file = default_test_file();
    let mappings = vec![
        Mapping::new(
            Box::new(TestMapRule("does-not-match".to_string())),
            Box::new(TestErrorMapAction()),
        ),
        Mapping::new(Box::new(TestMapRule(test_file.clone())), Box::new(TestMapAction())),
    ];
    let mut tasks =
        determine_tasks(&mappings, &vec![test_file.clone()], &dummy_map_file_context()).unwrap();
    assert_eq!(tasks.len(), 1);
    assert_eq!(execute(tasks.pop().unwrap(), &dummy_map_file_context()).is_ok(), true);
}

#[test]
fn determine_tasks_overlapping_mappings() {
    let test_file = default_test_file();
    let mappings = vec![
        Mapping::new(Box::new(TestMapRule(test_file.clone())), Box::new(TestMapAction())),
        Mapping::new(Box::new(TestMapRule(test_file.clone())), Box::new(TestMapAction())),
    ];
    let tasks = determine_tasks(&mappings, &vec![test_file.clone()], &dummy_map_file_context());
    assert_eq!(tasks.is_err(), true);
}

#[test]
fn determine_tasks_takes_the_action_of_the_matching_mapping() {
    let test_file = default_test_file();
    let mappings = vec![
        Mapping::new(Box::new(TestMapRule(test_file.clone())), Box::new(TestErrorMapAction())),
        Mapping::new(
            Box::new(TestMapRule("does-not-match".to_string())),
            Box::new(TestMapAction()),
        ),
    ];
    let mut tasks =
        determine_tasks(&mappings, &vec![test_file.clone()], &dummy_map_file_context()).unwrap();
    assert_eq!(tasks.len(), 1);
    assert_eq!(
        execute(tasks.pop().unwrap(), &dummy_map_file_context()),
        Err(MapError::NoFileName { file: "..".to_string() })
    );
}

fn regex_mapping(pattern: &str, kind: TaskKind, destination: &str) -> Mapping {
    let rule = Box::new(RegexRule::new(pattern).unwrap());
    match kind {
        TaskKind::Copy => Mapping::new(rule, Box::new(CopyAction::new(destination.to_string()))),
        TaskKind::Move => Mapping::new(rule, Box::new(MoveAction::new(destination.to_string()))),
    }
}

fn files(names: &[&str]) -> Vec<String> {
    names.iter().map(|name| name.to_string()).collect()
}

#[test]
fn one_task_for_each_governed_file_in_the_order_of_the_files() {
    let mappings = vec![
        regex_mapping(r"\.txt$", TaskKind::Copy, "notes"),
        regex_mapping(r"\.log$", TaskKind::Move, "logs"),
    ];
    let found = files(&["/in/b.log", "/in/skip.bin", "/in/a.txt", "/in/c.log", "/in/none"]);
    let tasks = determine_tasks(&mappings, &found, &dummy_map_file_context()).unwrap();
    assert_eq!(tasks.len(), 3);
    assert_eq!(tasks.len() <= found.len(), true);
    let seen: Vec<(TaskKind, &str, &str)> = tasks
        .iter()
        .map(|task| (task.kind(), task.file().as_str(), task.relative_destination().as_str()))
        .collect();
    assert_eq!(
        seen,
        vec![
            (TaskKind::Move, "/in/b.log", "logs"),
            (TaskKind::Copy, "/in/a.txt", "notes"),
            (TaskKind::Move, "/in/c.log", "logs"),
        ]
    );
}

#[test]
fn no_task_for_files_that_nothing_governs() {
    let mappings = vec![regex_mapping("^never$", TaskKind::Copy, "x")];
    let found = files(&["a", "b", "c"]);
    let tasks = determine_tasks(&mappings, &found, &dummy_map_file_context()).unwrap();
    assert_eq!(tasks.len(), 0);
    assert_eq!(
        determine_task(&mappings, "a".to_string(), &dummy_map_file_context()).unwrap().is_none(),
        true
    );
}

#[test]
fn duplicate_match_names_both_rules_and_the_file() {
    let directives = create_directives();
    let lines = vec!["c/foo/a".to_string(), "m/foo/b".to_string()];
    let mappings = mappings_from_lines(&directives, &lines).unwrap();
    let found = files(&["foo.log"]);
    let error = determine_tasks(&mappings, &found, &dummy_map_file_context()).unwrap_err();
    assert_eq!(
        error,
        MapError::DuplicateRuleMatch {
            first: "RegexRule(foo)".to_string(),
            second: "RegexRule(foo)".to_string(),
            file: "foo.log".to_string(),
        }
    );
    assert_eq!(
        error.message(),
        "Duplicate rules RegexRule(foo) and RegexRule(foo) match file foo.log"
    );
    assert_eq!(error.cause(), None);
}

#[test]
fn duplicate_match_names_the_first_two_of_many() {
    let mappings = vec![
        regex_mapping("^zzz", TaskKind::Copy, "0"),
        regex_mapping("a", TaskKind::Copy, "1"),
        regex_mapping("b", TaskKind::Move, "2"),
        regex_mapping("c", TaskKind::Copy, "3"),
    ];
    let error =
        determine_task(&mappings, "dir/abc".to_string(), &dummy_map_file_context()).unwrap_err();
    assert_eq!(
        error,
        MapError::DuplicateRuleMatch {
            first: "RegexRule(a)".to_string(),
            second: "RegexRule(b)".to_string(),
            file: "dir/abc".to_string(),
        }
    );
}

#[test]
fn one_ambiguous_file_fails_the_whole_resolution() {
    let mappings = vec![
        regex_mapping("a", TaskKind::Copy, "1"),
        regex_mapping("b", TaskKind::Move, "2"),
    ];
    let found = files(&["a1", "b1", "ab", "a2", "ba"]);
    let error = determine_tasks(&mappings, &found, &dummy_map_file_context()).unwrap_err();
    assert_eq!(
        error,
        MapError::DuplicateRuleMatch {
            first: "RegexRule(a)".to_string(),
            second: "RegexRule(b)".to_string(),
            file: "ab".to_string(),
        }
    );
}

#[test]
fn catch_all_rule_governs_every_named_file() {
    let mappings = vec![regex_mapping("", TaskKind::Move, "rest")];
    let found = files(&["/in/a", "/in/b.txt", "/in/.."]);
    let tasks = determine_tasks(&mappings, &found, &dummy_map_file_context()).unwrap();
    assert_eq!(tasks.len(), 2);
    assert_eq!(tasks[0].file(), "/in/a");
    assert_eq!(tasks[1].file(), "/in/b.txt");
}

#[test]
fn copy_directive_yields_a_task_that_copies_into_the_destination() {
    let directives = create_directives();
    let mappings = mappings_from_lines(&directives, &vec![r"c/\.txt$/notes".to_string()]).unwrap();
    let context = MapFileContext {
        source_dir: "/in".to_string(),
        dest_dir: "/out".to_string(),
        dry_run: false,
    };
    let mut tasks =
        determine_tasks(&mappings, &vec!["/in/report.txt".to_string()], &context).unwrap();
    assert_eq!(tasks.len(), 1);
    let run = tasks.pop().unwrap().execute(&context);
    assert_eq!(run.request(), Request::Probe { directory: "/out/notes".to_string() });
    let run = match run.resume(Reply::Directory { exists: false }) {
        Progress::Pending(run) => run,
        Progress::Finished(_) => panic!("the run has begun only"),
    };
    assert_eq!(
        run.request(),
        Request::Perform {
            operation: FileOperation::CreateDirectory { directory: "/out/notes".to_string() }
        }
    );
    let run = match run.resume(Reply::Done) {
        Progress::Pending(run) => run,
        Progress::Finished(_) => panic!("the file is still to be copied"),
    };
    assert_eq!(
        run.request(),
        Request::Perform {
            operation: FileOperation::Copy {
                source: "/in/report.txt".to_string(),
                destination: "/out/notes/report.txt".to_string(),
            }
        }
    );
    match run.resume(Reply::Done) {
        Progress::Finished(result) => assert_eq!(result, Ok(())),
        Progress::Pending(_) => panic!("the run is over"),
    }
}
