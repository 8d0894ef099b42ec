use crate::action::{MapAction, MapFileTask, TaskView};
use crate::context::{ContextView, MapFileContext};
use crate::error::{MapError, MapErrorView};
use crate::rule::MapRule;
use crate::select::{
    hits, lemma_hits_are_set, lemma_hits_prefix, lemma_hits_push, lemma_no_hit, lemma_one_hit,
    lemma_set_is_hit, lemma_two_hits,
};
use vstd::prelude::*;

verus! {

/// A rule bound to an action: the files that the rule governs are handled by
/// the action.
pub struct Mapping {
    // One field for both: a boxed trait object that is moved into a field of
    // its own type is coerced on the way, and the verifier then no longer
    // knows which object it holds. A pair is moved as it is.
    parts: (Box<dyn MapRule>, Box<dyn MapAction>),
}

/// The mathematical value of a [`Mapping`]: which files it governs, the task
/// it builds for a file, and how messages name it.
#[verifier::ext_equal]
pub struct MappingView {
    pub matches: spec_fn(Seq<char>, ContextView) -> bool,
    pub task_for: spec_fn(Seq<char>) -> TaskView,
    pub description: Seq<char>,
}

impl View for Mapping {
    type V = MappingView;

    closed spec fn view(&self) -> MappingView {
        MappingView {
            matches: |file: Seq<char>, context: ContextView| self.parts.0.matches(file, context),
            task_for: |file: Seq<char>| self.parts.1.task_for(file),
            description: self.parts.0.description(),
        }
    }
}

impl DeepView for Mapping {
    type V = MappingView;

    open spec fn deep_view(&self) -> MappingView {
        self@
    }
}

impl Mapping {
    /// Binds `rule` to `action`: the mapping governs what the rule governs,
    /// builds the tasks that the action builds, and is named as the rule is.
    pub fn new(rule: Box<dyn MapRule>, action: Box<dyn MapAction>) -> (mapping: Mapping)
        ensures
            mapping@ == (MappingView {
                matches: |file: Seq<char>, context: ContextView| rule.matches(file, context),
                task_for: |file: Seq<char>| action.task_for(file),
                description: rule.description(),
            }),
    {
        let parts = (rule, action);
        Mapping { parts }
    }
}

/// Whether the mapping at `index` governs `file`.
pub open spec fn governs(
    mappings: Seq<MappingView>,
    index: int,
    file: Seq<char>,
    context: ContextView,
) -> bool {
    (mappings[index].matches)(file, context)
}

/// For each mapping, whether it governs `file`.
pub open spec fn match_flags(mappings: Seq<MappingView>, file: Seq<char>, context: ContextView)
    -> Seq<bool> {
    Seq::new(mappings.len(), |index: int| governs(mappings, index, file, context))
}

/// What becomes of `file`: no task where no mapping governs it, the task of
/// the mapping where one does, and an error that names the first two where
/// more than one does.
pub open spec fn resolve_file(mappings: Seq<MappingView>, file: Seq<char>, context: ContextView)
    -> Result<Option<TaskView>, MapErrorView> {
    let found = hits(match_flags(mappings, file, context));
    if found.len() == 0 {
        Ok(None)
    } else if found.len() == 1 {
        Ok(Some((mappings[found[0]].task_for)(file)))
    } else {
        Err(
            MapErrorView::DuplicateRuleMatch {
                first: mappings[found[0]].description,
                second: mappings[found[1]].description,
                file,
            },
        )
    }
}

/// The tasks for `files`, in the order of the files, one for each file that
/// a mapping governs; or the error of the first file that more than one
/// mapping governs.
pub open spec fn resolve(
    mappings: Seq<MappingView>,
    files: Seq<Seq<char>>,
    context: ContextView,
) -> Result<Seq<TaskView>, MapErrorView>
    decreases files.len(),
{
    if files.len() == 0 {
        Ok(Seq::empty())
    } else {
        match resolve(mappings, files.drop_last(), context) {
            Err(error) => Err(error),
            Ok(tasks) => match resolve_file(mappings, files.last(), context) {
                Err(error) => Err(error),
                Ok(None) => Ok(tasks),
                Ok(Some(task)) => Ok(tasks.push(task)),
            },
        }
    }
}

/// The files of `files` that some mapping governs, in their order.
pub open spec fn governed_files(
    mappings: Seq<MappingView>,
    files: Seq<Seq<char>>,
    context: ContextView,
) -> Seq<Seq<char>> {
    files.filter(|file: Seq<char>| hits(match_flags(mappings, file, context)).len() > 0)
}

/// An error over the first files is the error over all of them.
pub proof fn lemma_resolve_stops(
    mappings: Seq<MappingView>,
    files: Seq<Seq<char>>,
    context: ContextView,
    n: int,
)
    requires
        0 <= n <= files.len(),
        resolve(mappings, files.take(n), context) is Err,
    ensures
        resolve(mappings, files, context) == resolve(mappings, files.take(n), context),
    decreases files.len() - n,
{
    if n == files.len() {
        assert(files.take(n) =~= files);
    } else {
        assert(files.take(n + 1).drop_last() =~= files.take(n));
        lemma_resolve_stops(mappings, files, context, n + 1);
    }
}

/// The task for `file`, if exactly one mapping governs it. The mappings are
/// asked in their order; the second one that governs the file ends the
/// search with an error.
pub fn determine_task(mappings: &Vec<Mapping>, file: String, file_context: &MapFileContext) -> (found:
    Result<Option<MapFileTask>, MapError>)
    ensures
        match found {
            Ok(None) => resolve_file(mappings.deep_view(), file@, file_context@) == Ok::<
                Option<TaskView>,
                MapErrorView,
            >(None),
            Ok(Some(task)) => resolve_file(mappings.deep_view(), file@, file_context@) == Ok::<
                Option<TaskView>,
                MapErrorView,
            >(Some(task@)),
            Err(error) => resolve_file(mappings.deep_view(), file@, file_context@) == Err::<
                Option<TaskView>,
                MapErrorView,
            >(error@),
        },
{
    let ghost views = mappings.deep_view();
    let ghost flags = match_flags(views, file@, file_context@);
    let mut task: Option<MapFileTask> = None;
    let mut first: usize = 0;
    let mut i: usize = 0;
    proof {
        assert(flags.take(0) =~= Seq::<bool>::empty());
    }
    while i < mappings.len()
        invariant
            i <= mappings.len(),
            views == mappings.deep_view(),
            flags == match_flags(views, file@, file_context@),
            task is None ==> hits(flags.take(i as int)) == Seq::<int>::empty(),
            task matches Some(made) ==> first < i && hits(flags.take(i as int)) == seq![
                first as int,
            ] && made@ == (views[first as int].task_for)(file@),
        decreases mappings.len() - i,
    {
        let matched = mappings[i].parts.0.file_matches_rule(&file, file_context);
        proof {
            assert(flags.take(i + 1) =~= flags.take(i as int).push(flags[i as int]));
            lemma_hits_push(flags.take(i as int), flags[i as int]);
            assert(matched == flags[i as int]);
        }
        if matched {
            if task.is_none() {
                task = Some(mappings[i].parts.1.create_task(file.clone()));
                first = i;
            } else {
                let error = MapError::DuplicateRuleMatch {
                    first: mappings[first].parts.0.describe(),
                    second: mappings[i].parts.0.describe(),
                    file,
                };
                proof {
                    lemma_hits_prefix(flags, i + 1);
                    let both = hits(flags.take(i + 1));
                    assert(both =~= seq![first as int, i as int]);
                    assert(hits(flags).take(2) == both);
                    assert(hits(flags)[0] == both[0]);
                    assert(hits(flags)[1] == both[1]);
                }
                return Err(error);
            }
        }
        i += 1;
    }
    proof {
        assert(flags.take(i as int) =~= flags);
    }
    Ok(task)
}

/// The tasks for `files` under `mappings`: one for each file that exactly one
/// mapping governs, in the order of the files. A file that no mapping governs
/// is passed over; a file that more than one mapping governs is an error, and
/// no task is handed out at all.
pub fn determine_tasks(
    mappings: &Vec<Mapping>,
    files: &Vec<String>,
    file_context: &MapFileContext,
) -> (resolved: Result<Vec<MapFileTask>, MapError>)
    ensures
        match resolved {
            Ok(tasks) => resolve(mappings.deep_view(), files.deep_view(), file_context@) == Ok::<
                Seq<TaskView>,
                MapErrorView,
            >(tasks.deep_view()),
            Err(error) => resolve(mappings.deep_view(), files.deep_view(), file_context@) == Err::<
                Seq<TaskView>,
                MapErrorView,
            >(error@),
        },
{
    let ghost views = mappings.deep_view();
    let ghost names = files.deep_view();
    let mut tasks: Vec<MapFileTask> = Vec::new();
    let mut i: usize = 0;
    proof {
        assert(names.take(0) =~= Seq::<Seq<char>>::empty());
        assert(tasks.deep_view() =~= Seq::<TaskView>::empty());
    }
    while i < files.len()
        invariant
            i <= files.len(),
            views == mappings.deep_view(),
            names == files.deep_view(),
            resolve(views, names.take(i as int), file_context@) == Ok::<
                Seq<TaskView>,
                MapErrorView,
            >(tasks.deep_view()),
        decreases files.len() - i,
    {
        proof {
            assert(names.take(i + 1).drop_last() =~= names.take(i as int));
            assert(names.take(i + 1).last() == files[i as int]@);
        }
        let ghost before = tasks.deep_view();
        match determine_task(mappings, files[i].clone(), file_context) {
            Ok(Some(task)) => {
                tasks.push(task);
                proof {
                    assert(tasks.deep_view() =~= before.push(task@));
                }
            },
            Ok(None) => {},
            Err(error) => {
                proof {
                    lemma_resolve_stops(views, names, file_context@, i + 1);
                }
                return Err(error);
            },
        }
        i += 1;
    }
    proof {
        assert(names.take(i as int) =~= names);
    }
    Ok(tasks)
}

/// As many tasks come out as there are files, at most.
pub proof fn lemma_resolve_length(
    mappings: Seq<MappingView>,
    files: Seq<Seq<char>>,
    context: ContextView,
)
    ensures
        resolve(mappings, files, context) matches Ok(tasks) ==> tasks.len() <= files.len(),
    decreases files.len(),
{
    if files.len() > 0 {
        lemma_resolve_length(mappings, files.drop_last(), context);
    }
}

/// Where every file is governed by one mapping at most, the files resolve:
/// each governed file yields one task, the task that its one mapping builds
/// for it, the tasks stand in the order of their files, and a file that no
/// mapping governs yields none. So there are no more tasks than files.
pub proof fn lemma_unambiguous_files_resolve(
    mappings: Seq<MappingView>,
    files: Seq<Seq<char>>,
    context: ContextView,
)
    requires
        forall|f: int, i: int, j: int|
            0 <= f < files.len() && 0 <= i < j < mappings.len() ==> !(#[trigger] governs(
                mappings,
                i,
                files[f],
                context,
            ) && #[trigger] governs(mappings, j, files[f], context)),
    ensures
        resolve(mappings, files, context) matches Ok(tasks) && {
            let governed = governed_files(mappings, files, context);
            &&& tasks.len() == governed.len()
            &&& tasks.len() <= files.len()
            &&& forall|k: int|
                0 <= k < tasks.len() ==> {
                    let found = hits(match_flags(mappings, #[trigger] governed[k], context));
                    &&& found.len() == 1
                    &&& tasks[k] == (mappings[found[0]].task_for)(governed[k])
                }
        },
    decreases files.len(),
{
    let keep = |file: Seq<char>| hits(match_flags(mappings, file, context)).len() > 0;
    if files.len() == 0 {
        assert(files.filter(keep) =~= Seq::<Seq<char>>::empty()) by {
            reveal(Seq::filter);
        }
    } else {
        let earlier = files.drop_last();
        let file = files.last();
        assert forall|f: int, i: int, j: int|
            0 <= f < earlier.len() && 0 <= i < j < mappings.len() implies !(#[trigger] governs(
            mappings,
            i,
            earlier[f],
            context,
        ) && #[trigger] governs(mappings, j, earlier[f], context)) by {
            assert(earlier[f] == files[f]);
        }
        lemma_unambiguous_files_resolve(mappings, earlier, context);
        lemma_resolve_length(mappings, files, context);
        let flags = match_flags(mappings, file, context);
        let found = hits(flags);
        lemma_hits_are_set(flags);
        if found.len() >= 2 {
            assert(found[0] < found[1]);
            assert(flags[found[0]] && flags[found[1]]);
            assert(governs(mappings, found[0], files[files.len() - 1], context));
            assert(governs(mappings, found[1], files[files.len() - 1], context));
        }
        assert(files.filter(keep) == if keep(file) {
            earlier.filter(keep).push(file)
        } else {
            earlier.filter(keep)
        }) by {
            reveal(Seq::filter);
        }
    }
}

/// The task that the mapping at `index` builds for `file`.
pub open spec fn task_of(mappings: Seq<MappingView>, index: int, file: Seq<char>) -> TaskView {
    (mappings[index].task_for)(file)
}

/// No two tasks are for the same file: where the files differ from one
/// another and every mapping builds, for each of them, a task for that very
/// file, the tasks that come out are for files of the list, each for another
/// one.
pub proof fn lemma_tasks_are_for_distinct_files(
    mappings: Seq<MappingView>,
    files: Seq<Seq<char>>,
    context: ContextView,
)
    requires
        files.no_duplicates(),
        forall|i: int, f: int|
            0 <= i < mappings.len() && 0 <= f < files.len() ==> (#[trigger] task_of(
                mappings,
                i,
                files[f],
            )).file == files[f],
    ensures
        resolve(mappings, files, context) matches Ok(tasks) ==> {
            &&& forall|k: int| 0 <= k < tasks.len() ==> files.contains(#[trigger] tasks[k].file)
            &&& forall|j: int, k: int|
                0 <= j < k < tasks.len() ==> (#[trigger] tasks[j]).file != (#[trigger] tasks[k]).file
        },
    decreases files.len(),
{
    if files.len() > 0 {
        let earlier = files.drop_last();
        let file = files.last();
        let last = files.len() - 1;
        assert forall|i: int, f: int|
            0 <= i < mappings.len() && 0 <= f < earlier.len() implies (#[trigger] task_of(
            mappings,
            i,
            earlier[f],
        )).file == earlier[f] by {
            assert(earlier[f] == files[f]);
        }
        lemma_tasks_are_for_distinct_files(mappings, earlier, context);
        if let Ok(tasks) = resolve(mappings, files, context) {
            let before = resolve(mappings, earlier, context)->Ok_0;
            assert forall|k: int| 0 <= k < before.len() implies files.contains(
                #[trigger] before[k].file,
            ) && before[k].file != file by {
                let f = choose|f: int| 0 <= f < earlier.len() && earlier[f] == before[k].file;
                assert(files[f] == before[k].file);
                assert(files[last] == file);
            }
            if let Ok(Some(task)) = resolve_file(mappings, file, context) {
                let flags = match_flags(mappings, file, context);
                lemma_hits_are_set(flags);
                assert(task == task_of(mappings, hits(flags)[0], files[last]));
                assert(files[last] == task.file);
                assert(tasks =~= before.push(task));
            }
        }
    }
}

/// A file that two mappings govern makes the whole resolution fail, and no
/// task comes out. The error of the file holds the file and names two
/// mappings, the first two in the order of the mappings that govern it.
pub proof fn lemma_duplicate_match_fails(
    mappings: Seq<MappingView>,
    files: Seq<Seq<char>>,
    context: ContextView,
    f: int,
    i: int,
    j: int,
)
    requires
        0 <= f < files.len(),
        0 <= i < j < mappings.len(),
        governs(mappings, i, files[f], context),
        governs(mappings, j, files[f], context),
    ensures
        resolve(mappings, files, context) matches Err(error) && error is DuplicateRuleMatch,
        resolve_file(mappings, files[f], context) matches Err(
            MapErrorView::DuplicateRuleMatch { first, second, file },
        ) && exists|a: int, b: int|
            {
                &&& 0 <= a < b < mappings.len()
                &&& #[trigger] governs(mappings, a, files[f], context)
                &&& #[trigger] governs(mappings, b, files[f], context)
                &&& forall|c: int|
                    0 <= c < b && c != a ==> !governs(mappings, c, files[f], context)
                &&& first == mappings[a].description
                &&& second == mappings[b].description
                &&& file == files[f]
            },
    decreases files.len(),
{
    let flags = match_flags(mappings, files[f], context);
    let found = hits(flags);
    lemma_two_hits(flags, i, j);
    lemma_hits_are_set(flags);
    lemma_resolve_errors(mappings, files, context);
    assert(found[0] < found[1]);
    assert(governs(mappings, found[0], files[f], context)) by {
        assert(flags[found[0]]);
    }
    assert(governs(mappings, found[1], files[f], context)) by {
        assert(flags[found[1]]);
    }
    assert forall|c: int| 0 <= c < found[1] && c != found[0] implies !governs(
        mappings,
        c,
        files[f],
        context,
    ) by {
        if governs(mappings, c, files[f], context) {
            assert(flags[c]);
            lemma_set_is_hit(flags, c);
            let k = choose|k: int| 0 <= k < found.len() && found[k] == c;
            if k >= 2 {
                assert(found[1] < found[k]);
            }
        }
    }
    if f == files.len() - 1 {
    } else {
        assert(files.drop_last()[f] == files[f]);
        lemma_duplicate_match_fails(mappings, files.drop_last(), context, f, i, j);
    }
}

/// The only error that a resolution ends in is that of a file governed by
/// more than one mapping.
pub proof fn lemma_resolve_errors(
    mappings: Seq<MappingView>,
    files: Seq<Seq<char>>,
    context: ContextView,
)
    ensures
        resolve(mappings, files, context) matches Err(error) ==> error is DuplicateRuleMatch,
    decreases files.len(),
{
    if files.len() > 0 {
        lemma_resolve_errors(mappings, files.drop_last(), context);
    }
}

/// Where the one mapping at `index` governs `file`, the file resolves to the
/// task that this mapping builds; where none governs it, to no task.
pub proof fn lemma_resolve_file_cases(
    mappings: Seq<MappingView>,
    file: Seq<char>,
    context: ContextView,
    index: int,
)
    ensures
        (forall|i: int| 0 <= i < mappings.len() ==> !governs(mappings, i, file, context))
            ==> resolve_file(mappings, file, context) == Ok::<Option<TaskView>, MapErrorView>(
            None,
        ),
        (0 <= index < mappings.len() && governs(mappings, index, file, context) && forall|i: int|
            0 <= i < mappings.len() && i != index ==> !governs(mappings, i, file, context))
            ==> resolve_file(mappings, file, context) == Ok::<Option<TaskView>, MapErrorView>(
            Some((mappings[index].task_for)(file)),
        ),
{
    let flags = match_flags(mappings, file, context);
    lemma_no_hit(flags);
    if 0 <= index < mappings.len() && governs(mappings, index, file, context) && forall|i: int|
        0 <= i < mappings.len() && i != index ==> !governs(mappings, i, file, context) {
        lemma_one_hit(flags, index);
    }
}

} // verus!
