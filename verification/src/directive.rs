use crate::action::{CopyAction, MoveAction, TaskKind, TaskView};
use crate::context::ContextView;
use crate::error::{MapError, MapErrorView};
use crate::grammar::{directive_parts, lemma_kinds_exclusive, parse_directive};
use crate::mapping::{Mapping, MappingView};
use crate::pattern::regex_rejection;
use crate::rule::{pattern_description, pattern_matches_file, RegexRule};
use crate::select::{
    hits, lemma_hits_are_set, lemma_hits_push, lemma_no_hit, lemma_one_hit, lemma_set_is_hit,
    lemma_two_hits,
};
use vstd::prelude::*;

verus! {

/// What a directive makes of a line: nothing where the line is not written
/// in its grammar, else a mapping, or the error by which the line fails.
pub type Outcome = Option<Result<MappingView, MapErrorView>>;

/// The mathematical value of what `create_mapping` returns.
pub open spec fn outcome_view(made: Option<Result<Mapping, MapError>>) -> Outcome {
    match made {
        None => None,
        Some(Ok(mapping)) => Some(Ok(mapping@)),
        Some(Err(error)) => Some(Err(error@)),
    }
}

/// A grammar for configuration lines: it recognises the lines written in it
/// and turns each into a mapping.
///
/// `name` and `parse` name what the two methods return. An implementation
/// must answer alike whenever it is asked alike. Of an implementation that is
/// compiled without being verified nothing more is known; it gives the two
/// specification functions bodies that are never run.
pub trait MappingDirective {
    /// The name by which messages call the directive.
    spec fn name(&self) -> Seq<char>;

    /// What the directive makes of `definition`.
    spec fn parse(&self, definition: Seq<char>) -> Outcome;

    fn directive_name(&self) -> (text: String)
        ensures
            text@ == self.name(),
    ;

    fn create_mapping(&self, definition: &str) -> (made: Option<Result<Mapping, MapError>>)
        ensures
            outcome_view(made) == self.parse(definition@),
    ;
}

/// The mapping that a directive of `kind` makes of a pattern that compiles:
/// it governs the files whose base name the pattern matches, and copies or
/// moves them into `destination`.
pub open spec fn regex_mapping(pattern: Seq<char>, kind: TaskKind, destination: Seq<char>)
    -> MappingView {
    MappingView {
        matches: |file: Seq<char>, context: ContextView| pattern_matches_file(pattern, file),
        task_for: |file: Seq<char>| TaskView { kind, file, relative_destination: destination },
        description: pattern_description(pattern),
    }
}

/// What the directive of `kind` makes of `definition`: nothing where the
/// line is not written as `<letter>/<pattern>/<destination>`, an error where
/// the pattern is no regular expression, and else the mapping of the pattern
/// to the destination.
pub open spec fn regex_directive_parse(kind: TaskKind, definition: Seq<char>) -> Outcome {
    match directive_parts(definition, kind) {
        None => None,
        Some((pattern, destination)) => match regex_rejection(pattern) {
            None => Some(Ok(regex_mapping(pattern, kind, destination))),
            Some(cause) => Some(Err(MapErrorView::InvalidPattern { kind, pattern, cause })),
        },
    }
}

/// The directive `<letter>/<pattern>/<destination>`: files whose base name
/// the regular expression `<pattern>` matches are copied (letter `c`) or
/// moved (letter `m`) into `<destination>`.
#[derive(Debug)]
pub struct RegexDirective {
    directive_name: String,
    kind: TaskKind,
}

impl RegexDirective {
    /// The name by which messages call the directive.
    pub closed spec fn label(&self) -> Seq<char> {
        self.directive_name@
    }

    /// What the mappings of the directive do with a file.
    pub closed spec fn kind(&self) -> TaskKind {
        self.kind
    }

    pub fn new(directive_name: String, kind: TaskKind) -> (directive: RegexDirective)
        ensures
            directive.label() == directive_name@,
            directive.kind() == kind,
    {
        RegexDirective { directive_name, kind }
    }
}

impl MappingDirective for RegexDirective {
    open spec fn name(&self) -> Seq<char> {
        self.label()
    }

    open spec fn parse(&self, definition: Seq<char>) -> Outcome {
        regex_directive_parse(self.kind(), definition)
    }

    fn directive_name(&self) -> (text: String) {
        self.directive_name.clone()
    }

    fn create_mapping(&self, definition: &str) -> (made: Option<Result<Mapping, MapError>>) {
        match parse_directive(definition, self.kind) {
            None => None,
            Some((pattern, destination)) => match RegexRule::new(pattern.as_str()) {
                Err(cause) => Some(
                    Err(MapError::InvalidPattern { kind: self.kind, pattern, cause }),
                ),
                Ok(rule) => {
                    let ghost expected = regex_mapping(pattern@, self.kind, destination@);
                    let mapping = match self.kind {
                        TaskKind::Copy => Mapping::new(
                            Box::new(rule),
                            Box::new(CopyAction::new(destination)),
                        ),
                        TaskKind::Move => Mapping::new(
                            Box::new(rule),
                            Box::new(MoveAction::new(destination)),
                        ),
                    };
                    assert(mapping@ =~= expected);
                    Some(Ok(mapping))
                },
            },
        }
    }
}

/// The directive that copies: `c/<pattern>/<destination>`.
pub fn copy_regex_directive() -> (directive: RegexDirective)
    ensures
        directive.label() == "Copy"@,
        directive.kind() == TaskKind::Copy,
{
    RegexDirective::new(String::from_str("Copy"), TaskKind::Copy)
}

/// The directive that moves: `m/<pattern>/<destination>`.
pub fn move_regex_directive() -> (directive: RegexDirective)
    ensures
        directive.label() == "Move"@,
        directive.kind() == TaskKind::Move,
{
    RegexDirective::new(String::from_str("Move"), TaskKind::Move)
}

/// The mathematical value of a directive: its name, and what it makes of
/// each line.
#[verifier::ext_equal]
pub struct DirectiveView {
    pub name: Seq<char>,
    pub parse: spec_fn(Seq<char>) -> Outcome,
}

/// The values of `directives`, one by one.
pub open spec fn directive_views(directives: Seq<Box<dyn MappingDirective>>) -> Seq<
    DirectiveView,
> {
    Seq::new(
        directives.len(),
        |index: int|
            DirectiveView {
                name: directives[index].name(),
                parse: |definition: Seq<char>| directives[index].parse(definition),
            },
    )
}

/// The value of the directive of `kind` that is called `name`.
pub open spec fn regex_directive(name: Seq<char>, kind: TaskKind) -> DirectiveView {
    DirectiveView { name, parse: |definition: Seq<char>| regex_directive_parse(kind, definition) }
}

/// The directives that the program knows: the one that copies and the one
/// that moves.
pub open spec fn standard_directives() -> Seq<DirectiveView> {
    seq![regex_directive("Copy"@, TaskKind::Copy), regex_directive("Move"@, TaskKind::Move)]
}

/// The directives that the program knows: the one that copies and the one
/// that moves.
pub fn create_directives() -> (directives: Vec<Box<dyn MappingDirective>>)
    ensures
        directive_views(directives@) == standard_directives(),
{
    let directives: Vec<Box<dyn MappingDirective>> = vec![
        Box::new(copy_regex_directive()),
        Box::new(move_regex_directive()),
    ];
    proof {
        let views = directive_views(directives@);
        assert(views.len() == 2);
        assert(views[0] =~= regex_directive("Copy"@, TaskKind::Copy));
        assert(views[1] =~= regex_directive("Move"@, TaskKind::Move));
        assert(views =~= standard_directives());
    }
    directives
}

/// Whether the directive at `index` reads `definition`, be it with success
/// or not.
pub open spec fn reads(directives: Seq<DirectiveView>, index: int, definition: Seq<char>)
    -> bool {
    (directives[index].parse)(definition) is Some
}

/// For each directive, whether it reads `definition`.
pub open spec fn read_flags(directives: Seq<DirectiveView>, definition: Seq<char>) -> Seq<bool> {
    Seq::new(directives.len(), |index: int| reads(directives, index, definition))
}

/// The names of the directives at `indices`, in the order of the indices.
pub open spec fn names_at(directives: Seq<DirectiveView>, indices: Seq<int>) -> Seq<Seq<char>> {
    Seq::new(indices.len(), |k: int| directives[indices[k]].name)
}

/// What `directives` together make of `definition`: nothing where none of
/// them reads the line, what the one directive makes of it where one does,
/// and where several do, the error that names the line and all of them.
pub open spec fn dispatch(directives: Seq<DirectiveView>, definition: Seq<char>) -> Outcome {
    let found = hits(read_flags(directives, definition));
    if found.len() == 0 {
        None
    } else if found.len() == 1 {
        (directives[found[0]].parse)(definition)
    } else {
        Some(
            Err(
                MapErrorView::AmbiguousDirective {
                    definition,
                    directives: names_at(directives, found),
                },
            ),
        )
    }
}

/// Reads `directive_definition` with every directive of `all_directives`.
/// A line that no directive reads gives nothing; a line that one directive
/// reads gives what that directive makes of it; a line that several read is
/// an error, whatever each of them makes of it.
pub fn mapping_from_string(
    all_directives: &Vec<Box<dyn MappingDirective>>,
    directive_definition: &str,
) -> (made: Option<Result<Mapping, MapError>>)
    ensures
        outcome_view(made) == dispatch(directive_views(all_directives@), directive_definition@),
{
    let ghost views = directive_views(all_directives@);
    let ghost flags = read_flags(views, directive_definition@);
    let mut matched_directives: Vec<String> = Vec::new();
    let mut found_mapping: Option<Result<Mapping, MapError>> = None;
    let mut i: usize = 0;
    proof {
        assert(flags.take(0) =~= Seq::<bool>::empty());
        assert(matched_directives.deep_view() =~= names_at(views, hits(flags.take(0))));
    }
    while i < all_directives.len()
        invariant
            i <= all_directives.len(),
            views == directive_views(all_directives@),
            flags == read_flags(views, directive_definition@),
            matched_directives.deep_view() == names_at(views, hits(flags.take(i as int))),
            hits(flags.take(i as int)).len() == 0 ==> found_mapping is None,
            hits(flags.take(i as int)).len() > 0 ==> found_mapping is Some && outcome_view(
                found_mapping,
            ) == (views[hits(flags.take(i as int)).last()].parse)(directive_definition@),
        decreases all_directives.len() - i,
    {
        let ghost before = hits(flags.take(i as int));
        let ghost names = matched_directives.deep_view();
        let made = all_directives[i].create_mapping(directive_definition);
        proof {
            assert(flags.take(i + 1) =~= flags.take(i as int).push(flags[i as int]));
            lemma_hits_push(flags.take(i as int), flags[i as int]);
            assert(outcome_view(made) == (views[i as int].parse)(directive_definition@));
            assert(flags[i as int] == made is Some);
        }
        match made {
            Some(mapping_result) => {
                let name = all_directives[i].directive_name();
                matched_directives.push(name);
                found_mapping = Some(mapping_result);
                proof {
                    let after = hits(flags.take(i + 1));
                    assert(after == before.push(i as int));
                    assert(matched_directives.deep_view() =~= names.push(views[i as int].name));
                    assert(matched_directives.deep_view() =~= names_at(views, after));
                }
            },
            None => {},
        }
        i += 1;
    }
    proof {
        assert(flags.take(i as int) =~= flags);
    }
    if matched_directives.len() > 1 {
        Some(
            Err(
                MapError::AmbiguousDirective {
                    definition: String::from_str(directive_definition),
                    directives: matched_directives,
                },
            ),
        )
    } else {
        found_mapping
    }
}

/// The mappings that `directives` make of `lines`, in the order of the
/// lines. A line that no directive reads is passed over; the first line that
/// fails ends the reading with its error.
pub open spec fn read_lines(directives: Seq<DirectiveView>, lines: Seq<Seq<char>>) -> Result<
    Seq<MappingView>,
    MapErrorView,
>
    decreases lines.len(),
{
    if lines.len() == 0 {
        Ok(Seq::empty())
    } else {
        match read_lines(directives, lines.drop_last()) {
            Err(error) => Err(error),
            Ok(mappings) => match dispatch(directives, lines.last()) {
                None => Ok(mappings),
                Some(Ok(mapping)) => Ok(mappings.push(mapping)),
                Some(Err(error)) => Err(error),
            },
        }
    }
}

/// An error over the first lines is the error over all of them.
pub proof fn lemma_read_lines_stops(
    directives: Seq<DirectiveView>,
    lines: Seq<Seq<char>>,
    n: int,
)
    requires
        0 <= n <= lines.len(),
        read_lines(directives, lines.take(n)) is Err,
    ensures
        read_lines(directives, lines) == read_lines(directives, lines.take(n)),
    decreases lines.len() - n,
{
    if n == lines.len() {
        assert(lines.take(n) =~= lines);
    } else {
        assert(lines.take(n + 1).drop_last() =~= lines.take(n));
        lemma_read_lines_stops(directives, lines, n + 1);
    }
}

/// Reads the lines of a rules file: each line that a directive reads becomes
/// a mapping, the others are passed over, and the first line that fails ends
/// the reading with its error.
pub fn mappings_from_lines(all_directives: &Vec<Box<dyn MappingDirective>>, lines: &Vec<String>)
    -> (read: Result<Vec<Mapping>, MapError>)
    ensures
        match read {
            Ok(mappings) => read_lines(directive_views(all_directives@), lines.deep_view())
                == Ok::<Seq<MappingView>, MapErrorView>(mappings.deep_view()),
            Err(error) => read_lines(directive_views(all_directives@), lines.deep_view())
                == Err::<Seq<MappingView>, MapErrorView>(error@),
        },
{
    let ghost views = directive_views(all_directives@);
    let ghost texts = lines.deep_view();
    let mut mappings: Vec<Mapping> = Vec::new();
    let mut i: usize = 0;
    proof {
        assert(texts.take(0) =~= Seq::<Seq<char>>::empty());
        assert(mappings.deep_view() =~= Seq::<MappingView>::empty());
    }
    while i < lines.len()
        invariant
            i <= lines.len(),
            views == directive_views(all_directives@),
            texts == lines.deep_view(),
            read_lines(views, texts.take(i as int)) == Ok::<Seq<MappingView>, MapErrorView>(
                mappings.deep_view(),
            ),
        decreases lines.len() - i,
    {
        proof {
            assert(texts.take(i + 1).drop_last() =~= texts.take(i as int));
            assert(texts.take(i + 1).last() == lines[i as int]@);
        }
        let ghost before = mappings.deep_view();
        match mapping_from_string(all_directives, lines[i].as_str()) {
            Some(Ok(mapping)) => {
                mappings.push(mapping);
                proof {
                    assert(mappings.deep_view() =~= before.push(mapping@));
                }
            },
            Some(Err(error)) => {
                proof {
                    lemma_read_lines_stops(views, texts, i + 1);
                }
                return Err(error);
            },
            None => {},
        }
        i += 1;
    }
    proof {
        assert(texts.take(i as int) =~= texts);
    }
    Ok(mappings)
}

/// A line that no directive reads gives nothing, and that is no error.
pub proof fn lemma_unread_line_is_inert(directives: Seq<DirectiveView>, definition: Seq<char>)
    requires
        forall|i: int| 0 <= i < directives.len() ==> !reads(directives, i, definition),
    ensures
        dispatch(directives, definition) is None,
{
    lemma_no_hit(read_flags(directives, definition));
}

/// A line that exactly one directive reads gives what that directive makes
/// of it, be it a mapping or an error, and nothing else.
pub proof fn lemma_single_directive_decides(
    directives: Seq<DirectiveView>,
    definition: Seq<char>,
    index: int,
)
    requires
        0 <= index < directives.len(),
        reads(directives, index, definition),
        forall|i: int|
            0 <= i < directives.len() && i != index ==> !reads(directives, i, definition),
    ensures
        dispatch(directives, definition) == (directives[index].parse)(definition),
{
    lemma_one_hit(read_flags(directives, definition), index);
}

/// A line that two or more directives read is an error, whatever each of
/// them makes of it: the error holds the line and the name of every
/// directive that reads it, in the order of the directives, and no other
/// name.
pub proof fn lemma_ambiguous_line_fails(
    directives: Seq<DirectiveView>,
    definition: Seq<char>,
    first: int,
    second: int,
)
    requires
        0 <= first < second < directives.len(),
        reads(directives, first, definition),
        reads(directives, second, definition),
    ensures
        dispatch(directives, definition) matches Some(
            Err(MapErrorView::AmbiguousDirective { definition: line, directives: names }),
        ) && {
            let found = hits(read_flags(directives, definition));
            &&& line == definition
            &&& names.len() == found.len() >= 2
            &&& forall|k: int|
                0 <= k < names.len() ==> 0 <= found[k] < directives.len() && reads(
                    directives,
                    found[k],
                    definition,
                ) && #[trigger] names[k] == directives[found[k]].name
            &&& forall|j: int, k: int| 0 <= j < k < found.len() ==> found[j] < found[k]
            &&& forall|i: int|
                0 <= i < directives.len() && reads(directives, i, definition)
                    ==> found.contains(i)
        },
{
    let flags = read_flags(directives, definition);
    lemma_two_hits(flags, first, second);
    lemma_hits_are_set(flags);
    assert forall|i: int|
        0 <= i < directives.len() && reads(directives, i, definition) implies hits(
        flags,
    ).contains(i) by {
        lemma_set_is_hit(flags, i);
    }
}

/// The directives that the program knows never read the same line: what
/// they make of a line is what the copying directive makes of it where the
/// line starts as a copy, and else what the moving directive makes of it.
pub proof fn lemma_standard_directives_agree(definition: Seq<char>)
    ensures
        dispatch(standard_directives(), definition) == if directive_parts(
            definition,
            TaskKind::Copy,
        ) is Some {
            regex_directive_parse(TaskKind::Copy, definition)
        } else {
            regex_directive_parse(TaskKind::Move, definition)
        },
{
    let directives = standard_directives();
    let flags = read_flags(directives, definition);
    lemma_kinds_exclusive(definition);
    assert(flags[0] == directive_parts(definition, TaskKind::Copy) is Some);
    assert(flags[1] == directive_parts(definition, TaskKind::Move) is Some);
    if flags[0] {
        lemma_one_hit(flags, 0);
    } else if flags[1] {
        lemma_one_hit(flags, 1);
    } else {
        lemma_no_hit(flags);
    }
}

} // verus!
