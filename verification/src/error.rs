use crate::action::TaskKind;
use vstd::prelude::*;

verus! {

/// Why a run was given up. Every variant carries the paths and names a
/// person needs to see what went wrong.
#[derive(Clone, Debug, PartialEq, Eq)]
pub enum MapError {
    /// A failure that a directive, rule or action of the caller reports in
    /// its own words.
    Msg(String),
    /// The pattern of a directive is no regular expression.
    InvalidPattern { kind: TaskKind, pattern: String, cause: String },
    /// More than one directive reads the same line.
    AmbiguousDirective { definition: String, directives: Vec<String> },
    /// The file has no base name under which it could be placed.
    NoFileName { file: String },
    /// The destination directory could not be created.
    DirectoryCreationFailed { directory: String, cause: String },
    /// The copy or the move itself failed.
    FileOperationFailed { kind: TaskKind, source: String, destination: String, cause: String },
    /// More than one mapping governs the same file.
    DuplicateRuleMatch { first: String, second: String, file: String },
    /// The source directory could not be listed.
    SourceDirUnreadable { directory: String, cause: String },
}

/// The mathematical value of a [`MapError`].
pub enum MapErrorView {
    Msg(Seq<char>),
    InvalidPattern { kind: TaskKind, pattern: Seq<char>, cause: Seq<char> },
    AmbiguousDirective { definition: Seq<char>, directives: Seq<Seq<char>> },
    NoFileName { file: Seq<char> },
    DirectoryCreationFailed { directory: Seq<char>, cause: Seq<char> },
    FileOperationFailed {
        kind: TaskKind,
        source: Seq<char>,
        destination: Seq<char>,
        cause: Seq<char>,
    },
    DuplicateRuleMatch { first: Seq<char>, second: Seq<char>, file: Seq<char> },
    SourceDirUnreadable { directory: Seq<char>, cause: Seq<char> },
}

impl View for MapError {
    type V = MapErrorView;

    open spec fn view(&self) -> MapErrorView {
        match self {
            MapError::Msg(text) => MapErrorView::Msg(text@),
            MapError::InvalidPattern { kind, pattern, cause } => MapErrorView::InvalidPattern {
                kind: *kind,
                pattern: pattern@,
                cause: cause@,
            },
            MapError::AmbiguousDirective { definition, directives } => MapErrorView::AmbiguousDirective {
                definition: definition@,
                directives: directives.deep_view(),
            },
            MapError::NoFileName { file } => MapErrorView::NoFileName { file: file@ },
            MapError::DirectoryCreationFailed { directory, cause } => {
                MapErrorView::DirectoryCreationFailed { directory: directory@, cause: cause@ }
            },
            MapError::FileOperationFailed { kind, source, destination, cause } => {
                MapErrorView::FileOperationFailed {
                    kind: *kind,
                    source: source@,
                    destination: destination@,
                    cause: cause@,
                }
            },
            MapError::DuplicateRuleMatch { first, second, file } => MapErrorView::DuplicateRuleMatch {
                first: first@,
                second: second@,
                file: file@,
            },
            MapError::SourceDirUnreadable { directory, cause } => MapErrorView::SourceDirUnreadable {
                directory: directory@,
                cause: cause@,
            },
        }
    }
}

/// Every name of `names`, each behind a comma and a blank.
pub open spec fn listed(names: Seq<Seq<char>>) -> Seq<char>
    decreases names.len(),
{
    if names.len() == 0 {
        Seq::empty()
    } else {
        listed(names.drop_last()) + ", "@ + names.last()
    }
}

impl MapErrorView {
    /// The sentence that reports the error.
    pub open spec fn message(self) -> Seq<char> {
        match self {
            MapErrorView::Msg(text) => text,
            MapErrorView::InvalidPattern { kind, pattern, .. } => "Unable to parse regex for "@
                + kind.verb() + " rule "@ + pattern,
            MapErrorView::AmbiguousDirective { definition, directives } => "Ambiguous directive '"@
                + definition + "', which matched "@ + listed(directives),
            MapErrorView::NoFileName { file } => "Internal failure: File "@ + file
                + " does not have a file name. This is a bug."@,
            MapErrorView::DirectoryCreationFailed { directory, .. } =>
                "Unable to create destination directory: "@ + directory,
            MapErrorView::FileOperationFailed { kind, source, destination, .. } => "Unable to "@
                + kind.verb() + " file "@ + source + " to destination "@ + destination,
            MapErrorView::DuplicateRuleMatch { first, second, file } => "Duplicate rules "@ + first
                + " and "@ + second + " match file "@ + file,
            MapErrorView::SourceDirUnreadable { directory, .. } =>
                "Unable to read entries of directory "@ + directory,
        }
    }

    /// What the operating system or the pattern compiler said, where the
    /// error wraps such a failure.
    pub open spec fn cause(self) -> Option<Seq<char>> {
        match self {
            MapErrorView::InvalidPattern { cause, .. } => Some(cause),
            MapErrorView::DirectoryCreationFailed { cause, .. } => Some(cause),
            MapErrorView::FileOperationFailed { cause, .. } => Some(cause),
            MapErrorView::SourceDirUnreadable { cause, .. } => Some(cause),
            _ => None,
        }
    }
}

/// `names`, each behind a comma and a blank, appended to `text`.
fn append_listed(text: &mut String, names: &Vec<String>)
    ensures
        final(text)@ == old(text)@ + listed(names.deep_view()),
{
    let ghost all = names.deep_view();
    let mut i: usize = 0;
    proof {
        assert(all.take(0) =~= Seq::<Seq<char>>::empty());
        assert(text@ =~= old(text)@ + listed(all.take(0)));
    }
    while i < names.len()
        invariant
            i <= names.len(),
            all == names.deep_view(),
            text@ == old(text)@ + listed(all.take(i as int)),
        decreases names.len() - i,
    {
        text.append(", ");
        text.append(names[i].as_str());
        proof {
            let upto = all.take(i + 1);
            assert(upto.drop_last() =~= all.take(i as int));
            assert(upto.last() == names[i as int]@);
            assert(text@ =~= old(text)@ + listed(upto));
        }
        i += 1;
    }
    proof {
        assert(all.take(i as int) =~= all);
    }
}

impl MapError {
    /// The sentence that reports the error.
    pub fn message(&self) -> (text: String)
        ensures
            text@ == self@.message(),
    {
        match self {
            MapError::Msg(text) => text.clone(),
            MapError::InvalidPattern { kind, pattern, .. } => {
                let mut text = String::from_str("Unable to parse regex for ");
                text.append(kind.verb_text());
                text.append(" rule ");
                text.append(pattern.as_str());
                text
            },
            MapError::AmbiguousDirective { definition, directives } => {
                let mut text = String::from_str("Ambiguous directive '");
                text.append(definition.as_str());
                text.append("', which matched ");
                append_listed(&mut text, directives);
                text
            },
            MapError::NoFileName { file } => {
                let mut text = String::from_str("Internal failure: File ");
                text.append(file.as_str());
                text.append(" does not have a file name. This is a bug.");
                text
            },
            MapError::DirectoryCreationFailed { directory, .. } => {
                let mut text = String::from_str("Unable to create destination directory: ");
                text.append(directory.as_str());
                text
            },
            MapError::FileOperationFailed { kind, source, destination, .. } => {
                let mut text = String::from_str("Unable to ");
                text.append(kind.verb_text());
                text.append(" file ");
                text.append(source.as_str());
                text.append(" to destination ");
                text.append(destination.as_str());
                text
            },
            MapError::DuplicateRuleMatch { first, second, file } => {
                let mut text = String::from_str("Duplicate rules ");
                text.append(first.as_str());
                text.append(" and ");
                text.append(second.as_str());
                text.append(" match file ");
                text.append(file.as_str());
                text
            },
            MapError::SourceDirUnreadable { directory, .. } => {
                let mut text = String::from_str("Unable to read entries of directory ");
                text.append(directory.as_str());
                text
            },
        }
    }

    /// What the operating system or the pattern compiler said, where the
    /// error wraps such a failure.
    pub fn cause(&self) -> (cause: Option<String>)
        ensures
            match cause {
                Some(text) => self@.cause() == Some(text@),
                None => self@.cause() is None,
            },
    {
        match self {
            MapError::InvalidPattern { cause, .. } => Some(cause.clone()),
            MapError::DirectoryCreationFailed { cause, .. } => Some(cause.clone()),
            MapError::FileOperationFailed { cause, .. } => Some(cause.clone()),
            MapError::SourceDirUnreadable { cause, .. } => Some(cause.clone()),
            _ => None,
        }
    }
}

} // verus!
