use crate::context::{ContextView, MapFileContext};
use crate::path::{file_name, path_file_name};
use crate::pattern::{check_pattern, is_match, regex_is_match, regex_is_valid, regex_rejection};
use vstd::prelude::*;

verus! {

/// Decides whether a file is governed by a mapping.
///
/// `matches` and `description` name what the two methods return, so that
/// contracts can speak of a rule without knowing its kind. An implementation
/// must answer alike whenever it is asked alike. Of an implementation that is
/// compiled without being verified nothing more is known; it gives the two
/// specification functions bodies that are never run.
pub trait MapRule {
    /// Whether the rule governs `file` in a run under `context`.
    spec fn matches(&self, file: Seq<char>, context: ContextView) -> bool;

    /// The text by which messages name the rule.
    spec fn description(&self) -> Seq<char>;

    fn file_matches_rule(&self, file: &String, file_context: &MapFileContext) -> (matched: bool)
        ensures
            matched == self.matches(file@, file_context@),
    ;

    fn describe(&self) -> (text: String)
        ensures
            text@ == self.description(),
    ;
}

/// Whether the regular expression `pattern` matches the base name of `file`.
/// Directories above the base name are never looked at, and a path without a
/// base name matches nothing.
pub open spec fn pattern_matches_file(pattern: Seq<char>, file: Seq<char>) -> bool {
    match path_file_name(file) {
        Some(name) => regex_is_match(pattern, name),
        None => false,
    }
}

/// How messages name the rule of `pattern`.
pub open spec fn pattern_description(pattern: Seq<char>) -> Seq<char> {
    "RegexRule("@ + pattern + ")"@
}

/// A rule that holds a regular expression and governs the files whose base
/// name the expression matches.
#[derive(Debug)]
pub struct RegexRule {
    pattern: String,
}

impl RegexRule {
    #[verifier::type_invariant]
    spec fn compiles(&self) -> bool {
        regex_is_valid(self.pattern@)
    }

    /// The regular expression of the rule, as text.
    pub closed spec fn pattern(&self) -> Seq<char> {
        self.pattern@
    }

    /// The rule of `pattern`, or what the compiler of regular expressions
    /// holds against the pattern.
    pub fn new(pattern: &str) -> (made: Result<RegexRule, String>)
        ensures
            match made {
                Ok(rule) => regex_is_valid(pattern@) && rule.pattern() == pattern@,
                Err(cause) => regex_rejection(pattern@) == Some(cause@),
            },
    {
        match check_pattern(pattern) {
            Ok(_) => Ok(RegexRule { pattern: String::from_str(pattern) }),
            Err(cause) => Err(cause),
        }
    }
}

impl MapRule for RegexRule {
    open spec fn matches(&self, file: Seq<char>, context: ContextView) -> bool {
        pattern_matches_file(self.pattern(), file)
    }

    open spec fn description(&self) -> Seq<char> {
        pattern_description(self.pattern())
    }

    fn file_matches_rule(&self, file: &String, file_context: &MapFileContext) -> (matched: bool) {
        proof {
            use_type_invariant(self);
        }
        match file_name(file.as_str()) {
            Some(name) => is_match(self.pattern.as_str(), name.as_str()),
            None => false,
        }
    }

    fn describe(&self) -> (text: String) {
        let mut text = String::from_str("RegexRule(");
        text.append(self.pattern.as_str());
        text.append(")");
        text
    }
}

} // verus!
