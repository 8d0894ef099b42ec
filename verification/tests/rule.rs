use filemap::context::MapFileContext;
use filemap::rule::{MapRule, RegexRule};

fn dummy_map_file_context() -> MapFileContext {
    MapFileContext {
        source_dir: "dummy-source-dir".to_string(),
        dest_dir: "dummy-dest-dir".to_string(),
        dry_run: false,
    }
}

#[test]
fn regex_rule_with_matching_file() {
    let rule = RegexRule::new("match").unwrap();
    let file = "./is/a/match.txt".to_string();
    let is_match = rule.file_matches_rule(&file, &dummy_map_file_context());
    assert_eq!(is_match, true);
}

#[test]
fn regex_rule_no_match_on_path_parents() {
    let rule = RegexRule::new("nomatch").unwrap();
    let file = "./nomatch/does/not/match.txt".to_string();
    let is_match = rule.file_matches_rule(&file, &dummy_map_file_context());
    assert_eq!(is_match, false);
}

#[test]
fn regex_rule_matches_base_name_only() {
    let rule = RegexRule::new("match").unwrap();
    let context = dummy_map_file_context();
    assert_eq!(rule.file_matches_rule(&"a/b/match.txt".to_string(), &context), true);
    assert_eq!(rule.file_matches_rule(&"match/b/c.txt".to_string(), &context), false);
}

#[test]
fn regex_rule_without_base_name_matches_nothing() {
    let rule = RegexRule::new("").unwrap();
    let context = dummy_map_file_context();
    assert_eq!(rule.file_matches_rule(&"a/..".to_string(), &context), false);
    assert_eq!(rule.file_matches_rule(&"/".to_string(), &context), false);
    assert_eq!(rule.file_matches_rule(&"".to_string(), &context), false);
}

#[test]
fn regex_rule_empty_pattern_matches_every_name() {
    let rule = RegexRule::new("").unwrap();
    let context = dummy_map_file_context();
    assert_eq!(rule.file_matches_rule(&"report.txt".to_string(), &context), true);
    assert_eq!(rule.file_matches_rule(&"dir/x".to_string(), &context), true);
}

#[test]
fn regex_rule_is_anchored_by_the_pattern_alone() {
    let rule = RegexRule::new(r"\.txt$").unwrap();
    let context = dummy_map_file_context();
    assert_eq!(rule.file_matches_rule(&"report.txt".to_string(), &context), true);
    assert_eq!(rule.file_matches_rule(&"report.txt.bak".to_string(), &context), false);
    assert_eq!(rule.file_matches_rule(&"report.text".to_string(), &context), false);
}

#[test]
fn regex_rule_rejects_invalid_pattern() {
    let rejected = RegexRule::new("(");
    assert_eq!(rejected.is_err(), true);
    let cause = rejected.unwrap_err();
    assert_eq!(cause, regex::Regex::new("(").unwrap_err().to_string());
}

#[test]
fn regex_rule_describes_its_pattern() {
    let rule = RegexRule::new("fo+").unwrap();
    assert_eq!(rule.describe(), "RegexRule(fo+)");
}
