//! Pattern sets.

use dxfeed::filter::config::PatternSetSerde;
use dxfeed::filter::error::FilterConfigError;
use dxfeed::filter::pattern::CompiledPatternSet;

fn ps(globs: &[&str], regexes: &[&str], case_insensitive: bool) -> PatternSetSerde {
    PatternSetSerde {
        globs: globs.iter().map(|s| s.to_string()).collect(),
        regexes: regexes.iter().map(|s| s.to_string()).collect(),
        case_insensitive,
    }
}

#[test]
fn empty_pattern_set() {
    let compiled = CompiledPatternSet::compile(PatternSetSerde::default()).unwrap();
    assert!(compiled.is_empty());
    assert!(!compiled.is_match("anything"));
}

#[test]
fn glob_matching() {
    let compiled = CompiledPatternSet::compile(ps(&["W1*"], &[], false)).unwrap();
    assert!(!compiled.is_empty());
    assert!(compiled.is_match("W1AW"));
    assert!(compiled.is_match("W1ABC"));
    assert!(!compiled.is_match("K1TTT"));
    assert!(!compiled.is_match("w1aw")); // case sensitive
}

#[test]
fn glob_case_insensitive() {
    let compiled = CompiledPatternSet::compile(ps(&["W1*"], &[], true)).unwrap();
    assert!(compiled.is_match("W1AW"));
    assert!(compiled.is_match("w1aw"));
    assert!(compiled.is_match("w1AW"));
    assert!(!compiled.is_match("K1TTT"));
}

#[test]
fn regex_matching() {
    let compiled = CompiledPatternSet::compile(ps(&[], &["^(VE|VA)"], false)).unwrap();
    assert!(compiled.is_match("VE3NEA"));
    assert!(compiled.is_match("VA3ABC"));
    assert!(!compiled.is_match("W1AW"));
    assert!(!compiled.is_match("ve3nea")); // case sensitive
}

#[test]
fn regex_case_insensitive() {
    let compiled = CompiledPatternSet::compile(ps(&[], &["^(VE|VA)"], true)).unwrap();
    assert!(compiled.is_match("VE3NEA"));
    assert!(compiled.is_match("ve3nea"));
    assert!(!compiled.is_match("W1AW"));
}

#[test]
fn mixed_glob_and_regex() {
    let compiled = CompiledPatternSet::compile(ps(&["W1*"], &["^JA"], false)).unwrap();
    assert!(compiled.is_match("W1AW"));
    assert!(compiled.is_match("JA1ABC"));
    assert!(!compiled.is_match("VE3NEA"));
}

#[test]
fn invalid_glob() {
    let result = CompiledPatternSet::compile(ps(&["[invalid"], &[], false));
    assert!(result.is_err());
    match result.unwrap_err() {
        FilterConfigError::InvalidGlob(_) => {}
        other => panic!("expected InvalidGlob, got {:?}", other),
    }
}

#[test]
fn invalid_regex() {
    let result = CompiledPatternSet::compile(ps(&[], &["(unclosed"], false));
    assert!(result.is_err());
    match result.unwrap_err() {
        FilterConfigError::InvalidRegex(_) => {}
        other => panic!("expected InvalidRegex, got {:?}", other),
    }
}

#[test]
fn multiple_globs_any_match() {
    let compiled = CompiledPatternSet::compile(ps(&["W1*", "K3*"], &[], false)).unwrap();
    assert!(compiled.is_match("W1AW"));
    assert!(compiled.is_match("K3LR"));
    assert!(!compiled.is_match("N1MM"));
}

#[test]
fn multiple_regexes_any_match() {
    let compiled =
        CompiledPatternSet::compile(ps(&[], &["^W1", "^K3"], false)).unwrap();
    assert!(compiled.is_match("W1AW"));
    assert!(compiled.is_match("K3LR"));
    assert!(!compiled.is_match("N1MM"));
}
