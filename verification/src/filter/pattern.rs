//! Compiled pattern sets (glob + regex) for hot-path matching.
//!
//! Globs are compiled and matched by the `globset` crate, regular expressions
//! by the `regex` crate. What these crates compute is named here and stated of
//! each call; everything around the calls is proved. The names speak of the
//! crates with their default options, on the platform that the library is built
//! for: where `\` separates path components `globset` does not take it for an
//! escape, and the size limit on a compiled expression counts machine words.

use super::config::PatternSetSerde;
use super::error::{ErrorModel, FilterConfigError};
use globset::{Glob, GlobBuilder, GlobSet, GlobSetBuilder};
use regex::{Regex, RegexSet};
use vstd::prelude::*;
use vstd::string::*;

verus! {

// ---------------------------------------------------------------------------
// The globset crate
// ---------------------------------------------------------------------------

/// A compiled set of globs.
#[verifier::external_type_specification]
#[verifier::external_body]
pub struct ExGlobSet(GlobSet);

/// A list of globs under construction.
#[verifier::external_type_specification]
#[verifier::external_body]
pub struct ExGlobSetBuilder(GlobSetBuilder);

/// A glob that was parsed.
#[verifier::external_type_specification]
#[verifier::external_body]
pub struct ExGlob(Glob);

/// Why a glob or a set of globs does not compile.
#[verifier::external_type_specification]
#[verifier::external_body]
pub struct ExGlobError(globset::Error);

/// What a glob was parsed from: its text, and whether it ignores case.
pub uninterp spec fn glob_source(glob: Glob) -> (Seq<char>, bool);

/// The globs added to a builder: the text of each, and whether it ignores case.
pub uninterp spec fn builder_globs(builder: GlobSetBuilder) -> Seq<(Seq<char>, bool)>;

/// The globs that a set was built from.
pub uninterp spec fn set_globs(set: GlobSet) -> Seq<(Seq<char>, bool)>;

/// Whether `GlobBuilder::build` accepts the text as a glob.
pub uninterp spec fn glob_accepted(pattern: Seq<char>, case_insensitive: bool) -> bool;

/// Whether `GlobSetBuilder::build` accepts the list of globs.
pub uninterp spec fn globs_accepted(globs: Seq<(Seq<char>, bool)>) -> bool;

/// Whether a glob, as compiled by `globset`, matches the text.
pub uninterp spec fn glob_matches(
    pattern: Seq<char>,
    case_insensitive: bool,
    text: Seq<char>,
) -> bool;

/// `GlobSetBuilder::new` starts with no globs.
pub assume_specification[ GlobSetBuilder::new ]() -> (r: GlobSetBuilder)
    ensures
        builder_globs(r) == Seq::<(Seq<char>, bool)>::empty(),
;

/// `GlobBuilder::build`, on a builder made of the text and the case setting
/// with every other option as it is by default, parses the text as a glob or
/// refuses it.
#[verifier::external_body]
fn parse_glob(pattern: &str, case_insensitive: bool) -> (r: Result<Glob, globset::Error>)
    ensures
        r is Ok <==> glob_accepted(pattern@, case_insensitive),
        r matches Ok(glob) ==> glob_source(glob) == (pattern@, case_insensitive),
{
    GlobBuilder::new(pattern).case_insensitive(case_insensitive).build()
}

/// `GlobSetBuilder::add` appends the glob to those of the builder.
#[verifier::external_body]
fn add_glob(builder: &mut GlobSetBuilder, glob: Glob)
    ensures
        builder_globs(*final(builder)) == builder_globs(*old(builder)).push(glob_source(glob)),
{
    builder.add(glob);
}

/// `GlobSetBuilder::build` compiles exactly the globs added so far.
pub assume_specification[ GlobSetBuilder::build ](builder: &GlobSetBuilder) -> (r: Result<
    GlobSet,
    globset::Error,
>)
    ensures
        r is Ok <==> globs_accepted(builder_globs(*builder)),
        r matches Ok(set) ==> set_globs(set) == builder_globs(*builder),
;

/// `GlobSet::is_match` tells whether any glob of the set matches the text.
#[verifier::external_body]
fn globset_is_match(set: &GlobSet, text: &str) -> (r: bool)
    ensures
        r == (exists|i: int|
            0 <= i && i < set_globs(*set).len() && glob_matches(
                (#[trigger] set_globs(*set)[i]).0,
                set_globs(*set)[i].1,
                text@,
            )),
{
    set.is_match(text)
}

/// Some glob of the list matches the text.
pub open spec fn any_glob_matches(globs: Seq<(Seq<char>, bool)>, text: Seq<char>) -> bool {
    exists|i: int|
        0 <= i < globs.len() && glob_matches((#[trigger] globs[i]).0, globs[i].1, text)
}

// ---------------------------------------------------------------------------
// The regex crate
// ---------------------------------------------------------------------------

/// A compiled regular expression.
#[verifier::external_type_specification]
#[verifier::external_body]
pub struct ExRegex(Regex);

/// A compiled set of regular expressions.
#[verifier::external_type_specification]
#[verifier::external_body]
pub struct ExRegexSet(RegexSet);

/// The text that a regular expression was compiled from.
pub uninterp spec fn regex_source(regex: Regex) -> Seq<char>;

/// The texts that a set of regular expressions was compiled from.
pub uninterp spec fn regexset_sources(set: RegexSet) -> Seq<Seq<char>>;

/// What `Regex::new` says against the text, `None` where it accepts it.
pub uninterp spec fn regex_error(pattern: Seq<char>) -> Option<Seq<char>>;

/// What `RegexSet::new` says against the texts, `None` where it accepts them.
pub uninterp spec fn regexset_error(patterns: Seq<Seq<char>>) -> Option<Seq<char>>;

/// Whether a regular expression, as compiled by `regex`, matches somewhere in the text.
pub uninterp spec fn regex_matches(pattern: Seq<char>, text: Seq<char>) -> bool;

/// `Regex::new` compiles the text, or says in its error's words what is wrong with it.
#[verifier::external_body]
pub(crate) fn regex_new(pattern: &str) -> (r: Result<Regex, String>)
    ensures
        match r {
            Ok(regex) => regex_error(pattern@) is None && regex_source(regex) == pattern@,
            Err(message) => regex_error(pattern@) == Some(message@),
        },
{
    match Regex::new(pattern) {
        Ok(regex) => Ok(regex),
        Err(e) => Err(e.to_string()),
    }
}

/// `Regex::is_match` tells whether the expression matches somewhere in the text.
#[verifier::external_body]
pub(crate) fn regex_is_match(regex: &Regex, text: &str) -> (r: bool)
    ensures
        r == regex_matches(regex_source(*regex), text@),
{
    regex.is_match(text)
}

/// `RegexSet::new` compiles the texts, or says in its error's words what is
/// wrong with them.
#[verifier::external_body]
fn regexset_new(patterns: &Vec<String>) -> (r: Result<RegexSet, String>)
    ensures
        match r {
            Ok(set) => regexset_error(texts(patterns@)) is None && regexset_sources(set) == texts(
                patterns@,
            ),
            Err(message) => regexset_error(texts(patterns@)) == Some(message@),
        },
{
    match RegexSet::new(patterns) {
        Ok(set) => Ok(set),
        Err(e) => Err(e.to_string()),
    }
}

/// `RegexSet::is_match` tells whether any expression of the set matches
/// somewhere in the text.
#[verifier::external_body]
fn regexset_is_match(set: &RegexSet, text: &str) -> (r: bool)
    ensures
        r == (exists|i: int|
            0 <= i && i < regexset_sources(*set).len() && regex_matches(
                #[trigger] regexset_sources(*set)[i],
                text@,
            )),
{
    set.is_match(text)
}

/// Some regular expression of the list matches somewhere in the text.
pub open spec fn any_regex_matches(patterns: Seq<Seq<char>>, text: Seq<char>) -> bool {
    exists|i: int| 0 <= i < patterns.len() && regex_matches(#[trigger] patterns[i], text)
}

// ---------------------------------------------------------------------------
// Pattern sets
// ---------------------------------------------------------------------------

/// The texts of a list of strings.
pub open spec fn texts(list: Seq<String>) -> Seq<Seq<char>> {
    Seq::new(list.len(), |i: int| list[i]@)
}

/// The globs of a pattern set, each under the set's case setting.
pub open spec fn globs_of(raw: PatternSetSerde) -> Seq<(Seq<char>, bool)> {
    Seq::new(raw.globs@.len(), |i: int| (raw.globs@[i]@, raw.case_insensitive))
}

/// A regular expression as it is compiled under a case setting.
pub open spec fn cased_regex(regex: Seq<char>, case_insensitive: bool) -> Seq<char> {
    if case_insensitive {
        "(?i:"@ + regex + ")"@
    } else {
        regex
    }
}

/// The regular expressions of a pattern set as they are compiled.
pub open spec fn regexes_of(raw: PatternSetSerde) -> Seq<Seq<char>> {
    Seq::new(
        raw.regexes@.len(),
        |i: int| cased_regex(raw.regexes@[i]@, raw.case_insensitive),
    )
}

/// The first glob at or after `from` that is not accepted.
pub open spec fn first_bad_glob(globs: Seq<(Seq<char>, bool)>, from: int) -> Option<Seq<char>>
    decreases globs.len() - from,
{
    if from < 0 || from >= globs.len() {
        None
    } else if !glob_accepted(globs[from].0, globs[from].1) {
        Some(globs[from].0)
    } else {
        first_bad_glob(globs, from + 1)
    }
}

/// Why a pattern set does not compile: its first glob that is not accepted,
/// then the globs together, then the regular expressions together.
pub open spec fn pattern_error(raw: PatternSetSerde) -> Option<ErrorModel> {
    if first_bad_glob(globs_of(raw), 0) is Some {
        Some(ErrorModel::InvalidGlob(first_bad_glob(globs_of(raw), 0)->0))
    } else if raw.globs@.len() > 0 && !globs_accepted(globs_of(raw)) {
        Some(ErrorModel::InvalidGlob("<globset>"@))
    } else if raw.regexes@.len() > 0 && regexset_error(regexes_of(raw)) is Some {
        Some(ErrorModel::InvalidRegex(regexset_error(regexes_of(raw))->0))
    } else {
        None
    }
}

/// Some pattern of the set matches the text.
pub open spec fn pattern_hit(raw: PatternSetSerde, text: Seq<char>) -> bool {
    any_glob_matches(globs_of(raw), text) || any_regex_matches(regexes_of(raw), text)
}

/// A compiled set of glob and regex patterns, ready for fast matching.
#[derive(Debug, Clone)]
pub struct CompiledPatternSet {
    pub raw: PatternSetSerde,
    globset: Option<GlobSet>,
    regexset: Option<RegexSet>,
}

/// A pattern set without patterns compiles and matches nothing.
pub proof fn lemma_no_patterns(raw: PatternSetSerde, text: Seq<char>)
    requires
        raw.globs@.len() == 0,
        raw.regexes@.len() == 0,
    ensures
        pattern_error(raw) is None,
        !pattern_hit(raw, text),
{
}

/// A match against any single pattern of the set is sufficient.
pub proof fn lemma_one_pattern_suffices(raw: PatternSetSerde, i: int, text: Seq<char>)
    ensures
        0 <= i < raw.globs@.len() && glob_matches(raw.globs@[i]@, raw.case_insensitive, text)
            ==> pattern_hit(raw, text),
        0 <= i < raw.regexes@.len() && regex_matches(
            cased_regex(raw.regexes@[i]@, raw.case_insensitive),
            text,
        ) ==> pattern_hit(raw, text),
{
    if 0 <= i < raw.globs@.len() {
        assert(globs_of(raw)[i] == (raw.globs@[i]@, raw.case_insensitive));
    }
    if 0 <= i < raw.regexes@.len() {
        assert(regexes_of(raw)[i] == cased_regex(raw.regexes@[i]@, raw.case_insensitive));
    }
}

/// A regular expression as it is compiled under a case setting: wrapped in
/// `(?i:...)` where case is ignored.
pub fn regex_with_case(regex: &str, case_insensitive: bool) -> (r: String)
    ensures
        r@ == cased_regex(regex@, case_insensitive),
{
    if case_insensitive {
        "(?i:".to_owned().concat(regex).concat(")")
    } else {
        regex.to_owned()
    }
}

impl CompiledPatternSet {
    /// Some compiled pattern matches the text.
    pub closed spec fn matches(&self, text: Seq<char>) -> bool {
        ||| self.globset matches Some(set) && any_glob_matches(set_globs(set), text)
        ||| self.regexset matches Some(set) && any_regex_matches(regexset_sources(set), text)
    }

    /// The patterns as they were configured.
    pub closed spec fn source(&self) -> PatternSetSerde {
        self.raw
    }

    /// No patterns are configured.
    pub open spec fn no_patterns(&self) -> bool {
        self.source().globs@.len() == 0 && self.source().regexes@.len() == 0
    }

    /// This is what compiling `raw` gives.
    pub open spec fn compiled_from(&self, raw: PatternSetSerde) -> bool {
        &&& self.source() == raw
        &&& forall|text: Seq<char>| #[trigger] self.matches(text) == pattern_hit(raw, text)
    }

    /// Compile a `PatternSetSerde` into a ready-to-match pattern set.
    pub fn compile(raw: PatternSetSerde) -> (r: Result<Self, FilterConfigError>)
        ensures
            match r {
                Ok(set) => pattern_error(raw) is None && set.compiled_from(raw),
                Err(e) => pattern_error(raw) == Some(e@),
            },
    {
        let globset = if raw.globs.len() == 0 {
            None
        } else {
            let mut builder = GlobSetBuilder::new();
            let mut i: usize = 0;
            while i < raw.globs.len()
                invariant
                    i <= raw.globs.len(),
                    builder_globs(builder) == globs_of(raw).take(i as int),
                    first_bad_glob(globs_of(raw), 0) == first_bad_glob(globs_of(raw), i as int),
                decreases raw.globs.len() - i,
            {
                match parse_glob(raw.globs[i].as_str(), raw.case_insensitive) {
                    Ok(glob) => add_glob(&mut builder, glob),
                    Err(_) => {
                        return Err(FilterConfigError::InvalidGlob(raw.globs[i].clone()));
                    },
                }
                assert(globs_of(raw).take(i as int).push(globs_of(raw)[i as int]) =~= globs_of(
                    raw,
                ).take(i + 1));
                i += 1;
            }
            assert(globs_of(raw).take(i as int) =~= globs_of(raw));
            match builder.build() {
                Ok(set) => Some(set),
                Err(_) => {
                    return Err(FilterConfigError::InvalidGlob("<globset>".to_owned()));
                },
            }
        };
        let regexset = if raw.regexes.len() == 0 {
            None
        } else {
            let mut patterns: Vec<String> = Vec::new();
            let mut i: usize = 0;
            while i < raw.regexes.len()
                invariant
                    i <= raw.regexes.len(),
                    patterns@.len() == i,
                    forall|k: int|
                        0 <= k < i ==> (#[trigger] patterns@[k])@ == regexes_of(raw)[k],
                decreases raw.regexes.len() - i,
            {
                patterns.push(regex_with_case(raw.regexes[i].as_str(), raw.case_insensitive));
                i += 1;
            }
            assert(texts(patterns@) =~= regexes_of(raw));
            match regexset_new(&patterns) {
                Ok(set) => Some(set),
                Err(message) => {
                    return Err(FilterConfigError::InvalidRegex(message));
                },
            }
        };
        Ok(CompiledPatternSet { raw, globset, regexset })
    }

    /// Returns true if ANY pattern matches the input string.
    /// Returns false if there are no patterns.
    pub fn is_match(&self, s: &str) -> (r: bool)
        ensures
            r == self.matches(s@),
    {
        if let Some(set) = &self.globset {
            if globset_is_match(set, s) {
                return true;
            }
        }
        if let Some(set) = &self.regexset {
            if regexset_is_match(set, s) {
                return true;
            }
        }
        false
    }

    /// Returns true if no patterns are configured.
    pub fn is_empty(&self) -> (r: bool)
        ensures
            r == self.no_patterns(),
    {
        self.raw.globs.len() == 0 && self.raw.regexes.len() == 0
    }
}

} // verus!
