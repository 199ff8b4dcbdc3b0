//! Patterns, run configuration, and the compiled line predicate.

use vstd::prelude::*;

use crate::text::contains_chars;
use crate::text::contains_substr;
use crate::text::lower_of;
use crate::text::str_to_chars;
use crate::text::to_lowercase;

verus! {

/// A matching rule: plain text looked up as a substring, or the source of a
/// regular expression.
pub enum Pattern {
    Text(String),
    Regex(String),
}

/// Whether `regex::RegexBuilder::build` accepts the pattern `pat` with the
/// case-insensitive flag set to `ci`.
pub uninterp spec fn regex_build_ok(pat: Seq<char>, ci: bool) -> bool;

/// Whether the regular expression `pat`, compiled with the case-insensitive
/// flag `ci`, matches anywhere within `line`.
pub uninterp spec fn regex_match(pat: Seq<char>, ci: bool, line: Seq<char>) -> bool;

/// Relies on regex::RegexBuilder::build (reached through RegexBuilder::new and
/// RegexBuilder::case_insensitive): whether a pattern compiles depends on the
/// pattern text and the flag alone, named here `regex_build_ok`.
#[verifier::external_body]
fn regex_compile_check(pat: &str, ci: bool) -> (r: bool)
    ensures
        r == regex_build_ok(pat@, ci),
{
    let mut builder = regex::RegexBuilder::new(pat);
    builder.case_insensitive(ci);
    builder.build().is_ok()
}

/// Relies on regex::Regex::is_match: true iff the compiled expression finds a
/// match anywhere in the line, a function of pattern, flag and line alone,
/// named here `regex_match`. The expression is built with
/// regex::RegexBuilder::build, as in `regex_compile_check`.
#[verifier::external_body]
fn regex_line_match(pat: &str, ci: bool, line: &str) -> (r: bool)
    requires
        regex_build_ok(pat@, ci),
    ensures
        r == regex_match(pat@, ci, line@),
{
    let mut builder = regex::RegexBuilder::new(pat);
    builder.case_insensitive(ci);
    match builder.build() {
        Ok(re) => re.is_match(line),
        Err(_) => false,
    }
}

/// What a pattern selects: the lines for which the compiled predicate is true,
/// under the case-sensitivity flag `ci`.
pub open spec fn pattern_selects(p: Pattern, ci: bool, line: Seq<char>) -> bool {
    match p {
        Pattern::Text(t) => if ci {
            contains_substr(lower_of(line), lower_of(t@))
        } else {
            contains_substr(line, t@)
        },
        Pattern::Regex(src) => regex_match(src@, ci, line),
    }
}

/// A pattern is valid under `ci` when it can be compiled at all: literal text
/// always, a regular expression only when its source is accepted.
pub open spec fn pattern_valid(p: Pattern, ci: bool) -> bool {
    match p {
        Pattern::Text(_) => true,
        Pattern::Regex(src) => regex_build_ok(src@, ci),
    }
}

impl Clone for Pattern {
    fn clone(&self) -> (r: Self)
        ensures
            r == *self,
    {
        match self {
            Pattern::Text(t) => Pattern::Text(t.clone()),
            Pattern::Regex(src) => Pattern::Regex(src.clone()),
        }
    }
}

impl Default for Pattern {
    /// The default pattern is the empty literal, which selects every line.
    fn default() -> (r: Self)
        ensures
            r matches Pattern::Text(t) && t@ == Seq::<char>::empty(),
    {
        Pattern::Text(String::new())
    }
}

impl Pattern {
    /// A literal pattern holding the given text.
    pub fn text_from_string(string: &str) -> (r: Self)
        ensures
            r matches Pattern::Text(t) && t@ == string@,
    {
        Pattern::Text(string.to_owned())
    }

    /// A regular-expression pattern holding the given source.
    pub fn regex_from_string(string: &str) -> (r: Self)
        ensures
            r matches Pattern::Regex(src) && src@ == string@,
    {
        Pattern::Regex(string.to_owned())
    }

    /// Compiles the pattern into a line predicate, or reports the fatal
    /// configuration error of an invalid regular expression.
    pub fn into_matching_function(self, case_insensitive: bool) -> (r: Result<
        CompiledPattern,
        ConfigError,
    >)
        ensures
            r is Ok <==> pattern_valid(self, case_insensitive),
            r matches Ok(cp) ==> compiled_wf(cp) && forall|line: Seq<char>|
                #[trigger] compiled_selects(cp, line) == pattern_selects(
                    self,
                    case_insensitive,
                    line,
                ),
            r is Err ==> r == Err::<CompiledPattern, ConfigError>(ConfigError::InvalidRegex),
    {
        match self {
            Pattern::Text(t) => {
                if case_insensitive {
                    let folded = to_lowercase(t.as_str());
                    Ok(CompiledPattern::SubstringFolded { folded: str_to_chars(folded.as_str()) })
                } else {
                    Ok(CompiledPattern::Substring { text: str_to_chars(t.as_str()) })
                }
            },
            Pattern::Regex(src) => {
                if regex_compile_check(src.as_str(), case_insensitive) {
                    Ok(CompiledPattern::Searcher { source: src, case_insensitive })
                } else {
                    Err(ConfigError::InvalidRegex)
                }
            },
        }
    }
}

/// Builds the pattern that the command line asked for: the pattern text,
/// read as a regular expression when `is_regex` is set and as literal text
/// otherwise.
pub fn make_fif_pattern(pattern: &str, is_regex: bool) -> (r: Pattern)
    ensures
        is_regex ==> (r matches Pattern::Regex(src) && src@ == pattern@),
        !is_regex ==> (r matches Pattern::Text(t) && t@ == pattern@),
{
    if is_regex {
        Pattern::regex_from_string(pattern)
    } else {
        Pattern::text_from_string(pattern)
    }
}

/// The full set of user-supplied matching options for one run.
pub struct Configuration {
    pub case_insensitive: bool,
    pub pattern: Pattern,
}

/// What a configuration selects.
pub open spec fn config_selects(c: Configuration, line: Seq<char>) -> bool {
    pattern_selects(c.pattern, c.case_insensitive, line)
}

/// A configuration is valid when its pattern compiles.
pub open spec fn config_valid(c: Configuration) -> bool {
    pattern_valid(c.pattern, c.case_insensitive)
}

impl Clone for Configuration {
    fn clone(&self) -> (r: Self)
        ensures
            r == *self,
    {
        Configuration { case_insensitive: self.case_insensitive, pattern: self.pattern.clone() }
    }
}

impl Default for Configuration {
    /// The default configuration: case-sensitive matching of the empty literal.
    fn default() -> (r: Self)
        ensures
            !r.case_insensitive,
            r.pattern matches Pattern::Text(t) && t@ == Seq::<char>::empty(),
    {
        Configuration { case_insensitive: false, pattern: Pattern::default() }
    }
}

impl Configuration {
    /// A case-sensitive literal configuration for the given pattern text.
    pub fn default_from_pattern(pattern: &str) -> (r: Configuration)
        ensures
            !r.case_insensitive,
            r.pattern matches Pattern::Text(t) && t@ == pattern@,
    {
        Configuration { case_insensitive: false, pattern: Pattern::text_from_string(pattern) }
    }

    /// A copy of the configured pattern.
    pub fn clone_pattern(&self) -> (r: Pattern)
        ensures
            r == self.pattern,
    {
        self.pattern.clone()
    }

    /// Checks the configuration up front, before any file is touched: reports
    /// the fatal error exactly when the pattern does not compile.
    pub fn validate(&self) -> (r: Result<(), ConfigError>)
        ensures
            r is Ok <==> config_valid(*self),
            r is Err ==> r == Err::<(), ConfigError>(ConfigError::InvalidRegex),
    {
        match self.clone_pattern().into_matching_function(self.case_insensitive) {
            Ok(_) => Ok(()),
            Err(e) => Err(e),
        }
    }
}

/// A fatal configuration error, detected before the scan starts.
#[derive(PartialEq, Eq, Structural, Clone, Copy, Debug)]
pub enum ConfigError {
    InvalidRegex,
}

impl ConfigError {
    /// A human-readable description of the error.
    pub fn message(&self) -> (r: String)
        ensures
            r@ == "invalid regular expression"@,
    {
        "invalid regular expression".to_owned()
    }
}

/// A compiled line predicate: only immutable state captured from the
/// configuration, safe to consult from any stage.
pub enum CompiledPattern {
    /// Case-sensitive literal lookup.
    Substring { text: Vec<char> },
    /// Case-insensitive literal lookup; `folded` is the lowercase form of the
    /// configured text, and each line is folded before the lookup.
    SubstringFolded { folded: Vec<char> },
    /// Regular-expression search, under the configured case sensitivity.
    Searcher { source: String, case_insensitive: bool },
}

/// What a compiled pattern selects.
pub open spec fn compiled_selects(cp: CompiledPattern, line: Seq<char>) -> bool {
    match cp {
        CompiledPattern::Substring { text } => contains_substr(line, text@),
        CompiledPattern::SubstringFolded { folded } => contains_substr(lower_of(line), folded@),
        CompiledPattern::Searcher { source, case_insensitive } => regex_match(
            source@,
            case_insensitive,
            line,
        ),
    }
}

/// A compiled pattern is well formed when its regular expression, if any,
/// is known to compile.
pub open spec fn compiled_wf(cp: CompiledPattern) -> bool {
    match cp {
        CompiledPattern::Searcher { source, case_insensitive } => regex_build_ok(
            source@,
            case_insensitive,
        ),
        _ => true,
    }
}

impl CompiledPattern {
    /// Applies the predicate to one line.
    pub fn line_matches(&self, line: &str) -> (r: bool)
        requires
            compiled_wf(*self),
        ensures
            r == compiled_selects(*self, line@),
    {
        match self {
            CompiledPattern::Substring { text } => {
                let chars = str_to_chars(line);
                contains_chars(&chars, text)
            },
            CompiledPattern::SubstringFolded { folded } => {
                let low = to_lowercase(line);
                let chars = str_to_chars(low.as_str());
                contains_chars(&chars, folded)
            },
            CompiledPattern::Searcher { source, case_insensitive } => {
                regex_line_match(source.as_str(), *case_insensitive, line)
            },
        }
    }
}

} // verus!
