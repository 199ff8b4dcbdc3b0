//! Line matching: applying a configuration to a sequence of lines.

use vstd::prelude::*;

use crate::pattern::compiled_selects;
use crate::pattern::compiled_wf;
use crate::pattern::config_selects;
use crate::pattern::config_valid;
use crate::pattern::ConfigError;
use crate::pattern::Configuration;

verus! {

/// One matching line: its 1-indexed row and its text.
pub struct Match {
    pub row: usize,
    pub line: String,
}

/// The mathematical content of a `Match`: row number and line characters.
pub open spec fn match_view(m: Match) -> (int, Seq<char>) {
    (m.row as int, m.line@)
}

/// The matches that a scan of `lines` under `c` must produce: for every line
/// the configuration selects, the pair of its 1-indexed row and its text, in
/// increasing row order.
pub open spec fn expected_matches(lines: Seq<Seq<char>>, c: Configuration) -> Seq<
    (int, Seq<char>),
>
    decreases lines.len(),
{
    if lines.len() == 0 {
        Seq::empty()
    } else {
        let init = expected_matches(lines.drop_last(), c);
        if config_selects(c, lines.last()) {
            init.push((lines.len() as int, lines.last()))
        } else {
            init
        }
    }
}

/// Finds every line of `lines` that the configuration selects, reporting each
/// with its 1-indexed physical row; fails exactly when the configuration's
/// regular expression is invalid.
pub fn find_in_lines(lines: &Vec<String>, configuration: &Configuration) -> (r: Result<
    Vec<Match>,
    ConfigError,
>)
    ensures
        r is Ok <==> config_valid(*configuration),
        r matches Ok(ms) ==> ms@.map_values(|m: Match| match_view(m)) == expected_matches(
            lines@.map_values(|l: String| l@),
            *configuration,
        ),
        r is Err ==> r == Err::<Vec<Match>, ConfigError>(ConfigError::InvalidRegex),
{
    let compiled = match construct_filtering_predicate(configuration) {
        Ok(cp) => cp,
        Err(e) => {
            return Err(e);
        },
    };
    let ghost lseq = lines@.map_values(|l: String| l@);
    let mut ms: Vec<Match> = Vec::new();
    let mut i: usize = 0;
    while i < lines.len()
        invariant
            lseq == lines@.map_values(|l: String| l@),
            i <= lines@.len(),
            compiled_wf(compiled),
            forall|line: Seq<char>| #[trigger] compiled_selects(compiled, line) == config_selects(
                *configuration,
                line,
            ),
            ms@.map_values(|m: Match| match_view(m)) == expected_matches(
                lseq.subrange(0, i as int),
                *configuration,
            ),
        decreases lines@.len() - i,
    {
        let line = &lines[i];
        proof {
            assert(lseq.subrange(0, i + 1).drop_last() =~= lseq.subrange(0, i as int));
            assert(lseq.subrange(0, i + 1).last() == line@);
        }
        if compiled.line_matches(line.as_str()) {
            let m = Match { row: i + 1, line: line.clone() };
            ms.push(m);
            proof {
                assert(ms@.map_values(|m: Match| match_view(m)) =~= expected_matches(
                    lseq.subrange(0, i + 1),
                    *configuration,
                ));
            }
        }
        i = i + 1;
    }
    proof {
        assert(lseq.subrange(0, lseq.len() as int) =~= lseq);
    }
    Ok(ms)
}

/// Compiles the configuration's pattern into its line predicate.
fn construct_filtering_predicate(configuration: &Configuration) -> (r: Result<
    crate::pattern::CompiledPattern,
    ConfigError,
>)
    ensures
        r is Ok <==> config_valid(*configuration),
        r matches Ok(cp) ==> compiled_wf(cp) && forall|line: Seq<char>|
            #[trigger] compiled_selects(cp, line) == config_selects(*configuration, line),
        r is Err ==> r == Err::<crate::pattern::CompiledPattern, ConfigError>(
            ConfigError::InvalidRegex,
        ),
{
    let pattern_clone = configuration.clone_pattern();
    pattern_clone.into_matching_function(configuration.case_insensitive)
}

} // verus!
