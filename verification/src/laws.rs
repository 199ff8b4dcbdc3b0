//! The laws of the scan, stated and proved over the specification functions
//! that the executable contracts use.

use vstd::prelude::*;

use crate::matching::expected_matches;
use crate::pattern::config_selects;
use crate::pattern::regex_match;
use crate::pattern::Configuration;
use crate::pattern::Pattern;
use crate::text::contains_substr;
use crate::text::lower_of;

verus! {

/// Law: every reported match carries a 1-indexed row that names its physical
/// line, its text is that line, the line is one the configuration selects,
/// and rows come in strictly increasing order with no renumbering.
pub proof fn lemma_rows_index_physical_lines(lines: Seq<Seq<char>>, c: Configuration)
    ensures
        forall|j: int| 0 <= j < expected_matches(lines, c).len() ==> 1 <= (
        #[trigger] expected_matches(lines, c)[j]).0 <= lines.len(),
        forall|j: int| 0 <= j < expected_matches(lines, c).len() ==> (
        #[trigger] expected_matches(lines, c)[j]).1 == lines[expected_matches(lines, c)[j].0 - 1],
        forall|j: int| 0 <= j < expected_matches(lines, c).len() ==> config_selects(
            c,
            (#[trigger] expected_matches(lines, c)[j]).1,
        ),
        forall|j: int, k: int| 0 <= j < k < expected_matches(lines, c).len() ==> (
        #[trigger] expected_matches(lines, c)[j]).0 < (#[trigger] expected_matches(lines, c)[k]).0,
    decreases lines.len(),
{
    if lines.len() == 0 {
    } else {
        lemma_rows_index_physical_lines(lines.drop_last(), c);
        let init = expected_matches(lines.drop_last(), c);
        let e = expected_matches(lines, c);
        assert forall|j: int| 0 <= j < e.len() implies 1 <= (#[trigger] e[j]).0 <= lines.len()
            && e[j].1 == lines[e[j].0 - 1] && config_selects(c, e[j].1) by {
            if j < init.len() {
                assert(e[j] == init[j]);
                assert(lines.drop_last()[init[j].0 - 1] == lines[init[j].0 - 1]);
            } else {
                assert(e[j] == (lines.len() as int, lines.last()));
            }
        }
    }
}

/// Law: a line appears among the matches, under its own 1-indexed row, if and
/// only if the configuration selects it.
pub proof fn lemma_line_appears_iff(lines: Seq<Seq<char>>, c: Configuration, i: int)
    requires
        0 <= i < lines.len(),
    ensures
        config_selects(c, lines[i]) <==> exists|j: int|
            0 <= j < expected_matches(lines, c).len() && #[trigger] expected_matches(lines, c)[j]
                == (i + 1, lines[i]),
    decreases lines.len(),
{
    let e = expected_matches(lines, c);
    let init = expected_matches(lines.drop_last(), c);
    lemma_rows_index_physical_lines(lines.drop_last(), c);
    if i == lines.len() - 1 {
        if config_selects(c, lines[i]) {
            assert(lines.last() == lines[i]);
            assert(e[e.len() - 1] == (i + 1, lines[i]));
        } else {
            assert(e == init);
            assert forall|j: int| 0 <= j < e.len() implies #[trigger] e[j] != (i + 1, lines[i]) by {
                assert(e[j].0 <= lines.drop_last().len());
            }
        }
    } else {
        lemma_line_appears_iff(lines.drop_last(), c, i);
        assert(lines.drop_last()[i] == lines[i]);
        if config_selects(c, lines[i]) {
            let j = choose|j: int|
                0 <= j < init.len() && #[trigger] init[j] == (i + 1, lines.drop_last()[i]);
            assert(e[j] == (i + 1, lines[i]));
        } else {
            assert forall|j: int| 0 <= j < e.len() implies #[trigger] e[j] != (i + 1, lines[i]) by {
                if j < init.len() {
                    assert(init[j] == e[j]);
                } else {
                    assert(e[j].0 == lines.len() as int);
                }
            }
        }
    }
}

/// Law: with a case-sensitive literal pattern, a line appears among the
/// matches if and only if the pattern text is a contiguous substring of it.
pub proof fn lemma_literal_case_sensitive(
    lines: Seq<Seq<char>>,
    c: Configuration,
    pat: Seq<char>,
    i: int,
)
    requires
        0 <= i < lines.len(),
        !c.case_insensitive,
        c.pattern matches Pattern::Text(t) && t@ == pat,
    ensures
        contains_substr(lines[i], pat) <==> exists|j: int|
            0 <= j < expected_matches(lines, c).len() && #[trigger] expected_matches(lines, c)[j]
                == (i + 1, lines[i]),
{
    lemma_line_appears_iff(lines, c, i);
}

/// Law: with a case-insensitive literal pattern, a line appears among the
/// matches if and only if its lowercase form contains the lowercase form of
/// the pattern text.
pub proof fn lemma_literal_case_insensitive(
    lines: Seq<Seq<char>>,
    c: Configuration,
    pat: Seq<char>,
    i: int,
)
    requires
        0 <= i < lines.len(),
        c.case_insensitive,
        c.pattern matches Pattern::Text(t) && t@ == pat,
    ensures
        contains_substr(lower_of(lines[i]), lower_of(pat)) <==> exists|j: int|
            0 <= j < expected_matches(lines, c).len() && #[trigger] expected_matches(lines, c)[j]
                == (i + 1, lines[i]),
{
    lemma_line_appears_iff(lines, c, i);
}

/// Law: with a regular-expression pattern, a line appears among the matches
/// if and only if the compiled expression finds a match anywhere in it, under
/// the configured case sensitivity.
pub proof fn lemma_regex_selects(lines: Seq<Seq<char>>, c: Configuration, src: Seq<char>, i: int)
    requires
        0 <= i < lines.len(),
        c.pattern matches Pattern::Regex(s) && s@ == src,
    ensures
        regex_match(src, c.case_insensitive, lines[i]) <==> exists|j: int|
            0 <= j < expected_matches(lines, c).len() && #[trigger] expected_matches(lines, c)[j]
                == (i + 1, lines[i]),
{
    lemma_line_appears_iff(lines, c, i);
}

} // verus!
