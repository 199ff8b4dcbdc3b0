//! A line-oriented text search library: compile a pattern — literal text or
//! a regular expression, case-sensitive or not — into a line predicate, match
//! the lines of each file against it, and account for the results. The
//! decision cores of the scan pipeline live here with proved contracts: the
//! walker's work-list, the per-file matcher, and the result accumulation.
//! The surrounding process — filesystem reads, queues, output — stays with
//! the caller.

pub mod laws;
pub mod matching;
pub mod pattern;
pub mod results;
pub mod text;
pub mod walker;

use vstd::prelude::*;

verus! {

pub use crate::matching::find_in_lines;
pub use crate::matching::Match;
pub use crate::pattern::CompiledPattern;
pub use crate::pattern::ConfigError;
pub use crate::pattern::make_fif_pattern;
pub use crate::pattern::Configuration;
pub use crate::pattern::Pattern;
pub use crate::results::collect_results;
pub use crate::results::ResultSet;
pub use crate::walker::EntryInfo;
pub use crate::walker::Walker;

} // verus!
