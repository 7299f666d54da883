//! What every check is: a name, and a verdict on one line at a time.

use crate::common::{outcome, LineEntry, LineEntryView, Warning, WarningView};
use vstd::prelude::*;

pub mod incorrect_delimiter;

verus! {

/// A check looks at one line and raises at most one warning about it. The
/// warning is about that line and carries the name of the check. What a
/// check says of a line depends on the line alone: looking at a line changes
/// nothing in what the check will say of any line.
pub trait Check {
    /// The name by which the check is known.
    spec fn spec_name(&self) -> Seq<char>;

    /// What the check says of a line: a warning, or nothing.
    spec fn finding(&self, line: LineEntryView) -> Option<WarningView>;

    /// Looks at `line`.
    fn run(&mut self, line: &LineEntry) -> (warning: Option<Warning>)
        ensures
            outcome(warning) == old(self).finding(line@),
            warning matches Some(w) ==> w@.line == line@ && w@.check_name == old(self).spec_name(),
            final(self).spec_name() == old(self).spec_name(),
            forall|other: LineEntryView| #[trigger]
                final(self).finding(other) == old(self).finding(other),
    ;

    /// The name by which the check is known.
    fn name(&self) -> (name: &str)
        ensures
            name@ == self.spec_name(),
    ;
}

} // verus!
