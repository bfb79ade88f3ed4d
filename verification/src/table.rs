//! Lines of text for printing descriptors while debugging.

use vstd::prelude::*;
use vstd::string::StringExecFns;

verus! {

/// Collects the rows of a table in a list of lines that the caller owns.
pub struct Table<'a> {
    pub output: &'a mut Vec<String>,
}

/// The text of one row: two spaces for each level of `indent`, the label, a
/// colon and a space, the value.
pub open spec fn row_text(indent: nat, label: Seq<char>, value: Seq<char>) -> Seq<char> {
    Seq::new(2 * indent, |i: int| ' ') + label + seq![':', ' '] + value
}

impl<'a> Table<'a> {
    /// A table that appends its rows to `output`.
    pub fn new(output: &'a mut Vec<String>) -> (table: Self)
        ensures
            *table.output == *old(output),
            *final(table.output) == *final(output),
    {
        Table { output }
    }

    /// Appends one row to the output.
    pub fn row(&mut self, indent: usize, label: &str, value: &str)
        ensures
            final(self).output.deep_view() == old(self).output.deep_view().push(
                row_text(indent as nat, label@, value@),
            ),
            *final(final(self).output) == *final(old(self).output),
    {
        let mut line = String::new();
        proof {
            reveal_strlit("  ");
            reveal_strlit(": ");
        }
        for level in 0..indent
            invariant
                "  "@ == seq![' ', ' '],
                line@ == Seq::new(2 * level as nat, |i: int| ' '),
        {
            line.append("  ");
            assert(line@ =~= Seq::new(2 * (level + 1) as nat, |i: int| ' '));
        }
        line.append(label);
        line.append(": ");
        line.append(value);
        assert(line@ =~= row_text(indent as nat, label@, value@));
        self.output.push(line);
        assert(self.output.deep_view() =~= old(self).output.deep_view().push(
            row_text(indent as nat, label@, value@),
        ));
    }
}

} // verus!
