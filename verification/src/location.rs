//! Source positions: a line/column pair and a range between two of them.

use crate::decimal::dec_str;
use crate::decimal::decimal_string;
use vstd::prelude::*;
use vstd::string::*;

verus! {

/// A line/column position in the source buffer. Positions the scanner
/// reports are 1-based in both components.
#[derive(Debug, Clone, Copy, PartialEq, Eq, Structural)]
pub struct SourceLocation {
    line: usize,
    col: usize,
}

/// The rendering `<line:L, col:C>` of a source location.
pub open spec fn loc_str(line: nat, col: nat) -> Seq<char> {
    "<line:"@ + dec_str(line) + ", col:"@ + dec_str(col) + ">"@
}

impl SourceLocation {
    /// The line number, for use in specifications.
    pub closed spec fn spec_line(&self) -> usize {
        self.line
    }

    /// The column number, for use in specifications.
    pub closed spec fn spec_col(&self) -> usize {
        self.col
    }

    pub fn new(line: usize, col: usize) -> (r: SourceLocation)
        ensures
            r.spec_line() == line,
            r.spec_col() == col,
    {
        SourceLocation { line, col }
    }

    #[verifier::when_used_as_spec(spec_line)]
    pub fn line(&self) -> (r: usize)
        ensures
            r == self.spec_line(),
    {
        self.line
    }

    #[verifier::when_used_as_spec(spec_col)]
    pub fn col(&self) -> (r: usize)
        ensures
            r == self.spec_col(),
    {
        self.col
    }

    /// Renders the position as `<line:L, col:C>`.
    pub fn to_string(&self) -> (r: String)
        ensures
            r@ == loc_str(self.spec_line() as nat, self.spec_col() as nat),
    {
        let mut s = String::from_str("<line:");
        s.append(decimal_string(self.line).as_str());
        s.append(", col:");
        s.append(decimal_string(self.col).as_str());
        s.append(">");
        s
    }
}

/// A span of source text between two positions.
#[derive(Debug, Clone, Copy, PartialEq, Eq, Structural)]
pub struct SourceRange {
    start: SourceLocation,
    stop: SourceLocation,
}

impl SourceRange {
    /// The start position, for use in specifications.
    pub closed spec fn spec_start(&self) -> SourceLocation {
        self.start
    }

    /// The end position, for use in specifications.
    pub closed spec fn spec_end(&self) -> SourceLocation {
        self.stop
    }

    pub fn new(start: SourceLocation, stop: SourceLocation) -> (r: SourceRange)
        ensures
            r.spec_start() == start,
            r.spec_end() == stop,
    {
        SourceRange { start, stop }
    }

    pub fn get_start(&self) -> (r: &SourceLocation)
        ensures
            *r == self.spec_start(),
    {
        &self.start
    }

    pub fn get_end(&self) -> (r: &SourceLocation)
        ensures
            *r == self.spec_end(),
    {
        &self.stop
    }
}

} // verus!
