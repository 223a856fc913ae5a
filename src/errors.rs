use vstd::prelude::*;

use chrono::ParseError as DateParseError;

use crate::lir::{first_unclassified, LirToken};
use crate::mir::{MirTokenStream, MirTokenView};

verus! {

/// chrono's error for a date that could not be parsed; carried through opaque.
#[verifier::external_type_specification]
#[verifier::external_body]
pub struct ExDateParseError(DateParseError);

/// Relies on chrono's derived `Clone` for its date parse error, which copies the
/// error kind; nothing is claimed of the copy.
pub assume_specification[ <DateParseError as Clone>::clone ](e: &DateParseError) -> DateParseError;

/// A failure of one stage of the pipeline, with the position it concerns.
#[derive(Debug, Clone, PartialEq, Eq)]
pub struct ParseError {
    pub kind: ParseErrorKind,
    pub idx: usize,
}

/// What went wrong.
#[derive(Debug, Clone, PartialEq, Eq)]
pub enum ParseErrorKind {
    /// A date could not be read.
    Date(DateParseError),
    /// A close delimiter that no open one matches, or an open one that is never
    /// closed: the stream built so far, and the delimiter.
    UnbalancedDelim(MirTokenStream, LirToken),
    /// A character with no lexical category.
    UnrecognizedSymbol(char),
    /// A run of digits whose value does not fit its integer type.
    NumericLiteralOverflow,
}

impl ParseError {
    pub fn new(kind: ParseErrorKind, idx: usize) -> (r: Self)
        ensures
            r.kind == kind,
            r.idx == idx,
    {
        ParseError { kind, idx }
    }

    /// This error reports an unbalanced delimiter `t` at `idx`, with the stream `so_far`.
    pub open spec fn is_unbalanced(self, so_far: Seq<MirTokenView>, t: LirToken, idx: nat) -> bool {
        &&& self.idx == idx
        &&& self.kind matches ParseErrorKind::UnbalancedDelim(m, u) && m@ == so_far && u == t
    }

    /// This error reports the first character of `s` that has no category, and its position.
    pub open spec fn is_unrecognized_in(self, s: Seq<char>) -> bool {
        &&& first_unclassified(s, self.idx as int)
        &&& self.kind matches ParseErrorKind::UnrecognizedSymbol(c) && c == s[self.idx as int]
    }
}

} // verus!
