use vstd::prelude::*;

use crate::errors::{ParseError, ParseErrorKind};
use crate::lir::{classifiable, lir_tokens_of, LirTokenStream};
use crate::mir::MirTokenStream;
use bidi_delim_strings_visitor::group_outcome;
use int_lit_visitor::{int_pass, reports_int_fault};

pub mod bidi_delim_strings_visitor;
pub mod grouping_laws;
pub mod int_lit_laws;
pub mod int_lit_visitor;

pub use int_lit_visitor::IntLitVisitor;

pub use bidi_delim_strings_visitor::BidiDelimStringsVisitor;


verus! {

/// A pass that raises a low-level stream, which it consumes, into a mid-level one.
pub trait LirRaiseVisitor {
    fn visit(&self, tokens: LirTokenStream) -> Result<MirTokenStream, ParseError>;
}

/// A pass that rewrites a mid-level stream in place.
pub trait MirOptVisitor {
    fn visit(&self, tokens: &mut MirTokenStream) -> Result<(), ParseError>;
}

/// Runs the pipeline on `text`: classification, then grouping, then the number
/// pass. A character with no category stops it before any pass runs.
pub fn raise_text(text: &str) -> (r: Result<MirTokenStream, ParseError>)
    ensures
        !classifiable(text@) ==> r is Err && r->Err_0.is_unrecognized_in(text@),
        classifiable(text@) ==> match group_outcome(lir_tokens_of(text@)) {
            Err((so_far, t, i)) => r is Err && r->Err_0.is_unbalanced(so_far, t, i),
            Ok(v) => match int_pass(v) {
                Ok(w) => r is Ok && r->Ok_0@ == w,
                Err((i, f)) => r is Err && reports_int_fault(r->Err_0, v, i, f),
            },
        },
{
    let lir = match LirTokenStream::try_new(text) {
        Ok(lir) => lir,
        Err((idx, c)) => {
            return Err(ParseError::new(ParseErrorKind::UnrecognizedSymbol(c), idx));
        },
    };
    let mut mir = BidiDelimStringsVisitor.visit(lir)?;
    IntLitVisitor.visit(&mut mir)?;
    Ok(mir)
}

} // verus!
