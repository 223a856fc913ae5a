mod errors;
pub mod hir;
pub mod lir;
pub mod mir;
mod symbol;
mod text;
pub mod visitors;

pub use errors::{ParseError, ParseErrorKind};
pub use hir::{Citation, CitationDate, Individual, IndividualKind, Location, Page, SequencedNumber};
pub use lir::{LirToken, LirTokenStream};
pub use mir::{MirToken, MirTokenStream};
pub use symbol::SymbolKind;
pub use visitors::{raise_text, BidiDelimStringsVisitor, IntLitVisitor, LirRaiseVisitor, MirOptVisitor};
