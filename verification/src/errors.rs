//! Typed failures of class extraction.  An error identifies the shape it
//! refused by its kind tag; extraction of one class stops at the first such
//! failure, and sibling classes are unaffected.
use vstd::prelude::*;

use crate::ast::ExprKind;

verus! {

/// Why one class could not be extracted.
#[derive(Debug, Clone, Copy, PartialEq, Eq, Structural)]
pub enum ParseError {
    /// The source text could not be parsed into a syntax tree at all
    /// (raised by callers that own the parsing step, never by extraction).
    AstParse,
    /// An expression could not be read where a name or printable shape was
    /// required.
    ExprParse(ExprKind),
    /// A plain assignment whose target is not a single simple name.
    StmtAssignParse,
    /// An annotated assignment whose target is not a simple name.
    StmtAnnAssignParse,
    /// A class whose name could not be read.
    ClassNameParse,
    /// A statement shape that extraction does not recognise.
    UnexpectedStmtType,
    /// An expression shape that no printer handles.
    UnexpectedExprType(ExprKind),
}

/// A failure of the surrounding tool rather than of one class; kept as the
/// callers' catch-all error value.
#[derive(Debug, Clone, Copy, PartialEq, Eq, Structural)]
pub struct CliError;

impl CliError {
    /// A short human-readable description.
    pub fn message(&self) -> (r: &'static str)
        ensures
            r@ == "diagram generation failed"@,
    {
        "diagram generation failed"
    }
}

} // verus!
