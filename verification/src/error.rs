//! The error taxonomy: every way an assembly run can fail, short of I/O.
//!
//! Each variant carries the offending token so a driver can report it.
//! Every failure is fatal to the run: no stage recovers from an error.

use vstd::prelude::*;

verus! {

/// A fatal assembly error.
#[derive(Debug)]
pub enum AsmError {
    /// An unrecognized instruction mnemonic.
    UnknownInstruction(String),
    /// An unrecognized register name.
    UnknownRegister(String),
    /// An unrecognized directive keyword.
    UnknownDirective(String),
    /// A malformed or out-of-range numeric literal.
    BadNumber(String),
    /// Fewer operand tokens than the shape of the statement needs.
    MissingOperand,
    /// An operand that does not match its required `IMM(REG)` shape.
    MalformedOperand(String),
    /// An `asciiz` argument not wrapped in double quotes.
    BadAsciiz(String),
    /// A jump to a label that no line defines.
    UndefinedLabel(String),
}

/// Ghost view of an [`AsmError`].
pub enum ErrView {
    UnknownInstruction(Seq<char>),
    UnknownRegister(Seq<char>),
    UnknownDirective(Seq<char>),
    BadNumber(Seq<char>),
    MissingOperand,
    MalformedOperand(Seq<char>),
    BadAsciiz(Seq<char>),
    UndefinedLabel(Seq<char>),
}

impl View for AsmError {
    type V = ErrView;

    open spec fn view(&self) -> ErrView {
        match self {
            AsmError::UnknownInstruction(s) => ErrView::UnknownInstruction(s@),
            AsmError::UnknownRegister(s) => ErrView::UnknownRegister(s@),
            AsmError::UnknownDirective(s) => ErrView::UnknownDirective(s@),
            AsmError::BadNumber(s) => ErrView::BadNumber(s@),
            AsmError::MissingOperand => ErrView::MissingOperand,
            AsmError::MalformedOperand(s) => ErrView::MalformedOperand(s@),
            AsmError::BadAsciiz(s) => ErrView::BadAsciiz(s@),
            AsmError::UndefinedLabel(s) => ErrView::UndefinedLabel(s@),
        }
    }
}

/// An executable `Result` agrees with its specification-level counterpart:
/// same arm, and the payload's view is the specified value.
pub open spec fn result_view_is<T: View, E: View>(r: Result<T, E>, s: Result<T::V, E::V>) -> bool {
    match r {
        Ok(t) => s matches Ok(v) && t@ == v,
        Err(e) => s matches Err(v) && e@ == v,
    }
}

} // verus!
