//! Errors of a compilation.
use vstd::prelude::*;

verus! {

/// Why a workbook description was refused.
#[derive(Debug, PartialEq, Eq, Structural)]
pub enum ExcelError {
    /// A value in the description has a shape that its place does not allow.
    BadArg,
}

pub type ExcelResult<T> = Result<T, ExcelError>;

} // verus!
