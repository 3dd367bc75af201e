use vstd::prelude::*;

verus! {

/// Layout of the registers that a lane holds for one matrix operand.
#[derive(Clone, Copy, Debug, PartialEq, Eq, Structural)]
pub enum MatrixLayout {
    ColMajor,
    RowMajor,
    Undefined,
}

/// Role of a matrix in `D = A * B + C`.
#[derive(Clone, Copy, Debug, PartialEq, Eq, Structural)]
pub enum MatrixIdent {
    A,
    B,
    Accumulator,
}

} // verus!
