use vstd::prelude::*;

verus! {

/// Why a batch of circuit instances could not be proved.
#[derive(Clone, Copy, Debug, PartialEq, Eq, Structural)]
pub enum SynthesisError {
    /// A circuit did not supply the value of a variable.
    AssignmentMissing,
    /// A constraint names a variable that was never allocated, or holds an
    /// unreduced coefficient.
    MalformedCircuit,
    /// The circuits of one batch differ in their number of constraints or
    /// of inputs, or the batch is empty.
    SizeMismatch,
    /// The verifying key's delta is the point at infinity: a subverted setup.
    UnexpectedIdentity,
    /// The evaluation domain would exceed the largest that the field supports.
    PolynomialDegreeTooLarge,
    /// A circuit instance has no constraint, so there is no quotient.
    EmptyConstraintSystem,
    /// The proving key does not hold the points that the circuit needs.
    MalformedParameters,
}

} // verus!
