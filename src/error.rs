use vstd::prelude::*;

verus! {

/// The recoverable failures of the interpreter, reported to the caller of `invoke`.
#[derive(Clone, Copy, Debug, PartialEq, Eq, Structural)]
pub enum VmError {
    /// The invoked value is not a reference to a live function object.
    InvalidCallable,
    /// The argument count differs from the function's declared arity.
    ArityMismatch,
    /// An instruction received an operand of the wrong kind.
    TypeMismatch,
    /// A member lookup found nothing.
    UnresolvedMember,
    /// The frame-stack depth limit was reached.
    StackOverflow,
    /// An integer addition left the range of `i64`.
    Overflow,
    /// A call names argument registers past the end of the register file.
    InvalidRegister,
    /// Execution ran past the last instruction without a return.
    MissingReturn,
}

} // verus!
