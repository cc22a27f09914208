use vstd::prelude::*;

verus! {

/// One instruction of the register machine. Register operands are indices into the
/// 256-entry register file of the current frame; the destination comes first.
#[derive(Clone, Copy, Debug, PartialEq, Eq, Structural)]
pub enum Instruction {
    /// `dst := literal`
    LoadInt(u8, i64),
    /// `dst := src`
    Move(u8, u8),
    /// `dst := a + b`
    Add(u8, u8, u8),
    /// `dst := reference to the object with the given identity`
    LoadConst(u8, usize),
    /// `dst := next unread argument` (or `Null` once all are read)
    LoadArg(u8),
    /// `dst := member of object(obj) under key(key)`
    LoadAt(u8, u8, u8),
    /// `dst := call of func with the argc registers that follow func`
    Call(u8, u8, u8),
    /// return the value of the register
    Ret(u8),
}

} // verus!
