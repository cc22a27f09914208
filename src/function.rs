use crate::opcodes::Instruction;
use vstd::prelude::*;

verus! {

/// The identities embedded as constants in an instruction sequence, in order.
pub open spec fn code_children(code: Seq<Instruction>) -> Seq<usize>
    decreases code.len(),
{
    if code.len() == 0 {
        Seq::empty()
    } else {
        let rest = code_children(code.drop_last());
        match code.last() {
            Instruction::LoadConst(_, id) => rest.push(id),
            _ => rest,
        }
    }
}

/// A compiled function: an instruction sequence and the number of arguments it takes.
pub struct Function {
    pub code: Vec<Instruction>,
    pub arity: usize,
}

impl Function {
    pub fn from_instructions(code: Vec<Instruction>, arity: usize) -> (r: Function)
        ensures
            r.code@ == code@,
            r.arity == arity,
    {
        Function { code, arity }
    }

    /// The object identities this function's code refers to, so that the collector
    /// traces through code as through data.
    pub fn get_children(&self) -> (r: Vec<usize>)
        ensures
            r@ == code_children(self.code@),
    {
        let mut out: Vec<usize> = Vec::new();
        let mut i: usize = 0;
        while i < self.code.len()
            invariant
                i <= self.code@.len(),
                out@ == code_children(self.code@.take(i as int)),
            decreases self.code@.len() - i,
        {
            proof {
                assert(self.code@.take(i as int + 1).drop_last() =~= self.code@.take(i as int));
            }
            match self.code[i] {
                Instruction::LoadConst(_, id) => out.push(id),
                _ => {},
            }
            i = i + 1;
        }
        proof {
            assert(self.code@.take(i as int) =~= self.code@);
        }
        out
    }
}

} // verus!
