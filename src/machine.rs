use crate::error::VmError;
use crate::function::Function;
use crate::object::{Object, record_lookup};
use crate::object_pool::ObjectPool;
use crate::opcodes::Instruction;
use crate::value::Value;
use vstd::prelude::*;

verus! {

/// The number of registers of each frame; every `u8` names one.
pub const NUM_REGS: usize = 256;

/// The most frames that may be active at once; one more call is a stack overflow.
pub const MAX_DEPTH: usize = 200;

/// The register file of a fresh frame: argument `i` in register `i + 1`, as far as
/// the file reaches, and every other register `Null`.
pub open spec fn frame_regs(args: Seq<Value>) -> Seq<Value> {
    Seq::new(
        NUM_REGS as nat,
        |i: int|
            if 1 <= i <= args.len() {
                args[i - 1]
            } else {
                Value::Null
            },
    )
}

/// The member under the key referenced by `key` of the object referenced by `obj`.
pub open spec fn member_spec(pool: ObjectPool, obj: Value, key: Value) -> Result<Value, VmError> {
    match (obj, key) {
        (Value::Object(o), Value::Object(k)) => if pool.is_live(o) {
            match pool.object_at(o) {
                Object::Record(m) => match record_lookup(m@, k) {
                    Some(v) => Ok(v),
                    None => Err(VmError::UnresolvedMember),
                },
                _ => Err(VmError::UnresolvedMember),
            }
        } else {
            Err(VmError::UnresolvedMember)
        },
        _ => Err(VmError::TypeMismatch),
    }
}

/// `a + b` on integer values; an overflow of `i64` is an error.
pub open spec fn add_spec(a: Value, b: Value) -> Result<Value, VmError> {
    match (a, b) {
        (Value::Int(x), Value::Int(y)) => if i64::MIN <= x + y <= i64::MAX {
            Ok(Value::Int((x + y) as i64))
        } else {
            Err(VmError::Overflow)
        },
        _ => Err(VmError::TypeMismatch),
    }
}

/// The function that `callable` refers to, if it refers to a live function object.
pub open spec fn callee_spec(pool: ObjectPool, callable: Value) -> Option<Function> {
    match callable {
        Value::Object(id) => if pool.is_live(id) {
            match pool.object_at(id) {
                Object::Function(f) => Some(f),
                _ => None,
            }
        } else {
            None
        },
        _ => None,
    }
}

/// The outcome of calling `callable` with `args` when `depth` more frames may be
/// pushed.
pub open spec fn call_spec(pool: ObjectPool, callable: Value, args: Seq<Value>, depth: nat) -> Result<
    Value,
    VmError,
>
    decreases depth, 0int,
{
    match callee_spec(pool, callable) {
        None => Err(VmError::InvalidCallable),
        Some(f) => if args.len() != f.arity {
            Err(VmError::ArityMismatch)
        } else if depth == 0 {
            Err(VmError::StackOverflow)
        } else {
            run_spec(pool, f.code@, frame_regs(args), args, 0, 0, (depth - 1) as nat)
        },
    }
}

/// The outcome of running `code` from instruction `pc` with register file `regs`,
/// arguments `args` of which `cursor` have been read, and `depth` more frames
/// allowed below this one.
pub open spec fn run_spec(
    pool: ObjectPool,
    code: Seq<Instruction>,
    regs: Seq<Value>,
    args: Seq<Value>,
    cursor: nat,
    pc: nat,
    depth: nat,
) -> Result<Value, VmError>
    decreases depth, code.len() - pc + 1,
{
    if pc >= code.len() {
        Err(VmError::MissingReturn)
    } else {
        match code[pc as int] {
            Instruction::LoadInt(d, n) => run_spec(
                pool,
                code,
                regs.update(d as int, Value::Int(n)),
                args,
                cursor,
                pc + 1,
                depth,
            ),
            Instruction::Move(d, s) => run_spec(
                pool,
                code,
                regs.update(d as int, regs[s as int]),
                args,
                cursor,
                pc + 1,
                depth,
            ),
            Instruction::Add(d, a, b) => match add_spec(regs[a as int], regs[b as int]) {
                Ok(v) => run_spec(pool, code, regs.update(d as int, v), args, cursor, pc + 1, depth),
                Err(e) => Err(e),
            },
            Instruction::LoadConst(d, id) => run_spec(
                pool,
                code,
                regs.update(d as int, Value::Object(id)),
                args,
                cursor,
                pc + 1,
                depth,
            ),
            Instruction::LoadArg(d) => if cursor < args.len() {
                run_spec(
                    pool,
                    code,
                    regs.update(d as int, args[cursor as int]),
                    args,
                    cursor + 1,
                    pc + 1,
                    depth,
                )
            } else {
                run_spec(pool, code, regs.update(d as int, Value::Null), args, cursor, pc + 1, depth)
            },
            Instruction::LoadAt(d, o, k) => match member_spec(pool, regs[o as int], regs[k as int]) {
                Ok(v) => run_spec(pool, code, regs.update(d as int, v), args, cursor, pc + 1, depth),
                Err(e) => Err(e),
            },
            Instruction::Call(d, f, argc) => if f as int + argc as int >= NUM_REGS {
                Err(VmError::InvalidRegister)
            } else {
                match call_spec(
                    pool,
                    regs[f as int],
                    regs.subrange(f as int + 1, f as int + 1 + argc as int),
                    depth,
                ) {
                    Ok(v) => run_spec(
                        pool,
                        code,
                        regs.update(d as int, v),
                        args,
                        cursor,
                        pc + 1,
                        depth,
                    ),
                    Err(e) => Err(e),
                }
            },
            Instruction::Ret(s) => Ok(regs[s as int]),
        }
    }
}

/// A call of a function with exactly as many arguments as its arity passes the
/// arity check and runs the function's code from its first instruction on fresh
/// registers that hold the arguments (or, with no frame left, fails with
/// `StackOverflow`); with any other number of arguments it fails with
/// `ArityMismatch` before a single instruction runs.
pub proof fn lemma_calling_convention(pool: ObjectPool, callable: Value, args: Seq<Value>, depth: nat)
    requires
        callee_spec(pool, callable) is Some,
    ensures
        ({
            let f = callee_spec(pool, callable)->Some_0;
            &&& args.len() == f.arity && depth > 0 ==> call_spec(pool, callable, args, depth)
                == run_spec(pool, f.code@, frame_regs(args), args, 0, 0, (depth - 1) as nat)
            &&& args.len() == f.arity && depth == 0 ==> call_spec(pool, callable, args, depth)
                == Err::<Value, VmError>(VmError::StackOverflow)
            &&& args.len() != f.arity ==> call_spec(pool, callable, args, depth) == Err::<
                Value,
                VmError,
            >(VmError::ArityMismatch)
        }),
{
}

/// One activation record: the register file, the arguments with how many of them
/// `LoadArg` has read, and the program counter.
pub struct Frame {
    pub regs: Vec<Value>,
    pub args: Vec<Value>,
    pub cursor: usize,
    pub pc: usize,
}

impl Frame {
    /// The frame on entry to a function called with `args`.
    pub fn new(args: Vec<Value>) -> (r: Frame)
        ensures
            r.regs@ == frame_regs(args@),
            r.args@ == args@,
            r.cursor == 0,
            r.pc == 0,
    {
        let mut regs: Vec<Value> = Vec::new();
        let mut i: usize = 0;
        while i < NUM_REGS
            invariant
                i <= NUM_REGS,
                regs@ == frame_regs(args@).take(i as int),
            decreases NUM_REGS - i,
        {
            if 1 <= i && i - 1 < args.len() {
                regs.push(args[i - 1]);
            } else {
                regs.push(Value::Null);
            }
            i = i + 1;
            proof {
                assert(regs@ =~= frame_regs(args@).take(i as int));
            }
        }
        proof {
            assert(regs@ =~= frame_regs(args@));
        }
        Frame { regs, args, cursor: 0, pc: 0 }
    }
}

/// The virtual machine: the object pool and the interpreter over it.
pub struct Machine {
    pub pool: ObjectPool,
}

impl Machine {
    pub fn new() -> (r: Machine)
        ensures
            r.pool@ == Seq::<Option<crate::object_info::ObjectInfo>>::empty(),
    {
        Machine { pool: ObjectPool::new() }
    }

    /// Calls `callable` with `args` and returns what it returns. The pool is only
    /// read: a call, failing or not, leaves no pin and changes no object.
    pub fn invoke(&self, callable: Value, args: Vec<Value>) -> (r: Result<Value, VmError>)
        ensures
            r == call_spec(self.pool, callable, args@, MAX_DEPTH as nat),
    {
        self.call_value(callable, args, MAX_DEPTH)
    }

    fn call_value(&self, callable: Value, args: Vec<Value>, depth: usize) -> (r: Result<
        Value,
        VmError,
    >)
        ensures
            r == call_spec(self.pool, callable, args@, depth as nat),
        decreases depth, 0int,
    {
        let id = match callable {
            Value::Object(id) => id,
            _ => return Err(VmError::InvalidCallable),
        };
        if !self.pool.is_live_id(id) {
            return Err(VmError::InvalidCallable);
        }
        match self.pool.get(id) {
            Object::Function(f) => {
                if args.len() != f.arity {
                    return Err(VmError::ArityMismatch);
                }
                if depth == 0 {
                    return Err(VmError::StackOverflow);
                }
                self.run_code(&f.code, args, depth - 1)
            },
            _ => Err(VmError::InvalidCallable),
        }
    }

    fn run_code(&self, code: &Vec<Instruction>, args: Vec<Value>, depth: usize) -> (r: Result<
        Value,
        VmError,
    >)
        ensures
            r == run_spec(self.pool, code@, frame_regs(args@), args@, 0, 0, depth as nat),
        decreases depth, 1int,
    {
        let ghost args0 = args@;
        let mut frame = Frame::new(args);
        while frame.pc < code.len()
            invariant
                frame.regs@.len() == NUM_REGS,
                frame.args@ == args0,
                args0 == args@,
                frame.cursor <= args0.len(),
                frame.pc <= code@.len(),
                run_spec(
                    self.pool,
                    code@,
                    frame.regs@,
                    args0,
                    frame.cursor as nat,
                    frame.pc as nat,
                    depth as nat,
                ) == run_spec(
                    self.pool,
                    code@,
                    frame_regs(args0),
                    args0,
                    0,
                    0,
                    depth as nat,
                ),
            decreases code@.len() - frame.pc,
        {
            match code[frame.pc] {
                Instruction::LoadInt(d, n) => {
                    frame.regs.set(d as usize, Value::Int(n));
                },
                Instruction::Move(d, s) => {
                    let v = frame.regs[s as usize];
                    frame.regs.set(d as usize, v);
                },
                Instruction::Add(d, a, b) => {
                    match add_values(frame.regs[a as usize], frame.regs[b as usize]) {
                        Ok(v) => frame.regs.set(d as usize, v),
                        Err(e) => return Err(e),
                    }
                },
                Instruction::LoadConst(d, id) => {
                    frame.regs.set(d as usize, Value::Object(id));
                },
                Instruction::LoadArg(d) => {
                    if frame.cursor < frame.args.len() {
                        let v = frame.args[frame.cursor];
                        frame.regs.set(d as usize, v);
                        frame.cursor = frame.cursor + 1;
                    } else {
                        frame.regs.set(d as usize, Value::Null);
                    }
                },
                Instruction::LoadAt(d, o, k) => {
                    match self.member(frame.regs[o as usize], frame.regs[k as usize]) {
                        Ok(v) => frame.regs.set(d as usize, v),
                        Err(e) => return Err(e),
                    }
                },
                Instruction::Call(d, f, argc) => {
                    if f as usize + argc as usize >= NUM_REGS {
                        return Err(VmError::InvalidRegister);
                    }
                    let call_args = copy_range(
                        &frame.regs,
                        f as usize + 1,
                        f as usize + 1 + argc as usize,
                    );
                    match self.call_value(frame.regs[f as usize], call_args, depth) {
                        Ok(v) => frame.regs.set(d as usize, v),
                        Err(e) => return Err(e),
                    }
                },
                Instruction::Ret(s) => {
                    return Ok(frame.regs[s as usize]);
                },
            }
            frame.pc = frame.pc + 1;
        }
        Err(VmError::MissingReturn)
    }

    /// Looks up member `key` of object `obj`, both given as register values.
    pub fn member(&self, obj: Value, key: Value) -> (r: Result<Value, VmError>)
        ensures
            r == member_spec(self.pool, obj, key),
    {
        match (obj, key) {
            (Value::Object(o), Value::Object(k)) => {
                if !self.pool.is_live_id(o) {
                    return Err(VmError::UnresolvedMember);
                }
                match self.pool.get(o).member(k) {
                    Some(v) => Ok(v),
                    None => Err(VmError::UnresolvedMember),
                }
            },
            _ => Err(VmError::TypeMismatch),
        }
    }
}

/// Adds two integer values; anything else is a type mismatch, and a sum outside
/// `i64` an overflow.
pub fn add_values(a: Value, b: Value) -> (r: Result<Value, VmError>)
    ensures
        r == add_spec(a, b),
{
    match (a, b) {
        (Value::Int(x), Value::Int(y)) => match x.checked_add(y) {
            Some(s) => Ok(Value::Int(s)),
            None => Err(VmError::Overflow),
        },
        _ => Err(VmError::TypeMismatch),
    }
}

/// The registers `lo .. hi` of a register file, in order.
fn copy_range(regs: &Vec<Value>, lo: usize, hi: usize) -> (r: Vec<Value>)
    requires
        lo <= hi <= regs@.len(),
    ensures
        r@ == regs@.subrange(lo as int, hi as int),
{
    let mut out: Vec<Value> = Vec::new();
    let mut i: usize = lo;
    while i < hi
        invariant
            lo <= i <= hi,
            hi <= regs@.len(),
            out@ == regs@.subrange(lo as int, i as int),
        decreases hi - i,
    {
        out.push(regs[i]);
        i = i + 1;
        proof {
            assert(out@ =~= regs@.subrange(lo as int, i as int));
        }
    }
    out
}

} // verus!
