use bulut::error::VmError;
use bulut::function::Function;
use bulut::machine::{add_values, Frame, Machine, NUM_REGS};
use bulut::object::Object;
use bulut::opcodes::Instruction;
use bulut::value::Value;

fn add_one_function(machine: &mut Machine) -> usize {
    let code = vec![
        Instruction::LoadInt(2, 2),
        Instruction::Add(2, 1, 2),
        Instruction::Ret(2),
    ];
    machine.pool.allocate(Object::Function(Function::from_instructions(code, 1)))
}

#[test]
fn add_two_and_one() {
    assert_eq!(add_values(Value::Int(2), Value::Int(1)), Ok(Value::Int(3)));
    assert_eq!(add_values(Value::Int(-5), Value::Int(1)), Ok(Value::Int(-4)));
}

#[test]
fn add_non_numeric_is_type_mismatch() {
    assert_eq!(add_values(Value::Object(0), Value::Int(1)), Err(VmError::TypeMismatch));
    assert_eq!(add_values(Value::Int(1), Value::Null), Err(VmError::TypeMismatch));
}

#[test]
fn add_overflow_is_reported() {
    assert_eq!(add_values(Value::Int(i64::MAX), Value::Int(1)), Err(VmError::Overflow));
    assert_eq!(add_values(Value::Int(i64::MIN), Value::Int(-1)), Err(VmError::Overflow));
}

#[test]
fn invoke_adds_argument() {
    let mut machine = Machine::new();
    let f = add_one_function(&mut machine);
    assert_eq!(machine.invoke(Value::Object(f), vec![Value::Int(1)]), Ok(Value::Int(3)));
    assert_eq!(machine.invoke(Value::Object(f), vec![Value::Int(40)]), Ok(Value::Int(42)));
}

#[test]
fn invoke_with_wrong_argument_count() {
    let mut machine = Machine::new();
    let f = add_one_function(&mut machine);
    assert_eq!(machine.invoke(Value::Object(f), vec![]), Err(VmError::ArityMismatch));
    assert_eq!(
        machine.invoke(Value::Object(f), vec![Value::Int(1), Value::Int(2)]),
        Err(VmError::ArityMismatch)
    );
    assert_eq!(machine.pool.info(f).native_refs(), 0);
}

#[test]
fn invoke_non_function() {
    let mut machine = Machine::new();
    let s = machine.pool.allocate(Object::Str(String::from("x")));
    assert_eq!(machine.invoke(Value::Object(s), vec![]), Err(VmError::InvalidCallable));
    assert_eq!(machine.invoke(Value::Int(3), vec![]), Err(VmError::InvalidCallable));
    assert_eq!(machine.invoke(Value::Object(99), vec![]), Err(VmError::InvalidCallable));
}

#[test]
fn invoke_add_on_object_is_type_mismatch() {
    let mut machine = Machine::new();
    let f = add_one_function(&mut machine);
    assert_eq!(machine.invoke(Value::Object(f), vec![Value::Object(f)]), Err(VmError::TypeMismatch));
}

#[test]
fn move_and_load_arg() {
    let mut machine = Machine::new();
    let code = vec![
        Instruction::LoadArg(10),
        Instruction::LoadArg(11),
        Instruction::LoadArg(12),
        Instruction::Move(20, 11),
        Instruction::Add(21, 20, 10),
        Instruction::Ret(21),
    ];
    let f = machine.pool.allocate(Object::Function(Function::from_instructions(code, 2)));
    assert_eq!(machine.invoke(Value::Object(f), vec![Value::Int(5), Value::Int(7)]), Ok(Value::Int(12)));
}

#[test]
fn load_arg_past_the_end_is_null() {
    let mut machine = Machine::new();
    let code = vec![Instruction::LoadArg(3), Instruction::Ret(3)];
    let f = machine.pool.allocate(Object::Function(Function::from_instructions(code, 0)));
    assert_eq!(machine.invoke(Value::Object(f), vec![]), Ok(Value::Null));
}

#[test]
fn missing_return() {
    let mut machine = Machine::new();
    let code = vec![Instruction::LoadInt(1, 1)];
    let f = machine.pool.allocate(Object::Function(Function::from_instructions(code, 0)));
    assert_eq!(machine.invoke(Value::Object(f), vec![]), Err(VmError::MissingReturn));
}

#[test]
fn nested_call_through_member_lookup() {
    let mut machine = Machine::new();
    let f = add_one_function(&mut machine);
    let key = machine.pool.allocate(Object::Str(String::from("disassemble")));
    let table = machine.pool.allocate(Object::Record(vec![(key, Value::Object(f))]));
    let code = vec![
        Instruction::LoadConst(3, table),
        Instruction::LoadConst(4, key),
        Instruction::LoadAt(5, 3, 4),
        Instruction::LoadArg(6),
        Instruction::Call(7, 5, 1),
        Instruction::Ret(7),
    ];
    let outer = machine.pool.allocate(Object::Function(Function::from_instructions(code, 1)));
    assert_eq!(machine.invoke(Value::Object(outer), vec![Value::Int(1)]), Ok(Value::Int(3)));
    for id in [f, key, table, outer] {
        assert_eq!(machine.pool.info(id).native_refs(), 0);
    }
}

#[test]
fn unresolved_member() {
    let mut machine = Machine::new();
    let key = machine.pool.allocate(Object::Str(String::from("missing")));
    let table = machine.pool.allocate(Object::Record(vec![]));
    let code = vec![
        Instruction::LoadConst(1, table),
        Instruction::LoadConst(2, key),
        Instruction::LoadAt(3, 1, 2),
        Instruction::Ret(3),
    ];
    let f = machine.pool.allocate(Object::Function(Function::from_instructions(code, 0)));
    assert_eq!(machine.invoke(Value::Object(f), vec![]), Err(VmError::UnresolvedMember));
    assert_eq!(machine.member(Value::Int(1), Value::Object(key)), Err(VmError::TypeMismatch));
}

#[test]
fn nested_arity_error_propagates() {
    let mut machine = Machine::new();
    let f = add_one_function(&mut machine);
    let code = vec![Instruction::LoadConst(1, f), Instruction::Call(2, 1, 0), Instruction::Ret(2)];
    let outer = machine.pool.allocate(Object::Function(Function::from_instructions(code, 0)));
    assert_eq!(machine.invoke(Value::Object(outer), vec![]), Err(VmError::ArityMismatch));
}

#[test]
fn call_past_register_file() {
    let mut machine = Machine::new();
    let code = vec![Instruction::Call(0, 250, 10), Instruction::Ret(0)];
    let f = machine.pool.allocate(Object::Function(Function::from_instructions(code, 0)));
    assert_eq!(machine.invoke(Value::Object(f), vec![]), Err(VmError::InvalidRegister));
}

#[test]
fn unbounded_recursion_overflows_the_stack() {
    let mut machine = Machine::new();
    let code = vec![Instruction::LoadConst(1, 0), Instruction::Call(2, 1, 0), Instruction::Ret(2)];
    let f = machine.pool.allocate(Object::Function(Function::from_instructions(code, 0)));
    assert_eq!(f, 0);
    assert_eq!(machine.invoke(Value::Object(f), vec![]), Err(VmError::StackOverflow));
}

#[test]
fn value_object_id() {
    assert_eq!(Value::Object(3).as_object_id(), Some(3));
    assert_eq!(Value::Int(3).as_object_id(), None);
    assert_eq!(Value::Null.as_object_id(), None);
}

#[test]
fn fresh_frame_holds_arguments_from_register_one() {
    let frame = Frame::new(vec![Value::Int(7), Value::Object(2)]);
    assert_eq!(frame.regs.len(), NUM_REGS);
    assert_eq!(frame.regs[0], Value::Null);
    assert_eq!(frame.regs[1], Value::Int(7));
    assert_eq!(frame.regs[2], Value::Object(2));
    assert_eq!(frame.regs[3], Value::Null);
    assert_eq!(frame.cursor, 0);
    assert_eq!(frame.pc, 0);
}
