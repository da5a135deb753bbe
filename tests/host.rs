use std::hash::Hasher;
use perf_test::namespace::{Function, RegistryError};
use perf_test::opcode::{AddressValue, InstructionSequence, OpCode, PushFloat};
use perf_test::text::variable_name_to_identifier;
use perf_test::value::{FloatValue, IntegerValue, RawValue, StringValue, SystemValue, VariableReference};
use perf_test::vm::{ArithmeticOp, CompareOp, Fault, FloatRequest, Outcome, StackFrame, VirtualMachine};

#[derive(Clone)]
struct ApplicationState {
    pub running: bool,
}

struct Native(Box<dyn Fn(&mut VirtualMachine<ApplicationState, Native>, &mut StackFrame) -> Result<(), &'static str>>);

type Vm = VirtualMachine<ApplicationState, Native>;

fn serve_float(frame: &mut StackFrame, request: FloatRequest) {
    let served = match request {
        FloatRequest::Parse { depth, text } => {
            frame.supply_parsed_float(depth, text.parse::<f32>().ok().map(f32::to_bits))
        }
        FloatRequest::Widen { depth, value } => {
            frame.supply_operand(depth, RawValue::Float(FloatValue { bits: (value as f32).to_bits() }))
        }
        FloatRequest::Truncate { depth, bits } => {
            frame.supply_operand(depth, RawValue::Integer(IntegerValue { value: f32::from_bits(bits) as i32 }))
        }
        FloatRequest::Format { depth, bits } => frame.supply_operand(
            depth,
            RawValue::String(StringValue { value: f32::from_bits(bits).to_string() }),
        ),
        FloatRequest::Arithmetic { op, lhs, rhs } => {
            let (a, b) = (f32::from_bits(lhs), f32::from_bits(rhs));
            let v = match op {
                ArithmeticOp::Add => a + b,
                ArithmeticOp::Subtract => a - b,
                ArithmeticOp::Multiply => a * b,
                ArithmeticOp::Divide => a / b,
            };
            frame.complete_binary(RawValue::Float(FloatValue { bits: v.to_bits() }))
        }
        FloatRequest::Compare { op, lhs, rhs } => {
            let (a, b) = (f32::from_bits(lhs), f32::from_bits(rhs));
            let v = match op {
                CompareOp::LessThan => a < b,
                CompareOp::GreaterThan => a > b,
                CompareOp::GreaterThanOrEqual => a >= b,
                CompareOp::Equals => a == b,
                CompareOp::NotEquals => a != b,
            };
            frame.complete_binary(RawValue::Boolean(perf_test::value::BooleanValue { value: v }))
        }
    };
    assert!(served);
}

fn interpret_in(vm: &mut Vm, program: &InstructionSequence, frame: &mut StackFrame) -> Result<(), &'static str> {
    loop {
        match vm.run(program, frame, 1 << 20) {
            Outcome::Continue => {}
            Outcome::Finished => return Ok(()),
            Outcome::Fault(f) => return Err(f.message()),
            Outcome::Float(r) => serve_float(frame, r),
            Outcome::Call { target } => {
                let function = vm.root_namespace.lookup_function_cached(&target).map_err(|e| e.message())?;
                match &*function {
                    Function::NativeFunction { binding, .. } => (binding.0)(vm, frame)?,
                    Function::VirtualFunction { instructions, .. } => {
                        let mut inner = StackFrame::new();
                        interpret_in(vm, instructions, &mut inner)?;
                    }
                }
            }
        }
    }
}

fn interpret(vm: &mut Vm, program: &InstructionSequence) -> Result<StackFrame, &'static str> {
    let mut frame = StackFrame::new();
    interpret_in(vm, program, &mut frame)?;
    Ok(frame)
}

fn new_vm() -> Vm {
    VirtualMachine::new(ApplicationState { running: true })
}

fn program(ops: Vec<OpCode>) -> InstructionSequence {
    InstructionSequence { ops }
}

fn local(name: &str) -> VariableReference {
    VariableReference::Local { value: variable_name_to_identifier(name.to_owned()) }
}

fn global(name: &str) -> VariableReference {
    VariableReference::Global { value: variable_name_to_identifier(name.to_owned()) }
}

fn push_var(r: VariableReference) -> OpCode {
    OpCode::PushVariable { variable: r }
}

fn push_float(v: f32) -> OpCode {
    OpCode::PushFloat(PushFloat { bits: v.to_bits() })
}

fn push_str(s: &str) -> OpCode {
    OpCode::PushString { value: s.to_owned() }
}

fn top(frame: &StackFrame) -> &SystemValue {
    frame.stack.last().expect("a value on the stack")
}

fn top_float(frame: &StackFrame) -> f32 {
    match top(frame) {
        SystemValue::Raw { value: RawValue::Float(f) } => f32::from_bits(f.bits),
        other => panic!("expected a float, found {:?}", other),
    }
}

fn top_integer(frame: &StackFrame) -> i32 {
    match top(frame) {
        SystemValue::Raw { value: RawValue::Integer(i) } => i.value,
        other => panic!("expected an integer, found {:?}", other),
    }
}

fn top_boolean(frame: &StackFrame) -> bool {
    match top(frame) {
        SystemValue::Raw { value: RawValue::Boolean(b) } => b.value,
        other => panic!("expected a boolean, found {:?}", other),
    }
}

fn top_string(frame: &StackFrame) -> String {
    match top(frame) {
        SystemValue::Raw { value: RawValue::String(s) } => s.value.clone(),
        other => panic!("expected a string, found {:?}", other),
    }
}

fn read(vm: &Vm, frame: &StackFrame, r: VariableReference) -> RawValue {
    SystemValue::Variable { value: r }.as_raw(&vm.globals, &frame.locals)
}

#[test]
fn test_function_binding_simple() {
    let opcodes = program(vec![OpCode::CallFunction { target: vec!["quit".to_owned()] }]);
    let mut vm = new_vm();
    vm.root_namespace
        .add_function_entry(
            Function::NativeFunction {
                parameters: Vec::new(),
                binding: Native(Box::new(|binding_vm, _frame| -> Result<(), &'static str> {
                    binding_vm.state.running = false;
                    Ok(())
                })),
            },
            &vec!["quit".to_owned()],
        )
        .unwrap();
    interpret(&mut vm, &opcodes).unwrap();
    assert!(!vm.state.running);
}

#[test]
fn push_then_pop_restores_stack() {
    let mut vm = new_vm();
    let frame = interpret(&mut vm, &program(vec![OpCode::PushInteger { value: 9 }, push_str("x"), OpCode::Pop {}])).unwrap();
    assert_eq!(frame.stack.len(), 1);
    assert_eq!(top_integer(&frame), 9);
}

#[test]
fn swap_exchanges_top_two() {
    let mut vm = new_vm();
    let frame = interpret(&mut vm, &program(vec![OpCode::PushInteger { value: 1 }, OpCode::PushInteger { value: 2 }, OpCode::Swap {}])).unwrap();
    assert_eq!(frame.stack.len(), 2);
    assert_eq!(top_integer(&frame), 1);
    assert!(matches!(frame.stack[0], SystemValue::Raw { value: RawValue::Integer(IntegerValue { value: 2 }) }));
}

#[test]
fn assignment_binds_value_lhs_first() {
    let mut vm = new_vm();
    let r = local("answer");
    let frame = interpret(&mut vm, &program(vec![OpCode::PushInteger { value: 42 }, push_var(r), OpCode::Assignment {}, OpCode::Pop {}])).unwrap();
    assert!(frame.stack.is_empty());
    assert!(matches!(read(&vm, &frame, r), RawValue::Integer(IntegerValue { value: 42 })));
}

#[test]
fn missing_variable_reads_empty() {
    let mut vm = new_vm();
    let frame = interpret(
        &mut vm,
        &program(vec![push_var(local("never_written")), push_str(""), OpCode::StringEquals {}]),
    )
    .unwrap();
    assert!(top_boolean(&frame));
    assert_eq!(read(&vm, &frame, global("never_written")).as_string(), Some(String::new()));
}

#[test]
fn add_and_multiply_commute() {
    for op in [OpCode::Add {}, OpCode::Multiply {}] {
        let mut vm = new_vm();
        let same_op = op.clone();
        let a = interpret(&mut vm, &program(vec![push_float(2.5), OpCode::PushInteger { value: 4 }, op])).unwrap();
        let b = interpret(&mut vm, &program(vec![OpCode::PushInteger { value: 4 }, push_float(2.5), same_op])).unwrap();
        assert_eq!(top_float(&a), top_float(&b));
    }
}

#[test]
fn subtract_and_divide_reverse() {
    let mut vm = new_vm();
    let d1 = interpret(&mut vm, &program(vec![push_float(2.0), push_float(5.0), OpCode::Minus {}])).unwrap();
    let d2 = interpret(&mut vm, &program(vec![push_float(5.0), push_float(2.0), OpCode::Minus {}])).unwrap();
    assert_eq!(top_float(&d1), 3.0);
    assert_eq!(top_float(&d2), -3.0);
    let q1 = interpret(&mut vm, &program(vec![push_float(2.0), push_float(8.0), OpCode::Divide {}])).unwrap();
    let q2 = interpret(&mut vm, &program(vec![push_float(8.0), push_float(2.0), OpCode::Divide {}])).unwrap();
    assert_eq!(top_float(&q1), 4.0);
    assert_eq!(top_float(&q2), 0.25);
}

#[test]
fn absolute_jump_skips() {
    let mut vm = new_vm();
    let frame = interpret(
        &mut vm,
        &program(vec![
            OpCode::Jump { target: AddressValue::AbsoluteTarget { index: 2 } },
            OpCode::PushInteger { value: 1 },
            OpCode::PushInteger { value: 2 },
        ]),
    )
    .unwrap();
    assert_eq!(frame.stack.len(), 1);
    assert_eq!(top_integer(&frame), 2);
}

#[test]
fn relative_jumps() {
    let mut vm = new_vm();
    let frame = interpret(
        &mut vm,
        &program(vec![OpCode::Jump { target: AddressValue::RelativeOffset { offset: 0 } }, OpCode::PushInteger { value: 1 }]),
    )
    .unwrap();
    assert_eq!(top_integer(&frame), 1);

    let tight = program(vec![OpCode::Jump { target: AddressValue::RelativeOffset { offset: -1 } }]);
    let mut frame = StackFrame::new();
    assert!(matches!(vm.run(&tight, &mut frame, 1000), Outcome::Continue));
    assert_eq!(frame.counter, 0);
}

#[test]
fn global_increment() {
    let mut vm = new_vm();
    let x = global("x");
    let ops = vec![
        OpCode::PushInteger { value: 0 },
        push_var(x),
        OpCode::Assignment {},
        OpCode::Pop {},
        push_var(x),
        OpCode::PushInteger { value: 1 },
        OpCode::Add {},
        push_var(x),
        OpCode::Assignment {},
        OpCode::Pop {},
    ];
    let frame = interpret(&mut vm, &program(ops)).unwrap();
    assert!(matches!(read(&vm, &frame, x), RawValue::Float(f) if f32::from_bits(f.bits) == 1.0));
    let one = interpret(&mut vm, &program(vec![push_var(x), OpCode::PushInteger { value: 0 }, OpCode::BitwiseOr {}])).unwrap();
    assert_eq!(top_integer(&one), 1);
}

#[test]
fn global_increment_with_swap_needs_reference_on_top() {
    let mut vm = new_vm();
    let x = global("x");
    let ops = vec![
        OpCode::PushInteger { value: 0 },
        push_var(x),
        OpCode::Assignment {},
        OpCode::Pop {},
        push_var(x),
        OpCode::PushInteger { value: 1 },
        OpCode::Add {},
        push_var(x),
        OpCode::Swap {},
        OpCode::Assignment {},
        OpCode::Pop {},
    ];
    assert_eq!(interpret(&mut vm, &program(ops)).err(), Some(Fault::NotAVariable.message()));
}

#[test]
fn string_concat() {
    let mut vm = new_vm();
    let s = local("s");
    let frame = interpret(
        &mut vm,
        &program(vec![push_str("C"), push_str("AB"), OpCode::Concat {}, push_var(s), OpCode::Assignment {}, OpCode::Pop {}]),
    )
    .unwrap();
    assert_eq!(read(&vm, &frame, s).as_string(), Some("ABC".to_owned()));
    let frame = interpret(&mut vm, &program(vec![push_str("AB"), push_str("C"), OpCode::Concat {}])).unwrap();
    assert_eq!(top_string(&frame), "CAB");
}

#[test]
fn counted_float_loop() {
    let mut vm = new_vm();
    let counter = local("counter_a");
    let result = local("result_a");
    let iterations = local("iterations_a");
    let ops = vec![
        OpCode::PushInteger { value: 0 },
        push_var(counter),
        OpCode::Assignment {},
        OpCode::Pop {},
        push_float(0.0),
        push_var(result),
        OpCode::Assignment {},
        OpCode::Pop {},
        OpCode::PushInteger { value: 4096 },
        push_var(iterations),
        OpCode::Assignment {},
        OpCode::Pop {},
        OpCode::NOP {},
        push_var(result),
        push_float(3.14),
        OpCode::Add {},
        push_var(result),
        OpCode::Assignment {},
        OpCode::Pop {},
        push_var(counter),
        OpCode::PushInteger { value: 1 },
        OpCode::Add {},
        push_var(counter),
        OpCode::Assignment {},
        OpCode::Pop {},
        push_var(iterations),
        push_var(counter),
        OpCode::GreaterThanOrEqual {},
        OpCode::JumpFalse { target: AddressValue::AbsoluteTarget { index: 12 } },
        push_var(result),
        push_var(global("result_a")),
        OpCode::Assignment {},
    ];
    let frame = interpret(&mut vm, &program(ops)).unwrap();
    let mut expected: f32 = 0.0;
    for _ in 0..4096 {
        expected = 3.14 + expected;
    }
    match read(&vm, &frame, result) {
        RawValue::Float(f) => assert_eq!(f32::from_bits(f.bits), expected),
        other => panic!("expected a float, found {:?}", other),
    }
    assert!(matches!(read(&vm, &frame, global("result_a")), RawValue::Float(f) if f32::from_bits(f.bits) == expected));
}

#[test]
fn identifiers_ignore_case() {
    assert_eq!(variable_name_to_identifier("Foo".to_owned()), variable_name_to_identifier("foo".to_owned()));
    assert_ne!(variable_name_to_identifier("foo".to_owned()), variable_name_to_identifier("bar".to_owned()));
    let mut vm = new_vm();
    let frame = interpret(&mut vm, &program(vec![OpCode::PushInteger { value: 3 }, push_var(global("Foo")), OpCode::Assignment {}])).unwrap();
    assert!(matches!(read(&vm, &frame, global("foo")), RawValue::Integer(IntegerValue { value: 3 })));
}

#[test]
#[allow(deprecated)]
fn identifier_is_zero_keyed_siphash_of_lowercase() {
    let mut hasher = std::hash::SipHasher::new();
    hasher.write("counter".as_bytes());
    assert_eq!(variable_name_to_identifier("Counter".to_owned()), hasher.finish());
}

#[test]
fn faults() {
    let mut vm = new_vm();
    assert_eq!(interpret(&mut vm, &program(vec![OpCode::Pop {}])).err(), Some(Fault::StackUnderflow.message()));
    assert_eq!(
        interpret(&mut vm, &program(vec![OpCode::PushInteger { value: 1 }, OpCode::PushInteger { value: 2 }, OpCode::Assignment {}])).err(),
        Some(Fault::NotAVariable.message())
    );
    assert_eq!(interpret(&mut vm, &program(vec![push_str("a"), OpCode::Negate {}])).err(), Some(Fault::InvalidOperand.message()));
    assert_eq!(
        interpret(&mut vm, &program(vec![OpCode::Jump { target: AddressValue::RelativeOffset { offset: -5 } }])).err(),
        Some(Fault::AddressOutOfRange.message())
    );
    assert_eq!(
        interpret(&mut vm, &program(vec![OpCode::CallFunction { target: vec!["missing".to_owned()] }])).err(),
        Some(RegistryError::FunctionLookupFailed.message())
    );
}

#[test]
fn integer_and_boolean_operators() {
    let mut vm = new_vm();
    let i = |v: i32| OpCode::PushInteger { value: v };
    let f = interpret(&mut vm, &program(vec![i(3), i(7), OpCode::Modulus {}])).unwrap();
    assert_eq!(top_integer(&f), 1);
    let f = interpret(&mut vm, &program(vec![i(0), i(7), OpCode::Modulus {}])).unwrap();
    assert_eq!(top_integer(&f), 0);
    let f = interpret(&mut vm, &program(vec![i(3), i(6), OpCode::BitwiseAnd {}])).unwrap();
    assert_eq!(top_integer(&f), 2);
    let f = interpret(&mut vm, &program(vec![i(3), i(4), OpCode::BitwiseOr {}])).unwrap();
    assert_eq!(top_integer(&f), 7);
    let f = interpret(&mut vm, &program(vec![push_float(7.9), i(2), OpCode::Modulus {}])).unwrap();
    assert_eq!(top_integer(&f), 2);
    let f = interpret(&mut vm, &program(vec![push_str("12"), i(5), OpCode::BitwiseOr {}])).unwrap();
    assert_eq!(top_integer(&f), 13);
    let f = interpret(&mut vm, &program(vec![i(5), OpCode::Negate {}])).unwrap();
    assert_eq!(top_integer(&f), -5);
    let f = interpret(&mut vm, &program(vec![push_float(1.5), OpCode::Negate {}])).unwrap();
    assert_eq!(top_float(&f), -1.5);
    let f = interpret(&mut vm, &program(vec![i(0), OpCode::Not {}])).unwrap();
    assert!(top_boolean(&f));
    let f = interpret(&mut vm, &program(vec![push_str("0.5"), i(1), OpCode::LogicalAnd {}])).unwrap();
    assert!(top_boolean(&f));
    let f = interpret(&mut vm, &program(vec![push_str("abc"), i(0), OpCode::LogicalOr {}])).unwrap();
    assert!(!top_boolean(&f));
    let f = interpret(&mut vm, &program(vec![i(2), i(1), OpCode::LessThan {}])).unwrap();
    assert!(top_boolean(&f));
    let f = interpret(&mut vm, &program(vec![push_str("2"), push_float(2.0), OpCode::Equals {}])).unwrap();
    assert!(top_boolean(&f));
    let f = interpret(&mut vm, &program(vec![push_float(1.5), i(-12), OpCode::Concat {}])).unwrap();
    assert_eq!(top_string(&f), "-121.5");
    let f = interpret(&mut vm, &program(vec![i(1), OpCode::JumpTrue { target: AddressValue::RelativeOffset { offset: 1 } }, i(5), i(6)])).unwrap();
    assert_eq!(frame_values(&f), vec![6]);
}

fn frame_values(frame: &StackFrame) -> Vec<i32> {
    frame
        .stack
        .iter()
        .map(|s| match s {
            SystemValue::Raw { value: RawValue::Integer(i) } => i.value,
            other => panic!("expected an integer, found {:?}", other),
        })
        .collect()
}

#[test]
fn coercions() {
    let text = |s: &str| RawValue::String(StringValue { value: s.to_owned() });
    assert_eq!(text("42").as_integer(), Some(42));
    assert_eq!(text("-7").as_integer(), Some(-7));
    assert_eq!(text("+8").as_integer(), Some(8));
    assert_eq!(text("4x").as_integer(), Some(0));
    assert_eq!(text("99999999999").as_integer(), Some(0));
    assert_eq!(RawValue::Integer(IntegerValue { value: -12 }).as_string(), Some("-12".to_owned()));
    assert_eq!(RawValue::Boolean(perf_test::value::BooleanValue { value: true }).as_string(), Some("true".to_owned()));
    assert_eq!(RawValue::Boolean(perf_test::value::BooleanValue { value: true }).as_float(), Some(1.0f32.to_bits()));
    assert_eq!(RawValue::Float(FloatValue { bits: (-0.0f32).to_bits() }).as_boolean(), Some(false));
    assert_eq!(RawValue::Float(FloatValue { bits: f32::NAN.to_bits() }).as_boolean(), Some(true));
    assert_eq!(RawValue::Float(FloatValue { bits: 0 }).as_string(), None);
}

#[test]
fn namespace_paths() {
    let mut vm = new_vm();
    let f = || Function::VirtualFunction { parameters: vec!["a".to_owned()], instructions: program(vec![OpCode::PushInteger { value: 1 }]) };
    let path = vec!["Outer".to_owned(), "Inner".to_owned(), "Run".to_owned()];
    assert!(vm.root_namespace.add_function_entry(f(), &path).is_ok());
    let found = vm.root_namespace.lookup_function_uncached(vec!["outer".to_owned(), "INNER".to_owned(), "run".to_owned()]).unwrap();
    assert!(matches!(&*found, Function::VirtualFunction { parameters, .. } if parameters == &vec!["a".to_owned()]));
    assert_eq!(vm.root_namespace.lookup_function_uncached(vec!["outer".to_owned(), "nope".to_owned(), "run".to_owned()]).err(), Some(RegistryError::NamespaceLookupFailed));
    assert_eq!(vm.root_namespace.lookup_function_uncached(vec!["outer".to_owned(), "inner".to_owned(), "walk".to_owned()]).err(), Some(RegistryError::FunctionLookupFailed));
    assert_eq!(vm.root_namespace.add_function_entry(f(), &Vec::new()), Err(RegistryError::EmptyPath));
    let first = vm.root_namespace.lookup_function_cached(&path).unwrap();
    let again = vm.root_namespace.lookup_function_cached(&path).unwrap();
    assert!(std::rc::Rc::ptr_eq(&first, &again));
    let g = Function::VirtualFunction { parameters: Vec::new(), instructions: program(Vec::new()) };
    vm.root_namespace.add_function_entry(g, &path).unwrap();
    let replaced = vm.root_namespace.lookup_function_cached(&path).unwrap();
    assert!(matches!(&*replaced, Function::VirtualFunction { parameters, .. } if parameters.is_empty()));
}

#[test]
fn script_function_call() {
    let mut vm = new_vm();
    let body = program(vec![OpCode::PushInteger { value: 5 }, push_var(global("set_by_script")), OpCode::Assignment {}]);
    vm.root_namespace
        .add_function_entry(Function::VirtualFunction { parameters: Vec::new(), instructions: body }, &vec!["lib".to_owned(), "setter".to_owned()])
        .unwrap();
    let frame = interpret(&mut vm, &program(vec![OpCode::CallFunction { target: vec!["Lib".to_owned(), "Setter".to_owned()] }])).unwrap();
    assert!(frame.stack.is_empty());
    assert!(matches!(read(&vm, &frame, global("set_by_script")), RawValue::Integer(IntegerValue { value: 5 })));
}

#[test]
fn serialize_writes_tags() {
    let p = program(vec![OpCode::Pop {}, OpCode::PushInteger { value: 3 }]);
    let bytes = p.serialize();
    assert_eq!(bytes.len(), 16);
    assert_eq!(&bytes[0..8], &variable_name_to_identifier("Pop".to_owned()).to_le_bytes());
    assert_eq!(&bytes[8..16], &OpCode::PushInteger { value: 0 }.tag().to_le_bytes());
    assert_ne!(OpCode::Pop {}.tag(), OpCode::NOP {}.tag());
}
