//! The dispatch loop: one instruction at a time, against a frame and the
//! machine's globals. Float arithmetic and native calls are the host's: the
//! machine hands them out as an `Outcome` and takes the answers back.
use vstd::prelude::*;
use std::collections::HashMap;
use crate::namespace::{texts, Namespace};
use crate::text::append_text;
use crate::opcode::{process_address, resolve_address, AddressValue, InstructionSequence, OpCode};
use crate::value::{
    bindings_view, boolean_of, float_bits_of, integer_of, materialize, text_of, BooleanValue,
    negated_value, FloatValue, IntegerValue, RawValue, SlotModel, StringValue, SystemValue, ValueModel,
    VariableIdentifier, VariableReference,
};

verus! {

/// Why an instruction could not execute.
#[derive(Clone, Copy, Debug, PartialEq, Eq, Structural)]
pub enum Fault {
    StackUnderflow,
    NotAVariable,
    InvalidOperand,
    AddressOutOfRange,
}

impl Fault {
    /// A short description of the fault.
    pub fn message(&self) -> &'static str {
        match self {
            Fault::StackUnderflow => "Failed to Load Values off Stack",
            Fault::NotAVariable => "Not a Variable",
            Fault::InvalidOperand => "Invalid Operand",
            Fault::AddressOutOfRange => "Address out of Range",
        }
    }
}

/// The float arithmetic of `Add`, `Minus`, `Multiply` and `Divide`.
#[derive(Clone, Copy, Debug, PartialEq, Eq, Structural)]
pub enum ArithmeticOp {
    Add,
    Subtract,
    Multiply,
    Divide,
}

/// The float comparisons of the relational instructions.
#[derive(Clone, Copy, Debug, PartialEq, Eq, Structural)]
pub enum CompareOp {
    LessThan,
    GreaterThan,
    GreaterThanOrEqual,
    Equals,
    NotEquals,
}

/// Instructions over two operands coerced to text.
#[derive(Clone, Copy, Debug, PartialEq, Eq, Structural)]
pub enum TextOp {
    Concat,
    Equals,
    NotEqual,
}

/// Instructions over two operands coerced to integer.
#[derive(Clone, Copy, Debug, PartialEq, Eq, Structural)]
pub enum IntegerOp {
    Modulus,
    And,
    Or,
}

/// Instructions over two operands coerced to boolean.
#[derive(Clone, Copy, Debug, PartialEq, Eq, Structural)]
pub enum LogicOp {
    And,
    Or,
}

/// Float work that the host does for the machine. `depth` counts from the
/// top of the stack (0 is the first operand popped). The host answers a
/// conversion with `StackFrame::supply_operand` (or
/// `StackFrame::supply_parsed_float` for `Parse`), and `Arithmetic` or
/// `Compare` with `StackFrame::complete_binary`.
#[derive(Clone, Debug)]
pub enum FloatRequest {
    /// Parse the text as a binary32 float.
    Parse { depth: usize, text: String },
    /// Convert the integer to binary32.
    Widen { depth: usize, value: i32 },
    /// Truncate the float toward zero into an `i32`.
    Truncate { depth: usize, bits: u32 },
    /// Format the float as its shortest round-trip decimal text.
    Format { depth: usize, bits: u32 },
    /// Combine the two floats; the result is a float.
    Arithmetic { op: ArithmeticOp, lhs: u32, rhs: u32 },
    /// Compare the two floats; the result is a boolean.
    Compare { op: CompareOp, lhs: u32, rhs: u32 },
}

pub enum RequestModel {
    Parse { depth: usize, text: Seq<char> },
    Widen { depth: usize, value: i32 },
    Truncate { depth: usize, bits: u32 },
    Format { depth: usize, bits: u32 },
    Arithmetic { op: ArithmeticOp, lhs: u32, rhs: u32 },
    Compare { op: CompareOp, lhs: u32, rhs: u32 },
}

impl View for FloatRequest {
    type V = RequestModel;

    open spec fn view(&self) -> RequestModel {
        match self {
            FloatRequest::Parse { depth, text } => RequestModel::Parse { depth: *depth, text: text@ },
            FloatRequest::Widen { depth, value } => RequestModel::Widen { depth: *depth, value: *value },
            FloatRequest::Truncate { depth, bits } => RequestModel::Truncate { depth: *depth, bits: *bits },
            FloatRequest::Format { depth, bits } => RequestModel::Format { depth: *depth, bits: *bits },
            FloatRequest::Arithmetic { op, lhs, rhs } => RequestModel::Arithmetic { op: *op, lhs: *lhs, rhs: *rhs },
            FloatRequest::Compare { op, lhs, rhs } => RequestModel::Compare { op: *op, lhs: *lhs, rhs: *rhs },
        }
    }
}

/// What one step of the machine came to.
#[derive(Clone, Debug)]
pub enum Outcome {
    /// The instruction executed; the counter moved on.
    Continue,
    /// The counter is past the last instruction.
    Finished,
    /// `CallFunction`: the counter moved on, and the host resolves and
    /// invokes the path.
    Call { target: Vec<String> },
    /// The instruction waits for float work; the counter did not move.
    Float(FloatRequest),
    /// The instruction cannot execute; nothing changed.
    Fault(Fault),
}

pub enum OutcomeModel {
    Continue,
    Finished,
    Call(Seq<Seq<char>>),
    Float(RequestModel),
    Fault(Fault),
}

impl View for Outcome {
    type V = OutcomeModel;

    open spec fn view(&self) -> OutcomeModel {
        match self {
            Outcome::Continue => OutcomeModel::Continue,
            Outcome::Finished => OutcomeModel::Finished,
            Outcome::Call { target } => OutcomeModel::Call(texts(target@)),
            Outcome::Float(r) => OutcomeModel::Float(r@),
            Outcome::Fault(f) => OutcomeModel::Fault(*f),
        }
    }
}

/// One active call: its operand stack, its local bindings, and the index
/// of the next instruction.
pub struct StackFrame {
    pub stack: Vec<SystemValue>,
    pub locals: HashMap<VariableIdentifier, RawValue>,
    pub counter: usize,
}

pub struct FrameModel {
    pub stack: Seq<SlotModel>,
    pub locals: Map<VariableIdentifier, ValueModel>,
    pub counter: int,
}

impl View for StackFrame {
    type V = FrameModel;

    open spec fn view(&self) -> FrameModel {
        FrameModel {
            stack: self.stack@.map_values(|s: SystemValue| s@),
            locals: bindings_view(self.locals@),
            counter: self.counter as int,
        }
    }
}

/// The machine: global bindings, the root namespace, and the host's state.
pub struct VirtualMachine<State, B> {
    pub globals: HashMap<VariableIdentifier, RawValue>,
    pub root_namespace: Namespace<B>,
    pub state: State,
}

/// The effect of a step: the frame and the globals after it, and its outcome.
pub struct Transition {
    pub frame: FrameModel,
    pub globals: Map<VariableIdentifier, ValueModel>,
    pub outcome: OutcomeModel,
}

/// The frame with its counter moved to the next instruction.
pub open spec fn advance(f: FrameModel) -> FrameModel {
    FrameModel { counter: f.counter + 1, ..f }
}

/// The instruction executed and left this frame.
pub open spec fn proceed(g: Map<VariableIdentifier, ValueModel>, f: FrameModel) -> Transition {
    Transition { frame: f, globals: g, outcome: OutcomeModel::Continue }
}

/// Nothing changed, with this outcome.
pub open spec fn halt_with(g: Map<VariableIdentifier, ValueModel>, f: FrameModel, o: OutcomeModel) -> Transition {
    Transition { frame: f, globals: g, outcome: o }
}

pub open spec fn fault(g: Map<VariableIdentifier, ValueModel>, f: FrameModel, e: Fault) -> Transition {
    halt_with(g, f, OutcomeModel::Fault(e))
}

pub open spec fn request(g: Map<VariableIdentifier, ValueModel>, f: FrameModel, r: RequestModel) -> Transition {
    halt_with(g, f, OutcomeModel::Float(r))
}

/// Pushes one slot and moves on.
pub open spec fn push_spec(g: Map<VariableIdentifier, ValueModel>, f: FrameModel, s: SlotModel) -> Transition {
    proceed(g, FrameModel { stack: f.stack.push(s), counter: f.counter + 1, ..f })
}

/// Pops the two operands, pushes the result, and moves on.
pub open spec fn replace_two_spec(g: Map<VariableIdentifier, ValueModel>, f: FrameModel, v: ValueModel) -> Transition {
    proceed(g, FrameModel { stack: f.stack.drop_last().drop_last().push(SlotModel::Value(v)), counter: f.counter + 1, ..f })
}

/// The value of the operand at `depth` from the top.
pub open spec fn operand_spec(g: Map<VariableIdentifier, ValueModel>, f: FrameModel, depth: int) -> ValueModel {
    materialize(g, f.locals, f.stack[f.stack.len() - 1 - depth])
}

/// The conversion asked of the host for an operand that has no float value
/// of its own: integers are widened, texts parsed.
pub open spec fn widen_request(v: ValueModel, depth: usize) -> RequestModel {
    match v {
        ValueModel::Integer(i) => RequestModel::Widen { depth, value: i },
        ValueModel::Text(t) => RequestModel::Parse { depth, text: t },
        _ => RequestModel::Parse { depth, text: Seq::empty() },
    }
}

/// The conversion asked of the host for a float operand needed as an
/// integer.
pub open spec fn truncate_request(v: ValueModel, depth: usize) -> RequestModel {
    match v {
        ValueModel::Float(b) => RequestModel::Truncate { depth, bits: b },
        _ => RequestModel::Truncate { depth, bits: 0 },
    }
}

/// The conversion asked of the host for a text operand needed as a
/// boolean: it is parsed as a float.
pub open spec fn parse_request(v: ValueModel, depth: usize) -> RequestModel {
    match v {
        ValueModel::Text(t) => RequestModel::Parse { depth, text: t },
        _ => RequestModel::Parse { depth, text: Seq::empty() },
    }
}

/// The conversion asked of the host for a float operand needed as text.
pub open spec fn format_request(v: ValueModel, depth: usize) -> RequestModel {
    match v {
        ValueModel::Float(b) => RequestModel::Format { depth, bits: b },
        _ => RequestModel::Format { depth, bits: 0 },
    }
}

/// `Add`, `Minus`, `Multiply`, `Divide` and the comparisons: both operands
/// as floats, then the host's arithmetic or comparison.
pub open spec fn float_binary_spec(g: Map<VariableIdentifier, ValueModel>, f: FrameModel, last: RequestModel) -> Transition
{
    if f.stack.len() < 2 {
        fault(g, f, Fault::StackUnderflow)
    } else {
        let a = operand_spec(g, f, 0);
        let b = operand_spec(g, f, 1);
        if float_bits_of(a) is None {
            request(g, f, widen_request(a, 0))
        } else if float_bits_of(b) is None {
            request(g, f, widen_request(b, 1))
        } else {
            request(g, f, last)
        }
    }
}

pub open spec fn arithmetic_spec(g: Map<VariableIdentifier, ValueModel>, f: FrameModel, op: ArithmeticOp) -> Transition {
    let a = operand_spec(g, f, 0);
    let b = operand_spec(g, f, 1);
    float_binary_spec(g, f, RequestModel::Arithmetic { op, lhs: float_bits_of(a).unwrap(), rhs: float_bits_of(b).unwrap() })
}

pub open spec fn compare_spec(g: Map<VariableIdentifier, ValueModel>, f: FrameModel, op: CompareOp) -> Transition {
    let a = operand_spec(g, f, 0);
    let b = operand_spec(g, f, 1);
    float_binary_spec(g, f, RequestModel::Compare { op, lhs: float_bits_of(a).unwrap(), rhs: float_bits_of(b).unwrap() })
}

/// Remainder as `i32::checked_rem` gives it, and 0 where that has none (a
/// zero divisor, or `i32::MIN % -1`).
pub open spec fn remainder(x: i32, y: i32) -> i32 {
    match x.checked_rem(y) {
        Some(r) => r,
        None => 0,
    }
}

pub open spec fn integer_op_spec(op: IntegerOp, x: i32, y: i32) -> i32 {
    match op {
        IntegerOp::Modulus => remainder(x, y),
        IntegerOp::And => x & y,
        IntegerOp::Or => x | y,
    }
}

pub open spec fn integer_binary_spec(g: Map<VariableIdentifier, ValueModel>, f: FrameModel, op: IntegerOp) -> Transition {
    if f.stack.len() < 2 {
        fault(g, f, Fault::StackUnderflow)
    } else {
        let a = operand_spec(g, f, 0);
        let b = operand_spec(g, f, 1);
        if integer_of(a) is None {
            request(g, f, truncate_request(a, 0))
        } else if integer_of(b) is None {
            request(g, f, truncate_request(b, 1))
        } else {
            replace_two_spec(g, f, ValueModel::Integer(integer_op_spec(op, integer_of(a).unwrap(), integer_of(b).unwrap())))
        }
    }
}

pub open spec fn logic_binary_spec(g: Map<VariableIdentifier, ValueModel>, f: FrameModel, op: LogicOp) -> Transition {
    if f.stack.len() < 2 {
        fault(g, f, Fault::StackUnderflow)
    } else {
        let a = operand_spec(g, f, 0);
        let b = operand_spec(g, f, 1);
        if boolean_of(a) is None {
            request(g, f, parse_request(a, 0))
        } else if boolean_of(b) is None {
            request(g, f, parse_request(b, 1))
        } else {
            let x = boolean_of(a).unwrap();
            let y = boolean_of(b).unwrap();
            replace_two_spec(g, f, ValueModel::Boolean(
                match op {
                    LogicOp::And => x && y,
                    LogicOp::Or => x || y,
                },
            ))
        }
    }
}

pub open spec fn text_binary_spec(g: Map<VariableIdentifier, ValueModel>, f: FrameModel, op: TextOp) -> Transition {
    if f.stack.len() < 2 {
        fault(g, f, Fault::StackUnderflow)
    } else {
        let a = operand_spec(g, f, 0);
        let b = operand_spec(g, f, 1);
        if text_of(a) is None {
            request(g, f, format_request(a, 0))
        } else if text_of(b) is None {
            request(g, f, format_request(b, 1))
        } else {
            let x = text_of(a).unwrap();
            let y = text_of(b).unwrap();
            replace_two_spec(g, f, match op {
                TextOp::Concat => ValueModel::Text(x + y),
                TextOp::Equals => ValueModel::Boolean(x == y),
                TextOp::NotEqual => ValueModel::Boolean(x != y),
            })
        }
    }
}

pub open spec fn not_spec(g: Map<VariableIdentifier, ValueModel>, f: FrameModel) -> Transition {
    if f.stack.len() < 1 {
        fault(g, f, Fault::StackUnderflow)
    } else {
        let a = operand_spec(g, f, 0);
        if boolean_of(a) is None {
            request(g, f, parse_request(a, 0))
        } else {
            proceed(g, FrameModel {
                stack: f.stack.drop_last().push(SlotModel::Value(ValueModel::Boolean(!boolean_of(a).unwrap()))),
                counter: f.counter + 1,
                ..f
            })
        }
    }
}

/// Arithmetic negation of the top slot itself; a reference is not looked
/// up and cannot be negated.
pub open spec fn negated(s: SlotModel) -> Option<ValueModel> {
    match s {
        SlotModel::Value(v) => negated_value(v),
        SlotModel::Reference(_) => None,
    }
}

pub open spec fn negate_spec(g: Map<VariableIdentifier, ValueModel>, f: FrameModel) -> Transition {
    if f.stack.len() < 1 {
        fault(g, f, Fault::StackUnderflow)
    } else {
        match negated(f.stack.last()) {
            Some(v) => proceed(g, FrameModel {
                stack: f.stack.drop_last().push(SlotModel::Value(v)),
                counter: f.counter + 1,
                ..f
            }),
            None => fault(g, f, Fault::InvalidOperand),
        }
    }
}

pub open spec fn jump_spec(g: Map<VariableIdentifier, ValueModel>, f: FrameModel, target: AddressValue) -> Transition {
    match resolve_address(f.counter + 1, target) {
        Some(t) => proceed(g, FrameModel { counter: t, ..f }),
        None => fault(g, f, Fault::AddressOutOfRange),
    }
}

/// `JumpTrue` (`when` true) and `JumpFalse` (`when` false): pop the
/// condition, and branch when it is `when`.
pub open spec fn conditional_spec(g: Map<VariableIdentifier, ValueModel>, f: FrameModel, target: AddressValue, when: bool) -> Transition {
    if f.stack.len() < 1 {
        fault(g, f, Fault::StackUnderflow)
    } else {
        let a = operand_spec(g, f, 0);
        if boolean_of(a) is None {
            request(g, f, parse_request(a, 0))
        } else if boolean_of(a).unwrap() == when {
            match resolve_address(f.counter + 1, target) {
                Some(t) => proceed(g, FrameModel { stack: f.stack.drop_last(), counter: t, ..f }),
                None => fault(g, f, Fault::AddressOutOfRange),
            }
        } else {
            proceed(g, FrameModel { stack: f.stack.drop_last(), counter: f.counter + 1, ..f })
        }
    }
}

/// Pops the reference (first) and the value (second), binds the value in
/// the reference's scope, and pushes the reference back.
pub open spec fn assignment_spec(g: Map<VariableIdentifier, ValueModel>, f: FrameModel) -> Transition {
    if f.stack.len() < 2 {
        fault(g, f, Fault::StackUnderflow)
    } else {
        match f.stack.last() {
            SlotModel::Reference(r) => {
                let v = operand_spec(g, f, 1);
                let stack = f.stack.drop_last().drop_last().push(SlotModel::Reference(r));
                match r {
                    VariableReference::Global { value } => Transition {
                        frame: FrameModel { stack, counter: f.counter + 1, ..f },
                        globals: g.insert(value, v),
                        outcome: OutcomeModel::Continue,
                    },
                    VariableReference::Local { value } => proceed(g, FrameModel {
                        stack,
                        locals: f.locals.insert(value, v),
                        counter: f.counter + 1,
                    }),
                }
            },
            SlotModel::Value(_) => fault(g, f, Fault::NotAVariable),
        }
    }
}

/// The effect of executing `op` at the frame's counter.
pub open spec fn execute_spec(op: OpCode, g: Map<VariableIdentifier, ValueModel>, f: FrameModel) -> Transition {
    let n = f.stack.len();
    match op {
        OpCode::PushFloat(p) => push_spec(g, f, SlotModel::Value(ValueModel::Float(p.bits))),
        OpCode::PushInteger { value } => push_spec(g, f, SlotModel::Value(ValueModel::Integer(value))),
        OpCode::PushString { value } => push_spec(g, f, SlotModel::Value(ValueModel::Text(value@))),
        OpCode::PushVariable { variable } => push_spec(g, f, SlotModel::Reference(variable)),
        OpCode::Pop {} => if n < 1 {
            fault(g, f, Fault::StackUnderflow)
        } else {
            proceed(g, FrameModel { stack: f.stack.drop_last(), counter: f.counter + 1, ..f })
        },
        OpCode::Swap {} => if n < 2 {
            fault(g, f, Fault::StackUnderflow)
        } else {
            proceed(g, FrameModel {
                stack: f.stack.drop_last().drop_last().push(f.stack[n - 1]).push(f.stack[n - 2]),
                counter: f.counter + 1,
                ..f
            })
        },
        OpCode::NOP {} => proceed(g, advance(f)),
        OpCode::Jump { target } => jump_spec(g, f, target),
        OpCode::JumpTrue { target } => conditional_spec(g, f, target, true),
        OpCode::JumpFalse { target } => conditional_spec(g, f, target, false),
        OpCode::Assignment {} => assignment_spec(g, f),
        OpCode::Concat {} => text_binary_spec(g, f, TextOp::Concat),
        OpCode::StringEquals {} => text_binary_spec(g, f, TextOp::Equals),
        OpCode::StringNotEqual {} => text_binary_spec(g, f, TextOp::NotEqual),
        OpCode::Negate {} => negate_spec(g, f),
        OpCode::Not {} => not_spec(g, f),
        OpCode::CallFunction { target } => Transition { frame: advance(f), globals: g, outcome: OutcomeModel::Call(texts(target@)) },
        OpCode::LogicalAnd {} => logic_binary_spec(g, f, LogicOp::And),
        OpCode::LogicalOr {} => logic_binary_spec(g, f, LogicOp::Or),
        OpCode::BitwiseAnd {} => integer_binary_spec(g, f, IntegerOp::And),
        OpCode::BitwiseOr {} => integer_binary_spec(g, f, IntegerOp::Or),
        OpCode::Modulus {} => integer_binary_spec(g, f, IntegerOp::Modulus),
        OpCode::Add {} => arithmetic_spec(g, f, ArithmeticOp::Add),
        OpCode::Minus {} => arithmetic_spec(g, f, ArithmeticOp::Subtract),
        OpCode::Multiply {} => arithmetic_spec(g, f, ArithmeticOp::Multiply),
        OpCode::Divide {} => arithmetic_spec(g, f, ArithmeticOp::Divide),
        OpCode::LessThan {} => compare_spec(g, f, CompareOp::LessThan),
        OpCode::GreaterThan {} => compare_spec(g, f, CompareOp::GreaterThan),
        OpCode::GreaterThanOrEqual {} => compare_spec(g, f, CompareOp::GreaterThanOrEqual),
        OpCode::Equals {} => compare_spec(g, f, CompareOp::Equals),
        OpCode::NotEquals {} => compare_spec(g, f, CompareOp::NotEquals),
    }
}

/// One step: finished when the counter is past the program, else the
/// instruction at the counter.
pub open spec fn step_spec(program: Seq<OpCode>, g: Map<VariableIdentifier, ValueModel>, f: FrameModel) -> Transition {
    if f.counter < 0 || f.counter >= program.len() {
        halt_with(g, f, OutcomeModel::Finished)
    } else {
        execute_spec(program[f.counter], g, f)
    }
}

/// Up to `fuel` steps, stopping at the first outcome that is not
/// `Continue`.
pub open spec fn run_spec(program: Seq<OpCode>, g: Map<VariableIdentifier, ValueModel>, f: FrameModel, fuel: nat) -> Transition
    decreases fuel,
{
    if fuel == 0 {
        proceed(g, f)
    } else {
        let t = step_spec(program, g, f);
        if t.outcome is Continue {
            run_spec(program, t.globals, t.frame, (fuel - 1) as nat)
        } else {
            t
        }
    }
}

impl StackFrame {
    /// A fresh frame: empty stack, no locals, counter at 0.
    pub fn new() -> (r: StackFrame)
        ensures
            r@.stack.len() == 0,
            r@.locals == Map::<VariableIdentifier, ValueModel>::empty(),
            r@.counter == 0,
    {
        let f = StackFrame { stack: Vec::new(), locals: HashMap::new(), counter: 0 };
        proof {
            assert(f@.stack =~= Seq::<SlotModel>::empty());
            assert(f@.locals =~= Map::<VariableIdentifier, ValueModel>::empty());
        }
        f
    }

    /// The value of the operand at `depth` from the top.
    fn operand(&self, globals: &HashMap<VariableIdentifier, RawValue>, depth: usize) -> (r: RawValue)
        requires
            depth < self.stack@.len(),
        ensures
            r@ == operand_spec(bindings_view(globals@), self@, depth as int),
    {
        self.stack[self.stack.len() - 1 - depth].as_raw(globals, &self.locals)
    }

    fn push_and_advance(&mut self, s: SystemValue)
        requires
            old(self).counter < usize::MAX,
        ensures
            final(self)@ == (FrameModel { stack: old(self)@.stack.push(s@), counter: old(self)@.counter + 1, ..old(self)@ }),
    {
        let ghost gs = s@;
        self.stack.push(s);
        self.counter = self.counter + 1;
        proof {
            assert(self@.stack =~= old(self)@.stack.push(gs));
        }
    }

    fn replace_two(&mut self, v: RawValue)
        requires
            old(self).stack@.len() >= 2,
            old(self).counter < usize::MAX,
        ensures
            final(self)@ == (FrameModel {
                stack: old(self)@.stack.drop_last().drop_last().push(SlotModel::Value(v@)),
                counter: old(self)@.counter + 1,
                ..old(self)@
            }),
    {
        let ghost gv = v@;
        self.stack.pop();
        self.stack.pop();
        self.stack.push(SystemValue::Raw { value: v });
        self.counter = self.counter + 1;
        proof {
            assert(self@.stack =~= old(self)@.stack.drop_last().drop_last().push(SlotModel::Value(gv)));
        }
    }

    fn replace_top(&mut self, v: RawValue)
        requires
            old(self).stack@.len() >= 1,
            old(self).counter < usize::MAX,
        ensures
            final(self)@ == (FrameModel {
                stack: old(self)@.stack.drop_last().push(SlotModel::Value(v@)),
                counter: old(self)@.counter + 1,
                ..old(self)@
            }),
    {
        let ghost gv = v@;
        self.stack.pop();
        self.stack.push(SystemValue::Raw { value: v });
        self.counter = self.counter + 1;
        proof {
            assert(self@.stack =~= old(self)@.stack.drop_last().push(SlotModel::Value(gv)));
        }
    }

    /// The host's answer to a conversion request: the operand at `depth`
    /// from the top becomes `value`. False, and nothing changes, when there
    /// is no such operand.
    pub fn supply_operand(&mut self, depth: usize, value: RawValue) -> (r: bool)
        ensures
            r == (depth < old(self).stack@.len()),
            r ==> final(self)@ == (FrameModel {
                stack: old(self)@.stack.update(old(self)@.stack.len() - 1 - depth, SlotModel::Value(value@)),
                ..old(self)@
            }),
            !r ==> final(self)@ == old(self)@,
    {
        if depth >= self.stack.len() {
            return false;
        }
        let ghost gv = value@;
        let i = self.stack.len() - 1 - depth;
        self.stack.set(i, SystemValue::Raw { value });
        proof {
            assert(self@.stack =~= old(self)@.stack.update(i as int, SlotModel::Value(gv)));
        }
        true
    }

    /// The host's answer to a `Parse` request: the parsed bit pattern, or
    /// `None` when the text is not a float, which reads as 0.0.
    pub fn supply_parsed_float(&mut self, depth: usize, parsed: Option<u32>) -> (r: bool)
        ensures
            r == (depth < old(self).stack@.len()),
            r ==> final(self)@ == (FrameModel {
                stack: old(self)@.stack.update(
                    old(self)@.stack.len() - 1 - depth,
                    SlotModel::Value(ValueModel::Float(
                        match parsed {
                            Some(b) => b,
                            None => 0,
                        },
                    )),
                ),
                ..old(self)@
            }),
            !r ==> final(self)@ == old(self)@,
    {
        let bits = match parsed {
            Some(b) => b,
            None => 0,
        };
        self.supply_operand(depth, RawValue::Float(FloatValue { bits }))
    }

    /// The host's answer to an `Arithmetic` or `Compare` request: the two
    /// operands are popped, the result pushed, and the counter moves on.
    /// False, and nothing changes, when there are not two operands.
    pub fn complete_binary(&mut self, result: RawValue) -> (r: bool)
        ensures
            r == (old(self).stack@.len() >= 2 && old(self).counter < usize::MAX),
            r ==> final(self)@ == (FrameModel {
                stack: old(self)@.stack.drop_last().drop_last().push(SlotModel::Value(result@)),
                counter: old(self)@.counter + 1,
                ..old(self)@
            }),
            !r ==> final(self)@ == old(self)@,
    {
        if self.stack.len() < 2 || self.counter == usize::MAX {
            return false;
        }
        self.replace_two(result);
        true
    }
}

fn widen_request_exec(a: RawValue, depth: usize) -> (r: FloatRequest)
    ensures
        r@ == widen_request(a@, depth),
{
    match a {
        RawValue::Integer(i) => FloatRequest::Widen { depth, value: i.value },
        RawValue::String(s) => FloatRequest::Parse { depth, text: s.value },
        _ => FloatRequest::Parse { depth, text: String::new() },
    }
}

fn truncate_request_exec(a: RawValue, depth: usize) -> (r: FloatRequest)
    ensures
        r@ == truncate_request(a@, depth),
{
    match a {
        RawValue::Float(f) => FloatRequest::Truncate { depth, bits: f.bits },
        _ => FloatRequest::Truncate { depth, bits: 0 },
    }
}

fn parse_request_exec(a: RawValue, depth: usize) -> (r: FloatRequest)
    ensures
        r@ == parse_request(a@, depth),
{
    match a {
        RawValue::String(s) => FloatRequest::Parse { depth, text: s.value },
        _ => FloatRequest::Parse { depth, text: String::new() },
    }
}

fn format_request_exec(a: RawValue, depth: usize) -> (r: FloatRequest)
    ensures
        r@ == format_request(a@, depth),
{
    match a {
        RawValue::Float(f) => FloatRequest::Format { depth, bits: f.bits },
        _ => FloatRequest::Format { depth, bits: 0 },
    }
}

/// Both operands as floats, or the outcome that stops the instruction.
fn float_operands(globals: &HashMap<VariableIdentifier, RawValue>, frame: &StackFrame) -> (r: Result<(u32, u32), Outcome>)
    ensures
        match r {
            Ok((x, y)) => frame@.stack.len() >= 2
                && float_bits_of(operand_spec(bindings_view(globals@), frame@, 0)) == Some(x)
                && float_bits_of(operand_spec(bindings_view(globals@), frame@, 1)) == Some(y),
            Err(o) => forall|last: RequestModel| #[trigger] float_binary_spec(bindings_view(globals@), frame@, last)
                == halt_with(bindings_view(globals@), frame@, o@),
        },
{
    if frame.stack.len() < 2 {
        return Err(Outcome::Fault(Fault::StackUnderflow));
    }
    let a = frame.operand(globals, 0);
    let b = frame.operand(globals, 1);
    let x = match a.as_float() {
        Some(x) => x,
        None => return Err(Outcome::Float(widen_request_exec(a, 0))),
    };
    let y = match b.as_float() {
        Some(y) => y,
        None => return Err(Outcome::Float(widen_request_exec(b, 1))),
    };
    Ok((x, y))
}

fn execute_arithmetic(globals: &HashMap<VariableIdentifier, RawValue>, frame: &StackFrame, op: ArithmeticOp) -> (r: Outcome)
    ensures
        arithmetic_spec(bindings_view(globals@), frame@, op) == halt_with(bindings_view(globals@), frame@, r@),
{
    match float_operands(globals, frame) {
        Ok((x, y)) => Outcome::Float(FloatRequest::Arithmetic { op, lhs: x, rhs: y }),
        Err(o) => o,
    }
}

fn execute_compare(globals: &HashMap<VariableIdentifier, RawValue>, frame: &StackFrame, op: CompareOp) -> (r: Outcome)
    ensures
        compare_spec(bindings_view(globals@), frame@, op) == halt_with(bindings_view(globals@), frame@, r@),
{
    match float_operands(globals, frame) {
        Ok((x, y)) => Outcome::Float(FloatRequest::Compare { op, lhs: x, rhs: y }),
        Err(o) => o,
    }
}

fn execute_integer_binary(globals: &HashMap<VariableIdentifier, RawValue>, frame: &mut StackFrame, op: IntegerOp) -> (r: Outcome)
    requires
        old(frame).counter < usize::MAX,
    ensures
        ({
            let t = integer_binary_spec(bindings_view(globals@), old(frame)@, op);
            final(frame)@ == t.frame && r@ == t.outcome && t.globals == bindings_view(globals@)
        }),
{
    if frame.stack.len() < 2 {
        return Outcome::Fault(Fault::StackUnderflow);
    }
    let a = frame.operand(globals, 0);
    let b = frame.operand(globals, 1);
    let x = match a.as_integer() {
        Some(x) => x,
        None => return Outcome::Float(truncate_request_exec(a, 0)),
    };
    let y = match b.as_integer() {
        Some(y) => y,
        None => return Outcome::Float(truncate_request_exec(b, 1)),
    };
    let v = match op {
        IntegerOp::Modulus => match x.checked_rem(y) {
            Some(m) => m,
            None => 0,
        },
        IntegerOp::And => x & y,
        IntegerOp::Or => x | y,
    };
    frame.replace_two(RawValue::Integer(IntegerValue { value: v }));
    Outcome::Continue
}

fn execute_logic_binary(globals: &HashMap<VariableIdentifier, RawValue>, frame: &mut StackFrame, op: LogicOp) -> (r: Outcome)
    requires
        old(frame).counter < usize::MAX,
    ensures
        ({
            let t = logic_binary_spec(bindings_view(globals@), old(frame)@, op);
            final(frame)@ == t.frame && r@ == t.outcome && t.globals == bindings_view(globals@)
        }),
{
    if frame.stack.len() < 2 {
        return Outcome::Fault(Fault::StackUnderflow);
    }
    let a = frame.operand(globals, 0);
    let b = frame.operand(globals, 1);
    let x = match a.as_boolean() {
        Some(x) => x,
        None => return Outcome::Float(parse_request_exec(a, 0)),
    };
    let y = match b.as_boolean() {
        Some(y) => y,
        None => return Outcome::Float(parse_request_exec(b, 1)),
    };
    let v = match op {
        LogicOp::And => x && y,
        LogicOp::Or => x || y,
    };
    frame.replace_two(RawValue::Boolean(BooleanValue { value: v }));
    Outcome::Continue
}

fn execute_text_binary(globals: &HashMap<VariableIdentifier, RawValue>, frame: &mut StackFrame, op: TextOp) -> (r: Outcome)
    requires
        old(frame).counter < usize::MAX,
    ensures
        ({
            let t = text_binary_spec(bindings_view(globals@), old(frame)@, op);
            final(frame)@ == t.frame && r@ == t.outcome && t.globals == bindings_view(globals@)
        }),
{
    if frame.stack.len() < 2 {
        return Outcome::Fault(Fault::StackUnderflow);
    }
    let a = frame.operand(globals, 0);
    let b = frame.operand(globals, 1);
    let mut x = match a.as_string() {
        Some(x) => x,
        None => return Outcome::Float(format_request_exec(a, 0)),
    };
    let y = match b.as_string() {
        Some(y) => y,
        None => return Outcome::Float(format_request_exec(b, 1)),
    };
    let v = match op {
        TextOp::Concat => {
            append_text(&mut x, y.as_str());
            RawValue::String(StringValue { value: x })
        },
        TextOp::Equals => RawValue::Boolean(BooleanValue { value: x == y }),
        TextOp::NotEqual => RawValue::Boolean(BooleanValue { value: x != y }),
    };
    frame.replace_two(v);
    Outcome::Continue
}

fn execute_not(globals: &HashMap<VariableIdentifier, RawValue>, frame: &mut StackFrame) -> (r: Outcome)
    requires
        old(frame).counter < usize::MAX,
    ensures
        ({
            let t = not_spec(bindings_view(globals@), old(frame)@);
            final(frame)@ == t.frame && r@ == t.outcome && t.globals == bindings_view(globals@)
        }),
{
    if frame.stack.len() < 1 {
        return Outcome::Fault(Fault::StackUnderflow);
    }
    let a = frame.operand(globals, 0);
    let x = match a.as_boolean() {
        Some(x) => x,
        None => return Outcome::Float(parse_request_exec(a, 0)),
    };
    frame.replace_top(RawValue::Boolean(BooleanValue { value: !x }));
    Outcome::Continue
}

fn execute_negate(globals: &HashMap<VariableIdentifier, RawValue>, frame: &mut StackFrame) -> (r: Outcome)
    requires
        old(frame).counter < usize::MAX,
    ensures
        ({
            let t = negate_spec(bindings_view(globals@), old(frame)@);
            final(frame)@ == t.frame && r@ == t.outcome && t.globals == bindings_view(globals@)
        }),
{
    let n = frame.stack.len();
    if n < 1 {
        return Outcome::Fault(Fault::StackUnderflow);
    }
    let mut v = match &frame.stack[n - 1] {
        SystemValue::Raw { value } => value.duplicate(),
        SystemValue::Variable { .. } => return Outcome::Fault(Fault::InvalidOperand),
    };
    if !v.negate() {
        return Outcome::Fault(Fault::InvalidOperand);
    }
    frame.replace_top(v);
    Outcome::Continue
}

fn execute_jump(globals: &HashMap<VariableIdentifier, RawValue>, frame: &mut StackFrame, target: &AddressValue) -> (r: Outcome)
    requires
        old(frame).counter < usize::MAX,
    ensures
        ({
            let t = jump_spec(bindings_view(globals@), old(frame)@, *target);
            final(frame)@ == t.frame && r@ == t.outcome && t.globals == bindings_view(globals@)
        }),
{
    let mut c = frame.counter + 1;
    if process_address(&mut c, target) {
        frame.counter = c;
        Outcome::Continue
    } else {
        Outcome::Fault(Fault::AddressOutOfRange)
    }
}

fn execute_conditional(
    globals: &HashMap<VariableIdentifier, RawValue>,
    frame: &mut StackFrame,
    target: &AddressValue,
    when: bool,
) -> (r: Outcome)
    requires
        old(frame).counter < usize::MAX,
    ensures
        ({
            let t = conditional_spec(bindings_view(globals@), old(frame)@, *target, when);
            final(frame)@ == t.frame && r@ == t.outcome && t.globals == bindings_view(globals@)
        }),
{
    if frame.stack.len() < 1 {
        return Outcome::Fault(Fault::StackUnderflow);
    }
    let a = frame.operand(globals, 0);
    let x = match a.as_boolean() {
        Some(x) => x,
        None => return Outcome::Float(parse_request_exec(a, 0)),
    };
    let mut c = frame.counter + 1;
    if x == when {
        if !process_address(&mut c, target) {
            return Outcome::Fault(Fault::AddressOutOfRange);
        }
    }
    frame.stack.pop();
    frame.counter = c;
    proof {
        assert(frame@.stack =~= old(frame)@.stack.drop_last());
    }
    Outcome::Continue
}

fn execute_assignment(globals: &mut HashMap<VariableIdentifier, RawValue>, frame: &mut StackFrame) -> (r: Outcome)
    requires
        old(frame).counter < usize::MAX,
    ensures
        ({
            let t = assignment_spec(bindings_view(old(globals)@), old(frame)@);
            final(frame)@ == t.frame && r@ == t.outcome && t.globals == bindings_view(final(globals)@)
        }),
{
    let n = frame.stack.len();
    if n < 2 {
        return Outcome::Fault(Fault::StackUnderflow);
    }
    let target = match frame.stack[n - 1].as_variable() {
        Some(t) => t,
        None => return Outcome::Fault(Fault::NotAVariable),
    };
    let v = frame.operand(globals, 1);
    let ghost gv = v@;
    frame.stack.pop();
    frame.stack.pop();
    frame.stack.push(SystemValue::Variable { value: target });
    target.perform_assignment(globals, &mut frame.locals, v);
    frame.counter = frame.counter + 1;
    proof {
        assert(frame@.stack =~= old(frame)@.stack.drop_last().drop_last().push(SlotModel::Reference(target)));
    }
    Outcome::Continue
}

/// A copy of a path.
fn copy_path(p: &Vec<String>) -> (r: Vec<String>)
    ensures
        texts(r@) == texts(p@),
{
    let mut r: Vec<String> = Vec::new();
    let mut i: usize = 0;
    while i < p.len()
        invariant
            i <= p@.len(),
            r@.len() == i,
            forall|j: int| 0 <= j < i ==> #[trigger] r@[j]@ == p@[j]@,
        decreases p@.len() - i,
    {
        r.push(p[i].clone());
        i = i + 1;
    }
    proof {
        assert(texts(r@) =~= texts(p@));
    }
    r
}

impl<State, B> VirtualMachine<State, B> {
    /// A machine over the host's state, with no globals and an empty root
    /// namespace.
    pub fn new(state: State) -> (r: Self)
        ensures
            bindings_view(r.globals@) == Map::<VariableIdentifier, ValueModel>::empty(),
            r.root_namespace.children@.len() == 0,
            r.root_namespace.functions@.len() == 0,
            r.root_namespace.classes@.len() == 0,
            r.root_namespace.wf(),
            r.state == state,
    {
        let vm = VirtualMachine { globals: HashMap::new(), root_namespace: Namespace::new(), state };
        proof {
            assert(bindings_view(vm.globals@) =~= Map::<VariableIdentifier, ValueModel>::empty());
        }
        vm
    }

    /// Executes the instruction at the frame's counter, or reports that the
    /// program is finished.
    pub fn step(&mut self, program: &InstructionSequence, frame: &mut StackFrame) -> (r: Outcome)
        ensures
            ({
                let t = step_spec(program.ops@, bindings_view(old(self).globals@), old(frame)@);
                final(frame)@ == t.frame && bindings_view(final(self).globals@) == t.globals && r@ == t.outcome
            }),
            final(self).root_namespace == old(self).root_namespace,
            final(self).state == old(self).state,
    {
        if frame.counter >= program.ops.len() {
            return Outcome::Finished;
        }
        let op = &program.ops[frame.counter];
        match op {
            OpCode::PushFloat(p) => {
                frame.push_and_advance(SystemValue::Raw { value: RawValue::Float(FloatValue { bits: p.bits }) });
                Outcome::Continue
            },
            OpCode::PushInteger { value } => {
                frame.push_and_advance(SystemValue::Raw { value: RawValue::Integer(IntegerValue { value: *value }) });
                Outcome::Continue
            },
            OpCode::PushString { value } => {
                frame.push_and_advance(SystemValue::Raw { value: RawValue::String(StringValue { value: value.clone() }) });
                Outcome::Continue
            },
            OpCode::PushVariable { variable } => {
                frame.push_and_advance(SystemValue::Variable { value: *variable });
                Outcome::Continue
            },
            OpCode::Pop {} => {
                if frame.stack.len() < 1 {
                    return Outcome::Fault(Fault::StackUnderflow);
                }
                frame.stack.pop();
                frame.counter = frame.counter + 1;
                proof {
                    assert(frame@.stack =~= old(frame)@.stack.drop_last());
                }
                Outcome::Continue
            },
            OpCode::Swap {} => {
                let n = frame.stack.len();
                if n < 2 {
                    return Outcome::Fault(Fault::StackUnderflow);
                }
                let lhs = frame.stack.pop();
                let rhs = frame.stack.pop();
                match (lhs, rhs) {
                    (Some(l), Some(h)) => {
                        frame.stack.push(l);
                        frame.stack.push(h);
                    },
                    _ => {},
                }
                frame.counter = frame.counter + 1;
                proof {
                    let s = old(frame)@.stack;
                    assert(frame@.stack =~= s.drop_last().drop_last().push(s[n - 1]).push(s[n - 2]));
                }
                Outcome::Continue
            },
            OpCode::NOP {} => {
                frame.counter = frame.counter + 1;
                Outcome::Continue
            },
            OpCode::Jump { target } => execute_jump(&self.globals, frame, target),
            OpCode::JumpTrue { target } => execute_conditional(&self.globals, frame, target, true),
            OpCode::JumpFalse { target } => execute_conditional(&self.globals, frame, target, false),
            OpCode::Assignment {} => execute_assignment(&mut self.globals, frame),
            OpCode::Concat {} => execute_text_binary(&self.globals, frame, TextOp::Concat),
            OpCode::StringEquals {} => execute_text_binary(&self.globals, frame, TextOp::Equals),
            OpCode::StringNotEqual {} => execute_text_binary(&self.globals, frame, TextOp::NotEqual),
            OpCode::Negate {} => execute_negate(&self.globals, frame),
            OpCode::Not {} => execute_not(&self.globals, frame),
            OpCode::CallFunction { target } => {
                let path = copy_path(target);
                frame.counter = frame.counter + 1;
                Outcome::Call { target: path }
            },
            OpCode::LogicalAnd {} => execute_logic_binary(&self.globals, frame, LogicOp::And),
            OpCode::LogicalOr {} => execute_logic_binary(&self.globals, frame, LogicOp::Or),
            OpCode::BitwiseAnd {} => execute_integer_binary(&self.globals, frame, IntegerOp::And),
            OpCode::BitwiseOr {} => execute_integer_binary(&self.globals, frame, IntegerOp::Or),
            OpCode::Modulus {} => execute_integer_binary(&self.globals, frame, IntegerOp::Modulus),
            OpCode::Add {} => execute_arithmetic(&self.globals, frame, ArithmeticOp::Add),
            OpCode::Minus {} => execute_arithmetic(&self.globals, frame, ArithmeticOp::Subtract),
            OpCode::Multiply {} => execute_arithmetic(&self.globals, frame, ArithmeticOp::Multiply),
            OpCode::Divide {} => execute_arithmetic(&self.globals, frame, ArithmeticOp::Divide),
            OpCode::LessThan {} => execute_compare(&self.globals, frame, CompareOp::LessThan),
            OpCode::GreaterThan {} => execute_compare(&self.globals, frame, CompareOp::GreaterThan),
            OpCode::GreaterThanOrEqual {} => execute_compare(&self.globals, frame, CompareOp::GreaterThanOrEqual),
            OpCode::Equals {} => execute_compare(&self.globals, frame, CompareOp::Equals),
            OpCode::NotEquals {} => execute_compare(&self.globals, frame, CompareOp::NotEquals),
        }
    }

    /// Executes up to `fuel` instructions, stopping at the first outcome
    /// that needs the host (a call, float work), a fault, or the end of the
    /// program. `Continue` means the fuel ran out.
    pub fn run(&mut self, program: &InstructionSequence, frame: &mut StackFrame, fuel: u64) -> (r: Outcome)
        ensures
            ({
                let t = run_spec(program.ops@, bindings_view(old(self).globals@), old(frame)@, fuel as nat);
                final(frame)@ == t.frame && bindings_view(final(self).globals@) == t.globals && r@ == t.outcome
            }),
            final(self).root_namespace == old(self).root_namespace,
            final(self).state == old(self).state,
    {
        let mut remaining = fuel;
        while remaining > 0
            invariant
                run_spec(program.ops@, bindings_view(old(self).globals@), old(frame)@, fuel as nat)
                    == run_spec(program.ops@, bindings_view(self.globals@), frame@, remaining as nat),
                self.root_namespace == old(self).root_namespace,
                self.state == old(self).state,
            decreases remaining,
        {
            let o = self.step(program, frame);
            remaining = remaining - 1;
            match o {
                Outcome::Continue => {},
                _ => return o,
            }
        }
        Outcome::Continue
    }
}

} // verus!
