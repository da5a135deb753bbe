//! Laws of the instruction set, proved over the step semantics.
use vstd::prelude::*;
use crate::opcode::{AddressValue, OpCode};
use crate::value::{deref_spec, empty_text, materialize, text_of, SlotModel, ValueModel, VariableIdentifier, VariableReference};
use crate::vm::{execute_spec, run_spec, step_spec, FrameModel, OutcomeModel, RequestModel, Transition};

verus! {

/// The slot that a push instruction puts on the stack.
pub open spec fn pushed_slot(op: OpCode) -> SlotModel {
    match op {
        OpCode::PushFloat(p) => SlotModel::Value(ValueModel::Float(p.bits)),
        OpCode::PushInteger { value } => SlotModel::Value(ValueModel::Integer(value)),
        OpCode::PushString { value } => SlotModel::Value(ValueModel::Text(value@)),
        OpCode::PushVariable { variable } => SlotModel::Reference(variable),
        _ => SlotModel::Value(empty_text()),
    }
}

/// A push of a literal value.
pub open spec fn is_literal_push(op: OpCode) -> bool {
    op is PushFloat || op is PushInteger || op is PushString
}

/// A push of a literal value or of a reference.
pub open spec fn is_push(op: OpCode) -> bool {
    is_literal_push(op) || op is PushVariable
}

/// A push, then `Pop`: the stack, the locals and the globals are as they
/// were, and the counter has moved past both instructions.
pub proof fn law_push_then_pop(program: Seq<OpCode>, g: Map<VariableIdentifier, ValueModel>, f: FrameModel)
    requires
        0 <= f.counter,
        f.counter + 1 < program.len(),
        is_push(program[f.counter]),
        program[f.counter + 1] is Pop,
    ensures
        ({
            let t1 = step_spec(program, g, f);
            let t2 = step_spec(program, t1.globals, t1.frame);
            &&& t1.outcome is Continue
            &&& t2.outcome is Continue
            &&& t2.frame.stack == f.stack
            &&& t2.frame.locals == f.locals
            &&& t2.frame.counter == f.counter + 2
            &&& t2.globals == g
        }),
{
    let t1 = step_spec(program, g, f);
    assert(t1.frame.stack == f.stack.push(pushed_slot(program[f.counter])));
    assert(t1.frame.stack.drop_last() =~= f.stack);
}

/// `PushX(v); PushY(u); Swap` leaves `..., u, v`: the two slots pushed,
/// in exchanged order, on top of the stack as it was.
pub proof fn law_swap(program: Seq<OpCode>, g: Map<VariableIdentifier, ValueModel>, f: FrameModel)
    requires
        0 <= f.counter,
        f.counter + 2 < program.len(),
        is_push(program[f.counter]),
        is_push(program[f.counter + 1]),
        program[f.counter + 2] is Swap,
    ensures
        ({
            let t1 = step_spec(program, g, f);
            let t2 = step_spec(program, t1.globals, t1.frame);
            let t3 = step_spec(program, t2.globals, t2.frame);
            &&& t3.outcome is Continue
            &&& t3.frame.stack == f.stack.push(pushed_slot(program[f.counter + 1])).push(pushed_slot(program[f.counter]))
            &&& t3.frame.counter == f.counter + 3
            &&& t3.globals == g
        }),
{
    let v = pushed_slot(program[f.counter]);
    let u = pushed_slot(program[f.counter + 1]);
    let t2 = step_spec(program, step_spec(program, g, f).globals, step_spec(program, g, f).frame);
    assert(t2.frame.stack == f.stack.push(v).push(u));
    let s = t2.frame.stack;
    assert(s.drop_last().drop_last() =~= f.stack);
}

/// `PushV; PushR; Assignment; Pop`, with `V` a literal and `R` a reference:
/// afterwards `R` reads as the literal's value, and the stack is as it was.
pub proof fn law_assignment(program: Seq<OpCode>, g: Map<VariableIdentifier, ValueModel>, f: FrameModel)
    requires
        0 <= f.counter,
        f.counter + 3 < program.len(),
        is_literal_push(program[f.counter]),
        program[f.counter + 1] is PushVariable,
        program[f.counter + 2] is Assignment,
        program[f.counter + 3] is Pop,
    ensures
        ({
            let r = program[f.counter + 1]->variable;
            let t1 = step_spec(program, g, f);
            let t2 = step_spec(program, t1.globals, t1.frame);
            let t3 = step_spec(program, t2.globals, t2.frame);
            let t4 = step_spec(program, t3.globals, t3.frame);
            &&& t4.outcome is Continue
            &&& SlotModel::Value(deref_spec(t4.globals, t4.frame.locals, r)) == pushed_slot(program[f.counter])
            &&& t4.frame.stack == f.stack
            &&& t4.frame.counter == f.counter + 4
        }),
{
    let v = pushed_slot(program[f.counter]);
    let r = program[f.counter + 1]->variable;
    let t2 = step_spec(program, step_spec(program, g, f).globals, step_spec(program, g, f).frame);
    assert(t2.frame.stack == f.stack.push(v).push(SlotModel::Reference(r)));
    let s = t2.frame.stack;
    assert(s.drop_last().drop_last() =~= f.stack);
    let t3 = step_spec(program, t2.globals, t2.frame);
    assert(t3.frame.stack == f.stack.push(SlotModel::Reference(r)));
    assert(t3.frame.stack.drop_last() =~= f.stack);
}

/// A variable that was never written reads as the empty text, and coerces
/// to the empty string.
pub proof fn law_missing_variable(
    globals: Map<VariableIdentifier, ValueModel>,
    locals: Map<VariableIdentifier, ValueModel>,
    r: VariableReference,
)
    requires
        match r {
            VariableReference::Global { value } => !globals.contains_key(value),
            VariableReference::Local { value } => !locals.contains_key(value),
        },
    ensures
        materialize(globals, locals, SlotModel::Reference(r)) == empty_text(),
        text_of(materialize(globals, locals, SlotModel::Reference(r))) == Some(Seq::<char>::empty()),
{
}

/// Exchanging the two operands of a float arithmetic instruction exchanges
/// the operands that the host is asked to combine, and nothing else.
pub proof fn law_arithmetic_operand_order(
    program: Seq<OpCode>,
    g: Map<VariableIdentifier, ValueModel>,
    f: FrameModel,
    a: ValueModel,
    b: ValueModel,
    op: OpCode,
)
    requires
        op is Add || op is Minus || op is Multiply || op is Divide,
        a is Float || a is Boolean,
        b is Float || b is Boolean,
    ensures
        ({
            let ab = FrameModel { stack: f.stack.push(SlotModel::Value(b)).push(SlotModel::Value(a)), ..f };
            let ba = FrameModel { stack: f.stack.push(SlotModel::Value(a)).push(SlotModel::Value(b)), ..f };
            let o1 = execute_spec(op, g, ab).outcome;
            let o2 = execute_spec(op, g, ba).outcome;
            &&& o1 matches OutcomeModel::Float(RequestModel::Arithmetic { op: k1, lhs: x1, rhs: y1 })
            &&& o2 matches OutcomeModel::Float(RequestModel::Arithmetic { op: k2, lhs: x2, rhs: y2 })
            &&& k1 == k2 && x1 == y2 && y1 == x2
        }),
{
}

/// `Jump(Absolute(k))` moves the counter to `k` and changes nothing else;
/// the next step executes the instruction at `k`.
pub proof fn law_absolute_jump(program: Seq<OpCode>, g: Map<VariableIdentifier, ValueModel>, f: FrameModel, k: usize)
    requires
        0 <= f.counter < program.len(),
        program[f.counter] == (OpCode::Jump { target: AddressValue::AbsoluteTarget { index: k } }),
    ensures
        ({
            let t = step_spec(program, g, f);
            &&& t.outcome is Continue
            &&& t.frame == (FrameModel { counter: k as int, ..f })
            &&& t.globals == g
            &&& (k < program.len() ==> step_spec(program, t.globals, t.frame) == execute_spec(program[k as int], g, t.frame))
        }),
{
}

/// `Jump(Relative(0))` has the effect of `NOP`.
pub proof fn law_relative_jump_zero(g: Map<VariableIdentifier, ValueModel>, f: FrameModel)
    requires
        0 <= f.counter < usize::MAX,
    ensures
        execute_spec(OpCode::Jump { target: AddressValue::RelativeOffset { offset: 0i32 } }, g, f)
            == execute_spec(OpCode::NOP {}, g, f),
{
}

/// `Jump(Relative(-1))` branches to itself: the machine stays on it, with
/// nothing changed, however many steps it runs.
pub proof fn law_relative_jump_back(program: Seq<OpCode>, g: Map<VariableIdentifier, ValueModel>, f: FrameModel, fuel: nat)
    requires
        0 <= f.counter < program.len(),
        f.counter < usize::MAX,
        program[f.counter] == (OpCode::Jump { target: AddressValue::RelativeOffset { offset: -1i32 } }),
    ensures
        step_spec(program, g, f) == (Transition { frame: f, globals: g, outcome: OutcomeModel::Continue }),
        run_spec(program, g, f, fuel) == (Transition { frame: f, globals: g, outcome: OutcomeModel::Continue }),
    decreases fuel,
{
    assert(step_spec(program, g, f).frame =~= f);
    if fuel > 0 {
        law_relative_jump_back(program, g, f, (fuel - 1) as nat);
    }
}

} // verus!
