//! The value model: scalars, references to variables, and the coercions
//! between them.
use vstd::prelude::*;
use std::collections::HashMap;
use crate::text::{decimal_text, integer_text, parse_integer, parsed_integer};

verus! {

/// Names a variable uniquely: the hash of its lowercase name.
pub type VariableIdentifier = u64;

/// A variable, by scope and identifier.
#[derive(Clone, Copy, Debug, PartialEq, Eq, Structural)]
pub enum VariableReference {
    Global { value: VariableIdentifier },
    Local { value: VariableIdentifier },
}

/// A binary32 float, held as its IEEE-754 bit pattern.
#[derive(Clone, Copy, Debug, PartialEq, Eq, Structural)]
pub struct FloatValue {
    pub bits: u32,
}

#[derive(Clone, Copy, Debug, PartialEq, Eq, Structural)]
pub struct IntegerValue {
    pub value: i32,
}

#[derive(Clone, Debug)]
pub struct StringValue {
    pub value: String,
}

#[derive(Clone, Copy, Debug, PartialEq, Eq, Structural)]
pub struct BooleanValue {
    pub value: bool,
}

/// A fully materialized value.
#[derive(Clone, Debug)]
pub enum RawValue {
    Float(FloatValue),
    Integer(IntegerValue),
    String(StringValue),
    Boolean(BooleanValue),
}

/// The mathematical content of a `RawValue`.
pub enum ValueModel {
    Float(u32),
    Integer(i32),
    Text(Seq<char>),
    Boolean(bool),
}

impl View for RawValue {
    type V = ValueModel;

    open spec fn view(&self) -> ValueModel {
        match self {
            RawValue::Float(f) => ValueModel::Float(f.bits),
            RawValue::Integer(i) => ValueModel::Integer(i.value),
            RawValue::String(s) => ValueModel::Text(s.value@),
            RawValue::Boolean(b) => ValueModel::Boolean(b.value),
        }
    }
}

/// An operand-stack slot: a value, or a reference that is looked up when
/// the value is needed.
#[derive(Clone, Debug)]
pub enum SystemValue {
    Raw { value: RawValue },
    Variable { value: VariableReference },
}

/// The mathematical content of a stack slot.
pub enum SlotModel {
    Value(ValueModel),
    Reference(VariableReference),
}

impl View for SystemValue {
    type V = SlotModel;

    open spec fn view(&self) -> SlotModel {
        match self {
            SystemValue::Raw { value } => SlotModel::Value(value@),
            SystemValue::Variable { value } => SlotModel::Reference(*value),
        }
    }
}

/// The bit pattern of the binary32 value 1.0.
pub const ONE_BITS: u32 = 0x3F80_0000;

/// Bit mask of everything in a binary32 pattern but its sign.
pub const MAGNITUDE_MASK: u32 = 0x7FFF_FFFF;

/// Bit mask of the sign of a binary32 pattern.
pub const SIGN_MASK: u32 = 0x8000_0000;

/// The empty text, which every missing variable reads as.
pub open spec fn empty_text() -> ValueModel {
    ValueModel::Text(Seq::empty())
}

/// Coercion to float, where it needs no float arithmetic: floats are
/// themselves and booleans are 1.0 or 0.0. Integers and texts (`None`) are
/// converted by the host's float unit.
pub open spec fn float_bits_of(v: ValueModel) -> Option<u32> {
    match v {
        ValueModel::Float(bits) => Some(bits),
        ValueModel::Boolean(b) => Some(if b { ONE_BITS } else { 0 }),
        _ => None,
    }
}

/// Coercion to integer: texts are parsed as signed decimals, 0 when that
/// fails; booleans are 1 or 0. Floats (`None`) are truncated by the host.
pub open spec fn integer_of(v: ValueModel) -> Option<i32> {
    match v {
        ValueModel::Integer(i) => Some(i),
        ValueModel::Boolean(b) => Some(if b { 1i32 } else { 0i32 }),
        ValueModel::Text(t) => Some(
            match parsed_integer(t) {
                Some(i) => i,
                None => 0i32,
            },
        ),
        ValueModel::Float(_) => None,
    }
}

/// Whether a binary32 pattern stands for a value other than 0.0 (NaN
/// included).
pub open spec fn float_is_nonzero(bits: u32) -> bool {
    bits & MAGNITUDE_MASK != 0
}

/// Coercion to boolean: non-zero numbers are true. Texts (`None`) are first
/// parsed as floats by the host.
pub open spec fn boolean_of(v: ValueModel) -> Option<bool> {
    match v {
        ValueModel::Boolean(b) => Some(b),
        ValueModel::Integer(i) => Some(i != 0),
        ValueModel::Float(bits) => Some(float_is_nonzero(bits)),
        ValueModel::Text(_) => None,
    }
}

pub open spec fn true_text() -> Seq<char> {
    seq!['t', 'r', 'u', 'e']
}

pub open spec fn false_text() -> Seq<char> {
    seq!['f', 'a', 'l', 's', 'e']
}

/// Coercion to text: integers in decimal, booleans as `true` or `false`.
/// Floats (`None`) are formatted by the host.
pub open spec fn text_of(v: ValueModel) -> Option<Seq<char>> {
    match v {
        ValueModel::Text(t) => Some(t),
        ValueModel::Integer(i) => Some(decimal_text(i as int)),
        ValueModel::Boolean(b) => Some(if b { true_text() } else { false_text() }),
        ValueModel::Float(_) => None,
    }
}

/// The bindings of a scope, as values.
pub open spec fn bindings_view(m: Map<VariableIdentifier, RawValue>) -> Map<VariableIdentifier, ValueModel> {
    m.map_values(|v: RawValue| v@)
}

/// What a variable reads as in a scope: its value, or the empty text.
pub open spec fn binding_or_empty(m: Map<VariableIdentifier, ValueModel>, id: VariableIdentifier) -> ValueModel {
    if m.contains_key(id) {
        m[id]
    } else {
        empty_text()
    }
}

/// What a reference reads as, given the global and the local bindings.
pub open spec fn deref_spec(
    globals: Map<VariableIdentifier, ValueModel>,
    locals: Map<VariableIdentifier, ValueModel>,
    r: VariableReference,
) -> ValueModel {
    match r {
        VariableReference::Global { value } => binding_or_empty(globals, value),
        VariableReference::Local { value } => binding_or_empty(locals, value),
    }
}

/// The value of a stack slot: references are looked up.
pub open spec fn materialize(
    globals: Map<VariableIdentifier, ValueModel>,
    locals: Map<VariableIdentifier, ValueModel>,
    s: SlotModel,
) -> ValueModel {
    match s {
        SlotModel::Value(v) => v,
        SlotModel::Reference(r) => deref_spec(globals, locals, r),
    }
}

/// Arithmetic negation: a float flips its sign, an integer is negated
/// (wrapping at `i32::MIN`), a boolean is inverted; text cannot be negated.
pub open spec fn negated_value(v: ValueModel) -> Option<ValueModel> {
    match v {
        ValueModel::Float(b) => Some(ValueModel::Float(b ^ SIGN_MASK)),
        ValueModel::Integer(i) => Some(ValueModel::Integer(if i == i32::MIN { i } else { -i as i32 })),
        ValueModel::Boolean(b) => Some(ValueModel::Boolean(!b)),
        ValueModel::Text(_) => None,
    }
}

impl RawValue {
    /// Negates the value in place. False, and the value is unchanged, for
    /// text.
    pub fn negate(&mut self) -> (r: bool)
        ensures
            match negated_value(old(self)@) {
                Some(v) => r && final(self)@ == v,
                None => !r && final(self)@ == old(self)@,
            },
    {
        match self {
            RawValue::Float(f) => {
                f.bits = f.bits ^ SIGN_MASK;
                true
            },
            RawValue::Integer(i) => {
                if i.value != i32::MIN {
                    i.value = -i.value;
                }
                true
            },
            RawValue::Boolean(b) => {
                b.value = !b.value;
                true
            },
            RawValue::String(_) => false,
        }
    }

    /// A copy of the value.
    pub fn duplicate(&self) -> (r: RawValue)
        ensures
            r@ == self@,
    {
        match self {
            RawValue::Float(f) => RawValue::Float(*f),
            RawValue::Integer(i) => RawValue::Integer(*i),
            RawValue::String(s) => RawValue::String(StringValue { value: s.value.clone() }),
            RawValue::Boolean(b) => RawValue::Boolean(*b),
        }
    }

    /// The empty text.
    pub fn empty() -> (r: RawValue)
        ensures
            r@ == empty_text(),
    {
        RawValue::String(StringValue { value: String::new() })
    }

    pub fn as_float(&self) -> (r: Option<u32>)
        ensures
            r == float_bits_of(self@),
    {
        match self {
            RawValue::Float(f) => Some(f.bits),
            RawValue::Boolean(b) => Some(if b.value { ONE_BITS } else { 0 }),
            _ => None,
        }
    }

    pub fn as_integer(&self) -> (r: Option<i32>)
        ensures
            r == integer_of(self@),
    {
        match self {
            RawValue::Integer(i) => Some(i.value),
            RawValue::Boolean(b) => Some(if b.value { 1 } else { 0 }),
            RawValue::String(s) => Some(
                match parse_integer(s.value.as_str()) {
                    Some(i) => i,
                    None => 0,
                },
            ),
            RawValue::Float(_) => None,
        }
    }

    pub fn as_boolean(&self) -> (r: Option<bool>)
        ensures
            r == boolean_of(self@),
    {
        match self {
            RawValue::Boolean(b) => Some(b.value),
            RawValue::Integer(i) => Some(i.value != 0),
            RawValue::Float(f) => Some(f.bits & MAGNITUDE_MASK != 0),
            RawValue::String(_) => None,
        }
    }

    pub fn as_string(&self) -> (r: Option<String>)
        ensures
            match r {
                Some(s) => text_of(self@) == Some(s@),
                None => text_of(self@) is None,
            },
    {
        match self {
            RawValue::String(s) => Some(s.value.clone()),
            RawValue::Integer(i) => Some(integer_text(i.value)),
            RawValue::Boolean(b) => {
                if b.value {
                    proof { reveal_strlit("true"); }
                    Some("true".to_owned())
                } else {
                    proof { reveal_strlit("false"); }
                    Some("false".to_owned())
                }
            },
            RawValue::Float(_) => None,
        }
    }
}

impl VariableReference {
    /// Looks the variable up in its scope.
    pub fn deref(
        &self,
        globals: &HashMap<VariableIdentifier, RawValue>,
        locals: &HashMap<VariableIdentifier, RawValue>,
    ) -> (r: Option<RawValue>)
        ensures
            match *self {
                VariableReference::Global { value } => match r {
                    Some(v) => bindings_view(globals@).contains_key(value) && v@ == bindings_view(globals@)[value],
                    None => !globals@.contains_key(value),
                },
                VariableReference::Local { value } => match r {
                    Some(v) => bindings_view(locals@).contains_key(value) && v@ == bindings_view(locals@)[value],
                    None => !locals@.contains_key(value),
                },
            },
    {
        broadcast use vstd::std_specs::hash::group_hash_axioms;
        let table = match self {
            VariableReference::Global { .. } => globals,
            VariableReference::Local { .. } => locals,
        };
        let id = match self {
            VariableReference::Global { value } => *value,
            VariableReference::Local { value } => *value,
        };
        match table.get(&id) {
            Some(v) => Some(v.duplicate()),
            None => None,
        }
    }
}

impl VariableReference {
    /// Binds `rhs` to the variable in its scope.
    pub fn perform_assignment(
        &self,
        globals: &mut HashMap<VariableIdentifier, RawValue>,
        locals: &mut HashMap<VariableIdentifier, RawValue>,
        rhs: RawValue,
    )
        ensures
            match *self {
                VariableReference::Global { value } => bindings_view(final(globals)@) == bindings_view(old(globals)@).insert(value, rhs@)
                    && final(locals)@ == old(locals)@,
                VariableReference::Local { value } => bindings_view(final(locals)@) == bindings_view(old(locals)@).insert(value, rhs@)
                    && final(globals)@ == old(globals)@,
            },
    {
        broadcast use vstd::std_specs::hash::group_hash_axioms;
        let ghost v = rhs@;
        match self {
            VariableReference::Global { value } => {
                globals.insert(*value, rhs);
                proof {
                    assert(bindings_view(globals@) =~= bindings_view(old(globals)@).insert(*value, v));
                }
            },
            VariableReference::Local { value } => {
                locals.insert(*value, rhs);
                proof {
                    assert(bindings_view(locals@) =~= bindings_view(old(locals)@).insert(*value, v));
                }
            },
        }
    }
}

impl SystemValue {
    /// The slot's value: a reference is looked up, and a missing variable
    /// reads as the empty text.
    pub fn as_raw(
        &self,
        globals: &HashMap<VariableIdentifier, RawValue>,
        locals: &HashMap<VariableIdentifier, RawValue>,
    ) -> (r: RawValue)
        ensures
            r@ == materialize(bindings_view(globals@), bindings_view(locals@), self@),
    {
        match self {
            SystemValue::Raw { value } => value.duplicate(),
            SystemValue::Variable { value } => match value.deref(globals, locals) {
                Some(v) => v,
                None => RawValue::empty(),
            },
        }
    }

    /// The reference held by the slot, if it holds one.
    pub fn as_variable(&self) -> (r: Option<VariableReference>)
        ensures
            match self@ {
                SlotModel::Reference(v) => r == Some(v),
                SlotModel::Value(_) => r is None,
            },
    {
        match self {
            SystemValue::Raw { .. } => None,
            SystemValue::Variable { value } => Some(*value),
        }
    }
}

} // verus!
