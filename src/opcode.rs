//! The instruction set, branch addresses, and the byte encoding of an
//! instruction stream.
use vstd::prelude::*;
use bytestream::StreamWriter;
use crate::text::{identifier_of, variable_name_to_identifier};
use crate::value::VariableReference;

verus! {

/// A branch target: an index into the sequence, or an offset from the
/// instruction after the branch.
#[derive(Clone, Copy, Debug, PartialEq, Eq, Structural)]
pub enum AddressValue {
    RelativeOffset { offset: i32 },
    AbsoluteTarget { index: usize },
}

/// The operand of `OpCode::PushFloat`: a binary32 bit pattern.
#[derive(Clone, Copy, Debug, PartialEq, Eq, Structural)]
pub struct PushFloat {
    pub bits: u32,
}

/// The instructions of the machine. Binary operators pop their left-hand
/// side first and their right-hand side second.
#[derive(Clone, Debug)]
pub enum OpCode {
    PushFloat(PushFloat),
    PushInteger { value: i32 },
    PushString { value: String },
    Pop {},
    Jump { target: AddressValue },
    JumpTrue { target: AddressValue },
    JumpFalse { target: AddressValue },
    NOP {},
    Swap {},
    Assignment {},
    Concat {},
    Negate {},
    Not {},
    CallFunction { target: Vec<String> },
    LogicalAnd {},
    LogicalOr {},
    BitwiseAnd {},
    BitwiseOr {},
    Add {},
    Minus {},
    Modulus {},
    Multiply {},
    Divide {},
    LessThan {},
    GreaterThan {},
    GreaterThanOrEqual {},
    Equals {},
    NotEquals {},
    StringEquals {},
    StringNotEqual {},
    PushVariable { variable: VariableReference },
}

/// An ordered program; execution starts at index 0.
pub struct InstructionSequence {
    pub ops: Vec<OpCode>,
}

/// Where a branch leads from a counter that already points past the branch,
/// or `None` when a relative offset leaves the range of `usize`.
pub open spec fn resolve_address(counter: int, address: AddressValue) -> Option<int> {
    match address {
        AddressValue::AbsoluteTarget { index } => Some(index as int),
        AddressValue::RelativeOffset { offset } => {
            let target = counter + offset;
            if 0 <= target <= usize::MAX {
                Some(target)
            } else {
                None
            }
        },
    }
}

/// Moves the counter to the branch target. Returns false, leaving the
/// counter as it was, when the target is out of range.
pub fn process_address(offset_out: &mut usize, address: &AddressValue) -> (r: bool)
    ensures
        match resolve_address(*old(offset_out) as int, *address) {
            Some(t) => r && *final(offset_out) as int == t,
            None => !r && *final(offset_out) == *old(offset_out),
        },
{
    match address {
        AddressValue::AbsoluteTarget { index } => {
            *offset_out = *index;
            true
        },
        AddressValue::RelativeOffset { offset } => {
            if *offset < 0 {
                let back = (0i64 - *offset as i64) as usize;
                if back <= *offset_out {
                    *offset_out = *offset_out - back;
                    true
                } else {
                    false
                }
            } else {
                let forward = *offset as usize;
                if forward <= usize::MAX - *offset_out {
                    *offset_out = *offset_out + forward;
                    true
                } else {
                    false
                }
            }
        },
    }
}

/// The stable name of an instruction's kind.
pub open spec fn opcode_name(op: OpCode) -> &'static str {
    match op {
        OpCode::PushFloat(_) => "PushFloat",
        OpCode::PushInteger { .. } => "PushInteger",
        OpCode::PushString { .. } => "PushString",
        OpCode::Pop {} => "Pop",
        OpCode::Jump { .. } => "Jump",
        OpCode::JumpTrue { .. } => "JumpTrue",
        OpCode::JumpFalse { .. } => "JumpFalse",
        OpCode::NOP {} => "NOP",
        OpCode::Swap {} => "Swap",
        OpCode::Assignment {} => "Assignment",
        OpCode::Concat {} => "Concat",
        OpCode::Negate {} => "Negate",
        OpCode::Not {} => "Not",
        OpCode::CallFunction { .. } => "CallFunction",
        OpCode::LogicalAnd {} => "LogicalAnd",
        OpCode::LogicalOr {} => "LogicalOr",
        OpCode::BitwiseAnd {} => "BitwiseAnd",
        OpCode::BitwiseOr {} => "BitwiseOr",
        OpCode::Add {} => "Add",
        OpCode::Minus {} => "Minus",
        OpCode::Modulus {} => "Modulus",
        OpCode::Multiply {} => "Multiply",
        OpCode::Divide {} => "Divide",
        OpCode::LessThan {} => "LessThan",
        OpCode::GreaterThan {} => "GreaterThan",
        OpCode::GreaterThanOrEqual {} => "GreaterThanOrEqual",
        OpCode::Equals {} => "Equals",
        OpCode::NotEquals {} => "NotEquals",
        OpCode::StringEquals {} => "StringEquals",
        OpCode::StringNotEqual {} => "StringNotEqual",
        OpCode::PushVariable { .. } => "PushVariable",
    }
}

/// The 64-bit tag of an instruction's kind: the identifier of its name.
pub open spec fn opcode_tag(op: OpCode) -> u64 {
    identifier_of(opcode_name(op)@)
}

/// The eight bytes of a value, least significant first.
pub open spec fn le_bytes(v: u64) -> Seq<u8> {
    Seq::new(8, |i: int| ((v >> ((8 * i) as u64)) & 0xff) as u8)
}

/// The encoding of a program: the tag of each instruction, in order.
pub open spec fn encoded_ops(ops: Seq<OpCode>) -> Seq<u8>
    decreases ops.len(),
{
    if ops.len() == 0 {
        Seq::empty()
    } else {
        encoded_ops(ops.drop_last()) + le_bytes(opcode_tag(ops.last()))
    }
}

/// Relies on bytestream's `StreamWriter::write_to` for `u64`: in
/// little-endian order it appends the eight bytes of the value, least
/// significant first (byteorder's `write_u64`); writing into a `Vec<u8>`
/// does not fail.
#[verifier::external_body]
fn write_u64_le(buffer: &mut Vec<u8>, v: u64)
    ensures
        final(buffer)@ == old(buffer)@ + le_bytes(v),
{
    let _ = v.write_to(buffer, bytestream::ByteOrder::LittleEndian);
}

impl OpCode {
    /// The stable name of this instruction's kind.
    pub fn get_type(&self) -> (r: &'static str)
        ensures
            r == opcode_name(*self),
    {
        match self {
            OpCode::PushFloat(_) => "PushFloat",
            OpCode::PushInteger { .. } => "PushInteger",
            OpCode::PushString { .. } => "PushString",
            OpCode::Pop {} => "Pop",
            OpCode::Jump { .. } => "Jump",
            OpCode::JumpTrue { .. } => "JumpTrue",
            OpCode::JumpFalse { .. } => "JumpFalse",
            OpCode::NOP {} => "NOP",
            OpCode::Swap {} => "Swap",
            OpCode::Assignment {} => "Assignment",
            OpCode::Concat {} => "Concat",
            OpCode::Negate {} => "Negate",
            OpCode::Not {} => "Not",
            OpCode::CallFunction { .. } => "CallFunction",
            OpCode::LogicalAnd {} => "LogicalAnd",
            OpCode::LogicalOr {} => "LogicalOr",
            OpCode::BitwiseAnd {} => "BitwiseAnd",
            OpCode::BitwiseOr {} => "BitwiseOr",
            OpCode::Add {} => "Add",
            OpCode::Minus {} => "Minus",
            OpCode::Modulus {} => "Modulus",
            OpCode::Multiply {} => "Multiply",
            OpCode::Divide {} => "Divide",
            OpCode::LessThan {} => "LessThan",
            OpCode::GreaterThan {} => "GreaterThan",
            OpCode::GreaterThanOrEqual {} => "GreaterThanOrEqual",
            OpCode::Equals {} => "Equals",
            OpCode::NotEquals {} => "NotEquals",
            OpCode::StringEquals {} => "StringEquals",
            OpCode::StringNotEqual {} => "StringNotEqual",
            OpCode::PushVariable { .. } => "PushVariable",
        }
    }

    /// The 64-bit tag that prefixes this instruction in an encoded stream.
    pub fn tag(&self) -> (r: u64)
        ensures
            r == opcode_tag(*self),
    {
        variable_name_to_identifier(self.get_type().to_owned())
    }
}

impl InstructionSequence {
    /// Encodes the program: each instruction's tag as eight little-endian
    /// bytes, in program order.
    pub fn serialize(&self) -> (r: Vec<u8>)
        ensures
            r@ == encoded_ops(self.ops@),
    {
        let mut buffer: Vec<u8> = Vec::new();
        let mut i: usize = 0;
        while i < self.ops.len()
            invariant
                i <= self.ops@.len(),
                buffer@ == encoded_ops(self.ops@.subrange(0, i as int)),
            decreases self.ops@.len() - i,
        {
            let tag = self.ops[i].tag();
            write_u64_le(&mut buffer, tag);
            proof {
                assert(self.ops@.subrange(0, i + 1).drop_last() =~= self.ops@.subrange(0, i as int));
            }
            i = i + 1;
        }
        proof {
            assert(self.ops@.subrange(0, i as int) =~= self.ops@);
        }
        buffer
    }
}

} // verus!
