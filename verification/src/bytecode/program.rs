//! The program: the types of its input and output, and its instructions.
//!
//! A program is written as a header, the bytes of the input type and of the
//! output type, after the header's length; then the number of instructions
//! and the bytes of each. A type is written as a tag and its parts.

use vstd::prelude::*;
use vstd::string::*;

use crate::bytecode::instruction::Instruction;
use crate::bytecode::wire::append_bytes;
use crate::bytecode::wire::text_encoding;
use crate::bytecode::wire::u32_le;
use crate::bytecode::wire::write_text;
use crate::bytecode::wire::write_u32_le;
use crate::semantic::types::Type;

verus! {

broadcast use {
    vstd::std_specs::vec::axiom_vec_index_decreases,
    vstd::std_specs::vec::axiom_vec_decreases_to_view,
};

/// The tag of the unit type.
pub const TAG_UNIT: u8 = 0;

/// The tag of the boolean type.
pub const TAG_BOOLEAN: u8 = 1;

/// The tag of the unsigned integer types.
pub const TAG_INTEGER_UNSIGNED: u8 = 2;

/// The tag of the signed integer types.
pub const TAG_INTEGER_SIGNED: u8 = 3;

/// The tag of the field type.
pub const TAG_FIELD: u8 = 4;

/// The tag of the array types.
pub const TAG_ARRAY: u8 = 5;

/// The tag of the tuple types.
pub const TAG_TUPLE: u8 = 6;

/// The tag of the structure types.
pub const TAG_STRUCTURE: u8 = 7;

/// The tag of the enumeration types.
pub const TAG_ENUMERATION: u8 = 8;

/// The bytes of a structure type with the given parts, the bytes of its
/// fields given.
pub open spec fn structure_encoding(
    unique_id: nat,
    identifier: Seq<char>,
    count: nat,
    fields: Seq<u8>,
) -> Seq<u8> {
    seq![TAG_STRUCTURE] + u32_le(unique_id) + text_encoding(identifier) + u32_le(count) + fields
}

/// The bytes of a type.
pub open spec fn type_encoding(kind: Type) -> Seq<u8>
    decreases kind,
{
    match kind {
        Type::Unit => seq![TAG_UNIT],
        Type::Boolean => seq![TAG_BOOLEAN],
        Type::IntegerUnsigned { bitlength } => seq![TAG_INTEGER_UNSIGNED] + u32_le(
            bitlength as nat,
        ),
        Type::IntegerSigned { bitlength } => seq![TAG_INTEGER_SIGNED] + u32_le(bitlength as nat),
        Type::Field => seq![TAG_FIELD],
        Type::Array { element, size } => seq![TAG_ARRAY] + u32_le(size as nat) + type_encoding(
            *element,
        ),
        Type::Tuple { types } => seq![TAG_TUPLE] + u32_le(types@.len()) + types_encoding(
            types@,
            types@.len(),
        ),
        Type::Structure { unique_id, identifier, fields } => structure_encoding(
            unique_id as nat,
            identifier@,
            fields@.len(),
            fields_encoding(fields@, fields@.len()),
        ),
        Type::Enumeration { unique_id, identifier, bitlength } => seq![TAG_ENUMERATION] + u32_le(
            unique_id as nat,
        ) + text_encoding(identifier@) + u32_le(bitlength as nat),
    }
}

/// The bytes of the first `count` types.
pub open spec fn types_encoding(types: Seq<Type>, count: nat) -> Seq<u8>
    decreases types, count,
{
    if count == 0 || count > types.len() {
        Seq::<u8>::empty()
    } else {
        types_encoding(types, (count - 1) as nat) + type_encoding(types[count - 1])
    }
}

/// The bytes of the first `count` fields: the name and the type of each.
pub open spec fn fields_encoding(fields: Seq<(String, Type)>, count: nat) -> Seq<u8>
    decreases fields, count,
{
    if count == 0 || count > fields.len() {
        Seq::<u8>::empty()
    } else {
        fields_encoding(fields, (count - 1) as nat) + text_encoding(fields[count - 1].0@)
            + type_encoding(fields[count - 1].1)
    }
}

/// The bytes of the first `count` instructions.
pub open spec fn instructions_encoding(instructions: Seq<Instruction>, count: nat) -> Seq<u8>
    decreases count,
{
    if count == 0 || count > instructions.len() {
        Seq::<u8>::empty()
    } else {
        instructions_encoding(instructions, (count - 1) as nat) + instructions[count - 1]@.encoding()
    }
}

/// The bytes of a program, the bytes of its two types given.
pub open spec fn program_encoding(
    input: Seq<u8>,
    output: Seq<u8>,
    instructions: Seq<Instruction>,
) -> Seq<u8> {
    u32_le((input + output).len()) + input + output + u32_le(instructions.len())
        + instructions_encoding(instructions, instructions.len())
}

/// Appends the bytes of the fields of a structure to `bytes`.
pub fn write_fields(bytes: &mut Vec<u8>, fields: &Vec<(String, Type)>)
    ensures
        final(bytes)@ == old(bytes)@ + fields_encoding(fields@, fields@.len()),
    decreases fields, 0nat,
{
    let mut i: usize = 0;
    assert(bytes@ =~= old(bytes)@ + fields_encoding(fields@, 0));
    while i < fields.len()
        invariant
            i <= fields@.len(),
            bytes@ == old(bytes)@ + fields_encoding(fields@, i as nat),
        decreases fields@.len() - i,
    {
        let ghost before = bytes@;
        write_text(bytes, fields[i].0.as_str());
        write_type(bytes, &fields[i].1);
        i += 1;
        assert(bytes@ =~= old(bytes)@ + fields_encoding(fields@, i as nat));
    }
}

/// Appends the bytes of a type to `bytes`.
pub fn write_type(bytes: &mut Vec<u8>, kind: &Type)
    ensures
        final(bytes)@ == old(bytes)@ + type_encoding(*kind),
    decreases kind, 1nat,
{
    match kind {
        Type::Unit => {
            bytes.push(TAG_UNIT);
        },
        Type::Boolean => {
            bytes.push(TAG_BOOLEAN);
        },
        Type::IntegerUnsigned { bitlength } => {
            bytes.push(TAG_INTEGER_UNSIGNED);
            write_u32_le(bytes, *bitlength);
        },
        Type::IntegerSigned { bitlength } => {
            bytes.push(TAG_INTEGER_SIGNED);
            write_u32_le(bytes, *bitlength);
        },
        Type::Field => {
            bytes.push(TAG_FIELD);
        },
        Type::Array { element, size } => {
            bytes.push(TAG_ARRAY);
            write_u32_le(bytes, *size);
            write_type(bytes, element);
        },
        Type::Tuple { types } => {
            bytes.push(TAG_TUPLE);
            write_u32_le(bytes, types.len());
            let ghost start = bytes@;
            let mut i: usize = 0;
            assert(bytes@ =~= start + types_encoding(types@, 0));
            while i < types.len()
                invariant
                    i <= types@.len(),
                    bytes@ == start + types_encoding(types@, i as nat),
                    forall|j: int| 0 <= j < types@.len() ==> decreases_to!(kind => types@[j]),
                decreases types@.len() - i,
            {
                write_type(bytes, &types[i]);
                i += 1;
                assert(bytes@ =~= start + types_encoding(types@, i as nat));
            }
        },
        Type::Structure { unique_id, identifier, fields } => {
            bytes.push(TAG_STRUCTURE);
            write_u32_le(bytes, *unique_id);
            write_text(bytes, identifier.as_str());
            write_u32_le(bytes, fields.len());
            write_fields(bytes, fields);
        },
        Type::Enumeration { unique_id, identifier, bitlength } => {
            bytes.push(TAG_ENUMERATION);
            write_u32_le(bytes, *unique_id);
            write_text(bytes, identifier.as_str());
            write_u32_le(bytes, *bitlength);
        },
    }
    assert(bytes@ =~= old(bytes)@ + type_encoding(*kind));
}

/// Appends the bytes of the instructions to `bytes`.
pub fn write_instructions(bytes: &mut Vec<u8>, instructions: &Vec<Instruction>)
    ensures
        final(bytes)@ == old(bytes)@ + instructions_encoding(instructions@, instructions@.len()),
{
    let mut i: usize = 0;
    assert(bytes@ =~= old(bytes)@ + instructions_encoding(instructions@, 0));
    while i < instructions.len()
        invariant
            i <= instructions@.len(),
            bytes@ == old(bytes)@ + instructions_encoding(instructions@, i as nat),
        decreases instructions@.len() - i,
    {
        let encoded = instructions[i].encode();
        append_bytes(bytes, encoded.as_slice());
        i += 1;
        assert(bytes@ =~= old(bytes)@ + instructions_encoding(instructions@, i as nat));
    }
}

/// A program of the virtual machine.
#[derive(Debug, PartialEq, Eq)]
pub struct Program {
    pub input: Type,
    pub output: Type,
    pub instructions: Vec<Instruction>,
}

impl Program {
    /// The program with the given types and instructions.
    pub fn new(input: Type, output: Type, instructions: Vec<Instruction>) -> (program: Self)
        ensures
            program.input == input,
            program.output == output,
            program.instructions == instructions,
    {
        Program { input, output, instructions }
    }

    /// The bytes of the program.
    pub fn to_bytes(&self) -> (bytes: Vec<u8>)
        ensures
            bytes@ == program_encoding(
                type_encoding(self.input),
                type_encoding(self.output),
                self.instructions@,
            ),
    {
        let mut header: Vec<u8> = Vec::new();
        write_type(&mut header, &self.input);
        write_type(&mut header, &self.output);
        let mut bytes: Vec<u8> = Vec::new();
        write_u32_le(&mut bytes, header.len());
        append_bytes(&mut bytes, header.as_slice());
        write_u32_le(&mut bytes, self.instructions.len());
        write_instructions(&mut bytes, &self.instructions);
        assert(header@ =~= type_encoding(self.input) + type_encoding(self.output));
        assert(bytes@ =~= program_encoding(
            type_encoding(self.input),
            type_encoding(self.output),
            self.instructions@,
        ));
        bytes
    }
}

} // verus!
