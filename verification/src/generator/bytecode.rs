//! The bytecode that the generator emits: the growing sequence of
//! instructions, with the addresses of the variables and of the functions.

use std::collections::HashMap;
use vstd::hash_map::StringHashMap;
use vstd::prelude::*;
use vstd::string::*;
use vstd::utf8::*;

use crate::bytecode::code::InstructionCode;
use crate::bytecode::instruction::Instruction;
use crate::bytecode::instruction::InstructionView;
use crate::bytecode::instruction::Operands;
use crate::bytecode::program::fields_encoding;
use crate::bytecode::program::program_encoding;
use crate::bytecode::program::structure_encoding;
use crate::bytecode::program::type_encoding;
use crate::bytecode::program::Program;
use crate::bytecode::wire::text_encoding;
use crate::json::pretty_text;
use crate::json::JsonValue;
use crate::json::JsonView;
use crate::lexical::location::Location;
use crate::semantic::types::Type;

verus! {

broadcast use vstd::std_specs::hash::group_hash_axioms;

/// The name of the function at which a program begins.
pub const FUNCTION_MAIN_IDENTIFIER: &'static str = "main";

/// The bytecode that the target code generator of the compiler emits.
pub struct Bytecode {
    input_fields: Vec<(String, Type)>,
    output_type: Type,
    instructions: Vec<Instruction>,
    data_stack_pointer: usize,
    variable_addresses: StringHashMap<usize>,
    function_addresses: HashMap<usize, usize>,
    current_file: String,
    current_location: Location,
}

/// A function begins at `address`: a file marker stands there, and a
/// function marker after it.
pub open spec fn is_function_start(instructions: Seq<Instruction>, address: int) -> bool {
    &&& 0 <= address
    &&& address + 1 < instructions.len()
    &&& instructions[address]@.code == InstructionCode::FileMarker
    &&& instructions[address + 1]@.code == InstructionCode::FunctionMarker
}

/// The markers that bring the position of the emitter to `location`: the
/// line where it changes, then the column where it changes.
pub open spec fn location_markers(current: Location, location: Option<Location>) -> Seq<
    Instruction,
> {
    match location {
        None => Seq::<Instruction>::empty(),
        Some(location) => (if current.line != location.line {
            seq![Instruction::LineMarker(location.line)]
        } else {
            Seq::<Instruction>::empty()
        }) + (if current.column != location.column {
            seq![Instruction::ColumnMarker(location.column)]
        } else {
            Seq::<Instruction>::empty()
        }),
    }
}

/// The document of the output: that of a structure is its own; any other
/// type is the one member `value` of an object.
pub open spec fn output_document(output: Type) -> JsonView {
    if output is Structure {
        output.template()
    } else {
        JsonView::Object(seq![("value"@, output.template())])
    }
}

/// The bytes of the type of the input: a structure of the input fields.
pub open spec fn input_header(fields: Seq<(String, Type)>) -> Seq<u8> {
    structure_encoding(0, "input"@, fields.len(), fields_encoding(fields, fields.len()))
}

/// The bytes of the type of the output: a structure is written as it is;
/// any other type as the one field `value` of a structure.
pub open spec fn output_header(output: Type) -> Seq<u8> {
    if output is Structure {
        type_encoding(output)
    } else {
        structure_encoding(0, "output"@, 1, text_encoding("value"@) + type_encoding(output))
    }
}

/// The bytes of a document: its text and a line break, as UTF-8.
pub fn document_bytes(text: String) -> (bytes: Vec<u8>)
    ensures
        bytes@ == encode_utf8(text@ + "\n"@),
{
    let mut text = text;
    text.append("\n");
    text.as_str().as_bytes_vec()
}

impl Bytecode {
    /// The instructions emitted so far.
    pub closed spec fn instructions(self) -> Seq<Instruction> {
        self.instructions@
    }

    /// The address at which the next variable is placed.
    pub closed spec fn data_stack_pointer(self) -> usize {
        self.data_stack_pointer
    }

    /// The addresses of the named variables.
    pub closed spec fn variable_addresses(self) -> Map<Seq<char>, usize> {
        self.variable_addresses@
    }

    /// The addresses of the functions, by their unique ids.
    pub closed spec fn function_addresses(self) -> Map<usize, usize> {
        self.function_addresses@
    }

    /// The name of the file that is being compiled.
    pub closed spec fn current_file(self) -> Seq<char> {
        self.current_file@
    }

    /// The position of the last instruction that had one.
    pub closed spec fn current_location(self) -> Location {
        self.current_location
    }

    /// The arguments of the main function.
    pub closed spec fn input_fields(self) -> Seq<(String, Type)> {
        self.input_fields@
    }

    /// The type of the result of the main function.
    pub closed spec fn output_type(self) -> Type {
        self.output_type
    }

    /// The first two instructions are kept for the call of the main function
    /// and for the exit; the call, once it stands there, leads to the
    /// beginning of a function, and so does every address of a function.
    pub open spec fn wf(self) -> bool {
        &&& self.instructions().len() >= 2
        &&& (self.instructions()[0] == Instruction::NoOperation || (self.instructions()[0]
            matches Instruction::Call(address, _) && is_function_start(
            self.instructions(),
            address as int,
        )))
        &&& (self.instructions()[1] == Instruction::NoOperation
            || self.instructions()[1] is Exit)
        &&& forall|unique_id: usize| #[trigger]
            self.function_addresses().contains_key(unique_id) ==> is_function_start(
                self.instructions(),
                self.function_addresses()[unique_id] as int,
            )
    }

    /// Everything but the instructions is as in `other`.
    pub open spec fn same_tables(self, other: Self) -> bool {
        &&& self.data_stack_pointer() == other.data_stack_pointer()
        &&& self.variable_addresses() == other.variable_addresses()
        &&& self.function_addresses() == other.function_addresses()
        &&& self.current_file() == other.current_file()
        &&& self.input_fields() == other.input_fields()
        &&& self.output_type() == other.output_type()
    }

    /// The bytecode of no function: two places for the call of the main
    /// function and for the exit, and nothing else.
    pub fn new() -> (bytecode: Self)
        ensures
            bytecode.wf(),
            bytecode.instructions() == seq![Instruction::NoOperation, Instruction::NoOperation],
            bytecode.data_stack_pointer() == 0,
            bytecode.variable_addresses() == Map::<Seq<char>, usize>::empty(),
            bytecode.function_addresses() == Map::<usize, usize>::empty(),
            bytecode.current_file() == Seq::<char>::empty(),
            bytecode.current_location() == (Location { line: 1, column: 1 }),
            bytecode.input_fields() == Seq::<(String, Type)>::empty(),
            bytecode.output_type() matches Type::Structure { fields, .. } && fields@.len() == 0,
    {
        let mut instructions: Vec<Instruction> = Vec::new();
        instructions.push(Instruction::NoOperation);
        instructions.push(Instruction::NoOperation);
        let bytecode = Bytecode {
            input_fields: Vec::new(),
            output_type: Type::empty_structure(),
            instructions,
            data_stack_pointer: 0,
            variable_addresses: StringHashMap::new(),
            function_addresses: HashMap::new(),
            current_file: String::new(),
            current_location: Location::new_beginning(),
        };
        assert(bytecode.instructions() =~= seq![Instruction::NoOperation, Instruction::NoOperation]);
        bytecode
    }

    /// Begins the compilation of the file with the given name.
    pub fn start_new_file(&mut self, name: &str)
        ensures
            final(self).current_file() == name@,
            final(self).instructions() == old(self).instructions(),
            final(self).data_stack_pointer() == old(self).data_stack_pointer(),
            final(self).variable_addresses() == old(self).variable_addresses(),
            final(self).function_addresses() == old(self).function_addresses(),
            final(self).current_location() == old(self).current_location(),
            final(self).input_fields() == old(self).input_fields(),
            final(self).output_type() == old(self).output_type(),
            old(self).wf() ==> final(self).wf(),
    {
        self.current_file = name.to_owned();
    }

    /// Appends the two markers that begin a function.
    fn push_function_markers(&mut self, identifier: String)
        ensures
            final(self).instructions().len() == old(self).instructions().len() + 2,
            final(self).instructions().subrange(0, old(self).instructions().len() as int) == old(
                self,
            ).instructions(),
            final(self).instructions()[old(self).instructions().len() as int]@ == (InstructionView {
                code: InstructionCode::FileMarker,
                operands: Operands::Text(old(self).current_file()),
            }),
            final(self).instructions()[old(self).instructions().len() as int + 1]@ == (InstructionView {
                code: InstructionCode::FunctionMarker,
                operands: Operands::Text(identifier@),
            }),
            is_function_start(final(self).instructions(), old(self).instructions().len() as int),
            final(self).same_tables(*old(self)),
            final(self).current_location() == old(self).current_location(),
    {
        self.instructions.push(Instruction::FileMarker(self.current_file.clone()));
        self.instructions.push(Instruction::FunctionMarker(identifier));
        assert(self.instructions@.subrange(0, old(self).instructions@.len() as int) =~= old(
            self,
        ).instructions@);
    }

    /// Begins a function: its address is that of the next instruction, its
    /// frame is empty, and its two markers are emitted.
    pub fn start_function(&mut self, unique_id: usize, identifier: String)
        requires
            old(self).wf(),
        ensures
            final(self).wf(),
            final(self).instructions().len() == old(self).instructions().len() + 2,
            final(self).instructions().subrange(0, old(self).instructions().len() as int) == old(
                self,
            ).instructions(),
            final(self).instructions()[old(self).instructions().len() as int]@ == (InstructionView {
                code: InstructionCode::FileMarker,
                operands: Operands::Text(old(self).current_file()),
            }),
            final(self).instructions()[old(self).instructions().len() as int + 1]@ == (InstructionView {
                code: InstructionCode::FunctionMarker,
                operands: Operands::Text(identifier@),
            }),
            final(self).function_addresses() == old(self).function_addresses().insert(
                unique_id,
                old(self).instructions().len() as usize,
            ),
            final(self).data_stack_pointer() == 0,
            final(self).variable_addresses() == old(self).variable_addresses(),
            final(self).current_file() == old(self).current_file(),
            final(self).current_location() == old(self).current_location(),
            final(self).input_fields() == old(self).input_fields(),
            final(self).output_type() == old(self).output_type(),
    {
        let address = self.instructions.len();
        self.function_addresses.insert(unique_id, address);
        self.data_stack_pointer = 0;
        self.push_function_markers(identifier);
        proof {
            let before = old(self).instructions();
            let after = self.instructions();
            assert forall|id: usize| #[trigger]
                self.function_addresses().contains_key(id) implies is_function_start(
                after,
                self.function_addresses()[id] as int,
            ) by {
                if id != unique_id {
                    let at = old(self).function_addresses()[id] as int;
                    assert(old(self).function_addresses().contains_key(id));
                    assert(is_function_start(before, at));
                    assert(after[at] == after.subrange(0, before.len() as int)[at]);
                    assert(after[at + 1] == after.subrange(0, before.len() as int)[at + 1]);
                }
            }
            assert(after[0] == after.subrange(0, before.len() as int)[0]);
            assert(after[1] == after.subrange(0, before.len() as int)[1]);
            if before[0] != Instruction::NoOperation {
                let at = before[0]->Call_0 as int;
                assert(after[at] == after.subrange(0, before.len() as int)[at]);
                assert(after[at + 1] == after.subrange(0, before.len() as int)[at + 1]);
            }
        }
    }

    /// Begins the main function: as `start_function`, and the first two
    /// instructions become the call of the main function with the size of
    /// its arguments, and the exit with the size of its result.
    pub fn start_main_function(
        &mut self,
        unique_id: usize,
        input_arguments: Vec<(String, Type)>,
        output_type: Option<Type>,
    )
        requires
            old(self).wf(),
            Type::fields_sum(input_arguments@, input_arguments@.len()) <= usize::MAX,
            output_type matches Some(kind) ==> kind.spec_size() <= usize::MAX,
        ensures
            final(self).wf(),
            final(self).instructions().len() == old(self).instructions().len() + 2,
            final(self).instructions()[0] == Instruction::Call(
                old(self).instructions().len() as usize,
                Type::fields_sum(input_arguments@, input_arguments@.len()) as usize,
            ),
            final(self).instructions()[1] == Instruction::Exit(
                match output_type {
                    Some(kind) => kind.spec_size() as usize,
                    None => 0usize,
                },
            ),
            final(self).instructions().subrange(2, old(self).instructions().len() as int) == old(
                self,
            ).instructions().subrange(2, old(self).instructions().len() as int),
            final(self).instructions()[old(self).instructions().len() as int]@ == (InstructionView {
                code: InstructionCode::FileMarker,
                operands: Operands::Text(old(self).current_file()),
            }),
            final(self).instructions()[old(self).instructions().len() as int + 1]@ == (InstructionView {
                code: InstructionCode::FunctionMarker,
                operands: Operands::Text("main"@),
            }),
            final(self).function_addresses() == old(self).function_addresses().insert(
                unique_id,
                old(self).instructions().len() as usize,
            ),
            final(self).data_stack_pointer() == 0,
            final(self).variable_addresses() == old(self).variable_addresses(),
            final(self).current_file() == old(self).current_file(),
            final(self).current_location() == old(self).current_location(),
            final(self).input_fields() == input_arguments@,
            match output_type {
                Some(kind) => final(self).output_type() == kind,
                None => final(self).output_type() matches Type::Structure { fields, .. }
                    && fields@.len() == 0,
            },
    {
        let mut input_size: usize = 0;
        let mut i: usize = 0;
        while i < input_arguments.len()
            invariant
                i <= input_arguments@.len(),
                input_size == Type::fields_sum(input_arguments@, i as nat),
                Type::fields_sum(input_arguments@, input_arguments@.len()) <= usize::MAX,
            decreases input_arguments@.len() - i,
        {
            proof {
                Type::lemma_fields_sum_bounds(input_arguments@, input_arguments@.len(), i as int);
            }
            input_size = input_size + input_arguments[i].1.size();
            i += 1;
        }
        let output_size = match &output_type {
            Some(kind) => kind.size(),
            None => 0,
        };

        self.input_fields = input_arguments;
        self.output_type = match output_type {
            Some(kind) => kind,
            None => Type::empty_structure(),
        };

        let address = self.instructions.len();
        self.function_addresses.insert(unique_id, address);
        self.instructions.set(0, Instruction::Call(address, input_size));
        self.instructions.set(1, Instruction::Exit(output_size));
        self.data_stack_pointer = 0;
        let ghost middle = self.instructions@;
        self.push_function_markers(String::from_str(FUNCTION_MAIN_IDENTIFIER));
        proof {
            let before = old(self).instructions();
            let after = self.instructions();
            let length = before.len() as int;
            assert(after.subrange(0, length) == middle);
            assert forall|k: int| 2 <= k < length implies after[k] == before[k] by {
                assert(after[k] == after.subrange(0, length)[k]);
            }
            assert(after.subrange(2, length) =~= before.subrange(2, length));
            assert(after[0] == after.subrange(0, length)[0]);
            assert(after[1] == after.subrange(0, length)[1]);
            assert forall|id: usize| #[trigger]
                self.function_addresses().contains_key(id) implies is_function_start(
                after,
                self.function_addresses()[id] as int,
            ) by {
                if id != unique_id {
                    let at = old(self).function_addresses()[id] as int;
                    assert(old(self).function_addresses().contains_key(id));
                    assert(is_function_start(before, at));
                    assert(before[at]@.code == InstructionCode::FileMarker);
                    assert(at >= 2);
                }
            }
        }
    }

    /// Reserves the cells of a variable of the given type at the data stack
    /// pointer, and gives the address of the first. A name is bound to that
    /// address.
    pub fn declare_variable(&mut self, identifier: Option<String>, kind: Type) -> (address: usize)
        requires
            old(self).data_stack_pointer() + kind.spec_size() <= usize::MAX,
        ensures
            address == old(self).data_stack_pointer(),
            final(self).data_stack_pointer() == old(self).data_stack_pointer() + kind.spec_size(),
            final(self).variable_addresses() == match identifier {
                Some(name) => old(self).variable_addresses().insert(
                    name@,
                    old(self).data_stack_pointer(),
                ),
                None => old(self).variable_addresses(),
            },
            final(self).instructions() == old(self).instructions(),
            final(self).function_addresses() == old(self).function_addresses(),
            final(self).current_file() == old(self).current_file(),
            final(self).current_location() == old(self).current_location(),
            final(self).input_fields() == old(self).input_fields(),
            final(self).output_type() == old(self).output_type(),
            old(self).wf() ==> final(self).wf(),
    {
        let start_address = self.data_stack_pointer;
        if let Some(identifier) = identifier {
            self.variable_addresses.insert(identifier, start_address);
        }
        self.data_stack_pointer = self.data_stack_pointer + kind.size();
        proof {
            if old(self).wf() {
                assert forall|id: usize| #[trigger]
                    self.function_addresses().contains_key(id) implies is_function_start(
                    self.instructions(),
                    self.function_addresses()[id] as int,
                ) by {
                    assert(old(self).function_addresses().contains_key(id));
                }
            }
        }
        start_address
    }

    /// Emits an instruction. Where it comes with a position that differs
    /// from the last one, the line and the column that changed are marked
    /// before it.
    pub fn push_instruction(&mut self, instruction: Instruction, location: Option<Location>)
        requires
            old(self).wf(),
        ensures
            final(self).wf(),
            final(self).instructions() == old(self).instructions() + location_markers(
                old(self).current_location(),
                location,
            ) + seq![instruction],
            final(self).current_location() == match location {
                Some(location) => location,
                None => old(self).current_location(),
            },
            final(self).same_tables(*old(self)),
    {
        if let Some(location) = location {
            if self.current_location != location {
                if self.current_location.line != location.line {
                    self.instructions.push(Instruction::LineMarker(location.line));
                }
                if self.current_location.column != location.column {
                    self.instructions.push(Instruction::ColumnMarker(location.column));
                }
                self.current_location = location;
            }
        }
        self.instructions.push(instruction);
        proof {
            let before = old(self).instructions();
            let after = self.instructions();
            assert(after =~= before + location_markers(old(self).current_location(), location)
                + seq![instruction]);
            assert forall|id: usize| #[trigger]
                self.function_addresses().contains_key(id) implies is_function_start(
                after,
                self.function_addresses()[id] as int,
            ) by {
                assert(old(self).function_addresses().contains_key(id));
                assert(is_function_start(before, old(self).function_addresses()[id] as int));
            }
        }
    }

    /// The address at which the next variable is placed.
    pub fn get_data_stack_pointer(&self) -> (address: usize)
        ensures
            address == self.data_stack_pointer(),
    {
        self.data_stack_pointer
    }

    /// The address of the function with the given id, if it has begun.
    pub fn get_function_address(&self, unique_id: usize) -> (address: Option<usize>)
        ensures
            address == if self.function_addresses().contains_key(unique_id) {
                Some(self.function_addresses()[unique_id])
            } else {
                None
            },
    {
        match self.function_addresses.get(&unique_id) {
            Some(address) => Some(*address),
            None => None,
        }
    }

    /// The address of the variable with the given name, if it is declared.
    pub fn get_variable_address(&self, name: &str) -> (address: Option<usize>)
        ensures
            address == if self.variable_addresses().contains_key(name@) {
                Some(self.variable_addresses()[name@])
            } else {
                None
            },
    {
        match self.variable_addresses.get(name) {
            Some(address) => Some(*address),
            None => None,
        }
    }

    /// The document that the host fills in with the input: an object with
    /// a member for each argument of the main function, as pretty JSON with
    /// a line break after it.
    pub fn input_template_bytes(&self) -> (bytes: Vec<u8>)
        ensures
            bytes@ == encode_utf8(
                pretty_text(
                    JsonView::Object(
                        Type::field_templates(self.input_fields(), self.input_fields().len()),
                    ),
                ) + "\n"@,
            ),
    {
        let document = Type::fields_template(&self.input_fields);
        document_bytes(document.to_string_pretty())
    }

    /// The document that the machine fills in with the output, as pretty
    /// JSON with a line break after it.
    pub fn output_template_bytes(&self) -> (bytes: Vec<u8>)
        ensures
            bytes@ == encode_utf8(pretty_text(output_document(self.output_type())) + "\n"@),
    {
        let document = match &self.output_type {
            Type::Structure { .. } => self.output_type.to_template(),
            _ => {
                let mut members: Vec<(String, JsonValue)> = Vec::new();
                let member = (String::from_str("value"), self.output_type.to_template());
                proof {
                    JsonValue::lemma_members_model_push(members@, member);
                }
                members.push(member);
                let document = JsonValue::Object(members);
                assert(document@ =~= output_document(self.output_type)) by {
                    assert(JsonValue::members_model(members@, 1) =~= seq![
                        ("value"@, self.output_type.template()),
                    ]);
                }
                document
            },
        };
        document_bytes(document.to_string_pretty())
    }

    /// The bytes of the program: the types of the input and of the output,
    /// and the instructions.
    pub fn into_bytes(self) -> (bytes: Vec<u8>)
        ensures
            bytes@ == program_encoding(
                input_header(self.input_fields()),
                output_header(self.output_type()),
                self.instructions(),
            ),
    {
        let ghost fields = self.input_fields@;
        let ghost output = self.output_type;
        let input = Self::input_types_as_struct(self.input_fields);
        let output_structure = match self.output_type {
            Type::Structure { unique_id, identifier, fields } => Type::Structure {
                unique_id,
                identifier,
                fields,
            },
            kind => {
                let mut fields: Vec<(String, Type)> = Vec::new();
                fields.push((String::from_str("value"), kind));
                assert(fields_encoding(fields@, 1) =~= text_encoding("value"@) + type_encoding(
                    kind,
                )) by {
                    assert(fields_encoding(fields@, 0) =~= Seq::<u8>::empty());
                }
                Type::Structure { unique_id: 0, identifier: String::from_str("output"), fields }
            },
        };
        assert(type_encoding(output_structure) == output_header(output));
        let program = Program::new(input, output_structure, self.instructions);
        program.to_bytes()
    }

    /// The type of the input: the structure of the arguments of the main
    /// function.
    fn input_types_as_struct(input_fields: Vec<(String, Type)>) -> (kind: Type)
        ensures
            type_encoding(kind) == input_header(input_fields@),
    {
        Type::Structure { unique_id: 0, identifier: String::from_str("input"), fields: input_fields }
    }

    /// The instructions of the bytecode.
    pub fn into_instructions(self) -> (instructions: Vec<Instruction>)
        ensures
            instructions@ == self.instructions(),
    {
        self.instructions
    }
}

impl Default for Bytecode {
    fn default() -> (bytecode: Self)
        ensures
            bytecode.wf(),
            bytecode.instructions() == seq![Instruction::NoOperation, Instruction::NoOperation],
            bytecode.data_stack_pointer() == 0,
            bytecode.variable_addresses() == Map::<Seq<char>, usize>::empty(),
            bytecode.function_addresses() == Map::<usize, usize>::empty(),
            bytecode.current_file() == Seq::<char>::empty(),
            bytecode.current_location() == (Location { line: 1, column: 1 }),
            bytecode.input_fields() == Seq::<(String, Type)>::empty(),
            bytecode.output_type() matches Type::Structure { fields, .. } && fields@.len() == 0,
    {
        Self::new()
    }
}

} // verus!
