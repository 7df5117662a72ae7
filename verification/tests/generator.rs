use zinc::bytecode::instruction::Instruction;
use zinc::generator::bytecode::Bytecode;
use zinc::lexical::location::Location;
use zinc::semantic::types::Type;

#[test]
fn new_bytecode_keeps_two_places() {
    let bytecode = Bytecode::new();
    assert_eq!(bytecode.get_function_address(0), None);
    assert_eq!(bytecode.get_variable_address("x"), None);
    assert_eq!(
        bytecode.into_instructions(),
        vec![Instruction::NoOperation, Instruction::NoOperation]
    );
    assert_eq!(
        Bytecode::default().into_instructions(),
        vec![Instruction::NoOperation, Instruction::NoOperation]
    );
}

#[test]
fn functions_begin_with_their_markers() {
    let mut bytecode = Bytecode::new();
    bytecode.start_new_file("lib.zn");
    bytecode.start_function(7, "helper".to_owned());
    bytecode.push_instruction(Instruction::Return(0), None);
    bytecode.start_new_file("main.zn");
    bytecode.start_main_function(
        8,
        vec![
            ("x".to_owned(), Type::IntegerUnsigned { bitlength: 8 }),
            ("pair".to_owned(), Type::Tuple { types: vec![Type::Field, Type::Boolean] }),
        ],
        Some(Type::Array { element: Box::new(Type::Field), size: 4 }),
    );
    assert_eq!(bytecode.get_function_address(7), Some(2));
    assert_eq!(bytecode.get_function_address(8), Some(5));
    assert_eq!(bytecode.get_function_address(9), None);
    assert_eq!(
        bytecode.into_instructions(),
        vec![
            Instruction::Call(5, 3),
            Instruction::Exit(4),
            Instruction::FileMarker("lib.zn".to_owned()),
            Instruction::FunctionMarker("helper".to_owned()),
            Instruction::Return(0),
            Instruction::FileMarker("main.zn".to_owned()),
            Instruction::FunctionMarker("main".to_owned()),
        ]
    );
}

#[test]
fn main_function_without_result() {
    let mut bytecode = Bytecode::new();
    bytecode.start_main_function(1, vec![], None);
    assert_eq!(
        bytecode.into_instructions(),
        vec![
            Instruction::Call(2, 0),
            Instruction::Exit(0),
            Instruction::FileMarker(String::new()),
            Instruction::FunctionMarker("main".to_owned()),
        ]
    );
}

#[test]
fn variables_take_the_cells_of_their_types() {
    let mut bytecode = Bytecode::new();
    bytecode.start_function(1, "f".to_owned());
    assert_eq!(bytecode.declare_variable(Some("a".to_owned()), Type::Field), 0);
    assert_eq!(
        bytecode.declare_variable(
            Some("b".to_owned()),
            Type::Array { element: Box::new(Type::Boolean), size: 16 }
        ),
        1
    );
    assert_eq!(bytecode.get_data_stack_pointer(), 17);
    assert_eq!(bytecode.declare_variable(None, Type::Unit), 17);
    assert_eq!(bytecode.declare_variable(Some("c".to_owned()), Type::Boolean), 17);
    assert_eq!(bytecode.get_variable_address("a"), Some(0));
    assert_eq!(bytecode.get_variable_address("b"), Some(1));
    assert_eq!(bytecode.get_variable_address("c"), Some(17));
    assert_eq!(bytecode.get_variable_address("d"), None);
    // A new function begins with an empty frame, and a name can be bound anew.
    bytecode.start_function(2, "g".to_owned());
    assert_eq!(bytecode.declare_variable(Some("a".to_owned()), Type::Field), 0);
    assert_eq!(bytecode.get_variable_address("a"), Some(0));
    assert_eq!(bytecode.declare_variable(Some("a".to_owned()), Type::Field), 1);
    assert_eq!(bytecode.get_variable_address("a"), Some(1));
}

#[test]
fn positions_are_marked_where_they_change() {
    let mut bytecode = Bytecode::new();
    bytecode.push_instruction(Instruction::Add, Some(Location::new(1, 1)));
    bytecode.push_instruction(Instruction::Mul, Some(Location::new(1, 5)));
    bytecode.push_instruction(Instruction::Div, Some(Location::new(2, 5)));
    bytecode.push_instruction(Instruction::Rem, None);
    bytecode.push_instruction(Instruction::Not, Some(Location::new(3, 9)));
    bytecode.push_instruction(Instruction::And, Some(Location::new(3, 9)));
    assert_eq!(
        bytecode.into_instructions(),
        vec![
            Instruction::NoOperation,
            Instruction::NoOperation,
            Instruction::Add,
            Instruction::ColumnMarker(5),
            Instruction::Mul,
            Instruction::LineMarker(2),
            Instruction::Div,
            Instruction::Rem,
            Instruction::LineMarker(3),
            Instruction::ColumnMarker(9),
            Instruction::Not,
            Instruction::And,
        ]
    );
}

#[test]
fn input_template_lists_the_arguments() {
    let mut bytecode = Bytecode::new();
    bytecode.start_main_function(
        1,
        vec![
            ("y".to_owned(), Type::IntegerUnsigned { bitlength: 8 }),
            ("flag".to_owned(), Type::Boolean),
            ("bits".to_owned(), Type::Array { element: Box::new(Type::Boolean), size: 2 }),
            (
                "point".to_owned(),
                Type::Structure {
                    unique_id: 5,
                    identifier: "Point".to_owned(),
                    fields: vec![("x".to_owned(), Type::Field), ("a".to_owned(), Type::Unit)],
                },
            ),
        ],
        Some(Type::IntegerUnsigned { bitlength: 8 }),
    );
    let expected = "{\n  \"y\": \"0\",\n  \"flag\": false,\n  \"bits\": [\n    false,\n    false\n  ],\n  \"point\": {\n    \"x\": \"0\",\n    \"a\": []\n  }\n}\n";
    assert_eq!(String::from_utf8(bytecode.input_template_bytes()).unwrap(), expected);
    assert_eq!(
        String::from_utf8(bytecode.output_template_bytes()).unwrap(),
        "{\n  \"value\": \"0\"\n}\n"
    );
}

#[test]
fn templates_of_a_program_without_input_and_output() {
    let bytecode = Bytecode::new();
    assert_eq!(String::from_utf8(bytecode.input_template_bytes()).unwrap(), "{}\n");
    assert_eq!(String::from_utf8(bytecode.output_template_bytes()).unwrap(), "{}\n");
}

#[test]
fn output_template_of_a_structure_is_its_own() {
    let mut bytecode = Bytecode::new();
    bytecode.start_main_function(
        1,
        vec![],
        Some(Type::Structure {
            unique_id: 5,
            identifier: "Result".to_owned(),
            fields: vec![
                ("sum".to_owned(), Type::Field),
                ("carry".to_owned(), Type::Tuple { types: vec![Type::Boolean] }),
            ],
        }),
    );
    assert_eq!(
        String::from_utf8(bytecode.output_template_bytes()).unwrap(),
        "{\n  \"sum\": \"0\",\n  \"carry\": [\n    false\n  ]\n}\n"
    );
}

#[test]
fn program_bytes_hold_the_types_and_the_instructions() {
    let mut bytecode = Bytecode::new();
    bytecode.start_main_function(
        1,
        vec![("x".to_owned(), Type::Boolean)],
        Some(Type::Field),
    );
    bytecode.push_instruction(Instruction::Return(1), None);
    let header: Vec<u8> = vec![
        7, 0, 0, 0, 0, 5, 0, 0, 0, b'i', b'n', b'p', b'u', b't', 1, 0, 0, 0, //
        1, 0, 0, 0, b'x', 1, //
        7, 0, 0, 0, 0, 6, 0, 0, 0, b'o', b'u', b't', b'p', b'u', b't', 1, 0, 0, 0, //
        5, 0, 0, 0, b'v', b'a', b'l', b'u', b'e', 4,
    ];
    let mut expected: Vec<u8> = vec![header.len() as u8, 0, 0, 0];
    expected.extend_from_slice(&header);
    expected.extend_from_slice(&[5, 0, 0, 0]);
    expected.extend_from_slice(&[28, 2, 0, 0, 0, 1, 0, 0, 0]);
    expected.extend_from_slice(&[30, 1, 0, 0, 0]);
    expected.extend_from_slice(&[40, 0, 0, 0, 0]);
    expected.extend_from_slice(&[41, 4, 0, 0, 0, b'm', b'a', b'i', b'n']);
    expected.extend_from_slice(&[29, 1, 0, 0, 0]);
    assert_eq!(bytecode.into_bytes(), expected);
}

#[test]
fn location_constructors() {
    assert_eq!(Location::new_beginning(), Location::new(1, 1));
    assert_eq!(Location::new(3, 19), Location { line: 3, column: 19 });
}

#[test]
fn documents_end_with_a_line_break() {
    assert_eq!(zinc::generator::bytecode::document_bytes("{}".to_owned()), b"{}\n".to_vec());
    assert_eq!(
        zinc::generator::bytecode::document_bytes("é".to_owned()),
        vec![0xc3, 0xa9, b'\n']
    );
}
