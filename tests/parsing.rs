use turing_lib::{
    CompilerError, ErrorPosition, InstructionRecord, Record, Rule, TuringMachine, TuringParser,
};

const EXAMPLE1: &str = "/// Example 1: adds one to a number
{11111011};
I = {q0};
F = {q1};

// go right over the ones, then write one more
(q0, 1, 1, R, q0);
(q0, 0, 1, H, q1);
";

#[test]
fn parse_description() {
    let test = "/// a + b\r\n";
    let records = TuringParser::parse(test).unwrap();
    assert_eq!(records, vec![Record::Description(String::from("a + b"))]);
}

#[test]
fn parse_tape_valid() {
    let test = "{111011};";
    let records = TuringParser::parse(test).unwrap();
    assert_eq!(
        records,
        vec![Record::Tape {
            bits: vec![true, true, true, false, true, true],
            at: 0,
            code: String::from("111011"),
        }]
    );
}

#[test]
// Test that the compiler fails when the tape does not contain a 1
fn parse_tape_zeros() {
    let test = "
        {000};
        I = {q0};
        F = {q2};
        
        (q0, 1, 0, R, q1);
        
        (q1, 1, 1, R, q1);
        (q1, 0, 0, R, q2);
        
        (q2, 1, 0, H, q2);
        (q2, 0, 0, H, q2);
        ";

    let tm_error = TuringMachine::new(test);

    let expected: CompilerError = CompilerError::SyntaxError {
        position: ErrorPosition::new((1, 9), None),
        message: String::from("Expected at least a 1 in the tape"),
        code: String::from("000"),
        expected: Rule::tape,
        found: None,
    };

    assert_eq!(tm_error.unwrap_err(), expected);
}

#[test]
fn parse_initial_state() {
    let test = "I = {q0};";
    let records = TuringParser::parse(test).unwrap();
    assert_eq!(records, vec![Record::InitialState(String::from("q0"))]);
}

#[test]
fn parse_final_state() {
    let test = "F = {q2};";
    let records = TuringParser::parse(test).unwrap();
    assert_eq!(records, vec![Record::FinalStates(vec![String::from("q2")])]);
}

#[test]
fn parse_several_final_states() {
    let records = TuringParser::parse("F = { q2 , qf,q9 };").unwrap();
    assert_eq!(
        records,
        vec![Record::FinalStates(vec![
            String::from("q2"),
            String::from("qf"),
            String::from("q9")
        ])]
    );
}

#[test]
fn parse_instruction() {
    let test = "(q0, 1, 0, R, q1);";
    let records = TuringParser::parse(test).unwrap();
    assert_eq!(
        records,
        vec![Record::Instruction(InstructionRecord {
            from_state: String::from("q0"),
            from_value: true,
            to_value: false,
            movement: String::from("R"),
            movement_at: 11,
            to_state: String::from("q1"),
            start: 0,
            end: 18,
        })]
    );
}

#[test]
fn parse_file() {
    let (tm, warnings) = TuringMachine::new(EXAMPLE1).unwrap();
    assert!(warnings.is_empty());
    assert_eq!(
        tm.to_string(),
        "0 0 0 1 1 1 1 1 0 1 1 \n      ^               "
    );
    assert_eq!(
        tm.description(),
        &Some(String::from("Example 1: adds one to a number"))
    );
}

#[test]
fn example_halts_with_one_more() {
    let (mut tm, _) = TuringMachine::new(EXAMPLE1).unwrap();
    assert_eq!(tm.final_result(), turing_lib::TuringOutput::Defined((6, 8)));
    assert!(tm.finished());
    assert_eq!(tm.values(), vec![7]);
}

#[test]
fn comments_and_blank_lines_are_skipped() {
    let records = TuringParser::parse("// a comment\n\n  // another\nI = {q0}; // after\n").unwrap();
    assert_eq!(records, vec![Record::InitialState(String::from("q0"))]);
}

#[test]
fn unknown_construct_is_a_file_rule_error() {
    let err = TuringMachine::new("I = {q0};\n  x = 3;").unwrap_err();
    match err {
        CompilerError::FileRuleError { error } => {
            assert_eq!(error.position, ErrorPosition::new((1, 3), None));
            assert_eq!(error.expected, Rule::EOI);
            assert_eq!(error.line, "  x = 3;");
        }
        _ => panic!("expected a file rule error"),
    }
}

#[test]
fn missing_semicolon_is_a_file_rule_error() {
    let err = TuringParser::parse("(q0, 1, 0, R, q1)").unwrap_err();
    match err {
        CompilerError::FileRuleError { error } => {
            assert_eq!(error.position, ErrorPosition::new((0, 18), None));
            assert_eq!(error.expected, Rule::instruction);
        }
        _ => panic!("expected a file rule error"),
    }
}

#[test]
fn empty_tape_literal_is_a_file_rule_error() {
    let err = TuringParser::parse("{};").unwrap_err();
    match err {
        CompilerError::FileRuleError { error } => assert_eq!(error.expected, Rule::value),
        _ => panic!("expected a file rule error"),
    }
}

#[test]
fn tape_round_trip_drops_one_leading_zero() {
    let (tm, _) = TuringMachine::new("{0010110};").unwrap();
    let tape = tm.tape();
    let pos = tm.tape_position();
    assert_eq!(pos, 3);
    assert_eq!(&tape[3..9], &[false, true, false, true, true, false]);
    assert!(tape[..3].iter().all(|b| !b));
    assert!(tape[9..].iter().all(|b| !b));
    assert!(tape.len() >= pos + 4);
}

#[test]
fn all_zero_tape_fails() {
    for src in ["{0};", "{000};", "{00000000};"] {
        match TuringMachine::new(src) {
            Err(CompilerError::SyntaxError { message, expected, .. }) => {
                assert_eq!(message, "Expected at least a 1 in the tape");
                assert_eq!(expected, Rule::tape);
            }
            _ => panic!("expected a syntax error"),
        }
    }
}

#[test]
fn unknown_movement_is_a_syntax_error() {
    let err = TuringMachine::new("I = {q0};\n(q0, 1, 0, X, q1);").unwrap_err();
    assert_eq!(
        err,
        CompilerError::SyntaxError {
            position: ErrorPosition::new((1, 12), None),
            message: String::from("\"X\" is an unknown movement"),
            code: String::from("X"),
            expected: Rule::movement,
            found: None,
        }
    );
}
