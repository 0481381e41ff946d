use turing_lib::{
    CompilerError, CompilerWarning, ErrorPosition, Movement, Record, Rule,
    TuringMachine, TuringOutput, TuringParser,
};

#[test]
fn parse_composition_function_name_valid() {
    let records = TuringParser::parse("compose = {sum_test};").unwrap();
    assert_eq!(
        records,
        vec![Record::Composition(vec![(String::from("sum_test"), 11)])]
    );
}

#[test]
fn parse_composition_valid() {
    let test = "compose = { sum_test };";
    let records = TuringParser::parse(test).unwrap();
    assert_eq!(
        records,
        vec![Record::Composition(vec![(String::from("sum_test"), 12)])]
    );
}

#[test]
fn parse_multiple_compositions() {
    let test = "compose = {sum, diff};";
    let records = TuringParser::parse(test).unwrap();
    assert_eq!(
        records,
        vec![Record::Composition(vec![
            (String::from("sum"), 11),
            (String::from("diff"), 16)
        ])]
    );
}

#[test]
/// Test that all the libraries are correctly parsed
fn libraries() {
    for lib in turing_lib::library::libraries() {
        assert!(lib.get_instructions().is_ok(), "{}", lib.name);
    }
}

#[test]
/// Test compiling a program that uses composition and nothing else (no extra code)
/// Also tests that you can write the `compose`, tape (`{111011}`), initial state (`I = {q0}`) and final state (`F = {q2}`) in any order
fn composition() {
    let test = "
        compose = {sum};
        
        F = {q2};
        {111011};
        I = {q0};
        ";

    let mut tm = match TuringMachine::new(test) {
        Ok(t) => t.0,
        Err(e) => panic!("{:?}", e),
    };

    assert_eq!(tm.final_result(), TuringOutput::Defined((5, 3)));

    assert_eq!(
        tm.to_string(),
        "0 0 0 0 1 1 0 0 1 0 0 \n              ^       "
    );
}

fn run(library: &str, final_state: &str, tape: &str) -> (TuringOutput, Vec<u32>) {
    let code = format!("compose = {{{library}}};\nI = {{q0}};\nF = {{{final_state}}};\n{{{tape}}};");
    let (mut tm, warnings) = TuringMachine::new(&code).unwrap();
    assert!(warnings.is_empty());
    let out = tm.final_result();
    assert!(!tm.is_undefined());
    (out, tm.values())
}

fn ones(out: TuringOutput) -> usize {
    match out {
        TuringOutput::Defined((_, n)) => n,
        TuringOutput::Undefined(_) => panic!("undefined"),
    }
}

#[test]
fn library_sum_adds() {
    assert_eq!(ones(run("sum", "q2", "1111011").0), 4);
    assert_eq!(ones(run("sum", "q2", "1011").0), 1);
}

#[test]
fn library_x2_doubles() {
    assert_eq!(ones(run("x2", "qf", "1").0), 0);
    assert_eq!(ones(run("x2", "qf", "111").0), 4);
    assert_eq!(ones(run("x2", "qf", "11111").0), 8);
}

#[test]
fn library_div2_halves() {
    assert_eq!(ones(run("div2", "qf", "1").0), 0);
    assert_eq!(ones(run("div2", "qf", "1111").0), 1);
    assert_eq!(ones(run("div2", "qf", "11111").0), 2);
    assert_eq!(ones(run("div2", "qf", "11111111").0), 3);
}

#[test]
fn library_bound_diff_subtracts() {
    assert_eq!(ones(run("bound_diff", "qf", "111101").0), 3);
    assert_eq!(ones(run("bound_diff", "qf", "1111011").0), 2);
    assert_eq!(ones(run("bound_diff", "qf", "1101111").0), 0);
    assert_eq!(ones(run("bound_diff", "qf", "1110111").0), 0);
}

#[test]
fn library_mod_takes_the_rest() {
    assert_eq!(ones(run("mod", "qf", "11111101111").0), 2);
    assert_eq!(ones(run("mod", "qf", "11111110111").0), 0);
    assert_eq!(ones(run("mod", "qf", "11101111").0), 2);
    assert_eq!(ones(run("mod", "qf", "101111").0), 0);
    assert_eq!(ones(run("mod", "qf", "111111111111011").0), 0);
    assert_eq!(ones(run("mod", "qf", "11111111111011").0), 0);
    assert_eq!(ones(run("mod", "qf", "111111111110111").0), 0);
    assert_eq!(ones(run("mod", "qf", "1111111111101111").0), 1);
    assert_eq!(ones(run("mod", "qf", "1111111101111").0), 1);
}

#[test]
fn unknown_library_is_a_syntax_error() {
    let err = TuringMachine::new("I = {q0};\ncompose = {sum, nope};").unwrap_err();
    assert_eq!(
        err,
        CompilerError::SyntaxError {
            position: ErrorPosition::new((1, 17), None),
            message: String::from("Could not find the library \"nope\""),
            code: String::from("nope"),
            expected: Rule::function_name,
            found: None,
        }
    );
}

#[test]
fn user_instruction_wins_over_library() {
    let code = "compose = {sum};\n(q1, 0, 1, L, q0);";
    let (tm, warnings) = TuringMachine::new(code).unwrap();
    let i = tm.instruction(&String::from("q1"), false).unwrap();
    assert!(i.to_value);
    assert_eq!(i.movement, Movement::LEFT);
    assert_eq!(i.to_state, "q0");
    assert_eq!(warnings.len(), 1);
    assert_eq!(tm.composed_libs(), &vec![String::from("sum")]);
}

#[test]
fn library_merge_is_silent() {
    let code = "(q1, 0, 1, L, q0);\ncompose = {sum};";
    let (tm, warnings) = TuringMachine::new(code).unwrap();
    assert!(warnings.is_empty());
    let i = tm.instruction(&String::from("q1"), false).unwrap();
    assert!(!i.to_value);
    assert_eq!(i.movement, Movement::RIGHT);
    assert_eq!(i.to_state, "q3");
}

#[test]
fn overwrite_warns_once_and_keeps_second() {
    let code = "(q0, 1, 0, R, q1);\n(q0, 0, 0, R, q1);\n(q0, 1, 1, L, q2);";
    let (tm, warnings) = TuringMachine::new(code).unwrap();
    assert_eq!(
        warnings,
        vec![CompilerWarning::StateOverwrite {
            position: ErrorPosition::new((2, 1), Some((2, 19))),
            state: String::from("q0"),
            value_from: true,
        }]
    );
    let i = tm.instruction(&String::from("q0"), true).unwrap();
    assert!(i.to_value);
    assert_eq!(i.movement, Movement::LEFT);
    assert_eq!(i.to_state, "q2");
}
