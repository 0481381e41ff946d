use turing_lib::{CompilerError, ErrorPosition, Rule, TuringMachine};

#[test]
fn position_text() {
    assert_eq!(ErrorPosition::new((0, 7), None).to_string(), "0:7");
    assert_eq!(
        ErrorPosition::new((12, 1), Some((12, 190))).to_string(),
        "12:1 to 12:190"
    );
}

#[test]
fn syntax_error_accessors() {
    let e = TuringMachine::new("\n\n  {00};").unwrap_err();
    assert_eq!(e.message(), "Expected at least a 1 in the tape");
    assert_eq!(e.code(), "00");
    assert_eq!(e.line(), 2);
    assert_eq!(e.position(), ErrorPosition::new((2, 3), None));
    assert_eq!(e.expected(), Rule::tape);
    assert_eq!(e.found(), None);
    assert_eq!(e.get_message_expected(), "Expected tape, found None");
}

#[test]
fn file_rule_error_accessors() {
    let e = TuringMachine::new("I = {q0};\nF = {q1 q2};").unwrap_err();
    assert!(matches!(e, CompilerError::FileRuleError { .. }));
    assert_eq!(e.message(), "expected final_state");
    assert_eq!(e.get_message_expected(), "expected final_state");
    assert_eq!(e.code(), "F = {q1 q2};");
    assert_eq!(e.line(), 0);
    assert_eq!(e.position(), ErrorPosition::new((1, 9), None));
    assert_eq!(e.expected(), Rule::final_state);
    assert_eq!(e.found(), Some(Rule::final_state));
}

#[test]
fn rule_names() {
    assert_eq!(Rule::function_name.name(), "function_name");
    assert_eq!(Rule::EOI.name(), "EOI");
}
