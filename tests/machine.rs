use turing_lib::{Movement, TuringInstruction, TuringMachine, TuringOutput};

#[test]
fn movement_synonyms() {
    assert_eq!(Movement::from_symbol('R'), Some(Movement::RIGHT));
    assert_eq!(Movement::from_symbol('D'), Some(Movement::RIGHT));
    assert_eq!(Movement::from_symbol('L'), Some(Movement::LEFT));
    assert_eq!(Movement::from_symbol('I'), Some(Movement::LEFT));
    assert_eq!(Movement::from_symbol('H'), Some(Movement::HALT));
    assert_eq!(Movement::from_symbol('N'), Some(Movement::HALT));
    assert_eq!(Movement::from_symbol('X'), None);
    assert_eq!(Movement::LEFT.symbol(), 'L');
}

#[test]
fn synonyms_build_the_same_table() {
    let (a, _) = TuringMachine::new("(q0, 1, 0, R, q1);(q0, 0, 0, L, q1);(q1, 0, 0, H, q1);").unwrap();
    let (b, _) = TuringMachine::new("(q0, 1, 0, D, q1);(q0, 0, 0, I, q1);(q1, 0, 0, N, q1);").unwrap();
    for (s, v) in [("q0", true), ("q0", false), ("q1", false)] {
        let x = a.instruction(&String::from(s), v).unwrap();
        let y = b.instruction(&String::from(s), v).unwrap();
        assert_eq!(x.movement, y.movement);
    }
}

#[test]
fn halt_instruction_keeps_everything() {
    let h = TuringInstruction::halt((String::from("q7"), true));
    assert_eq!(h.from_state, "q7");
    assert_eq!(h.to_state, "q7");
    assert!(h.from_value && h.to_value);
    assert_eq!(h.movement, Movement::HALT);
}

#[test]
fn margin_kept_after_every_step() {
    let code = "{1};\nI = {q0};\nF = {qf};\n(q0, 1, 1, L, q1);\n(q1, 0, 1, L, q2);\n(q2, 0, 1, R, q3);\n(q3, 1, 1, R, q3);\n(q3, 0, 1, R, q4);\n(q4, 0, 1, H, qf);";
    let (mut tm, _) = TuringMachine::new(code).unwrap();
    let check = |tm: &TuringMachine| {
        let p = tm.tape_position();
        assert!(p >= 3);
        assert!(p + 3 < tm.tape().len());
    };
    check(&tm);
    let mut guard = 0;
    while !tm.step() {
        check(&tm);
        guard += 1;
        assert!(guard < 100);
    }
    check(&tm);
    assert_eq!(tm.values(), vec![4]);
}

#[test]
fn undefined_transition_stops_the_run() {
    let (mut tm, _) = TuringMachine::new("{11};\nI = {q0};\nF = {qf};\n(q0, 1, 1, R, q1);").unwrap();
    assert!(!tm.is_undefined());
    assert_eq!(tm.tape_value(), TuringOutput::Defined((0, 2)));
    assert_eq!(tm.final_result(), TuringOutput::Defined((1, 2)));
    assert!(tm.is_undefined());
    assert!(!tm.finished());
    assert_eq!(tm.tape_value(), TuringOutput::Undefined(0));
    let before = tm.to_string();
    assert!(tm.step());
    assert_eq!(tm.to_string(), before);
}

#[test]
fn final_state_without_rule_halts_in_place() {
    let (mut tm, _) = TuringMachine::new("{1};\nI = {q0};\nF = {q0};").unwrap();
    assert!(tm.finished());
    assert!(tm.get_current_instruction().is_none());
    let i = tm.get_instruction().unwrap();
    assert_eq!(i.movement, Movement::HALT);
    assert!(tm.step());
    assert_eq!(tm.frequency(&String::from("q0")), 1);
    assert_eq!(tm.final_result(), TuringOutput::Defined((0, 1)));
}

#[test]
fn infinite_loop_detection_and_reset() {
    let (mut tm, _) = TuringMachine::new("{1};\nI = {q0};\nF = {qf};\n(q0, 1, 1, H, q0);").unwrap();
    for _ in 0..5 {
        tm.step();
    }
    assert_eq!(tm.frequency(&String::from("q0")), 5);
    assert!(tm.is_infinite_loop(4));
    assert!(!tm.is_infinite_loop(5));
    tm.reset_frequencies();
    for threshold in [1, 2, 100] {
        assert!(!tm.is_infinite_loop(threshold));
    }
    assert_eq!(tm.frequency(&String::from("q0")), 0);
}

#[test]
fn values_decode_runs() {
    let (tm, _) = TuringMachine::new("{1110110111101};").unwrap();
    assert_eq!(tm.values(), vec![2, 1, 3, 0]);
}

#[test]
fn none_machine_is_final() {
    let mut tm = TuringMachine::none();
    assert!(tm.finished());
    assert_eq!(tm.current_state(), "f");
    assert_eq!(tm.tape_value(), TuringOutput::Defined((0, 0)));
    assert_eq!(tm.final_result(), TuringOutput::Defined((0, 0)));
    assert_eq!(tm.to_string(), "0 0 0 0 0 0 0 \n      ^       ");
}

#[test]
fn missing_declarations_default_to_empty() {
    let (tm, warnings) = TuringMachine::new("").unwrap();
    assert!(warnings.is_empty());
    assert_eq!(tm.current_state(), "");
    assert!(tm.final_states().is_empty());
    assert!(tm.description().is_none());
    assert_eq!(tm.tape().len(), 7);
    assert!(tm.is_undefined());
}

#[test]
fn movement_from_str() {
    assert_eq!("D".parse::<Movement>(), Ok(Movement::RIGHT));
    assert_eq!("N".parse::<Movement>(), Ok(Movement::HALT));
    assert_eq!(
        "X".parse::<Movement>(),
        Err(String::from("\"X\" is an unknown movement"))
    );
    assert!("RR".parse::<Movement>().is_err());
}

#[test]
fn instruction_text() {
    let (tm, _) = TuringMachine::new("(q0, 1, 0, I, q1);").unwrap();
    let i = tm.instruction(&String::from("q0"), true).unwrap();
    assert_eq!(i.to_string(), "(q0, 1, 0, L, q1)");
}
